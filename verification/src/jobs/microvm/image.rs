//! The image that a virtual machine boots.

use crate::environment::{self, Environment};
use crate::jobs::microvm;
use crate::paths;
use crate::text::{chars, search, trim};
use vstd::prelude::*;

verus! {

/// The name of the image that is booted where none is named.
pub const DEFAULT_BASE_IMAGE: &'static str = "ubuntu-24.04";

/// The image that machines boot.
pub open spec fn base_image(env: &Environment) -> Seq<char> {
    match environment::set_var(env, "STATIX_MICROVM_BASE_IMAGE"@) {
        Some(image) => image,
        None => DEFAULT_BASE_IMAGE@,
    }
}

/// The image that machines boot.
pub fn microvm_base_image(env: &Environment) -> (r: String)
    ensures
        r@ == base_image(env),
{
    match environment::set_var_of(env, "STATIX_MICROVM_BASE_IMAGE") {
        Some(image) => image,
        None => DEFAULT_BASE_IMAGE.to_owned(),
    }
}

/// The address of the Ubuntu image for an architecture.
pub open spec fn ubuntu_url(arch: Seq<char>) -> Seq<char> {
    if arch == "aarch64"@ {
        "https://cloud-images.ubuntu.com/noble/current/noble-server-cloudimg-arm64.img"@
    } else {
        "https://cloud-images.ubuntu.com/noble/current/noble-server-cloudimg-amd64.img"@
    }
}

/// The address of the Ubuntu image for an architecture.
pub fn canonical_ubuntu_image_url(arch: &str) -> (r: &'static str)
    ensures
        r@ == ubuntu_url(arch@),
{
    if chars::same(arch, "aarch64") {
        "https://cloud-images.ubuntu.com/noble/current/noble-server-cloudimg-arm64.img"
    } else {
        "https://cloud-images.ubuntu.com/noble/current/noble-server-cloudimg-amd64.img"
    }
}

/// Where an image comes from.
#[derive(Debug)]
pub enum ImageSource {
    /// A file of this machine.
    File(String),
    /// An address from which it is fetched.
    Url(String),
}

/// Why no image can be booted.
#[derive(Debug)]
pub enum ImageError {
    Empty,
    Unsupported(String),
}

impl ImageError {
    /// What the error says.
    pub open spec fn text(self) -> Seq<char> {
        match self {
            ImageError::Empty => "microvm image must not be empty"@,
            ImageError::Unsupported(image) => "unsupported microvm image reference: "@ + image@,
        }
    }

    /// What the error says.
    pub fn message(&self) -> (r: String)
        ensures
            r@ == self.text(),
    {
        match self {
            ImageError::Empty => "microvm image must not be empty".to_owned(),
            ImageError::Unsupported(image) => chars::cat(
                "unsupported microvm image reference: ",
                image,
            ),
        }
    }
}

/// A name of the Ubuntu image.
pub open spec fn names_ubuntu(image: Seq<char>) -> bool {
    image == "ubuntu-24.04"@ || image == "ubuntu-24.04-lts"@ || image == "ubuntu-noble"@
}

/// An address.
pub open spec fn names_url(image: Seq<char>) -> bool {
    "http://"@.is_prefix_of(image) || "https://"@.is_prefix_of(image)
}

/// An answer to the question where an image comes from, given a reference to it and whether the
/// reference is the path of a file.
pub open spec fn tells_source(
    reference: Seq<char>,
    exists: bool,
    arch: Seq<char>,
    answer: Result<ImageSource, ImageError>,
) -> bool {
    match answer {
        Ok(ImageSource::File(path)) => reference.len() > 0 && exists && path@ == reference,
        Ok(ImageSource::Url(url)) => {
            &&& reference.len() > 0
            &&& !exists
            &&& if names_ubuntu(reference) {
                url@ == ubuntu_url(arch)
            } else {
                names_url(reference) && url@ == reference
            }
        },
        Err(ImageError::Empty) => reference.len() == 0,
        Err(ImageError::Unsupported(name)) => {
            &&& reference.len() > 0
            &&& !exists
            &&& !names_ubuntu(reference)
            &&& !names_url(reference)
            &&& name@ == reference
        },
    }
}

/// Finds out where an image comes from. `exists` tells whether the reference, without the blanks
/// around it, is the path of a file.
pub fn resolve_base_image(image: &str, exists: bool, arch: &str) -> (r: Result<
    ImageSource,
    ImageError,
>)
    ensures
        tells_source(trim::trim(image@), exists, arch@, r),
{
    let reference = trim::trimmed(image);
    if reference.as_str().is_empty() {
        return Err(ImageError::Empty);
    }
    if exists {
        return Ok(ImageSource::File(reference));
    }
    if chars::same(&reference, "ubuntu-24.04") || chars::same(&reference, "ubuntu-24.04-lts")
        || chars::same(&reference, "ubuntu-noble") {
        return Ok(ImageSource::Url(canonical_ubuntu_image_url(arch).to_owned()));
    }
    if search::begins(&reference, "http://") || search::begins(&reference, "https://") {
        return Ok(ImageSource::Url(reference));
    }
    Err(ImageError::Unsupported(reference))
}

/// The image that machines boot is always named, with no blanks around its name.
pub proof fn base_image_is_named(env: &Environment)
    ensures
        base_image(env).len() > 0,
        trim::trim(base_image(env)) == base_image(env),
{
    match environment::var(env, "STATIX_MICROVM_BASE_IMAGE"@) {
        Some(value) => {
            trim::trimmed_once(value);
        },
        None => {},
    }
    reveal_strlit("ubuntu-24.04");
}

/// Finds out where the image comes from that machines boot, whatever image a job names. `exists`
/// tells whether the name of the image, `microvm_base_image`, is the path of a file.
pub fn boot_image(env: &Environment, exists: bool, arch: &str) -> (r: Result<
    ImageSource,
    ImageError,
>)
    ensures
        tells_source(trim::trim(base_image(env)), exists, arch@, r),
        !(r matches Err(ImageError::Empty)),
{
    proof {
        base_image_is_named(env);
    }
    resolve_base_image(&microvm_base_image(env), exists, arch)
}

/// The directory for the images of a machine with its files in `root`.
pub fn image_cache_dir(root: &str) -> (r: String)
    ensures
        r@ == paths::join(root@, "images"@),
{
    paths::path_join(root, "images")
}

/// The file that keeps the image fetched from `url`, for a machine with its files in `root`.
pub fn cached_image(root: &str, url: &str) -> (r: String)
    ensures
        r@ == paths::join(
            paths::join(root@, "images"@),
            microvm::cache_key(url@) + ".img"@,
        ),
{
    let name = chars::cat(&microvm::image_cache_key(url), ".img");
    paths::path_join(&image_cache_dir(root), &name)
}

} // verus!
