//! The image that a container is made from.

use crate::text::{chars, split, trim};
use vstd::prelude::*;

verus! {

/// A distribution and one of its releases.
#[derive(Debug)]
pub struct LxcImage {
    pub distribution: String,
    pub release: String,
}

/// Why a text names no image.
#[derive(Debug, Clone, Copy, PartialEq, Eq, Structural)]
pub enum LxcImageError {
    Empty,
    Format,
}

impl LxcImageError {
    /// What the error says.
    pub open spec fn text(self) -> Seq<char> {
        match self {
            LxcImageError::Empty => "container image must not be empty"@,
            LxcImageError::Format =>
                "container image must use distribution:release format, for example ubuntu:24.04"@,
        }
    }

    /// What the error says.
    pub fn message(&self) -> (r: &'static str)
        ensures
            r@ == self.text(),
    {
        match self {
            LxcImageError::Empty => "container image must not be empty",
            LxcImageError::Format =>
                "container image must use distribution:release format, for example ubuntu:24.04",
        }
    }
}

/// The name by which images of a release are found.
pub open spec fn release_name(distribution: Seq<char>, release: Seq<char>) -> Seq<char> {
    if distribution == "ubuntu"@ && release == "24.04"@ {
        "noble"@
    } else if distribution == "ubuntu"@ && release == "22.04"@ {
        "jammy"@
    } else if distribution == "ubuntu"@ && release == "20.04"@ {
        "focal"@
    } else {
        release
    }
}

/// The name by which images of a release are found.
pub fn normalize_release(distribution: &str, release: &str) -> (r: String)
    ensures
        r@ == release_name(distribution@, release@),
{
    if chars::same(distribution, "ubuntu") {
        if chars::same(release, "24.04") {
            return "noble".to_owned();
        }
        if chars::same(release, "22.04") {
            return "jammy".to_owned();
        }
        if chars::same(release, "20.04") {
            return "focal".to_owned();
        }
    }
    release.to_owned()
}

/// The distribution and the release that a text names, where it names both.
pub open spec fn image_parts(value: Seq<char>) -> Option<(Seq<char>, Seq<char>)> {
    match split::split_once_char(trim::trim(value), ':') {
        Some((distribution, release)) => if trim::trim(distribution).len() > 0 && trim::trim(
            release,
        ).len() > 0 {
            Some((trim::trim(distribution), trim::trim(release)))
        } else {
            None
        },
        None => None,
    }
}

/// A text names this image, or why it names none.
pub open spec fn parsed(value: Seq<char>, r: Result<LxcImage, LxcImageError>) -> bool {
    match r {
        Ok(image) => {
            &&& image_parts(value) matches Some((distribution, release))
            &&& image.distribution@ == distribution
            &&& image.release@ == release_name(distribution, release)
        },
        Err(error) => image_parts(value) is None && error == if trim::trim(value).len()
            == 0 {
            LxcImageError::Empty
        } else {
            LxcImageError::Format
        },
    }
}

impl LxcImage {
    /// Reads an image such as `ubuntu:24.04`.
    pub fn parse(value: &str) -> (r: Result<Self, LxcImageError>)
        ensures
            parsed(value@, r),
    {
        let trimmed = trim::trimmed(value);
        if trimmed.as_str().is_empty() {
            return Err(LxcImageError::Empty);
        }
        match split::cut_char(&trimmed, ':') {
            Some((distribution, release)) => {
                let distribution = trim::trimmed(&distribution);
                let release = trim::trimmed(&release);
                if distribution.as_str().is_empty() || release.as_str().is_empty() {
                    return Err(LxcImageError::Format);
                }
                let release = normalize_release(&distribution, &release);
                Ok(LxcImage { distribution, release })
            },
            None => Err(LxcImageError::Format),
        }
    }
}

/// The name that images give to an architecture.
pub open spec fn image_arch(arch: Seq<char>) -> Seq<char> {
    if arch == "x86_64"@ {
        "amd64"@
    } else if arch == "aarch64"@ {
        "arm64"@
    } else {
        arch
    }
}

/// The name that images give to an architecture.
pub fn lxc_arch(arch: &str) -> (r: String)
    ensures
        r@ == image_arch(arch@),
{
    if chars::same(arch, "x86_64") {
        "amd64".to_owned()
    } else if chars::same(arch, "aarch64") {
        "arm64".to_owned()
    } else {
        arch.to_owned()
    }
}

} // verus!
