//! The file that tells the version of the agent.

use crate::environment::{self, Environment};
use crate::paths;
use crate::system_info::VersionMetadata;
use crate::text::{chars, trim};
use vstd::prelude::*;

verus! {

/// The paths at which the file is looked for: the one that the environment names, that in the
/// current directory, and that beside the program.
pub open spec fn candidates(env: &Environment, program_dir: Option<Seq<char>>) -> Seq<Seq<char>> {
    (match environment::set_var(env, "STATIX_VERSION_FILE"@) {
        Some(path) => seq![path],
        None => seq![],
    }) + seq!["version.json"@] + (match program_dir {
        Some(directory) => seq![paths::join(directory, "version.json"@)],
        None => seq![],
    })
}

/// The paths at which the file is looked for.
pub fn version_file_candidates(env: &Environment, program_dir: Option<&str>) -> (r: Vec<String>)
    ensures
        chars::texts(r@) == candidates(env, chars::opt_str(program_dir)),
{
    let mut r = chars::no_texts();
    let ghost first = match environment::set_var(env, "STATIX_VERSION_FILE"@) {
        Some(path) => seq![path],
        None => seq![],
    };
    if let Some(path) = environment::set_var_of(env, "STATIX_VERSION_FILE") {
        chars::push_text(&mut r, &path);
    }
    proof {
        assert(chars::texts(r@) =~= first);
    }
    chars::push_text(&mut r, "version.json");
    let ghost both = chars::texts(r@);
    if let Some(directory) = program_dir {
        chars::push_text(&mut r, &paths::path_join(directory, "version.json"));
    }
    proof {
        assert(chars::texts(r@) =~= candidates(env, chars::opt_str(program_dir)));
    }
    r
}

/// The texts of a version.
pub struct VersionView {
    pub version: Seq<char>,
    pub commit: Option<Seq<char>>,
    pub built_at: Option<Seq<char>>,
}

impl View for VersionMetadata {
    type V = VersionView;

    open spec fn view(&self) -> VersionView {
        VersionView {
            version: self.version@,
            commit: chars::opt_text(self.commit),
            built_at: chars::opt_text(self.built_at),
        }
    }
}

/// What a file tells of the version, without blanks; nothing where it tells no version.
pub open spec fn tidy(told: VersionView) -> Option<VersionView> {
    if trim::trim(told.version).len() == 0 {
        None
    } else {
        Some(
            VersionView {
                version: trim::trim(told.version),
                commit: match told.commit {
                    Some(commit) => Some(trim::trim(commit)),
                    None => None,
                },
                built_at: environment::non_blank(told.built_at),
            },
        )
    }
}

/// What the first of some files that tells a version tells. A file that cannot be read tells
/// nothing.
pub open spec fn first_version(files: Seq<Option<VersionMetadata>>) -> Option<VersionView>
    decreases files.len(),
{
    if files.len() == 0 {
        None
    } else {
        match first_version(files.drop_last()) {
            Some(version) => Some(version),
            None => match files.last() {
                Some(told) => tidy(told@),
                None => None,
            },
        }
    }
}

proof fn lemma_first_version(files: Seq<Option<VersionMetadata>>, i: int)
    requires
        0 <= i <= files.len(),
        first_version(files.take(i)) is Some,
    ensures
        first_version(files) == first_version(files.take(i)),
    decreases files.len(),
{
    if i == files.len() {
        assert(files.take(i) =~= files);
    } else {
        assert(files.drop_last().take(i) =~= files.take(i));
        lemma_first_version(files.drop_last(), i);
    }
}

/// The texts of a version, where there is one.
pub open spec fn opt_version(version: Option<VersionMetadata>) -> Option<VersionView> {
    match version {
        Some(version) => Some(version@),
        None => None,
    }
}

/// What a file tells of the version.
pub fn told_version(told: &VersionMetadata) -> (r: Option<VersionMetadata>)
    ensures
        opt_version(r) == tidy(told@),
{
    let version = trim::trimmed(&told.version);
    if version.as_str().is_empty() {
        return None;
    }
    let commit = match &told.commit {
        Some(commit) => Some(trim::trimmed(commit)),
        None => None,
    };
    let built_at = environment::non_blank_text(chars::opt_ref(&told.built_at));
    Some(VersionMetadata { version, commit, built_at })
}

/// What the first of the files that tells a version tells.
pub fn load_version_metadata(files: &Vec<Option<VersionMetadata>>) -> (r: Option<VersionMetadata>)
    ensures
        opt_version(r) == first_version(files@),
{
    let mut i: usize = 0;
    while i < files.len()
        invariant
            i <= files.len(),
            first_version(files@.take(i as int)) is None,
        decreases files.len() - i,
    {
        proof {
            assert(files@.take(i + 1).drop_last() =~= files@.take(i as int));
        }
        if let Some(told) = &files[i] {
            if let Some(version) = told_version(told) {
                proof {
                    lemma_first_version(files@, i + 1);
                }
                return Some(version);
            }
        }
        i += 1;
    }
    proof {
        assert(files@.take(i as int) =~= files@);
    }
    None
}

} // verus!
