//! The archive that brings a workspace to where its command runs.

use crate::failure::Failure;
use crate::jobs::output::{self, ToolOutcome};
use crate::text::chars;
use vstd::prelude::*;

verus! {

/// The name of the archive in a container.
pub const WORKSPACE_ARCHIVE: &'static str = "statix-workspace.tar.gz";

/// The arguments with which `tar` packs a workspace.
pub fn archive_args(archive_path: &str, workdir: &str) -> (r: Vec<String>)
    ensures
        chars::texts(r@) == seq!["-C"@, workdir@, "-czf"@, archive_path@, "."@],
{
    let mut args = chars::no_texts();
    chars::push_text(&mut args, "-C");
    chars::push_text(&mut args, workdir);
    chars::push_text(&mut args, "-czf");
    chars::push_text(&mut args, archive_path);
    chars::push_text(&mut args, ".");
    args
}

/// Where a workspace is brought.
#[derive(Debug, Clone, Copy, PartialEq, Eq, Structural)]
pub enum ArchivePlace {
    Microvm,
    Container,
}

/// Decides what follows when `tar` has packed a workspace, or has not.
pub fn archived(place: ArchivePlace, outcome: ToolOutcome) -> (r: Result<(), Failure>)
    ensures
        output::tool_told(
            outcome,
            "failed to launch tar"@,
            match place {
                ArchivePlace::Microvm => "failed to archive workspace for microvm execution"@,
                ArchivePlace::Container => "failed to archive workspace for container execution"@,
            },
            r,
        ),
{
    let failed = match place {
        ArchivePlace::Microvm => "failed to archive workspace for microvm execution",
        ArchivePlace::Container => "failed to archive workspace for container execution",
    };
    output::tool_result(outcome, "failed to launch tar".to_owned(), failed.to_owned())
}

} // verus!
