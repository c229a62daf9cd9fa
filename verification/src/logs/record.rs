//! One line of the spool.

use crate::logs::redact;
use crate::text::chars;
use vstd::prelude::*;

verus! {

#[derive(Debug, Clone)]
pub struct Record {
    pub id: String,
    pub timestamp: u64,
    pub scope: String,
    pub resource_id: Option<String>,
    pub job_id: Option<String>,
    pub attempt_id: Option<String>,
    pub stream: Option<String>,
    pub level: String,
    pub message: String,
}

/// What a record says.
pub struct RecordView {
    pub id: Seq<char>,
    pub timestamp: u64,
    pub scope: Seq<char>,
    pub resource_id: Option<Seq<char>>,
    pub job_id: Option<Seq<char>>,
    pub attempt_id: Option<Seq<char>>,
    pub stream: Option<Seq<char>>,
    pub level: Seq<char>,
    pub message: Seq<char>,
}

impl View for Record {
    type V = RecordView;

    open spec fn view(&self) -> RecordView {
        RecordView {
            id: self.id@,
            timestamp: self.timestamp,
            scope: self.scope@,
            resource_id: chars::opt_text(self.resource_id),
            job_id: chars::opt_text(self.job_id),
            attempt_id: chars::opt_text(self.attempt_id),
            stream: chars::opt_text(self.stream),
            level: self.level@,
            message: self.message@,
        }
    }
}

/// What the records of a list say.
pub open spec fn record_views(v: Seq<Record>) -> Seq<RecordView> {
    v.map_values(|r: Record| r@)
}

fn owned(s: Option<&str>) -> (r: Option<String>)
    ensures
        chars::opt_text(r) == chars::opt_str(s),
{
    match s {
        Some(s) => Some(s.to_owned()),
        None => None,
    }
}

/// The level of a line of job output: what a job writes to its standard error is an error.
pub open spec fn job_level(stream: Seq<char>) -> Seq<char> {
    if stream == "stderr"@ {
        "error"@
    } else {
        "info"@
    }
}

/// The record of a line of job output.
pub open spec fn job_record(
    id: Seq<char>,
    timestamp: u64,
    job_id: Seq<char>,
    attempt_id: Seq<char>,
    stream: Seq<char>,
    line: Seq<char>,
    scope: Seq<char>,
    resource_id: Option<Seq<char>>,
) -> RecordView {
    RecordView {
        id,
        timestamp,
        scope,
        resource_id,
        job_id: Some(job_id),
        attempt_id: Some(attempt_id),
        stream: Some(stream),
        level: job_level(stream),
        message: redact::redacted(line),
    }
}

/// The record of a message of the agent itself.
pub open spec fn agent_record(
    id: Seq<char>,
    timestamp: u64,
    level: Seq<char>,
    message: Seq<char>,
) -> RecordView {
    RecordView {
        id,
        timestamp,
        scope: "agent"@,
        resource_id: None,
        job_id: None,
        attempt_id: None,
        stream: None,
        level,
        message: redact::redacted(message),
    }
}

/// The record by which a line of job output is appended to the spool, under the given id and
/// time. Secrets in the line are redacted.
pub fn append_job(
    id: String,
    timestamp: u64,
    job_id: &str,
    attempt_id: &str,
    stream: &str,
    line: &str,
    scope: &str,
    resource_id: Option<&str>,
) -> (record: Record)
    ensures
        record@ == job_record(
            id@,
            timestamp,
            job_id@,
            attempt_id@,
            stream@,
            line@,
            scope@,
            chars::opt_str(resource_id),
        ),
{
    let level = if chars::same(stream, "stderr") {
        "error"
    } else {
        "info"
    };
    Record {
        id,
        timestamp,
        scope: scope.to_owned(),
        resource_id: owned(resource_id),
        job_id: Some(job_id.to_owned()),
        attempt_id: Some(attempt_id.to_owned()),
        stream: Some(stream.to_owned()),
        level: level.to_owned(),
        message: redact::redact(line),
    }
}

/// The record by which a message of the agent itself is appended to the spool, under the given
/// id and time. Secrets in the message are redacted.
pub fn append_agent(id: String, timestamp: u64, level: &str, message: &str) -> (record: Record)
    ensures
        record@ == agent_record(id@, timestamp, level@, message@),
{
    Record {
        id,
        timestamp,
        scope: "agent".to_owned(),
        resource_id: None,
        job_id: None,
        attempt_id: None,
        stream: None,
        level: level.to_owned(),
        message: redact::redact(message),
    }
}

} // verus!
