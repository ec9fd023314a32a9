//! Structured log entries, the correlation of work across tasks, and the
//! choice of a log level from the configured name.

use vstd::prelude::*;
use crate::keyed::{upserted, KeyedTable};
use crate::text::{equals_ignoring_case, lowercase};

verus! {

/// The current time in RFC 3339 form, from `chrono::Utc::now().to_rfc3339()`.
/// It depends on the time of the call, and nothing is stated of it.
#[verifier::external_body]
pub fn now_rfc3339() -> (s: String) {
    chrono::Utc::now().to_rfc3339()
}

/// The level the logger filters at for the configured name: the name itself,
/// capitals counted as small letters, where it is one of "trace", "debug",
/// "info", "warn" and "error", and "info" otherwise.
pub open spec fn level_for(name: Seq<char>) -> Seq<char> {
    let l = lowercase(name);
    if l == "trace"@ || l == "debug"@ || l == "info"@ || l == "warn"@ || l == "error"@ {
        l
    } else {
        "info"@
    }
}

/// The level the logger filters at for the configured name `level`.
pub fn logging_level(level: &str) -> (r: String)
    ensures
        r@ == level_for(level@),
{
    proof {
        reveal_strlit("trace");
        reveal_strlit("TRACE");
        reveal_strlit("debug");
        reveal_strlit("DEBUG");
        reveal_strlit("info");
        reveal_strlit("INFO");
        reveal_strlit("warn");
        reveal_strlit("WARN");
        reveal_strlit("error");
        reveal_strlit("ERROR");
    }
    if equals_ignoring_case(level, "trace", "TRACE") {
        String::from_str("trace")
    } else if equals_ignoring_case(level, "debug", "DEBUG") {
        String::from_str("debug")
    } else if equals_ignoring_case(level, "info", "INFO") {
        String::from_str("info")
    } else if equals_ignoring_case(level, "warn", "WARN") {
        String::from_str("warn")
    } else if equals_ignoring_case(level, "error", "ERROR") {
        String::from_str("error")
    } else {
        String::from_str("info")
    }
}

/// One structured log record.
#[derive(Debug)]
pub struct LogEntry {
    pub timestamp: String,
    pub level: String,
    pub message: String,
    pub module: String,
    pub correlation_id: Option<u128>,
    pub user_id: Option<u128>,
    pub session_id: Option<String>,
    pub request_id: Option<u128>,
    pub metadata: KeyedTable<serde_json::Value>,
    pub tags: Vec<String>,
    pub duration_ms: Option<u64>,
    pub error: Option<String>,
}

impl LogEntry {
    /// Whether the entry holds `level`, `message` and `module`, stamped
    /// `timestamp`, and nothing else yet.
    pub open spec fn is_bare(&self, timestamp: Seq<char>, level: Seq<char>, message: Seq<char>, module: Seq<char>) -> bool {
        &&& self.timestamp@ == timestamp
        &&& self.level@ == level
        &&& self.message@ == message
        &&& self.module@ == module
        &&& self.correlation_id is None
        &&& self.user_id is None
        &&& self.session_id is None
        &&& self.request_id is None
        &&& self.metadata.well_formed()
        &&& self.metadata.entries().len() == 0
        &&& self.tags@.len() == 0
        &&& self.duration_ms is None
        &&& self.error is None
    }

    /// An entry stamped `timestamp`.
    pub fn new_at(level: &str, message: String, module: &str, timestamp: String) -> (e: Self)
        ensures
            e.is_bare(timestamp@, level@, message@, module@),
    {
        LogEntry {
            timestamp,
            level: String::from_str(level),
            message,
            module: String::from_str(module),
            correlation_id: None,
            user_id: None,
            session_id: None,
            request_id: None,
            metadata: KeyedTable::new(),
            tags: Vec::new(),
            duration_ms: None,
            error: None,
        }
    }

    /// An entry stamped with the current time.
    pub fn new(level: &str, message: String, module: &str) -> (e: Self)
        ensures
            e.is_bare(e.timestamp@, level@, message@, module@),
    {
        let now = now_rfc3339();
        Self::new_at(level, message, module, now)
    }

    /// The entry tied to `correlation_id`.
    pub fn with_correlation_id(self, correlation_id: u128) -> (e: Self)
        ensures
            e == (LogEntry { correlation_id: Some(correlation_id), ..self }),
    {
        let mut e = self;
        e.correlation_id = Some(correlation_id);
        e
    }

    /// The entry tied to a user and a session.
    pub fn with_user_context(self, user_id: u128, session_id: String) -> (e: Self)
        ensures
            e == (LogEntry { user_id: Some(user_id), session_id: Some(session_id), ..self }),
    {
        let mut e = self;
        e.user_id = Some(user_id);
        e.session_id = Some(session_id);
        e
    }

    /// The entry tied to a request.
    pub fn with_request_id(self, request_id: u128) -> (e: Self)
        ensures
            e == (LogEntry { request_id: Some(request_id), ..self }),
    {
        let mut e = self;
        e.request_id = Some(request_id);
        e
    }

    /// The entry with `value` under `key` in its metadata, in place of a
    /// value already there.
    pub fn with_metadata(self, key: String, value: serde_json::Value) -> (e: Self)
        requires
            self.metadata.well_formed(),
        ensures
            e.metadata.well_formed(),
            e.metadata.entries() == upserted(self.metadata.entries(), key, value),
            e == (LogEntry { metadata: e.metadata, ..self }),
    {
        let mut e = self;
        e.metadata.insert(key, value);
        e
    }

    /// The entry with `tag` after its other tags.
    pub fn with_tag(self, tag: String) -> (e: Self)
        ensures
            e.tags@ == self.tags@.push(tag),
            e == (LogEntry { tags: e.tags, ..self }),
    {
        let mut e = self;
        e.tags.push(tag);
        e
    }

    /// The entry with how long its work took.
    pub fn with_duration(self, duration_ms: u64) -> (e: Self)
        ensures
            e == (LogEntry { duration_ms: Some(duration_ms), ..self }),
    {
        let mut e = self;
        e.duration_ms = Some(duration_ms);
        e
    }

    /// The entry with an error.
    pub fn with_error(self, error: String) -> (e: Self)
        ensures
            e == (LogEntry { error: Some(error), ..self }),
    {
        let mut e = self;
        e.error = Some(error);
        e
    }
}

/// The correlation identifier of the work in progress, if any.
#[derive(Debug, Clone, Copy, PartialEq, Eq, Structural)]
pub struct CorrelationTracker {
    current_correlation: Option<u128>,
}

impl CorrelationTracker {
    /// The identifier of the work in progress.
    pub closed spec fn current(&self) -> Option<u128> {
        self.current_correlation
    }

    /// No work in progress.
    pub fn new() -> (t: Self)
        ensures
            t.current() is None,
    {
        CorrelationTracker { current_correlation: None }
    }

    /// Work tied to `correlation_id` begins.
    pub fn start_correlation(&mut self, correlation_id: u128)
        ensures
            final(self).current() == Some(correlation_id),
    {
        self.current_correlation = Some(correlation_id);
    }

    /// The identifier of the work in progress.
    pub fn get_current_correlation_id(&self) -> (r: Option<u128>)
        ensures
            r == self.current(),
    {
        self.current_correlation
    }

    /// The work in progress ends.
    pub fn end_correlation(&mut self)
        ensures
            final(self).current() is None,
    {
        self.current_correlation = None;
    }
}

impl Default for CorrelationTracker {
    fn default() -> (t: Self)
        ensures
            t.current() is None,
    {
        Self::new()
    }
}

} // verus!
