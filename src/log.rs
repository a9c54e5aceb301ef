use vstd::prelude::*;
use vstd::string::StringExecFns;

verus! {

/// The layout of a log line's timestamp.
pub const TIMESTAMP_FORMAT: &'static str = "%Y-%m-%d %H:%M:%S";

pub const EXECUTED_MARK: &'static str = " - Executed: ";

/// Shown in place of the log when there is none.
pub const NO_LOGS: &'static str = "No logs found.";

/// The stored document used when no configuration has been saved yet.
pub const EMPTY_CONFIG: &'static str = "{\"directories\": [], \"command_sets\": []}";

/// Relies on `chrono::Local::now` and `DateTime::format`: the local time now,
/// written out in the layout `fmt`. It depends on the clock, so nothing is
/// stated of it. Writing out fails on a layout chrono cannot read, so only the
/// log's own layout is handed over.
#[verifier::external_body]
fn local_timestamp(fmt: &str) -> (r: String)
    requires
        fmt@ == TIMESTAMP_FORMAT@,
{
    chrono::Local::now().format(fmt).to_string()
}

/// One line of the run log.
pub open spec fn log_line_spec(timestamp: Seq<char>, name: Seq<char>) -> Seq<char> {
    timestamp + EXECUTED_MARK@ + name + seq!['\n']
}

/// The log line for a finished run of the set `name` at `timestamp`.
pub fn log_line(timestamp: &str, name: &str) -> (r: String)
    ensures
        r@ == log_line_spec(timestamp@, name@),
{
    let mut line = String::from_str(timestamp);
    line.append(EXECUTED_MARK);
    line.append(name);
    line.append("\n");
    proof {
        reveal_strlit("\n");
    }
    line
}

/// The log line for a run of the set `name` finishing now.
pub fn log_entry(name: &str) -> (r: String)
    ensures
        exists|t: Seq<char>| r@ == log_line_spec(t, name@),
{
    let stamp = local_timestamp(TIMESTAMP_FORMAT);
    log_line(stamp.as_str(), name)
}

/// The log's text, or a notice when it could not be read.
pub fn logs_text(read: Option<String>) -> (r: String)
    ensures
        r@ == match read {
            Some(text) => text@,
            None => NO_LOGS@,
        },
{
    match read {
        Some(text) => text,
        None => String::from_str(NO_LOGS),
    }
}

/// The stored configuration document, or the empty one when none could be read.
pub fn config_text(read: Option<String>) -> (r: String)
    ensures
        r@ == match read {
            Some(text) => text@,
            None => EMPTY_CONFIG@,
        },
{
    match read {
        Some(text) => text,
        None => String::from_str(EMPTY_CONFIG),
    }
}

} // verus!
