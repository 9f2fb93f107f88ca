//! Log events as JSON lines for the user interface to read.

use vstd::prelude::*;
use crate::config::append;
use crate::formats::{chars_of, str_eq, string_from_chars};

verus! {

/// A tracing layer that copies events into the log file.
pub struct LogBridgeLayer;

impl LogBridgeLayer {
    pub fn new() -> Self {
        LogBridgeLayer
    }
}

/// Severity of a log event.
#[derive(Debug, Clone, Copy, PartialEq, Eq, Structural)]
pub enum LogLevel {
    Trace,
    Debug,
    Info,
    Warn,
    Error,
}

/// The lower-case name of a level.
pub open spec fn level_text(l: LogLevel) -> Seq<char> {
    match l {
        LogLevel::Trace => "trace"@,
        LogLevel::Debug => "debug"@,
        LogLevel::Info => "info"@,
        LogLevel::Warn => "warn"@,
        LogLevel::Error => "error"@,
    }
}

/// The lower-case name of a level.
pub fn level_name(l: LogLevel) -> (s: &'static str)
    ensures
        s@ == level_text(l),
{
    match l {
        LogLevel::Trace => "trace",
        LogLevel::Debug => "debug",
        LogLevel::Info => "info",
        LogLevel::Warn => "warn",
        LogLevel::Error => "error",
    }
}

/// One character of a message inside the quotes of the line: a backslash
/// doubled, a double quote after a backslash, any other as it is.
pub open spec fn escaped_char(c: char) -> Seq<char> {
    if c == '\\' {
        seq!['\\', '\\']
    } else if c == '"' {
        seq!['\\', '"']
    } else {
        seq![c]
    }
}

/// A message with its backslashes and double quotes escaped.
pub open spec fn escaped(s: Seq<char>) -> Seq<char>
    decreases s.len(),
{
    if s.len() == 0 {
        seq![]
    } else {
        escaped(s.drop_last()) + escaped_char(s.last())
    }
}

/// The log line of an event (without its line break).
pub open spec fn log_line(level: LogLevel, message: Seq<char>, timestamp: Seq<char>) -> Seq<char> {
    "{\"level\":\""@ + level_text(level) + "\",\"message\":\""@ + escaped(message)
        + "\",\"timestamp\":\""@ + timestamp + "\"}"@
}

fn append_escaped(out: &mut Vec<char>, message: &str)
    ensures
        final(out)@ == old(out)@ + escaped(message@),
{
    let ghost start = out@;
    let cs = chars_of(message);
    let mut i: usize = 0;
    while i < cs.len()
        invariant
            cs@ == message@,
            i <= cs@.len(),
            out@ == start + escaped(cs@.take(i as int)),
        decreases cs.len() - i,
    {
        let c = cs[i];
        if c == '\\' {
            out.push('\\');
            out.push('\\');
        } else if c == '"' {
            out.push('\\');
            out.push('"');
        } else {
            out.push(c);
        }
        proof {
            assert(cs@.take(i + 1).drop_last() =~= cs@.take(i as int));
            assert(out@ =~= start + escaped(cs@.take(i + 1)));
        }
        i = i + 1;
    }
    assert(cs@.take(cs@.len() as int) =~= cs@);
}

/// The JSON line of a log event: its level in lower case, its message with
/// backslashes and quotes escaped, and its time stamp.
pub fn json_log_line(level: LogLevel, message: &str, timestamp: &str) -> (s: String)
    ensures
        s@ == log_line(level, message@, timestamp@),
{
    let mut out: Vec<char> = Vec::new();
    append(&mut out, "{\"level\":\"");
    append(&mut out, level_name(level));
    append(&mut out, "\",\"message\":\"");
    append_escaped(&mut out, message);
    append(&mut out, "\",\"timestamp\":\"");
    append(&mut out, timestamp);
    append(&mut out, "\"}");
    assert(out@ =~= log_line(level, message@, timestamp@));
    let n = out.len();
    assert(out@.take(n as int) =~= out@);
    string_from_chars(&out, n)
}

/// Collects the message of an event from its fields.
pub struct MessageVisitor {
    pub message: String,
}

/// The message after a field `name` with rendered value `value`: the
/// `message` field replaces it; another field is added as `name = value`,
/// after a space when there is already text.
pub open spec fn message_after_field(message: Seq<char>, name: Seq<char>, value: Seq<char>) -> Seq<char> {
    if name == "message"@ {
        value
    } else if message.len() == 0 {
        name + " = "@ + value
    } else {
        message + " "@ + name + " = "@ + value
    }
}

impl MessageVisitor {
    /// No message yet.
    pub fn new() -> (v: Self)
        ensures
            v.message@.len() == 0,
    {
        MessageVisitor { message: String::new() }
    }

    /// Records a field whose value is already rendered as text.
    pub fn record_rendered(&mut self, field_name: &str, value: &str)
        ensures
            final(self).message@ == message_after_field(old(self).message@, field_name@, value@),
    {
        let is_message = str_eq(field_name, "message");
        let mut out: Vec<char> = Vec::new();
        if is_message {
            append(&mut out, value);
        } else if self.message.unicode_len() == 0 {
            append(&mut out, field_name);
            append(&mut out, " = ");
            append(&mut out, value);
        } else {
            append(&mut out, self.message.as_str());
            append(&mut out, " ");
            append(&mut out, field_name);
            append(&mut out, " = ");
            append(&mut out, value);
        }
        assert(out@ =~= message_after_field(self.message@, field_name@, value@));
        let n = out.len();
        assert(out@.take(n as int) =~= out@);
        self.message = string_from_chars(&out, n);
    }
}

} // verus!
