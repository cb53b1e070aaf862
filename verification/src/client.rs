//! Client-side vocabulary of the REST API: log levels, notification kinds,
//! dashboard counts, client errors and request path encoding.

use vstd::prelude::*;
use vstd::string::StringSliceAdditionalSpecFns;
use crate::json::JsonValue;
use crate::model::hex_digit;
use crate::text::{chars_of, concat2, owned, push_char, push_str, string_of, strip_char};

verus! {

/// Severity for a plugin-originated log entry; there is deliberately no
/// error level.
#[derive(Clone, Copy, Debug, PartialEq, Eq, Structural)]
pub enum LogLevel {
    /// Most verbose; diagnostic tracing.
    Trace,
    /// Debug-level detail.
    Debug,
    /// Normal informational message.
    Info,
    /// Something looked off but the plugin continued.
    Warn,
}

/// Wire string of a log level.
pub open spec fn level_name(l: LogLevel) -> Seq<char> {
    match l {
        LogLevel::Trace => "trace"@,
        LogLevel::Debug => "debug"@,
        LogLevel::Info => "info"@,
        LogLevel::Warn => "warn"@,
    }
}

impl LogLevel {
    /// Wire string accepted by the log endpoint.
    pub fn as_str(self) -> (r: &'static str)
        ensures
            r@ == level_name(self),
    {
        match self {
            LogLevel::Trace => "trace",
            LogLevel::Debug => "debug",
            LogLevel::Info => "info",
            LogLevel::Warn => "warn",
        }
    }
}

impl Default for LogLevel {
    fn default() -> (r: LogLevel)
        ensures
            r == LogLevel::Info,
    {
        LogLevel::Info
    }
}

/// Severity for a desktop notification.
#[derive(Clone, Copy, Debug, PartialEq, Eq, Structural)]
pub enum NotifyKind {
    /// Informational notification.
    Info,
    /// Successful-operation notification.
    Success,
    /// Error notification.
    Error,
}

/// Wire string of a notification kind (lower case).
pub open spec fn notify_kind_name(k: NotifyKind) -> Seq<char> {
    match k {
        NotifyKind::Info => "info"@,
        NotifyKind::Success => "success"@,
        NotifyKind::Error => "error"@,
    }
}

impl NotifyKind {
    /// Wire string of this kind.
    pub fn as_str(self) -> (r: &'static str)
        ensures
            r@ == notify_kind_name(self),
    {
        match self {
            NotifyKind::Info => "info",
            NotifyKind::Success => "success",
            NotifyKind::Error => "error",
        }
    }
}

impl Default for NotifyKind {
    fn default() -> (r: NotifyKind)
        ensures
            r == NotifyKind::Info,
    {
        NotifyKind::Info
    }
}

/// A desktop notification request.
#[derive(Clone, Debug, PartialEq, Eq)]
pub struct NotifyRequest {
    /// Notification title.
    pub title: String,
    /// Notification body.
    pub body: String,
    /// Severity.
    pub kind: NotifyKind,
}

/// Aggregate counts for the tray dashboard.
#[derive(Clone, Debug, Default, PartialEq, Eq)]
pub struct DashboardSnapshot {
    /// Indexed item count.
    pub item_count: usize,
    /// Category count.
    pub category_count: usize,
    /// Recent log entry count.
    pub log_count: usize,
}

/// Daemon queue and pause status as the client reads it.
#[derive(Debug)]
pub struct ClientDaemonStatus {
    /// Whether a daemon task is currently running.
    pub running: bool,
    /// Number of queued daemon tasks.
    pub queued_tasks: usize,
    /// Recent task records as raw JSON.
    pub recent_tasks: Vec<JsonValue>,
    /// Active pause modes.
    pub paused_modes: Vec<String>,
}

/// Errors surfaced by the REST client.
#[derive(Clone, Debug, PartialEq, Eq)]
pub enum ClientError {
    /// Transport-level failure (connect, timeout, TLS).
    Transport(String),
    /// Server returned a non-success HTTP status.
    Status { status: u16, body: String },
    /// Response body did not deserialize into the expected type.
    Decode(String),
}

impl ClientError {
    /// The message shown for this error.
    pub fn message(&self) -> (r: String)
        ensures
            r@ == match *self {
                ClientError::Transport(m) => "request transport error: "@ + m@,
                ClientError::Status { status, body } => "unexpected status "@ + crate::text::decimal(
                    status as nat,
                ) + ": "@ + body@,
                ClientError::Decode(m) => "decode error: "@ + m@,
            },
    {
        match self {
            ClientError::Transport(m) => concat2("request transport error: ", m.as_str()),
            ClientError::Status { status, body } => {
                let mut out = owned("unexpected status ");
                push_str(&mut out, crate::text::decimal_string(*status as u64).as_str());
                push_str(&mut out, ": ");
                push_str(&mut out, body.as_str());
                out
            },
            ClientError::Decode(m) => concat2("decode error: ", m.as_str()),
        }
    }
}

/// A byte left as-is in a path segment: ASCII letters, digits, `-`, `_`,
/// `.` and `~`.
pub open spec fn unreserved(b: u8) -> bool {
    (0x30 <= b <= 0x39) || (0x41 <= b <= 0x5a) || (0x61 <= b <= 0x7a) || b == 0x2d || b == 0x5f
        || b == 0x2e || b == 0x7e
}

/// Upper-case hexadecimal digit.
pub open spec fn hex_upper(d: int) -> char {
    if d < 10 {
        (d + 48) as char
    } else {
        (d - 10 + 65) as char
    }
}

/// Percent-encoding of a byte sequence: unreserved bytes as characters,
/// every other byte as `%` and two upper-case hex digits.
pub open spec fn percent_encoded(bytes: Seq<u8>) -> Seq<char>
    decreases bytes.len(),
{
    if bytes.len() == 0 {
        Seq::empty()
    } else {
        let rest = percent_encoded(bytes.drop_last());
        let b = bytes.last();
        if unreserved(b) {
            rest.push(b as char)
        } else {
            rest + seq!['%', hex_upper(b as int / 16), hex_upper(b as int % 16)]
        }
    }
}

fn hex_upper_char(d: u8) -> (c: char)
    requires
        d < 16,
    ensures
        c == hex_upper(d as int),
{
    if d < 10 {
        (d + 48) as char
    } else {
        (d - 10 + 65) as char
    }
}

/// Percent-encode a single path segment or query value (UTF-8 bytes).
pub fn encode_segment(value: &str) -> (r: String)
    ensures
        r@ == percent_encoded(value.spec_bytes()),
{
    let bytes = value.as_bytes();
    let mut out: Vec<char> = Vec::new();
    let mut i: usize = 0;
    while i < bytes.len()
        invariant
            i <= bytes@.len(),
            bytes@ == value.spec_bytes(),
            out@ == percent_encoded(bytes@.take(i as int)),
        decreases bytes.len() - i,
    {
        let b = bytes[i];
        proof {
            assert(bytes@.take(i + 1).drop_last() =~= bytes@.take(i as int));
            assert(bytes@.take(i + 1).last() == b);
        }
        if (0x30 <= b && b <= 0x39) || (0x41 <= b && b <= 0x5a) || (0x61 <= b && b <= 0x7a) || b
            == 0x2d || b == 0x5f || b == 0x2e || b == 0x7e {
            out.push(b as char);
        } else {
            let ghost before = out@;
            out.push('%');
            out.push(hex_upper_char(b / 16));
            out.push(hex_upper_char(b % 16));
            proof {
                assert(out@ =~= before + seq!['%', hex_upper(b as int / 16), hex_upper(b as int % 16)]);
            }
        }
        i = i + 1;
    }
    proof {
        assert(bytes@.take(bytes@.len() as int) =~= bytes@);
    }
    string_of(&out)
}

/// A REST client's base endpoint (the transport is kept by the caller).
#[derive(Clone, Debug)]
pub struct LocalrefClient {
    endpoint: String,
}

/// Drop every trailing `/`.
pub open spec fn without_trailing_slashes(s: Seq<char>) -> Seq<char>
    decreases s.len(),
{
    if s.len() > 0 && s.last() == '/' {
        without_trailing_slashes(s.drop_last())
    } else {
        s
    }
}

impl LocalrefClient {
    /// The base endpoint.
    pub closed spec fn spec_endpoint(&self) -> Seq<char> {
        self.endpoint@
    }

    /// A client for a REST base URL; trailing `/` are dropped.
    pub fn new(endpoint: &str) -> (r: LocalrefClient)
        ensures
            r.spec_endpoint() == without_trailing_slashes(endpoint@),
    {
        let mut v = chars_of(endpoint);
        let ghost all = v@;
        while v.len() > 0 && v[v.len() - 1] == '/'
            invariant
                without_trailing_slashes(v@) == without_trailing_slashes(all),
            decreases v.len(),
        {
            let _ = v.pop();
        }
        LocalrefClient { endpoint: string_of(&v) }
    }

    /// The configured base endpoint.
    pub fn endpoint(&self) -> (r: &str)
        ensures
            r@ == self.spec_endpoint(),
    {
        self.endpoint.as_str()
    }

    /// Full URL of an API path.
    pub fn url(&self, path: &str) -> (r: String)
        ensures
            r@ == self.spec_endpoint() + path@,
    {
        concat2(self.endpoint.as_str(), path)
    }

    /// Path of one item's sub-resource: `/api/items/<id>/<what>`, the id
    /// percent-encoded.
    pub fn item_path(item_id: &str, what: &str) -> (r: String)
        ensures
            r@ == "/api/items/"@ + percent_encoded(item_id.spec_bytes()) + seq!['/'] + what@,
    {
        let mut out = owned("/api/items/");
        push_str(&mut out, encode_segment(item_id).as_str());
        push_char(&mut out, '/');
        push_str(&mut out, what);
        out
    }

    /// Path of a search for `term`.
    pub fn search_path(term: &str) -> (r: String)
        ensures
            r@ == "/api/search?q="@ + percent_encoded(term.spec_bytes()),
    {
        concat2("/api/search?q=", encode_segment(term).as_str())
    }

    /// Whether a best-effort request (notification, status message) was
    /// accepted: everything but `503 Service Unavailable` counts.
    pub fn accepted(status: u16) -> (r: bool)
        ensures
            r == (status != 503),
    {
        status != 503
    }

    /// Whether a schedule deletion removed something: everything but
    /// `404 Not Found` counts.
    pub fn removed(status: u16) -> (r: bool)
        ensures
            r == (status != 404),
    {
        status != 404
    }
}

} // verus!
