//! Error kinds, the error value, and the exit-code and retry policy attached to them.
use vstd::prelude::*;
use crate::json::{Json, JsonV, dec_json_u64, lemma_pair_models_push, pair_models};
use crate::json_text::{compact, to_compact};
use crate::text::cat2;

verus! {

#[derive(Debug, Clone, Copy, PartialEq, Eq, Structural)]
pub enum ErrorKind {
    Validation,
    NotFound,
    RateLimit,
    Timeout,
    Network,
    Server,
    Parse,
    Conflict,
}

impl ErrorKind {
    /// Kinds that a caller may retry: throttling, timeouts, transport and server failures.
    pub open spec fn is_retryable(self) -> bool {
        match self {
            ErrorKind::RateLimit | ErrorKind::Timeout | ErrorKind::Network | ErrorKind::Server => true,
            _ => false,
        }
    }

    /// The process exit code for an error of this kind.
    pub open spec fn code(self) -> u8 {
        match self {
            ErrorKind::Validation => 2,
            _ => 1,
        }
    }

    /// The stable snake_case name of the kind.
    pub open spec fn name(self) -> Seq<char> {
        match self {
            ErrorKind::Validation => "validation"@,
            ErrorKind::NotFound => "not_found"@,
            ErrorKind::RateLimit => "rate_limit"@,
            ErrorKind::Timeout => "timeout"@,
            ErrorKind::Network => "network"@,
            ErrorKind::Server => "server"@,
            ErrorKind::Parse => "parse"@,
            ErrorKind::Conflict => "conflict"@,
        }
    }

    pub fn retryable(self) -> (r: bool)
        ensures
            r == self.is_retryable(),
    {
        match self {
            ErrorKind::RateLimit | ErrorKind::Timeout | ErrorKind::Network | ErrorKind::Server => true,
            _ => false,
        }
    }

    pub fn exit_code(self) -> (r: u8)
        ensures
            r == self.code(),
    {
        match self {
            ErrorKind::Validation => 2,
            _ => 1,
        }
    }

    pub fn as_str(self) -> (r: &'static str)
        ensures
            r@ == self.name(),
    {
        match self {
            ErrorKind::Validation => "validation",
            ErrorKind::NotFound => "not_found",
            ErrorKind::RateLimit => "rate_limit",
            ErrorKind::Timeout => "timeout",
            ErrorKind::Network => "network",
            ErrorKind::Server => "server",
            ErrorKind::Parse => "parse",
            ErrorKind::Conflict => "conflict",
        }
    }

    /// The display text of the kind: its name.
    pub fn to_string(self) -> (r: String)
        ensures
            r@ == self.name(),
    {
        self.as_str().to_owned()
    }
}

/// The model of an [`Error`].
pub struct ErrorV {
    pub kind: ErrorKind,
    pub message: Seq<char>,
    pub upstream_code: Option<Seq<char>>,
    pub upstream_message: Option<Seq<char>>,
    pub retry_after_seconds: Option<u64>,
}

#[derive(Debug)]
pub struct Error {
    pub(crate) kind: ErrorKind,
    pub(crate) message: String,
    pub(crate) upstream_code: Option<String>,
    pub(crate) upstream_message: Option<String>,
    pub(crate) retry_after_seconds: Option<u64>,
}

pub open spec fn opt_view(o: Option<String>) -> Option<Seq<char>> {
    match o {
        Some(s) => Some(s@),
        None => None,
    }
}

impl View for Error {
    type V = ErrorV;

    closed spec fn view(&self) -> ErrorV {
        ErrorV {
            kind: self.kind,
            message: self.message@,
            upstream_code: opt_view(self.upstream_code),
            upstream_message: opt_view(self.upstream_message),
            retry_after_seconds: self.retry_after_seconds,
        }
    }
}

pub type Result<T> = core::result::Result<T, Error>;

impl Error {
    pub fn new(kind: ErrorKind, message: &str) -> (r: Self)
        ensures
            r@.kind == kind,
            r@.message == message@,
            r@.upstream_code is None,
            r@.upstream_message is None,
            r@.retry_after_seconds is None,
    {
        Error {
            kind,
            message: message.to_owned(),
            upstream_code: None,
            upstream_message: None,
            retry_after_seconds: None,
        }
    }

    pub fn with_upstream(self, code: &str, message: &str) -> (r: Self)
        ensures
            r@.kind == self@.kind,
            r@.message == self@.message,
            r@.upstream_code == Some(code@),
            r@.upstream_message == Some(message@),
            r@.retry_after_seconds == self@.retry_after_seconds,
    {
        let mut e = self;
        e.upstream_code = Some(code.to_owned());
        e.upstream_message = Some(message.to_owned());
        e
    }

    pub fn with_retry_after(self, secs: u64) -> (r: Self)
        ensures
            r@.kind == self@.kind,
            r@.message == self@.message,
            r@.upstream_code == self@.upstream_code,
            r@.upstream_message == self@.upstream_message,
            r@.retry_after_seconds == Some(secs),
    {
        let mut e = self;
        e.retry_after_seconds = Some(secs);
        e
    }

    pub fn kind(&self) -> (r: ErrorKind)
        ensures
            r == self@.kind,
    {
        self.kind
    }

    pub fn upstream_code(&self) -> (r: Option<&str>)
        ensures
            match r {
                Some(s) => self@.upstream_code == Some(s@),
                None => self@.upstream_code is None,
            },
    {
        match &self.upstream_code {
            Some(s) => Some(s.as_str()),
            None => None,
        }
    }

    pub fn upstream_message(&self) -> (r: Option<&str>)
        ensures
            match r {
                Some(s) => self@.upstream_message == Some(s@),
                None => self@.upstream_message is None,
            },
    {
        match &self.upstream_message {
            Some(s) => Some(s.as_str()),
            None => None,
        }
    }

    pub fn retry_after_seconds(&self) -> (r: Option<u64>)
        ensures
            r == self@.retry_after_seconds,
    {
        self.retry_after_seconds
    }

    pub fn message(&self) -> (r: &str)
        ensures
            r@ == self@.message,
    {
        self.message.as_str()
    }

    pub fn is_retryable_transport(&self) -> (r: bool)
        ensures
            r == self@.kind.is_retryable(),
    {
        self.kind.retryable()
    }

    /// The display text of the error: `"{kind}: {message}"`.
    pub fn to_string(&self) -> (r: String)
        ensures
            r@ == self@.kind.name() + ": "@ + self@.message,
    {
        let mut r = self.kind.to_string();
        r.append(": ");
        r.append(self.message.as_str());
        r
    }
}

// ---------------------------------------------------------------------------
// The error payload.

/// The JSON payload of an error: `{"error": {kind, message, retryable,
/// upstream_code?, upstream_message?, retry_after_seconds?}}`, the optional
/// members left out when absent.
pub open spec fn payload_json(e: ErrorV) -> JsonV {
    JsonV::Object(seq![(
        "error"@,
        JsonV::Object(
            seq![
                ("kind"@, JsonV::Str(e.kind.name())),
                ("message"@, JsonV::Str(e.message)),
                ("retryable"@, JsonV::Bool(e.kind.is_retryable())),
            ] + match e.upstream_code { Some(c) => seq![("upstream_code"@, JsonV::Str(c))], None => Seq::empty() }
              + match e.upstream_message { Some(m) => seq![("upstream_message"@, JsonV::Str(m))], None => Seq::empty() }
              + match e.retry_after_seconds { Some(n) => seq![("retry_after_seconds"@, dec_json_u64(n))], None => Seq::empty() },
        ),
    )])
}

fn push_member(members: &mut Vec<(String, Json)>, k: &str, v: Json)
    ensures
        pair_models(final(members)@) == pair_models(old(members)@).push((k@, v@)),
{
    let ghost before = members@;
    let p = (k.to_owned(), v);
    let ghost gp = p;
    members.push(p);
    proof {
        lemma_pair_models_push(before, gp);
        assert(before.push(gp) =~= members@);
    }
}

impl Error {
    /// The error's JSON payload (see [`payload_json`]).
    pub fn to_json(&self) -> (r: Json)
        ensures
            r@ == payload_json(self@),
    {
        let mut b: Vec<(String, Json)> = Vec::new();
        push_member(&mut b, "kind", Json::string(self.kind.as_str()));
        push_member(&mut b, "message", Json::string(self.message.as_str()));
        push_member(&mut b, "retryable", Json::Bool(self.kind.retryable()));
        let ghost base = pair_models(b@);
        match &self.upstream_code {
            Some(c) => push_member(&mut b, "upstream_code", Json::string(c.as_str())),
            None => {},
        }
        let ghost with_code = pair_models(b@);
        match &self.upstream_message {
            Some(m) => push_member(&mut b, "upstream_message", Json::string(m.as_str())),
            None => {},
        }
        let ghost with_msg = pair_models(b@);
        match self.retry_after_seconds {
            Some(n) => push_member(&mut b, "retry_after_seconds", Json::from_u64(n)),
            None => {},
        }
        proof {
            assert(with_code =~= base + match self@.upstream_code { Some(c) => seq![("upstream_code"@, JsonV::Str(c))], None => Seq::empty() });
            assert(with_msg =~= with_code + match self@.upstream_message { Some(m) => seq![("upstream_message"@, JsonV::Str(m))], None => Seq::empty() });
            assert(pair_models(b@) =~= payload_json(self@)->Object_0[0].1->Object_0);
        }
        let mut top: Vec<(String, Json)> = Vec::new();
        push_member(&mut top, "error", Json::Object(b));
        assert(pair_models(top@) =~= payload_json(self@)->Object_0);
        Json::Object(top)
    }

    /// The line written for the error: its compact JSON payload and a newline.
    pub fn payload_line(&self) -> (r: String)
        ensures
            r@ == compact(payload_json(self@)) + "\n"@,
    {
        let j = self.to_json();
        let t = to_compact(&j);
        cat2(t.as_str(), "\n")
    }
}

} // verus!
