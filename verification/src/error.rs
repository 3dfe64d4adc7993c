//! Errors that a machine can read: a kind, a detail, and the exit code that goes with the kind.

use serde_json::{Map as JsonMap, Value};
use vstd::prelude::*;
use vstd::string::*;

use crate::json::{self, Json};
use crate::text;

verus! {

broadcast use vstd::string::group_string_axioms;

/// The kind of an error. It stands in the error's JSON and decides the exit code.
#[derive(Clone, Copy, PartialEq, Eq, Structural, Debug)]
pub enum ErrKind {
    /// No response in time.
    Timeout,
    /// The device refused the request (SNA).
    DeviceRejected,
    /// Sending, receiving or joining failed.
    Network,
    /// The port or its lock could not be taken.
    Bind,
    /// A response could not be interpreted.
    Parse,
    /// An input is invalid.
    Usage,
}

impl ErrKind {
    /// The name of the kind.
    pub open spec fn label(self) -> Seq<char> {
        match self {
            ErrKind::Timeout => "timeout"@,
            ErrKind::DeviceRejected => "device_rejected"@,
            ErrKind::Network => "network"@,
            ErrKind::Bind => "bind"@,
            ErrKind::Parse => "parse"@,
            ErrKind::Usage => "usage"@,
        }
    }

    /// The exit code of the kind.
    pub open spec fn code(self) -> i32 {
        match self {
            ErrKind::Timeout => 3,
            ErrKind::DeviceRejected => 4,
            ErrKind::Network => 5,
            ErrKind::Bind => 5,
            ErrKind::Parse => 1,
            ErrKind::Usage => 1,
        }
    }

    /// The name of the kind, as it stands in JSON.
    pub fn as_str(self) -> (s: &'static str)
        ensures
            s@ == self.label(),
    {
        match self {
            ErrKind::Timeout => "timeout",
            ErrKind::DeviceRejected => "device_rejected",
            ErrKind::Network => "network",
            ErrKind::Bind => "bind",
            ErrKind::Parse => "parse",
            ErrKind::Usage => "usage",
        }
    }

    /// The exit code by which a caller can tell the kinds apart.
    pub fn exit_code(self) -> (code: i32)
        ensures
            code == self.code(),
    {
        match self {
            ErrKind::Timeout => 3,
            ErrKind::DeviceRejected => 4,
            ErrKind::Network | ErrKind::Bind => 5,
            ErrKind::Parse | ErrKind::Usage => 1,
        }
    }
}

/// Why a command failed.
#[derive(Debug)]
pub struct AppError {
    pub kind: ErrKind,
    /// What went wrong, for a person to read.
    pub detail: String,
    /// What else is known, such as the properties that a device refused.
    pub extra: Option<Value>,
}

/// The model of an error.
#[verifier::ext_equal]
pub struct AppErrorView {
    pub kind: ErrKind,
    pub detail: Seq<char>,
    pub extra: Option<Json>,
}

impl View for AppError {
    type V = AppErrorView;

    open spec fn view(&self) -> AppErrorView {
        AppErrorView {
            kind: self.kind,
            detail: self.detail@,
            extra: match self.extra {
                Some(value) => Some(json::json_of(value)),
                None => None,
            },
        }
    }
}

/// An error with a detail and nothing else.
pub open spec fn plain_error(kind: ErrKind, detail: Seq<char>) -> AppErrorView {
    AppErrorView { kind, detail, extra: None }
}

/// An error with a detail and what else is known.
pub open spec fn rich_error(kind: ErrKind, detail: Seq<char>, extra: Json) -> AppErrorView {
    AppErrorView { kind, detail, extra: Some(extra) }
}

impl AppErrorView {
    /// The JSON of the error: `kind` and `detail`, and `context` where more is known.
    pub open spec fn payload(self) -> Json {
        let plain = map![
            "kind"@ => Json::Str(self.kind.label()),
            "detail"@ => Json::Str(self.detail),
        ];
        let err = match self.extra {
            Some(extra) => plain.insert("context"@, extra),
            None => plain,
        };
        Json::Obj(map!["error"@ => Json::Obj(err)])
    }

    /// The error in one line: the kind and the detail.
    pub open spec fn line(self) -> Seq<char> {
        self.kind.label() + ": "@ + self.detail
    }
}

impl AppError {
    /// An error without context.
    pub fn new(kind: ErrKind, detail: String) -> (e: AppError)
        ensures
            e@ == plain_error(kind, detail@),
    {
        AppError { kind, detail, extra: None }
    }

    /// The same error with a context.
    pub fn with_extra(self, extra: Value) -> (e: AppError)
        ensures
            e@ == rich_error(self@.kind, self@.detail, json::json_of(extra)),
    {
        AppError { kind: self.kind, detail: self.detail, extra: Some(extra) }
    }

    /// The error as one JSON object.
    pub fn payload(&self) -> (value: Value)
        ensures
            json::json_of(value) == self@.payload(),
    {
        let mut err = JsonMap::new();
        json::put(&mut err, "kind", json::text(self.kind.as_str()));
        json::put(&mut err, "detail", json::text(self.detail.as_str()));
        if let Some(extra) = &self.extra {
            json::put(&mut err, "context", json::duplicate(extra));
        }
        let mut out = JsonMap::new();
        json::put(&mut out, "error", json::object(err));
        json::object(out)
    }

    /// The error in one line, for a person to read.
    pub fn to_string(&self) -> (s: String)
        ensures
            s@ == self@.line(),
    {
        let mut s = text::concat(self.kind.as_str(), ": ");
        s.append(self.detail.as_str());
        s
    }
}

/// The exit codes: 3 where no response came, 4 where the device refused, 5 where the network or the
/// port failed, 1 where the input or the response was invalid. None of them is 0, which means
/// success, nor 2, which means arguments that could not be read.
pub proof fn law_exit_codes(kind: ErrKind)
    ensures
        kind.code() == 3 <==> kind == ErrKind::Timeout,
        kind.code() == 4 <==> kind == ErrKind::DeviceRejected,
        kind.code() == 5 <==> kind == ErrKind::Network || kind == ErrKind::Bind,
        kind.code() == 1 <==> kind == ErrKind::Parse || kind == ErrKind::Usage,
        kind.code() != 0,
        kind.code() != 2,
        0 <= kind.code() <= 255,
{
}

} // verus!
