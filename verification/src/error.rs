//! What can go wrong.

use crate::decimal::{self, decimal_i64, decimal_u64};
use vstd::prelude::*;

verus! {

/// Engine-wide error type. The variants for failures of the database, the
/// network, the disk and JSON hold the message of the failed operation.
#[derive(Debug, Clone, PartialEq, Eq)]
pub enum Error {
    Db(String),
    Migrate(String),
    Http(String),
    Io(String),
    RealDebrid { status: u16, code: Option<i64>, message: String },
    Aria2 { method: String, code: i64, message: String },
    Json(String),
    Incomplete { got: i64, expected: i64 },
    Cancelled,
    InvalidLink(String),
    Other(String),
}

/// An optional error code as it is shown.
pub open spec fn code_text(code: Option<i64>) -> Seq<char> {
    match code {
        Some(n) => "Some("@ + decimal::decimal(n as int) + ")"@,
        None => "None"@,
    }
}

/// The text of an error, as the log, the transfers table and the interface
/// show it.
pub open spec fn error_text(e: Error) -> Seq<char> {
    match e {
        Error::Db(m) => "database error: "@ + m@,
        Error::Migrate(m) => "migration error: "@ + m@,
        Error::Http(m) => "http error: "@ + m@,
        Error::Io(m) => "io error: "@ + m@,
        Error::RealDebrid { status, code, message } => "real-debrid error (status "@
            + decimal::decimal(status as int) + ", code "@ + code_text(code) + "): "@ + message@,
        Error::Aria2 { method, code, message } => "aria2 rpc error ("@ + method@ + ", code "@
            + decimal::decimal(code as int) + "): "@ + message@,
        Error::Json(m) => "serialization error: "@ + m@,
        Error::Incomplete { got, expected } => "incomplete download: got "@ + decimal::decimal(
            got as int,
        ) + " of "@ + decimal::decimal(expected as int) + " bytes"@,
        Error::Cancelled => "cancelled"@,
        Error::InvalidLink(m) => "invalid mega link: "@ + m@,
        Error::Other(m) => m@,
    }
}

/// `a` followed by `b`.
fn prefixed(a: &str, b: &str) -> (r: String)
    ensures
        r@ == a@ + b@,
{
    let mut r = String::new();
    r.append(a);
    r.append(b);
    assert(r@ =~= a@ + b@);
    r
}

fn shown_code(code: Option<i64>) -> (r: String)
    ensures
        r@ == code_text(code),
{
    match code {
        Some(n) => {
            let mut r = prefixed("Some(", decimal_i64(n).as_str());
            r.append(")");
            r
        },
        None => "None".to_owned(),
    }
}

impl Error {
    /// The text of the error.
    pub fn to_string(&self) -> (r: String)
        ensures
            r@ == error_text(*self),
    {
        match self {
            Error::Db(m) => prefixed("database error: ", m.as_str()),
            Error::Migrate(m) => prefixed("migration error: ", m.as_str()),
            Error::Http(m) => prefixed("http error: ", m.as_str()),
            Error::Io(m) => prefixed("io error: ", m.as_str()),
            Error::RealDebrid { status, code, message } => {
                let mut r = prefixed(
                    "real-debrid error (status ",
                    decimal_u64(*status as u64).as_str(),
                );
                r.append(", code ");
                r.append(shown_code(*code).as_str());
                r.append("): ");
                r.append(message.as_str());
                r
            },
            Error::Aria2 { method, code, message } => {
                let mut r = prefixed("aria2 rpc error (", method.as_str());
                r.append(", code ");
                r.append(decimal_i64(*code).as_str());
                r.append("): ");
                r.append(message.as_str());
                r
            },
            Error::Json(m) => prefixed("serialization error: ", m.as_str()),
            Error::Incomplete { got, expected } => {
                let mut r = prefixed("incomplete download: got ", decimal_i64(*got).as_str());
                r.append(" of ");
                r.append(decimal_i64(*expected).as_str());
                r.append(" bytes");
                r
            },
            Error::Cancelled => "cancelled".to_owned(),
            Error::InvalidLink(m) => prefixed("invalid mega link: ", m.as_str()),
            Error::Other(m) => m.clone(),
        }
    }
}

/// An error is told in full: what kind it is, and all that it holds.
pub proof fn errors_are_told_in_full(e: Error)
    ensures
        e matches Error::Db(m) ==> error_text(e) == "database error: "@ + m@,
        e matches Error::Migrate(m) ==> error_text(e) == "migration error: "@ + m@,
        e matches Error::Http(m) ==> error_text(e) == "http error: "@ + m@,
        e matches Error::Io(m) ==> error_text(e) == "io error: "@ + m@,
        e matches Error::Json(m) ==> error_text(e) == "serialization error: "@ + m@,
        e matches Error::InvalidLink(m) ==> error_text(e) == "invalid mega link: "@ + m@,
        e matches Error::Other(m) ==> error_text(e) == m@,
        e is Cancelled ==> error_text(e) == "cancelled"@,
        e matches Error::Incomplete { got, expected } ==> error_text(e)
            == "incomplete download: got "@ + decimal::decimal(got as int) + " of "@
            + decimal::decimal(expected as int) + " bytes"@,
        e matches Error::Aria2 { method, code, message } ==> error_text(e) == "aria2 rpc error ("@
            + method@ + ", code "@ + decimal::decimal(code as int) + "): "@ + message@,
        e matches Error::RealDebrid { status, code: Some(n), message } ==> error_text(e)
            == "real-debrid error (status "@ + decimal::decimal(status as int) + ", code "@ + (
        "Some("@ + decimal::decimal(n as int) + ")"@) + "): "@ + message@,
        e matches Error::RealDebrid { status, code: None, message } ==> error_text(e)
            == "real-debrid error (status "@ + decimal::decimal(status as int) + ", code "@
            + "None"@ + "): "@ + message@,
{
}

/// Two errors of one sort with different messages are told differently.
pub proof fn different_messages_are_told_differently(a: String, b: String)
    ensures
        error_text(Error::Other(a)) == error_text(Error::Other(b)) <==> a@ == b@,
        error_text(Error::Io(a)) == error_text(Error::Io(b)) <==> a@ == b@,
        error_text(Error::Http(a)) == error_text(Error::Http(b)) <==> a@ == b@,
        error_text(Error::Db(a)) == error_text(Error::Db(b)) <==> a@ == b@,
{
    same_behind("io error: "@, a@, b@);
    same_behind("http error: "@, a@, b@);
    same_behind("database error: "@, a@, b@);
}

proof fn same_behind(front: Seq<char>, a: Seq<char>, b: Seq<char>)
    ensures
        front + a == front + b <==> a == b,
{
    if front + a == front + b {
        assert((front + a).skip(front.len() as int) =~= a);
        assert((front + b).skip(front.len() as int) =~= b);
    }
}

} // verus!
