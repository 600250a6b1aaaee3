//! The error taxonomy: a closed set of failure kinds.
//!
//! Two kinds are distinguished, as the wire client's callers see them: the
//! network exchange itself failed (`RequestError`), or the exchange
//! completed and its body could not be interpreted (`ParseError`). The
//! parse kind deliberately also covers the domain-level "expected one
//! record, got zero" outcome: a lookup that matches nothing surfaces as a
//! `ParseError` whose cause says not-found, and only the cause tells the
//! two apart.

use vstd::prelude::*;

verus! {

/// Why a response body yielded no record: it did not parse as the list
/// envelope shape at all, or it parsed but held zero records where exactly
/// one was expected.
#[derive(Debug, Clone, Copy, PartialEq, Eq, Structural)]
pub enum ParseFailure {
    Malformed,
    NotFound,
}

/// A failed client operation. `RequestError` carries the transport's own
/// description of what went wrong; `ParseError` carries the parse-level
/// cause.
#[derive(Debug, Clone)]
pub enum ClientError {
    RequestError(String),
    ParseError(ParseFailure),
}

impl ParseFailure {
    /// Diagnostic text for this cause.
    pub fn message(&self) -> (r: &'static str)
        ensures
            *self == ParseFailure::Malformed ==> r@ == "response body did not match the record envelope"@,
            *self == ParseFailure::NotFound ==> r@ == "No record found with this slug"@,
    {
        match self {
            ParseFailure::Malformed => "response body did not match the record envelope",
            ParseFailure::NotFound => "No record found with this slug",
        }
    }
}

impl ClientError {
    /// True of the transport kind: the network exchange did not complete.
    pub fn is_transport(&self) -> (r: bool)
        ensures
            r <==> *self is RequestError,
    {
        match self {
            ClientError::RequestError(_) => true,
            ClientError::ParseError(_) => false,
        }
    }

    /// True of the payload kind: the exchange completed, its body failed.
    pub fn is_payload(&self) -> (r: bool)
        ensures
            r <==> *self is ParseError,
    {
        match self {
            ClientError::RequestError(_) => false,
            ClientError::ParseError(_) => true,
        }
    }

    /// True exactly of the payload kind with the not-found cause.
    pub fn is_not_found(&self) -> (r: bool)
        ensures
            r <==> *self == ClientError::ParseError(ParseFailure::NotFound),
    {
        match self {
            ClientError::ParseError(ParseFailure::NotFound) => true,
            _ => false,
        }
    }

    /// Display text: the kind, then the underlying cause.
    pub fn message(&self) -> (r: String)
        ensures
            *self is RequestError ==> r@ == "Request error: "@ + self->RequestError_0@,
            *self == ClientError::ParseError(ParseFailure::Malformed) ==> r@ == "Parse error: "@
                + "response body did not match the record envelope"@,
            *self == ClientError::ParseError(ParseFailure::NotFound) ==> r@ == "Parse error: "@
                + "No record found with this slug"@,
    {
        match self {
            ClientError::RequestError(cause) => {
                let mut out = String::from_str("Request error: ");
                out.append(cause.as_str());
                out
            },
            ClientError::ParseError(cause) => {
                let mut out = String::from_str("Parse error: ");
                out.append(cause.message());
                out
            },
        }
    }
}

} // verus!
