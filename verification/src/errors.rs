use vstd::prelude::*;

verus! {

/// The error taxonomy of the service.
///
/// `BadQuery` is a client error raised while binding a request's query
/// string; `NotFound` is a point lookup that matched no row; the remaining
/// variants are storage-level failures raised by the repository operations.
#[derive(Clone, Copy, Debug, PartialEq, Eq, Structural)]
pub enum Error {
    /// The query string of a list request does not bind to the filter shape.
    BadQuery,
    /// A lookup by external identifier matched no row.
    NotFound,
    /// An update patch with no fields set: there is nothing to update.
    EmptyPatch,
    /// The external identifier chosen for a new row is already taken.
    Conflict,
    /// A value exceeds the bounded length of its column.
    ValueTooLong,
    /// The identity space of the table is exhausted.
    IdentityExhausted,
}

/// The HTTP status class each error maps to: query-binding failures and
/// empty patches are the client's fault (400), a missed point lookup is 404,
/// and storage-level failures surface uniformly as 500.
pub open spec fn spec_http_status(e: Error) -> u16 {
    match e {
        Error::BadQuery => 400,
        Error::NotFound => 404,
        Error::EmptyPatch => 400,
        Error::Conflict => 500,
        Error::ValueTooLong => 500,
        Error::IdentityExhausted => 500,
    }
}

/// The description of each failure, as the response that reports it carries
/// it; the query-binding one names the ways a query string can fail to bind.
pub open spec fn spec_message(e: Error) -> Seq<char> {
    match e {
        Error::BadQuery => "query string does not bind: a filter field is bound twice, addressed as a non-scalar with brackets, or given a value that does not decode to UTF-8"@,
        Error::NotFound => "no such user"@,
        Error::EmptyPatch => "nothing to update: the patch gives no field"@,
        Error::Conflict => "external identifier already taken"@,
        Error::ValueTooLong => "value exceeds its column's bounded length"@,
        Error::IdentityExhausted => "identity space exhausted"@,
    }
}

impl Error {
    /// The failure description the response body carries.
    pub fn message(&self) -> (m: String)
        ensures
            m@ == spec_message(*self),
    {
        match self {
            Error::BadQuery => String::from_str(
                "query string does not bind: a filter field is bound twice, addressed as a non-scalar with brackets, or given a value that does not decode to UTF-8",
            ),
            Error::NotFound => String::from_str("no such user"),
            Error::EmptyPatch => String::from_str("nothing to update: the patch gives no field"),
            Error::Conflict => String::from_str("external identifier already taken"),
            Error::ValueTooLong => String::from_str("value exceeds its column's bounded length"),
            Error::IdentityExhausted => String::from_str("identity space exhausted"),
        }
    }
}

/// Maps an error to the status code of the response that reports it.
pub fn http_status(e: &Error) -> (s: u16)
    ensures
        s == spec_http_status(*e),
{
    match e {
        Error::BadQuery => 400,
        Error::NotFound => 404,
        Error::EmptyPatch => 400,
        Error::Conflict => 500,
        Error::ValueTooLong => 500,
        Error::IdentityExhausted => 500,
    }
}

} // verus!
