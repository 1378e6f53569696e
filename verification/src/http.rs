//! Statuses of HTTP responses.
use vstd::prelude::*;

verus! {

/// The status of an HTTP response, a number of three digits.
#[derive(Clone, Copy, Debug, PartialEq, Eq, Structural)]
pub struct HttpStatus {
    code: u16,
}

/// The text that the `Display` form of a `reqwest::StatusCode` shows.
pub uninterp spec fn status_text(code: int) -> Seq<char>;

/// `reqwest::StatusCode` shows its number and the phrase that belongs to it. Its `from_u16`
/// takes exactly the numbers of three digits.
#[verifier::external_body]
fn show_status(code: u16) -> (res: String)
    requires
        100 <= code <= 999,
    ensures
        res@ == status_text(code as int),
{
    reqwest::StatusCode::from_u16(code).unwrap().to_string()
}

impl HttpStatus {
    #[verifier::type_invariant]
    spec fn three_digits(self) -> bool {
        100 <= self.code <= 999
    }

    /// The number of the status.
    pub closed spec fn number(self) -> int {
        self.code as int
    }

    /// Whether the request succeeded.
    pub open spec fn success(self) -> bool {
        200 <= self.number() <= 299
    }

    /// The status with the number `code`, where it has three digits.
    pub fn from_u16(code: u16) -> (res: Option<HttpStatus>)
        ensures
            res is Some <==> 100 <= code <= 999,
            res is Some ==> res->0.number() == code,
    {
        if 100 <= code && code <= 999 {
            Some(HttpStatus { code })
        } else {
            None
        }
    }

    /// The number of the status.
    pub fn as_u16(&self) -> (res: u16)
        ensures
            res == self.number(),
    {
        self.code
    }

    /// Whether the request succeeded.
    pub fn is_success(&self) -> (res: bool)
        ensures
            res == self.success(),
    {
        200 <= self.code && self.code <= 299
    }

    /// The number and the phrase of the status.
    pub fn to_text(&self) -> (res: String)
        ensures
            res@ == status_text(self.number()),
    {
        proof {
            use_type_invariant(self);
        }
        show_status(self.code)
    }
}

} // verus!
