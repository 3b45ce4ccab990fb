//! Error values and the structured bodies that rejections carry.

use vstd::prelude::*;
use vstd::string::StringExecFns;
use crate::json::is_plain;
use crate::json::object_of_one;
use crate::json::plain_object_of_one;
use crate::json::write_object_of_one;

verus! {

/// Status code of every rejection by an authorization middleware.
pub const UNAUTHORIZED_STATUS: u16 = 401;

/// Status code of the answer to a storage or hashing failure.
pub const INTERNAL_STATUS: u16 = 500;

/// An error reported to API clients as a JSON object with the single field `error`.
#[derive(Debug)]
pub struct JsonError {
    pub error: String,
}

impl JsonError {
    pub fn new(error: String) -> (r: Self)
        ensures
            r.error == error,
    {
        Self { error }
    }

    /// The body of every rejected request: it never says which check failed.
    pub fn unauthorized() -> (r: Self)
        ensures
            r.error@ == "Unauthorized"@,
    {
        Self { error: String::from_str("Unauthorized") }
    }

    /// The body that stands for any storage or hashing failure.
    pub fn internal() -> (r: Self)
        ensures
            r.error@ == "Internal Server Error"@,
    {
        Self { error: String::from_str("Internal Server Error") }
    }

    /// The body as JSON text: an object with the one member `error`.
    pub fn to_json(&self) -> (r: String)
        ensures
            r@ == object_of_one("error"@, self.error@),
            is_plain(self.error@) ==> r@ == plain_object_of_one("error"@, self.error@),
    {
        proof {
            lemma_body_texts();
        }
        write_object_of_one("error", self.error.as_str())
    }
}

/// A failure of the session store. It is always handed to the caller, never
/// retried and never turned into "no session".
#[derive(Debug)]
pub enum StoreError {
    /// The cookie value yields no session id.
    Malformed,
    /// A stored payload does not decode to a session.
    Corrupt,
    /// The session cannot be encoded.
    Unencodable,
    /// The backing store failed; the text is for the operator's log.
    Backend(String),
}

/// What a client gets when a middleware turns a request away: a status code
/// and a structured body that machine clients can parse.
#[derive(Debug)]
pub struct Rejection {
    pub status: u16,
    pub body: JsonError,
}

impl Rejection {
    /// The one client-visible form of a failed authorization.
    pub open spec fn is_unauthorized(&self) -> bool {
        self.status == UNAUTHORIZED_STATUS && self.body.error@ == "Unauthorized"@
    }

    pub fn unauthorized() -> (r: Self)
        ensures
            r.is_unauthorized(),
    {
        Self { status: UNAUTHORIZED_STATUS, body: JsonError::unauthorized() }
    }

    /// The one client-visible form of a storage or hashing failure. It holds
    /// no detail of the failure.
    pub open spec fn is_internal(&self) -> bool {
        self.status == INTERNAL_STATUS && self.body.error@ == "Internal Server Error"@
    }

    pub fn internal() -> (r: Self)
        ensures
            r.is_internal(),
    {
        Self { status: INTERNAL_STATUS, body: JsonError::internal() }
    }
}

impl Rejection {
    /// The body as JSON text. For the two rejections that this crate makes it
    /// is a fixed text.
    pub fn body_json(&self) -> (r: String)
        ensures
            r@ == object_of_one("error"@, self.body.error@),
            self.is_unauthorized() ==> r@ == "{\"error\":\"Unauthorized\"}"@,
            self.is_internal() ==> r@ == "{\"error\":\"Internal Server Error\"}"@,
    {
        proof {
            lemma_body_texts();
        }
        self.body.to_json()
    }
}

/// The bodies of the two rejections, letter for letter.
pub proof fn lemma_body_texts()
    ensures
        is_plain("error"@),
        is_plain("Unauthorized"@),
        is_plain("Internal Server Error"@),
        plain_object_of_one("error"@, "Unauthorized"@) == "{\"error\":\"Unauthorized\"}"@,
        plain_object_of_one("error"@, "Internal Server Error"@)
            == "{\"error\":\"Internal Server Error\"}"@,
{
    reveal_strlit("error");
    reveal_strlit("Unauthorized");
    reveal_strlit("Internal Server Error");
    reveal_strlit("{\"error\":\"Unauthorized\"}");
    reveal_strlit("{\"error\":\"Internal Server Error\"}");
    assert(plain_object_of_one("error"@, "Unauthorized"@) =~= "{\"error\":\"Unauthorized\"}"@);
    assert(plain_object_of_one("error"@, "Internal Server Error"@)
        =~= "{\"error\":\"Internal Server Error\"}"@);
}

/// What a middleware does with a request.
#[derive(Debug)]
pub enum Decision {
    /// The request goes on to its handler, unchanged.
    Forward,
    /// The request ends here with this answer.
    Reject(Rejection),
}

} // verus!
