//! Bearer tokens: the `Authorization` header, the registry of valid tokens and
//! the middleware that guards machine-to-machine routes.

use vstd::prelude::*;
use vstd::string::StrSliceExecFns;
use vstd::string::StringExecFns;
use crate::error::Decision;
use crate::error::Rejection;
use crate::text::chars_of;
use crate::text::last_token;
use crate::text::last_token_span;
use crate::text::lemma_last_token;

verus! {

/// Length of the scheme prefix `Bearer ` that a well-formed header starts with.
pub const BEARER_PREFIX_LEN: usize = 7;

/// Whether `header` starts with the scheme prefix, letter for letter.
pub open spec fn has_bearer_prefix(header: Seq<char>) -> bool {
    header.len() >= BEARER_PREFIX_LEN && header.subrange(0, BEARER_PREFIX_LEN as int)
        == "Bearer "@
}

/// The token that a header value presents: behind the prefix `Bearer `, the
/// last piece between separators. A header without the prefix, or with
/// nothing but separators behind it, presents none.
pub open spec fn parse_bearer(header: Seq<char>) -> Option<Seq<char>> {
    if has_bearer_prefix(header) {
        last_token(header.skip(BEARER_PREFIX_LEN as int))
    } else {
        None
    }
}

fn starts_with_bearer(chars: &Vec<char>) -> (r: bool)
    ensures
        r == has_bearer_prefix(chars@),
{
    proof {
        reveal_strlit("Bearer ");
    }
    if chars.len() < BEARER_PREFIX_LEN {
        return false;
    }
    let ghost head = chars@.subrange(0, BEARER_PREFIX_LEN as int);
    assert(head[0] == chars@[0] && head[1] == chars@[1] && head[2] == chars@[2] && head[3]
        == chars@[3] && head[4] == chars@[4] && head[5] == chars@[5] && head[6] == chars@[6]);
    let r = chars[0] == 'B' && chars[1] == 'e' && chars[2] == 'a' && chars[3] == 'r' && chars[4]
        == 'e' && chars[5] == 'r' && chars[6] == ' ';
    assert(r ==> head =~= "Bearer "@);
    r
}

/// Reads the token out of the value of an `Authorization` header.
pub fn bearer_token(header: &str) -> (r: Option<String>)
    ensures
        match r {
            Some(token) => parse_bearer(header@) == Some(token@),
            None => parse_bearer(header@) is None,
        },
{
    let chars = chars_of(header);
    if !starts_with_bearer(&chars) {
        return None;
    }
    match last_token_span(&chars, BEARER_PREFIX_LEN) {
        Some((start, end)) => Some(String::from_str(header.substring_char(start, end))),
        None => None,
    }
}

/// The authoritative set of valid tokens, in one of two forms.
#[derive(Debug)]
pub enum TokenRegistry {
    /// One configured secret.
    SharedSecret(String),
    /// The tokens that the backing table holds; deleting one revokes it.
    TokenSet(Vec<String>),
}

impl TokenRegistry {
    /// A presented token is valid when it is not empty and equals, character
    /// for character, the secret or one of the tokens in the set.
    pub open spec fn accepts(&self, presented: Seq<char>) -> bool {
        presented.len() > 0 && match self {
            TokenRegistry::SharedSecret(secret) => secret@ == presented,
            TokenRegistry::TokenSet(tokens) => exists|i: int|
                0 <= i < tokens@.len() && (#[trigger] tokens@[i])@ == presented,
        }
    }

    pub fn check(&self, presented: &str) -> (r: bool)
        ensures
            r == self.accepts(presented@),
    {
        if presented.is_empty() {
            return false;
        }
        let wanted: String = String::from_str(presented);
        match self {
            TokenRegistry::SharedSecret(secret) => *secret == wanted,
            TokenRegistry::TokenSet(tokens) => holds_token(tokens, &wanted),
        }
    }
}

/// The two forms of the registry agree: a set that holds one token accepts
/// what the registry of that token as its secret accepts, and nothing else.
pub proof fn law_registry_forms_agree(secret: String, tokens: Vec<String>, presented: Seq<char>)
    requires
        tokens@.len() == 1,
        tokens@[0]@ == secret@,
    ensures
        TokenRegistry::SharedSecret(secret).accepts(presented) == TokenRegistry::TokenSet(
            tokens,
        ).accepts(presented),
{
    let shared = TokenRegistry::SharedSecret(secret);
    let set = TokenRegistry::TokenSet(tokens);
    if shared.accepts(presented) {
        assert(set->TokenSet_0@[0]@ == presented);
    }
    if set.accepts(presented) {
        let i = choose|i: int| 0 <= i < tokens@.len() && (#[trigger] tokens@[i])@ == presented;
        assert(i == 0);
        assert(shared.accepts(presented));
    }
}

/// Whether one of `tokens` equals `wanted`, character for character.
fn holds_token(tokens: &Vec<String>, wanted: &String) -> (r: bool)
    ensures
        r == exists|i: int| 0 <= i < tokens@.len() && (#[trigger] tokens@[i])@ == wanted@,
{
    let mut i: usize = 0;
    while i < tokens.len()
        invariant
            i <= tokens@.len(),
            forall|j: int| 0 <= j < i ==> (#[trigger] tokens@[j])@ != wanted@,
        decreases tokens@.len() - i,
    {
        if tokens[i] == *wanted {
            return true;
        }
        i = i + 1;
    }
    false
}

/// Whether a request with this `Authorization` header, if it has one, passes
/// the registry.
pub open spec fn token_admitted(header: Option<&str>, registry: &TokenRegistry) -> bool {
    match header {
        Some(value) => match parse_bearer(value@) {
            Some(token) => registry.accepts(token),
            None => false,
        },
        None => false,
    }
}

/// First step of the token middleware: the token to look up, or the rejection
/// of a request whose header is missing or malformed. Nothing is compared and
/// no store is touched before this has returned a token.
pub fn token_lookup(header: Option<&str>) -> (r: Result<String, Rejection>)
    ensures
        match r {
            Ok(token) => header matches Some(value) && parse_bearer(value@) == Some(token@)
                && token@.len() > 0,
            Err(rejection) => rejection.is_unauthorized() && !(header matches Some(value)
                && parse_bearer(value@) is Some),
        },
{
    match header {
        Some(value) => match bearer_token(value) {
            Some(token) => {
                proof {
                    lemma_last_token(value@.skip(BEARER_PREFIX_LEN as int));
                }
                Ok(token)
            },
            None => Err(Rejection::unauthorized()),
        },
        None => Err(Rejection::unauthorized()),
    }
}

/// The token middleware: a request passes exactly when its header presents a
/// token that the registry accepts; every other request is answered with the
/// same rejection.
pub fn token_auth(header: Option<&str>, registry: &TokenRegistry) -> (r: Decision)
    ensures
        match r {
            Decision::Forward => token_admitted(header, registry),
            Decision::Reject(rejection) => !token_admitted(header, registry)
                && rejection.is_unauthorized(),
        },
{
    match token_lookup(header) {
        Ok(token) => {
            if registry.check(token.as_str()) {
                Decision::Forward
            } else {
                Decision::Reject(Rejection::unauthorized())
            }
        },
        Err(rejection) => Decision::Reject(rejection),
    }
}

/// The token middleware on a registry that is a table: the second step, after
/// the lookup of the token that `token_lookup` gave. A lookup that failed
/// rejects the request, like a token that no row holds; a request passes
/// exactly when the lookup succeeded and its header presents a token that is
/// among the rows.
pub fn token_auth_after_lookup(header: Option<&str>, lookup: Result<Vec<String>, String>) -> (r:
    Decision)
    ensures
        match lookup {
            Ok(rows) => r is Forward <==> token_admitted(header, &TokenRegistry::TokenSet(rows)),
            Err(_) => r is Reject,
        },
        r matches Decision::Reject(rejection) ==> rejection.is_unauthorized(),
{
    match lookup {
        Ok(rows) => token_auth(header, &TokenRegistry::TokenSet(rows)),
        Err(_) => Decision::Reject(Rejection::unauthorized()),
    }
}

} // verus!
