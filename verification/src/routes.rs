//! The routes of the backend: which guard stands before each path, and what
//! the small handlers answer.

use vstd::prelude::*;
use vstd::string::StringExecFns;
use crate::json::object_of_one;
use crate::json::object_of_two;
use crate::json::write_object_of_one;
use crate::json::write_object_of_two;
use crate::session::Identity;

verus! {

/// What a request has to show before it reaches the handler of a route.
#[derive(Debug, Clone, Copy, PartialEq, Eq, Structural)]
pub enum Guard {
    /// Nothing.
    Public,
    /// A session that carries an authenticated identity.
    Session,
    /// A valid bearer token.
    Token,
}

/// The guard of each path of the backend; `None` for a path that is none of
/// them and goes to the frontend's files.
pub open spec fn guard_of_path(path: Seq<char>) -> Option<Guard> {
    if path == "/auth/login"@ || path == "/auth/logout"@ || path == "/test"@ {
        Some(Guard::Public)
    } else if path == "/secure"@ || path == "/secure/check"@ || path == "/secure/services"@ || path
        == "/secure/services/by-server"@ {
        Some(Guard::Session)
    } else if path == "/api"@ {
        Some(Guard::Token)
    } else {
        None
    }
}

fn is_path(path: &String, route: &str) -> (r: bool)
    ensures
        r == (path@ == route@),
{
    *path == String::from_str(route)
}

/// Looks up the guard of a path.
pub fn guard_of(path: &str) -> (r: Option<Guard>)
    ensures
        r == guard_of_path(path@),
{
    let wanted = String::from_str(path);
    if is_path(&wanted, "/auth/login") || is_path(&wanted, "/auth/logout") || is_path(
        &wanted,
        "/test",
    ) {
        Some(Guard::Public)
    } else if is_path(&wanted, "/secure") || is_path(&wanted, "/secure/check") || is_path(
        &wanted,
        "/secure/services",
    ) || is_path(&wanted, "/secure/services/by-server") {
        Some(Guard::Session)
    } else if is_path(&wanted, "/api") {
        Some(Guard::Token)
    } else {
        None
    }
}

/// The answer of the public test route.
pub fn test() -> (r: &'static str)
    ensures
        r@ == "Hello"@,
{
    "Hello"
}

/// The answer of the session-gated route: who is logged in.
pub fn protected(user: &Identity) -> (r: String)
    ensures
        r@ == object_of_one("user"@, "Logged in as: "@ + user.name@),
{
    let mut text = String::from_str("Logged in as: ");
    text.append(user.name.as_str());
    write_object_of_one("user", text.as_str())
}

/// The answer of the session-gated check: the user's name.
pub fn check_cookie(user: &Identity) -> (r: String)
    ensures
        r@ == object_of_one("user"@, user.name@),
{
    write_object_of_one("user", user.name.as_str())
}

/// The answer of the token-gated route.
pub fn api_test() -> (r: String)
    ensures
        r@ == object_of_two(
            "result"@,
            "ok"@,
            "message"@,
            "You've reached the backend API by using a valid token."@,
        ),
{
    write_object_of_two(
        "result",
        "ok",
        "message",
        "You've reached the backend API by using a valid token.",
    )
}

/// The answer to a failure of the frontend's file service: status and text.
pub fn handle_error() -> (r: (u16, &'static str))
    ensures
        r.0 == 500,
        r.1@ == "Something went wrong accessing static files..."@,
{
    (500, "Something went wrong accessing static files...")
}

} // verus!
