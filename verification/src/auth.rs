//! Session-based authorization: the middleware that guards the routes of
//! human users, and the login and logout handlers.

use vstd::prelude::*;
use vstd::string::StringExecFns;
use crate::error::Rejection;
use crate::error::StoreError;
use crate::json::is_plain;
use crate::json::object_of_one;
use crate::json::plain_object_of_one;
use crate::json::plain_object_of_two;
use crate::json::quoted;
use crate::json::object_of_two;
use crate::json::write_object_of_one;
use crate::json::write_object_of_two;
use crate::session::identity_key;
use crate::session::Identity;
use crate::session::decoded_session;
use crate::session::encodable;
use crate::session::fits_wire;
use crate::session::has_key;
use crate::session::lemma_with_entry;
use crate::session::payload_bytes;
use crate::session::with_entry;
use crate::session::SessionView;
use crate::session::session_id_of;
use crate::session::Session;
use crate::store::RequestView;
use crate::store::SqliteSessionStore;
use crate::store::StoreRequest;
use crate::user::password_verifies;
use crate::user::verify;
use crate::user::Login;
use crate::user::User;

verus! {

/// Whether a request's session, if it has one, carries the marker of an
/// authenticated identity.
pub open spec fn session_authenticated(session: Option<&Session>) -> bool {
    session matches Some(current) && current@.payload().contains_key(identity_key())
}

/// The session middleware: a request passes exactly when its session carries
/// the marker of an authenticated identity, and the identity is handed on to
/// the handler. Roles are not looked at; a check of them would follow the
/// lookup of the marker.
pub fn user_secure(session: Option<&Session>) -> (r: Result<Identity, Rejection>)
    ensures
        match r {
            Ok(identity) => session_authenticated(session) && session->0@.payload()[identity_key()]
                == identity.name@,
            Err(rejection) => !session_authenticated(session) && rejection.is_unauthorized(),
        },
{
    match session {
        Some(current) => match current.get_authenticated_identity() {
            Some(identity) => Ok(identity),
            None => Err(Rejection::unauthorized()),
        },
        None => Err(Rejection::unauthorized()),
    }
}

/// What a route for human users does with the outcome of loading the
/// request's session. A session with the marker passes. No session, a session
/// without the marker and a malformed cookie are answered as unauthorized; a
/// failure of the store is answered as an internal error, with none of its
/// detail.
pub fn authorize_session(loaded: &Result<Option<Session>, StoreError>) -> (r: Result<
    Identity,
    Rejection,
>)
    ensures
        match loaded {
            Ok(Some(session)) => match r {
                Ok(identity) => session@.payload().contains_key(identity_key())
                    && session@.payload()[identity_key()] == identity.name@,
                Err(rejection) => !session@.payload().contains_key(identity_key())
                    && rejection.is_unauthorized(),
            },
            Ok(None) => r matches Err(rejection) && rejection.is_unauthorized(),
            Err(StoreError::Malformed) => r matches Err(rejection) && rejection.is_unauthorized(),
            Err(_) => r matches Err(rejection) && rejection.is_internal(),
        },
{
    match loaded {
        Ok(Some(session)) => user_secure(Some(session)),
        Ok(None) => Err(Rejection::unauthorized()),
        Err(StoreError::Malformed) => Err(Rejection::unauthorized()),
        Err(_) => Err(Rejection::internal()),
    }
}

/// What the login and logout handlers answer, as the fields of a JSON object.
#[derive(Debug)]
pub enum HandlerReply {
    /// `{"result": "ok", "user": <name>}`
    LoggedIn { user: String },
    /// `{"result": "ok"}`
    LoggedOut,
    /// `{"result": "error", "message": <reason>}`
    Failed { message: String },
}

impl HandlerReply {
    /// The one answer to every failed login. It does not say whether the
    /// name, the password or the lookup was at fault.
    pub open spec fn is_invalid_credentials(&self) -> bool {
        self matches HandlerReply::Failed { message } && message@ == "Username or Password Wrong"@
    }

    pub fn invalid_credentials() -> (r: Self)
        ensures
            r.is_invalid_credentials(),
    {
        HandlerReply::Failed { message: String::from_str("Username or Password Wrong") }
    }

    /// The value of the field `result`.
    pub fn result(&self) -> (r: &'static str)
        ensures
            r@ == if self is Failed {
                "error"@
            } else {
                "ok"@
            },
    {
        match self {
            HandlerReply::Failed { .. } => "error",
            _ => "ok",
        }
    }
}

impl HandlerReply {
    /// The reply as JSON text.
    pub fn to_json(&self) -> (r: String)
        ensures
            r@ == match self {
                HandlerReply::LoggedIn { user } => object_of_two(
                    "result"@,
                    "ok"@,
                    "user"@,
                    user@,
                ),
                HandlerReply::LoggedOut => object_of_one("result"@, "ok"@),
                HandlerReply::Failed { message } => object_of_two(
                    "result"@,
                    "error"@,
                    "message"@,
                    message@,
                ),
            },
            self is LoggedOut ==> r@ == "{\"result\":\"ok\"}"@,
            self.is_invalid_credentials() ==> r@
                == "{\"result\":\"error\",\"message\":\"Username or Password Wrong\"}"@,
            self is LoggedIn && is_plain(self->user@) ==> r@ == "{\"result\":\"ok\",\"user\":"@
                + quoted(self->user@) + "}"@,
    {
        proof {
            lemma_reply_texts();
            if self is LoggedIn && is_plain(self->user@) {
                reveal_strlit("{\"result\":\"ok\",\"user\":");
                reveal_strlit("}");
                reveal_strlit("result");
                reveal_strlit("ok");
                reveal_strlit("user");
                assert(plain_object_of_two("result"@, "ok"@, "user"@, self->user@)
                    =~= "{\"result\":\"ok\",\"user\":"@ + quoted(self->user@) + "}"@);
            }
        }
        match self {
            HandlerReply::LoggedIn { user } => write_object_of_two(
                "result",
                "ok",
                "user",
                user.as_str(),
            ),
            HandlerReply::LoggedOut => write_object_of_one("result", "ok"),
            HandlerReply::Failed { message } => write_object_of_two(
                "result",
                "error",
                "message",
                message.as_str(),
            ),
        }
    }
}

/// The fixed replies, letter for letter.
pub proof fn lemma_reply_texts()
    ensures
        is_plain("result"@),
        is_plain("ok"@),
        is_plain("error"@),
        is_plain("user"@),
        is_plain("message"@),
        is_plain("Username or Password Wrong"@),
        plain_object_of_one("result"@, "ok"@) == "{\"result\":\"ok\"}"@,
        plain_object_of_two("result"@, "error"@, "message"@, "Username or Password Wrong"@)
            == "{\"result\":\"error\",\"message\":\"Username or Password Wrong\"}"@,
{
    reveal_strlit("result");
    reveal_strlit("ok");
    reveal_strlit("error");
    reveal_strlit("user");
    reveal_strlit("message");
    reveal_strlit("Username or Password Wrong");
    reveal_strlit("{\"result\":\"ok\"}");
    reveal_strlit("{\"result\":\"error\",\"message\":\"Username or Password Wrong\"}");
    assert(plain_object_of_one("result"@, "ok"@) =~= "{\"result\":\"ok\"}"@);
    assert(plain_object_of_two("result"@, "error"@, "message"@, "Username or Password Wrong"@)
        =~= "{\"result\":\"error\",\"message\":\"Username or Password Wrong\"}"@);
}

/// Whether a login is granted: the lookup by name found exactly one user, and
/// the presented password matches the hash of that user. No row, several
/// rows, a failed lookup, a malformed hash and a wrong password all fail.
pub open spec fn credentials_valid(login: &Login, rows: &Result<Vec<User>, String>) -> bool {
    rows matches Ok(found) && found@.len() == 1 && password_verifies(
        login.password@,
        found@[0].hash@,
    )
}

/// A session with the marker of the identity `name` stored in it.
pub open spec fn marked(session: SessionView, name: Seq<char>) -> SessionView {
    SessionView {
        id: session.id,
        entries: with_entry(session.entries, identity_key(), name),
        cookie_value: session.cookie_value,
    }
}

/// The decision of a login on a session that the caller already holds. Where
/// the credentials are valid, the session gets the marker of the user's
/// identity and the reply names the user; else the session stays as it was and
/// the reply is the uniform failure.
pub fn login_into(attempt: &Login, rows: &Result<Vec<User>, String>, session: &mut Session) -> (r:
    HandlerReply)
    ensures
        old(session).wf(),
        final(session).wf(),
        final(session)@.id == old(session)@.id,
        final(session)@.cookie_value == old(session)@.cookie_value,
        credentials_valid(attempt, rows) ==> (r matches HandlerReply::LoggedIn { user } && user@
            == rows->Ok_0@[0].name@ && final(session)@ == marked(old(session)@, user@)
            && final(session)@.payload() == old(session)@.payload().insert(identity_key(), user@)),
        !credentials_valid(attempt, rows) ==> r.is_invalid_credentials() && final(session)@ == old(
            session,
        )@,
{
    proof {
        use_type_invariant(&*session);
    }
    match rows {
        Ok(found) => {
            if found.len() == 1 {
                let user = &found[0];
                if verify(attempt.password.as_str(), user.hash.as_str()) {
                    let identity = Identity { name: user.name.clone() };
                    session.set_authenticated_identity(&identity);
                    HandlerReply::LoggedIn { user: identity.name }
                } else {
                    HandlerReply::invalid_credentials()
                }
            } else {
                HandlerReply::invalid_credentials()
            }
        },
        Err(_) => HandlerReply::invalid_credentials(),
    }
}

/// How a login ends.
#[derive(Debug)]
pub enum LoginOutcome {
    /// A new session was established: the statement that stores it, the
    /// cookie value to hand to the client, and the reply.
    Granted { request: StoreRequest, cookie_value: String, reply: HandlerReply },
    /// No session was established and no cookie is issued.
    Denied { reply: HandlerReply },
}

/// Whether `request` stores a session that belongs to `cookie_value` and
/// carries the identity `name` and nothing else.
pub open spec fn establishes(request: RequestView, cookie_value: Seq<char>, name: Seq<char>) -> bool {
    &&& request matches RequestView::Upsert { id, payload }
    &&& session_id_of(cookie_value) == Some(id)
    &&& decoded_session(payload) matches Some(stored)
    &&& stored.id == id
    &&& stored.payload() == Map::<Seq<char>, Seq<char>>::empty().insert(identity_key(), name)
}

/// How a login ends, for each reply of the decision and each outcome of
/// storing the session: it is granted exactly when the reply names a user and
/// the store gave a statement and a cookie value; else it is denied with the
/// uniform failure.
pub fn login_outcome(
    reply: HandlerReply,
    stored: Result<(StoreRequest, Option<String>), StoreError>,
) -> (r: LoginOutcome)
    ensures
        r is Granted <==> reply is LoggedIn && stored matches Ok((_, Some(_))),
        match r {
            LoginOutcome::Granted { request, cookie_value, reply: answer } => {
                &&& stored matches Ok((held, Some(value)))
                &&& request == held
                &&& cookie_value == value
                &&& answer == reply
            },
            LoginOutcome::Denied { reply: answer } => answer.is_invalid_credentials(),
        },
{
    match reply {
        HandlerReply::LoggedIn { user } => match stored {
            Ok((request, Some(cookie_value))) => LoginOutcome::Granted {
                request,
                cookie_value,
                reply: HandlerReply::LoggedIn { user },
            },
            _ => LoginOutcome::Denied { reply: HandlerReply::invalid_credentials() },
        },
        _ => LoginOutcome::Denied { reply: HandlerReply::invalid_credentials() },
    }
}

/// The login handler on a session that was drawn for it. A login is granted
/// only with valid credentials, on a session that still has its cookie value
/// and that fits the encoding with the user's marker in it; the outcome then
/// holds the statement that stores the marked session, and the session's
/// cookie value. Anything else is denied with the uniform failure. Whether
/// the encoder fails on a session that fits is not this function's to say:
/// `login_outcome` says what follows from either.
pub fn login_with(attempt: &Login, rows: &Result<Vec<User>, String>, session: Session) -> (r:
    LoginOutcome)
    ensures
        r is Granted ==> credentials_valid(attempt, rows) && session@.cookie_value is Some
            && encodable(session@.id, marked(session@, rows->Ok_0@[0].name@).entries),
        match r {
            LoginOutcome::Granted { request, cookie_value, reply } => {
                &&& reply matches HandlerReply::LoggedIn { user }
                &&& user@ == rows->Ok_0@[0].name@
                &&& session@.cookie_value == Some(cookie_value@)
                &&& marked(session@, user@).wf()
                &&& request@.stores(marked(session@, user@))
                &&& request@ == (RequestView::Upsert {
                    id: session@.id,
                    payload: payload_bytes(session@.id, marked(session@, user@).entries),
                })
            },
            LoginOutcome::Denied { reply } => reply.is_invalid_credentials(),
        },
{
    let mut session = session;
    let reply = login_into(attempt, rows, &mut session);
    match reply {
        HandlerReply::LoggedIn { user } => {
            let stored = SqliteSessionStore::new().store_session(session);
            login_outcome(HandlerReply::LoggedIn { user }, stored)
        },
        _ => LoginOutcome::Denied { reply: HandlerReply::invalid_credentials() },
    }
}

/// The login handler, after the lookup of the user by name. Valid credentials
/// establish a new session with a fresh id, which carries the user's identity
/// and nothing else; the outcome holds what stores it and the cookie value for
/// the client. Anything else is denied with the uniform failure, which does
/// not say what was at fault: credentials that are not valid, a name that
/// does not fit the encoding, and a failure of the encoder.
pub fn login(attempt: &Login, rows: &Result<Vec<User>, String>) -> (r: LoginOutcome)
    ensures
        match r {
            LoginOutcome::Granted { request, cookie_value, reply } => {
                &&& credentials_valid(attempt, rows)
                &&& reply matches HandlerReply::LoggedIn { user }
                &&& user@ == rows->Ok_0@[0].name@
                &&& fits_wire(user@)
                &&& establishes(request@, cookie_value@, user@)
            },
            LoginOutcome::Denied { reply } => reply.is_invalid_credentials(),
        },
        !credentials_valid(attempt, rows) ==> r is Denied,
{
    let session = Session::new();
    let ghost fresh = session@;
    proof {
        assert(fresh.payload() =~= Map::<Seq<char>, Seq<char>>::empty());
        if credentials_valid(attempt, rows) {
            let name = rows->Ok_0@[0].name@;
            lemma_with_entry(fresh.entries, identity_key(), name);
            assert(!has_key(fresh.entries, identity_key()));
            assert(marked(fresh, name).entries[0] == (identity_key(), name));
        }
    }
    login_with(attempt, rows, session)
}

/// The login handler for a caller that holds the request's session, if the
/// request has one that can be read. Without a session the login fails like
/// any other; with one, it is decided as `login_into` decides it.
pub fn login_current(
    attempt: &Login,
    rows: &Result<Vec<User>, String>,
    current: Option<Session>,
) -> (r: (Option<Session>, HandlerReply))
    ensures
        match current {
            Some(session) => r.0 matches Some(kept) && kept@.id == session@.id
                && kept@.cookie_value == session@.cookie_value && (if credentials_valid(
                attempt,
                rows,
            ) {
                r.1 matches HandlerReply::LoggedIn { user } && user@ == rows->Ok_0@[0].name@
                    && kept@ == marked(session@, user@)
            } else {
                r.1.is_invalid_credentials() && kept@ == session@
            }),
            None => r.0 is None && r.1.is_invalid_credentials(),
        },
{
    match current {
        Some(session) => {
            let mut kept = session;
            let reply = login_into(attempt, rows, &mut kept);
            (Some(kept), reply)
        },
        None => (None, HandlerReply::invalid_credentials()),
    }
}

/// The logout handler: the statement that destroys the current session, or
/// none where the request has no session, and the reply, which is the same
/// either way.
pub fn logout(session: Option<Session>) -> (r: (Option<StoreRequest>, HandlerReply))
    ensures
        r.1 is LoggedOut,
        match session {
            Some(current) => r.0 matches Some(request) && request@ == (RequestView::Delete {
                id: current@.id,
            }),
            None => r.0 is None,
        },
{
    match session {
        Some(current) => (
            Some(SqliteSessionStore::new().destroy_session(current)),
            HandlerReply::LoggedOut,
        ),
        None => (None, HandlerReply::LoggedOut),
    }
}

} // verus!
