//! The persistent session store: which statement each operation runs against
//! the sessions table, and what it makes of the answer. The table is read and
//! written elsewhere; here it is a map from session id to stored payload, with
//! at most one row per id.

use vstd::prelude::*;
use vstd::string::StringExecFns;
use crate::error::StoreError;
use crate::session::decoded_session;
use crate::session::encodable;
use crate::session::payload_bytes;
use crate::session::session_id_of;
use crate::session::Session;
use crate::session::SessionView;

verus! {

/// A statement for the sessions table, with its parameters.
#[derive(Debug)]
pub enum StoreRequest {
    /// The payloads of the rows with this id.
    Select { id: String },
    /// Insert a row, or replace the payload of the row with this id.
    Upsert { id: String, payload: Vec<u8> },
    /// Delete the row with this id, if there is one.
    Delete { id: String },
    /// Delete every row.
    DeleteAll,
}

pub enum RequestView {
    Select { id: Seq<char> },
    Upsert { id: Seq<char>, payload: Seq<u8> },
    Delete { id: Seq<char> },
    DeleteAll,
}

impl View for StoreRequest {
    type V = RequestView;

    open spec fn view(&self) -> RequestView {
        match self {
            StoreRequest::Select { id } => RequestView::Select { id: id@ },
            StoreRequest::Upsert { id, payload } => RequestView::Upsert {
                id: id@,
                payload: payload@,
            },
            StoreRequest::Delete { id } => RequestView::Delete { id: id@ },
            StoreRequest::DeleteAll => RequestView::DeleteAll,
        }
    }
}

/// The sessions table: the stored payload of each id that has a row.
pub type Table = Map<Seq<char>, Seq<u8>>;

impl RequestView {
    /// The table after the statement has run.
    pub open spec fn table_after(self, table: Table) -> Table {
        match self {
            RequestView::Select { id } => table,
            RequestView::Upsert { id, payload } => table.insert(id, payload),
            RequestView::Delete { id } => table.remove(id),
            RequestView::DeleteAll => Map::empty(),
        }
    }

    /// The rows that the statement returns.
    pub open spec fn rows_from(self, table: Table) -> Seq<Seq<u8>> {
        match self {
            RequestView::Select { id } => if table.contains_key(id) {
                seq![table[id]]
            } else {
                Seq::empty()
            },
            _ => Seq::empty(),
        }
    }

    /// Whether the statement stores this session: under its id, in a form
    /// that decodes to it.
    pub open spec fn stores(self, session: SessionView) -> bool {
        self matches RequestView::Upsert { id, payload } && id == session.id && decoded_session(
            payload,
        ) == Some(session.stored())
    }
}

impl StoreRequest {
    /// The text of the statement.
    pub fn sql(&self) -> (r: &'static str)
        ensures
            r@ == match self@ {
                RequestView::Select { .. } => "SELECT payload FROM sessions WHERE id = ?1"@,
                RequestView::Upsert { .. } =>
                    "INSERT INTO sessions (id, payload) VALUES (?1, ?2) ON CONFLICT(id) DO UPDATE SET payload = excluded.payload"@,
                RequestView::Delete { .. } => "DELETE FROM sessions WHERE id = ?1"@,
                RequestView::DeleteAll => "DELETE FROM sessions"@,
            },
    {
        match self {
            StoreRequest::Select { .. } => "SELECT payload FROM sessions WHERE id = ?1",
            StoreRequest::Upsert { .. } =>
                "INSERT INTO sessions (id, payload) VALUES (?1, ?2) ON CONFLICT(id) DO UPDATE SET payload = excluded.payload",
            StoreRequest::Delete { .. } => "DELETE FROM sessions WHERE id = ?1",
            StoreRequest::DeleteAll => "DELETE FROM sessions",
        }
    }
}

/// What a load makes of the rows that came back: no session where there is no
/// row, else the session that the first row decodes to; `None` where that row
/// is corrupt.
pub open spec fn load_outcome(rows: Seq<Seq<u8>>) -> Option<Option<SessionView>> {
    if rows.len() == 0 {
        Some(None)
    } else {
        match decoded_session(rows[0]) {
            Some(session) => Some(Some(session)),
            None => None,
        }
    }
}

/// The session store on a SQLite table `sessions(id, payload)`.
#[derive(Debug, Clone, Copy)]
pub struct SqliteSessionStore;

impl SqliteSessionStore {
    pub fn new() -> (r: Self) {
        SqliteSessionStore
    }

    /// First step of a load: the statement that fetches the session of a
    /// cookie value. A value that yields no id is refused before the store is
    /// touched.
    pub fn load_session(&self, cookie_value: &str) -> (r: Result<StoreRequest, StoreError>)
        ensures
            match r {
                Ok(request) => session_id_of(cookie_value@) matches Some(id) && request@
                    == (RequestView::Select { id }),
                Err(error) => error is Malformed && session_id_of(cookie_value@) is None,
            },
    {
        match Session::id_from_cookie_value(cookie_value) {
            Some(id) => Ok(StoreRequest::Select { id }),
            None => Err(StoreError::Malformed),
        }
    }

    /// Second step of a load: what the rows that came back mean. No row is no
    /// session, which is no error. Of several rows the first counts. A row
    /// that does not decode is an error, never "no session".
    pub fn loaded(&self, rows: Result<Vec<Vec<u8>>, String>) -> (r: Result<
        Option<Session>,
        StoreError,
    >)
        ensures
            match r {
                Ok(Some(session)) => rows matches Ok(found) && load_outcome(found.deep_view())
                    == Some(Some(session@)) && session.wf(),
                Ok(None) => rows matches Ok(found) && found@.len() == 0,
                Err(StoreError::Corrupt) => rows matches Ok(found) && load_outcome(
                    found.deep_view(),
                ) is None,
                Err(StoreError::Backend(message)) => rows == Err::<Vec<Vec<u8>>, String>(message),
                Err(_) => false,
            },
    {
        match rows {
            Ok(found) => {
                if found.len() == 0 {
                    Ok(None)
                } else {
                    assert(found.deep_view()[0] == found@[0]@);
                    match Session::decode(found[0].as_slice()) {
                        Ok(session) => Ok(Some(session)),
                        Err(_) => Err(StoreError::Corrupt),
                    }
                }
            },
            Err(message) => Err(StoreError::Backend(message)),
        }
    }

    /// What storing a session comes to, for each outcome of encoding it: the
    /// statement that writes the encoded bytes under the session's id, with
    /// the cookie value to hand back to the client, or the failure as it is.
    pub fn store_encoded(&self, session: Session, encoded: Result<Vec<u8>, StoreError>) -> (r:
        Result<(StoreRequest, Option<String>), StoreError>)
        ensures
            match encoded {
                Ok(payload) => r matches Ok((request, cookie)) && request@ == (
                RequestView::Upsert { id: session@.id, payload: payload@ }) && (match cookie {
                    Some(value) => session@.cookie_value == Some(value@),
                    None => session@.cookie_value is None,
                }),
                Err(error) => r matches Err(handed) && handed == error,
            },
    {
        match encoded {
            Ok(payload) => {
                let id = String::from_str(session.id());
                let cookie = session.into_cookie_value();
                Ok((StoreRequest::Upsert { id, payload }, cookie))
            },
            Err(error) => Err(error),
        }
    }

    /// The statement that stores a session, and the cookie value to hand back
    /// to the client. A session that does not fit the encoding is refused; one
    /// that fits is stored unless the encoder fails.
    pub fn store_session(&self, session: Session) -> (r: Result<
        (StoreRequest, Option<String>),
        StoreError,
    >)
        ensures
            session.wf(),
            !encodable(session@.id, session@.entries) ==> r is Err,
            match r {
                Ok((request, cookie)) => request@.stores(session@) && encodable(
                    session@.id,
                    session@.entries,
                ) && request@ == (RequestView::Upsert {
                    id: session@.id,
                    payload: payload_bytes(session@.id, session@.entries),
                }) && (match cookie {
                    Some(value) => session@.cookie_value == Some(value@),
                    None => session@.cookie_value is None,
                }),
                Err(error) => error is Unencodable,
            },
    {
        let encoded = session.encode();
        self.store_encoded(session, encoded)
    }

    /// The statement that deletes a session. It asks for no row to be there.
    pub fn destroy_session(&self, session: Session) -> (r: StoreRequest)
        ensures
            r@ == (RequestView::Delete { id: session@.id }),
    {
        StoreRequest::Delete { id: String::from_str(session.id()) }
    }

    /// The statement that deletes every session.
    pub fn clear_store(&self) -> (r: StoreRequest)
        ensures
            r@ == RequestView::DeleteAll,
    {
        StoreRequest::DeleteAll
    }

    /// What a store, a destroy or a clear makes of the backing store's answer:
    /// a failure is handed on with its text, anything else is success.
    pub fn acknowledged(&self, outcome: Result<(), String>) -> (r: Result<(), StoreError>)
        ensures
            match r {
                Ok(_) => outcome is Ok,
                Err(StoreError::Backend(message)) => outcome == Err::<(), String>(message),
                Err(_) => false,
            },
    {
        match outcome {
            Ok(_) => Ok(()),
            Err(message) => Err(StoreError::Backend(message)),
        }
    }
}

/// Storing a session and then loading by the cookie value that belongs to it
/// gives that session back, with the same id and the same attributes,
/// whatever the table held before.
pub proof fn law_store_then_load(
    session: SessionView,
    cookie_value: Seq<char>,
    store: RequestView,
    table: Table,
)
    requires
        session.wf(),
        session.cookie_value == Some(cookie_value),
        store.stores(session),
    ensures
        session_id_of(cookie_value) matches Some(id) && load_outcome(
            (RequestView::Select { id }).rows_from(store.table_after(table)),
        ) == Some(Some(session.stored())),
{
    let id = session.id;
    let after = store.table_after(table);
    assert(after.contains_key(id));
}

/// Destroying a session leaves no row for its id, and destroying it again
/// changes nothing: the statement is the same and asks for no row to be there.
pub proof fn law_destroy_twice(id: Seq<char>, table: Table)
    ensures
        ({
            let destroy = RequestView::Delete { id };
            &&& !destroy.table_after(table).contains_key(id)
            &&& destroy.table_after(destroy.table_after(table)) == destroy.table_after(table)
        }),
{
    let destroy = RequestView::Delete { id };
    assert(destroy.table_after(destroy.table_after(table)) =~= destroy.table_after(table));
}

/// After a clear, a load by any cookie value that yields an id finds no
/// session, whatever the table held before.
pub proof fn law_clear_then_load(cookie_value: Seq<char>, table: Table)
    requires
        session_id_of(cookie_value) is Some,
    ensures
        load_outcome(
            (RequestView::Select { id: session_id_of(cookie_value)->0 }).rows_from(
                RequestView::DeleteAll.table_after(table),
            ),
        ) == Some(None::<SessionView>),
{
}

/// After a destroy, a load by the cookie value of the destroyed session finds
/// no session.
pub proof fn law_destroy_then_load(cookie_value: Seq<char>, table: Table)
    requires
        session_id_of(cookie_value) is Some,
    ensures
        load_outcome(
            (RequestView::Select { id: session_id_of(cookie_value)->0 }).rows_from(
                (RequestView::Delete { id: session_id_of(cookie_value)->0 }).table_after(table),
            ),
        ) == Some(None::<SessionView>),
{
}

} // verus!
