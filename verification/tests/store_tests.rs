use cyberdeck::error::StoreError;
use cyberdeck::session::Session;
use cyberdeck::store::SqliteSessionStore;
use cyberdeck::store::StoreRequest;

/// Runs a statement against a table held in memory, as the sessions table
/// with its primary key would.
fn run(table: &mut Vec<(String, Vec<u8>)>, request: StoreRequest) -> Vec<Vec<u8>> {
    match request {
        StoreRequest::Select { id } => {
            table.iter().filter(|row| row.0 == id).map(|row| row.1.clone()).collect()
        }
        StoreRequest::Upsert { id, payload } => {
            table.retain(|row| row.0 != id);
            table.push((id, payload));
            Vec::new()
        }
        StoreRequest::Delete { id } => {
            table.retain(|row| row.0 != id);
            Vec::new()
        }
        StoreRequest::DeleteAll => {
            table.clear();
            Vec::new()
        }
    }
}

fn store(table: &mut Vec<(String, Vec<u8>)>, session: Session) -> Option<String> {
    let (request, cookie) = SqliteSessionStore::new().store_session(session).unwrap();
    run(table, request);
    cookie
}

fn load(table: &mut Vec<(String, Vec<u8>)>, cookie: &str) -> Result<Option<Session>, StoreError> {
    let sessions = SqliteSessionStore::new();
    let request = sessions.load_session(cookie)?;
    let rows = run(table, request);
    sessions.loaded(Ok(rows))
}

#[test]
fn stored_session_loads_back_identical() {
    let mut table = Vec::new();
    let mut session = Session::new();
    session.insert_raw("user_id", "alice".to_string());
    session.insert_raw("visits", "3".to_string());
    let id = session.id().to_string();
    let cookie = store(&mut table, session).unwrap();
    let loaded = load(&mut table, &cookie).unwrap().unwrap();
    assert_eq!(loaded.id(), id);
    assert_eq!(loaded.len(), 2);
    assert_eq!(loaded.get_raw("user_id"), Some("alice".to_string()));
    assert_eq!(loaded.get_raw("visits"), Some("3".to_string()));
}

#[test]
fn storing_again_replaces_the_row() {
    let mut table = Vec::new();
    let mut session = Session::new();
    session.insert_raw("step", "one".to_string());
    let cookie = store(&mut table, session).unwrap();
    let mut loaded = load(&mut table, &cookie).unwrap().unwrap();
    loaded.insert_raw("step", "two".to_string());
    assert_eq!(store(&mut table, loaded), None);
    assert_eq!(table.len(), 1);
    let again = load(&mut table, &cookie).unwrap().unwrap();
    assert_eq!(again.get_raw("step"), Some("two".to_string()));
}

#[test]
fn unknown_cookie_is_no_session() {
    let mut table = Vec::new();
    store(&mut table, Session::new());
    let other = Session::new().into_cookie_value().unwrap();
    assert!(load(&mut table, &other).unwrap().is_none());
}

#[test]
fn malformed_cookie_is_refused_before_the_store() {
    let sessions = SqliteSessionStore::new();
    assert!(matches!(sessions.load_session("not base64!"), Err(StoreError::Malformed)));
}

#[test]
fn corrupt_row_is_an_error_and_not_an_absent_session() {
    let sessions = SqliteSessionStore::new();
    assert!(matches!(sessions.loaded(Ok(vec![b"garbage".to_vec()])), Err(StoreError::Corrupt)));
    assert!(matches!(sessions.loaded(Ok(Vec::new())), Ok(None)));
}

#[test]
fn first_row_counts_when_there_are_several() {
    let sessions = SqliteSessionStore::new();
    let first = vec![0x92, 0xa2, b'i', b'd', 0x91, 0x92, 0xa1, b'k', 0xa1, b'v'];
    let second = vec![0x92, 0xa2, b'i', b'd', 0x90];
    let loaded = sessions.loaded(Ok(vec![first, second])).unwrap().unwrap();
    assert_eq!(loaded.get_raw("k"), Some("v".to_string()));
    let corrupt_later = vec![vec![0x92, 0xa2, b'i', b'd', 0x90], b"garbage".to_vec()];
    assert!(sessions.loaded(Ok(corrupt_later)).unwrap().is_some());
}

#[test]
fn backend_failure_is_handed_on() {
    let sessions = SqliteSessionStore::new();
    match sessions.loaded(Err("disk I/O error".to_string())) {
        Err(StoreError::Backend(message)) => assert_eq!(message, "disk I/O error"),
        _ => panic!("expected a backend error"),
    }
    match sessions.acknowledged(Err("database is locked".to_string())) {
        Err(StoreError::Backend(message)) => assert_eq!(message, "database is locked"),
        _ => panic!("expected a backend error"),
    }
    assert!(sessions.acknowledged(Ok(())).is_ok());
}

#[test]
fn destroy_twice_is_no_error() {
    let mut table = Vec::new();
    let sessions = SqliteSessionStore::new();
    let session = Session::new();
    let id = session.id().to_string();
    let cookie = session.cookie_value().unwrap();
    store(&mut table, session);
    assert_eq!(table.len(), 1);
    let loaded = load(&mut table, &cookie).unwrap().unwrap();
    let first = sessions.destroy_session(loaded);
    assert!(matches!(&first, StoreRequest::Delete { id: gone } if *gone == id));
    run(&mut table, first);
    assert!(sessions.acknowledged(Ok(())).is_ok());
    assert!(table.is_empty());
    let second = StoreRequest::Delete { id };
    run(&mut table, second);
    assert!(sessions.acknowledged(Ok(())).is_ok());
    assert!(table.is_empty());
    assert!(load(&mut table, &cookie).unwrap().is_none());
}

#[test]
fn clear_forgets_every_session() {
    let mut table = Vec::new();
    let sessions = SqliteSessionStore::new();
    let first = store(&mut table, Session::new()).unwrap();
    let second = store(&mut table, Session::new()).unwrap();
    assert!(load(&mut table, &first).unwrap().is_some());
    run(&mut table, sessions.clear_store());
    assert!(table.is_empty());
    assert!(load(&mut table, &first).unwrap().is_none());
    assert!(load(&mut table, &second).unwrap().is_none());
}

#[test]
fn statements_name_the_sessions_table() {
    let sessions = SqliteSessionStore::new();
    assert_eq!(sessions.clear_store().sql(), "DELETE FROM sessions");
    assert_eq!(
        (StoreRequest::Delete { id: "x".to_string() }).sql(),
        "DELETE FROM sessions WHERE id = ?1"
    );
    assert_eq!(
        (StoreRequest::Select { id: "x".to_string() }).sql(),
        "SELECT payload FROM sessions WHERE id = ?1"
    );
    assert_eq!(
        (StoreRequest::Upsert { id: "x".to_string(), payload: Vec::new() }).sql(),
        "INSERT INTO sessions (id, payload) VALUES (?1, ?2) ON CONFLICT(id) DO UPDATE SET payload = excluded.payload"
    );
}

#[test]
fn store_encoded_writes_the_bytes_it_is_given() {
    let sessions = SqliteSessionStore::new();
    let session = Session::new();
    let id = session.id().to_string();
    let cookie = session.cookie_value();
    let (request, handed) = sessions.store_encoded(session, Ok(vec![1, 2, 3])).unwrap();
    assert_eq!(handed, cookie);
    match request {
        StoreRequest::Upsert { id: stored_id, payload } => {
            assert_eq!(stored_id, id);
            assert_eq!(payload, vec![1, 2, 3]);
        }
        _ => panic!("expected an upsert"),
    }
}

#[test]
fn store_encoded_hands_a_failure_on() {
    let sessions = SqliteSessionStore::new();
    assert!(matches!(
        sessions.store_encoded(Session::new(), Err(StoreError::Unencodable)),
        Err(StoreError::Unencodable)
    ));
    match sessions.store_encoded(Session::new(), Err(StoreError::Backend("full".to_string()))) {
        Err(StoreError::Backend(message)) => assert_eq!(message, "full"),
        _ => panic!("expected the failure that was handed in"),
    }
}

#[test]
fn store_session_writes_what_encode_gives() {
    let sessions = SqliteSessionStore::new();
    let mut session = Session::new();
    session.insert_raw("a", "1".to_string());
    let bytes = session.encode().unwrap();
    match sessions.store_session(session).unwrap().0 {
        StoreRequest::Upsert { payload, .. } => assert_eq!(payload, bytes),
        _ => panic!("expected an upsert"),
    }
}
