//! The relational schema behind the core, as ordered and reversible
//! migrations, and the statements on the users and tokens tables.

use vstd::prelude::*;

verus! {

/// One step of the schema: a statement that applies it and one that takes it
/// back.
#[derive(Debug)]
pub struct Migration {
    pub up: &'static str,
    pub down: &'static str,
}

/// The migrations, in the order in which they are applied: users, sessions,
/// tokens, services.
pub fn migrations() -> (r: Vec<Migration>)
    ensures
        r@.len() == 4,
        r@[0].up@
            == "CREATE TABLE users(id INTEGER PRIMARY KEY AUTOINCREMENT, name TEXT UNIQUE, password_hash TEXT);"@,
        r@[0].down@ == "DROP TABLE users;"@,
        r@[1].up@ == "CREATE TABLE sessions(id TEXT PRIMARY KEY, payload BLOB);"@,
        r@[1].down@ == "DROP TABLE sessions;"@,
        r@[2].up@ == "CREATE TABLE tokens(id TEXT PRIMARY KEY);"@,
        r@[2].down@ == "DROP TABLE tokens;"@,
        r@[3].up@
            == "CREATE TABLE services(name TEXT PRIMARY KEY, server TEXT, status INTEGER);"@,
        r@[3].down@ == "DROP TABLE services;"@,
{
    let mut steps: Vec<Migration> = Vec::new();
    steps.push(
        Migration {
            up: "CREATE TABLE users(id INTEGER PRIMARY KEY AUTOINCREMENT, name TEXT UNIQUE, password_hash TEXT);",
            down: "DROP TABLE users;",
        },
    );
    steps.push(
        Migration {
            up: "CREATE TABLE sessions(id TEXT PRIMARY KEY, payload BLOB);",
            down: "DROP TABLE sessions;",
        },
    );
    steps.push(
        Migration { up: "CREATE TABLE tokens(id TEXT PRIMARY KEY);", down: "DROP TABLE tokens;" },
    );
    steps.push(
        Migration {
            up: "CREATE TABLE services(name TEXT PRIMARY KEY, server TEXT, status INTEGER);",
            down: "DROP TABLE services;",
        },
    );
    steps
}

/// The lookup of a user by name: id, name and hash of each row with the name
/// that is bound to the one parameter.
pub fn user_by_name_sql() -> (r: &'static str)
    ensures
        r@ == "SELECT id, name, password_hash FROM users WHERE name = ?1"@,
{
    "SELECT id, name, password_hash FROM users WHERE name = ?1"
}

/// The full replace of a user on conflict: id, name and hash are bound.
pub fn upsert_user_sql() -> (r: &'static str)
    ensures
        r@
            == "INSERT INTO users (id, name, password_hash) VALUES (?1, ?2, ?3) ON CONFLICT(id) DO UPDATE SET name = excluded.name, password_hash = excluded.password_hash"@,
{
    "INSERT INTO users (id, name, password_hash) VALUES (?1, ?2, ?3) ON CONFLICT(id) DO UPDATE SET name = excluded.name, password_hash = excluded.password_hash"
}

/// The existence query of the token registry: the rows of the token that is
/// bound to the one parameter.
pub fn token_by_id_sql() -> (r: &'static str)
    ensures
        r@ == "SELECT id FROM tokens WHERE id = ?1"@,
{
    "SELECT id FROM tokens WHERE id = ?1"
}

/// Registers a token; one that is registered already stays.
pub fn upsert_token_sql() -> (r: &'static str)
    ensures
        r@ == "INSERT INTO tokens (id) VALUES (?1) ON CONFLICT(id) DO UPDATE SET id = excluded.id"@,
{
    "INSERT INTO tokens (id) VALUES (?1) ON CONFLICT(id) DO UPDATE SET id = excluded.id"
}

/// The fetch of every service: name, server and status.
pub fn services_sql() -> (r: &'static str)
    ensures
        r@ == "SELECT name, server, status FROM services"@,
{
    "SELECT name, server, status FROM services"
}

/// The full replace of a service on conflict: name, server and status are
/// bound.
pub fn upsert_service_sql() -> (r: &'static str)
    ensures
        r@
            == "INSERT INTO services (name, server, status) VALUES (?1, ?2, ?3) ON CONFLICT(name) DO UPDATE SET server = excluded.server, status = excluded.status"@,
{
    "INSERT INTO services (name, server, status) VALUES (?1, ?2, ?3) ON CONFLICT(name) DO UPDATE SET server = excluded.server, status = excluded.status"
}

} // verus!
