use cyberdeck::config::Config;
use cyberdeck::config::Overrides;
use cyberdeck::error::Decision;
use cyberdeck::error::JsonError;
use cyberdeck::error::Rejection;
use cyberdeck::json::write_object_of_one;
use cyberdeck::json::write_object_of_two;
use cyberdeck::routes::api_test;
use cyberdeck::routes::check_cookie;
use cyberdeck::routes::guard_of;
use cyberdeck::routes::handle_error;
use cyberdeck::routes::protected;
use cyberdeck::routes::Guard;
use cyberdeck::schema::migrations;
use cyberdeck::schema::services_sql;
use cyberdeck::schema::upsert_service_sql;
use cyberdeck::services::get_services;
use cyberdeck::services::get_services_by_server;
use cyberdeck::services::services_by_name;
use cyberdeck::services::services_by_server;
use cyberdeck::services::Service;
use cyberdeck::services::ServiceReply;
use cyberdeck::session::Identity;
use cyberdeck::session::Session;
use cyberdeck::text::ascii_space;
use cyberdeck::text::chars_of;
use cyberdeck::text::last_token_span;
use cyberdeck::text::push_decimal;
use cyberdeck::text::push_signed_decimal;
use cyberdeck::token::token_auth;
use cyberdeck::user::User;

fn unset() -> Overrides {
    Overrides { port: None, host: None, secret: None, admin_name: None, admin_pass: None, api_token: None }
}

fn service(name: &str, server: &str, status: i64) -> Service {
    Service { name: name.to_string(), server: server.to_string(), status }
}

#[test]
fn json_error_constructors() {
    assert_eq!(JsonError::new("boom".to_string()).error, "boom");
    assert_eq!(JsonError::unauthorized().error, "Unauthorized");
    assert_eq!(JsonError::internal().error, "Internal Server Error");
}

#[test]
fn json_error_body_is_an_object_with_one_member() {
    assert_eq!(JsonError::unauthorized().to_json(), r#"{"error":"Unauthorized"}"#);
    assert_eq!(JsonError::internal().to_json(), r#"{"error":"Internal Server Error"}"#);
    assert_eq!(
        JsonError::new("a \"b\" \\ c\n".to_string()).to_json(),
        r#"{"error":"a \"b\" \\ c\n"}"#
    );
}

#[test]
fn rejection_is_a_401_with_the_generic_body() {
    let rejection = Rejection::unauthorized();
    assert_eq!(rejection.status, 401);
    assert_eq!(rejection.body.to_json(), r#"{"error":"Unauthorized"}"#);
    assert_eq!(rejection.body_json(), r#"{"error":"Unauthorized"}"#);
    let internal = Rejection::internal();
    assert_eq!(internal.status, 500);
    assert_eq!(internal.body_json(), r#"{"error":"Internal Server Error"}"#);
}

#[test]
fn json_objects_escape_keys_and_values() {
    assert_eq!(write_object_of_one("k", "v"), r#"{"k":"v"}"#);
    assert_eq!(write_object_of_one("k\"", "\t"), r#"{"k\"":"\t"}"#);
    assert_eq!(write_object_of_two("a", "1", "b", "\u{1}"), "{\"a\":\"1\",\"b\":\"\\u0001\"}");
    assert_eq!(write_object_of_one("", "\u{00e9}"), "{\"\":\"\u{00e9}\"}");
}

#[test]
fn defaults_apply_where_nothing_is_set() {
    let config = Config::resolve(unset());
    assert_eq!(config.port, "8080");
    assert_eq!(config.host, "0.0.0.0");
    assert_eq!(config.admin_name, "admin");
    assert_eq!(config.admin_pass, "averyhardpass");
    assert_eq!(config.api_token, "easytoken");
    assert_eq!(config.secret.len(), 64);
    assert!(config.default_admin_name && config.default_admin_pass && config.default_api_token);
    assert_eq!(config.address(), "0.0.0.0:8080");
    assert_eq!(Config::session_cookie_name(), "cyberdeck_session");
    assert_eq!(Config::frontend_dir(), "./ui/dist");
}

#[test]
fn random_secrets_differ() {
    assert_ne!(Config::resolve(unset()).secret, Config::resolve(unset()).secret);
}

#[test]
fn overrides_take_the_place_of_defaults() {
    let config = Config::resolve(Overrides {
        port: Some("9000".to_string()),
        host: Some("127.0.0.1".to_string()),
        secret: Some("s\u{00e9}cret".to_string()),
        admin_name: Some("root".to_string()),
        admin_pass: Some("hunter2".to_string()),
        api_token: Some("tok".to_string()),
    });
    assert_eq!(config.address(), "127.0.0.1:9000");
    assert_eq!(config.secret, "s\u{00e9}cret".as_bytes().to_vec());
    assert_eq!(config.admin_name, "root");
    assert_eq!(config.admin_pass, "hunter2");
    assert_eq!(config.api_token, "tok");
    assert!(!config.default_admin_name && !config.default_admin_pass && !config.default_api_token);
}

#[test]
fn admin_password_has_its_own_override() {
    let mut overrides = unset();
    overrides.admin_name = Some("root".to_string());
    let config = Config::resolve(overrides);
    assert_eq!(config.admin_name, "root");
    assert_eq!(config.admin_pass, "averyhardpass");
    assert!(config.default_admin_pass);
}

#[test]
fn configured_token_is_the_registry_secret() {
    let mut overrides = unset();
    overrides.api_token = Some("tok".to_string());
    let registry = Config::resolve(overrides).token_registry();
    assert!(registry.check("tok"));
    assert!(!registry.check("easytoken"));
    assert!(matches!(token_auth(Some("Bearer tok"), &registry), Decision::Forward));
}

#[test]
fn guards_of_the_routes() {
    assert_eq!(guard_of("/auth/login"), Some(Guard::Public));
    assert_eq!(guard_of("/auth/logout"), Some(Guard::Public));
    assert_eq!(guard_of("/test"), Some(Guard::Public));
    assert_eq!(guard_of("/secure"), Some(Guard::Session));
    assert_eq!(guard_of("/secure/check"), Some(Guard::Session));
    assert_eq!(guard_of("/secure/services"), Some(Guard::Session));
    assert_eq!(guard_of("/secure/services/by-server"), Some(Guard::Session));
    assert_eq!(guard_of("/secure/services/"), None);
    assert_eq!(guard_of("/api"), Some(Guard::Token));
    assert_eq!(guard_of("/"), None);
    assert_eq!(guard_of("/secure/"), None);
    assert_eq!(guard_of("/API"), None);
    assert_eq!(guard_of(""), None);
}

#[test]
fn small_handlers_answer() {
    let alice = Identity { name: "alice".to_string() };
    assert_eq!(cyberdeck::routes::test(), "Hello");
    assert_eq!(protected(&alice), r#"{"user":"Logged in as: alice"}"#);
    assert_eq!(check_cookie(&alice), r#"{"user":"alice"}"#);
    assert_eq!(
        api_test(),
        r#"{"result":"ok","message":"You've reached the backend API by using a valid token."}"#
    );
    assert_eq!(handle_error(), (500, "Something went wrong accessing static files..."));
}

#[test]
fn schema_has_four_reversible_steps() {
    let steps = migrations();
    assert_eq!(steps.len(), 4);
    assert_eq!(steps[1].up, "CREATE TABLE sessions(id TEXT PRIMARY KEY, payload BLOB);");
    assert_eq!(steps[1].down, "DROP TABLE sessions;");
    assert_eq!(steps[2].up, "CREATE TABLE tokens(id TEXT PRIMARY KEY);");
    assert!(steps.iter().all(|step| step.down.starts_with("DROP TABLE ")));
    assert_eq!(services_sql(), "SELECT name, server, status FROM services");
    assert!(upsert_service_sql().starts_with("INSERT INTO services"));
}

#[test]
fn user_is_described_without_its_hash() {
    let user = User { id: 12, name: "alice".to_string(), hash: "$argon2id$x".to_string() };
    assert_eq!(user.describe(), "(12, alice)");
    let negative = User { id: -7, name: "".to_string(), hash: String::new() };
    assert_eq!(negative.describe(), "(-7, )");
}

#[test]
fn decimals_are_exact() {
    let render = |n: i64| {
        let mut out = String::from("n=");
        push_signed_decimal(&mut out, n);
        out
    };
    assert_eq!(render(0), "n=0");
    assert_eq!(render(9), "n=9");
    assert_eq!(render(10), "n=10");
    assert_eq!(render(-1), "n=-1");
    assert_eq!(render(1234567890), "n=1234567890");
    assert_eq!(render(i64::MAX), "n=9223372036854775807");
    assert_eq!(render(i64::MIN), "n=-9223372036854775808");
    let mut out = String::new();
    push_decimal(&mut out, u64::MAX);
    assert_eq!(out, "18446744073709551615");
}

#[test]
fn separators_are_the_five_ascii_ones() {
    for c in [' ', '\t', '\n', '\u{0C}', '\r'] {
        assert!(ascii_space(c));
    }
    for c in ['a', '\u{0B}', '\u{00A0}', '\u{2003}', '0'] {
        assert!(!ascii_space(c));
    }
}

#[test]
fn last_token_span_finds_the_trailing_piece() {
    let chars = chars_of("ab  cd e  ");
    assert_eq!(chars.len(), 10);
    assert_eq!(last_token_span(&chars, 0), Some((7, 8)));
    assert_eq!(last_token_span(&chars, 8), None);
    assert_eq!(last_token_span(&chars, 10), None);
    let word = chars_of("token");
    assert_eq!(last_token_span(&word, 0), Some((0, 5)));
    assert_eq!(last_token_span(&word, 2), Some((2, 5)));
    assert_eq!(chars_of("h\u{00e9}"), vec!['h', '\u{00e9}']);
}

#[test]
fn services_by_name_keeps_the_last_of_each_name() {
    let rows = vec![
        service("Cyberdeck", "Main", 1),
        service("Fixer", "Main", 1),
        service("Cyberdeck", "Edge", 0),
    ];
    let listing = services_by_name(&rows);
    assert_eq!(listing.len(), 2);
    let deck = listing.iter().find(|s| s.name == "Cyberdeck").unwrap();
    assert_eq!(deck.server, "Edge");
    assert_eq!(deck.status, 0);
    let fixer = listing.iter().find(|s| s.name == "Fixer").unwrap();
    assert_eq!(fixer.server, "Main");
    assert!(services_by_name(&Vec::new()).is_empty());
}

#[test]
fn services_by_server_groups_in_row_order() {
    let rows = vec![
        service("Cyberdeck", "Main", 1),
        service("Relay", "Edge", 0),
        service("Fixer", "Main", 1),
    ];
    let groups = services_by_server(&rows);
    assert_eq!(groups.len(), 2);
    let main = groups.iter().find(|g| g.server == "Main").unwrap();
    let names: Vec<&str> = main.services.iter().map(|s| s.name.as_str()).collect();
    assert_eq!(names, vec!["Cyberdeck", "Fixer"]);
    let edge = groups.iter().find(|g| g.server == "Edge").unwrap();
    assert_eq!(edge.services.len(), 1);
    assert_eq!(edge.services[0].name, "Relay");
    assert!(services_by_server(&Vec::new()).is_empty());
}

#[test]
fn service_handlers_answer_a_failed_fetch_uniformly() {
    for reply in [
        get_services(&Err("locked".to_string())),
        get_services_by_server(&Err("locked".to_string())),
    ] {
        match reply {
            ServiceReply::Failed { message } => assert_eq!(message, "Error Getting Services From DB"),
            _ => panic!("expected a failure"),
        }
    }
    assert!(matches!(get_services(&Ok(vec![service("a", "b", 1)])), ServiceReply::ByName { services } if services.len() == 1));
    assert!(matches!(get_services_by_server(&Ok(vec![service("a", "b", 1)])), ServiceReply::ByServer { groups } if groups.len() == 1));
    assert_eq!(Service::default().status, 0);
}

#[test]
fn session_from_parts_checks_its_invariant() {
    let fresh = Session::new();
    let id = fresh.id().to_string();
    let cookie = fresh.into_cookie_value().unwrap();
    let pair = |k: &str, v: &str| (k.to_string(), v.to_string());
    let ok = Session::from_parts(id.clone(), vec![pair("a", "1"), pair("b", "2")], Some(cookie.clone())).unwrap();
    assert_eq!(ok.id(), id);
    assert_eq!(ok.entries(), vec![pair("a", "1"), pair("b", "2")]);
    assert_eq!(ok.cookie_value(), Some(cookie.clone()));
    assert!(Session::from_parts(id.clone(), vec![pair("a", "1"), pair("a", "2")], None).is_none());
    assert!(Session::from_parts("other".to_string(), Vec::new(), Some(cookie)).is_none());
    assert!(Session::from_parts(id.clone(), Vec::new(), Some("not base64!".to_string())).is_none());
    assert!(Session::from_parts(id, Vec::new(), None).is_some());
}
