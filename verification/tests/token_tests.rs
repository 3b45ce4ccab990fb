use cyberdeck::error::Decision;
use cyberdeck::token::bearer_token;
use cyberdeck::token::token_auth;
use cyberdeck::token::token_auth_after_lookup;
use cyberdeck::token::token_lookup;
use cyberdeck::token::TokenRegistry;

fn is_unauthorized(decision: &Decision) -> bool {
    match decision {
        Decision::Forward => false,
        Decision::Reject(rejection) => {
            rejection.status == 401 && rejection.body.error == "Unauthorized"
        }
    }
}

#[test]
fn bearer_token_takes_the_trailing_piece() {
    assert_eq!(bearer_token("Bearer easytoken"), Some("easytoken".to_string()));
    assert_eq!(bearer_token("Bearer   easytoken  "), Some("easytoken".to_string()));
    assert_eq!(bearer_token("Bearer first second"), Some("second".to_string()));
    assert_eq!(bearer_token("Bearer \ttab\r\n"), Some("tab".to_string()));
}

#[test]
fn bearer_token_refuses_malformed_headers() {
    assert_eq!(bearer_token("garbage"), None);
    assert_eq!(bearer_token(""), None);
    assert_eq!(bearer_token("Bearer"), None);
    assert_eq!(bearer_token("Bearer "), None);
    assert_eq!(bearer_token("Bearer    "), None);
    assert_eq!(bearer_token("bearer easytoken"), None);
    assert_eq!(bearer_token("Basic easytoken"), None);
    assert_eq!(bearer_token(" Bearer easytoken"), None);
}

#[test]
fn bearer_token_keeps_non_ascii_characters() {
    assert_eq!(bearer_token("Bearer t\u{00e9}l\u{00e9}"), Some("t\u{00e9}l\u{00e9}".to_string()));
}

#[test]
fn shared_secret_is_compared_exactly() {
    let registry = TokenRegistry::SharedSecret("easytoken".to_string());
    assert!(registry.check("easytoken"));
    assert!(!registry.check("easytoke"));
    assert!(!registry.check("easytokens"));
    assert!(!registry.check("EASYTOKEN"));
    assert!(!registry.check(""));
}

#[test]
fn empty_secret_accepts_nothing() {
    let registry = TokenRegistry::SharedSecret(String::new());
    assert!(!registry.check(""));
}

#[test]
fn token_set_checks_existence() {
    let registry = TokenRegistry::TokenSet(vec!["one".to_string(), "two".to_string()]);
    assert!(registry.check("one"));
    assert!(registry.check("two"));
    assert!(!registry.check("three"));
    assert!(!registry.check("on"));
    assert!(!registry.check(""));
    assert!(!TokenRegistry::TokenSet(Vec::new()).check("one"));
}

#[test]
fn token_middleware_forwards_a_valid_token() {
    let registry = TokenRegistry::SharedSecret("easytoken".to_string());
    assert!(matches!(token_auth(Some("Bearer easytoken"), &registry), Decision::Forward));
    let set = TokenRegistry::TokenSet(vec!["easytoken".to_string()]);
    assert!(matches!(token_auth(Some("Bearer easytoken"), &set), Decision::Forward));
}

#[test]
fn token_middleware_rejects_everything_else() {
    let registry = TokenRegistry::SharedSecret("easytoken".to_string());
    assert!(is_unauthorized(&token_auth(Some("Bearer wrongtoken"), &registry)));
    assert!(is_unauthorized(&token_auth(None, &registry)));
    assert!(is_unauthorized(&token_auth(Some("garbage"), &registry)));
    assert!(is_unauthorized(&token_auth(Some("easytoken"), &registry)));
}

#[test]
fn token_lookup_rejects_before_any_lookup() {
    assert_eq!(token_lookup(Some("Bearer abc")).ok(), Some("abc".to_string()));
    let missing = token_lookup(None).err().unwrap();
    assert_eq!(missing.status, 401);
    assert_eq!(missing.body.error, "Unauthorized");
    let malformed = token_lookup(Some("garbage")).err().unwrap();
    assert_eq!(malformed.status, 401);
    assert_eq!(malformed.body.error, "Unauthorized");
}

#[test]
fn failed_token_lookup_denies_access() {
    let failed = token_auth_after_lookup(Some("Bearer easytoken"), Err("disk I/O error".to_string()));
    assert!(is_unauthorized(&failed));
    match failed {
        Decision::Reject(rejection) => {
            assert_eq!(rejection.body_json(), r#"{"error":"Unauthorized"}"#)
        }
        Decision::Forward => panic!("expected a rejection"),
    }
}

#[test]
fn token_lookup_rows_decide() {
    let rows = |tokens: &[&str]| Ok(tokens.iter().map(|t| t.to_string()).collect::<Vec<String>>());
    assert!(matches!(
        token_auth_after_lookup(Some("Bearer easytoken"), rows(&["easytoken"])),
        Decision::Forward
    ));
    assert!(is_unauthorized(&token_auth_after_lookup(Some("Bearer easytoken"), rows(&[]))));
    assert!(is_unauthorized(&token_auth_after_lookup(Some("Bearer easytoken"), rows(&["other"]))));
    assert!(is_unauthorized(&token_auth_after_lookup(Some("garbage"), rows(&["garbage"]))));
    assert!(is_unauthorized(&token_auth_after_lookup(None, rows(&["easytoken"]))));
}
