use cyberdeck::user::hash_check_passes;
use cyberdeck::user::verify;
use cyberdeck::user::User;
use cyberdeck::user::UserMapper;

#[test]
fn new_user_holds_a_hash_and_not_the_password() {
    let user = User::new("alice", "secret123", 7).unwrap();
    assert_eq!(user.id, 7);
    assert_eq!(user.name, "alice");
    assert!(user.hash.starts_with("$argon2id$v=19$"));
    assert!(!user.hash.contains("secret123"));
}

#[test]
fn provisioned_password_verifies() {
    let user = User::new("alice", "secret123", 1).unwrap();
    assert!(verify("secret123", &user.hash));
}

#[test]
fn other_passwords_do_not_verify() {
    let user = User::new("alice", "secret123", 1).unwrap();
    assert!(!verify("wrong", &user.hash));
    assert!(!verify("", &user.hash));
    assert!(!verify("secret1234", &user.hash));
    assert!(!verify("Secret123", &user.hash));
}

#[test]
fn each_hash_has_its_own_salt() {
    let first = User::new("alice", "secret123", 1).unwrap();
    let second = User::new("alice", "secret123", 1).unwrap();
    assert_ne!(first.hash, second.hash);
    assert!(verify("secret123", &first.hash));
    assert!(verify("secret123", &second.hash));
}

#[test]
fn malformed_stored_hash_fails_closed() {
    assert!(!verify("secret123", ""));
    assert!(!verify("secret123", "secret123"));
    assert!(!verify("secret123", "not a hash"));
    assert!(!verify("secret123", "$argon2id$v=19$m=19456,t=2,p=1$"));
}

#[test]
fn reference_hash_verifies_its_password() {
    let stored = "$argon2id$v=19$m=256,t=2,p=1$c29tZXNhbHQ$nf65EOgLrQMR/uIPnA4rEsF5h7TKyQwu9U1bMCHGi/4";
    assert!(verify("password", stored));
    assert!(!verify("passw0rd", stored));
    assert!(!verify("password ", stored));
    let other_digest = "$argon2id$v=19$m=256,t=2,p=1$c29tZXNhbHQ$bQk8UB/VmZZF4Oo79iDXuL5/0ttZwg2f/5U52iv1cDc";
    assert!(!verify("password", other_digest));
}

#[test]
fn empty_password_can_be_provisioned_and_verified() {
    let user = User::new("nobody", "", 3).unwrap();
    assert!(verify("", &user.hash));
    assert!(!verify(" ", &user.hash));
}

#[test]
fn only_a_matching_well_formed_hash_passes() {
    assert!(hash_check_passes(Some(true)));
    assert!(!hash_check_passes(Some(false)));
    assert!(!hash_check_passes(None));
}

#[test]
fn mapper_builds_the_user_of_a_row() {
    let user = UserMapper::map(4, "carol".to_string(), "$hash".to_string());
    assert_eq!(user.id, 4);
    assert_eq!(user.name, "carol");
    assert_eq!(user.hash, "$hash");
    assert_eq!(user.get_id(), 4);
    assert_eq!(user.get_password_hash(), b"$hash".to_vec());
}

#[test]
fn default_user_is_empty() {
    let user = User::default();
    assert_eq!(user.id, 0);
    assert_eq!(user.name, "");
    assert_eq!(user.hash, "");
}
