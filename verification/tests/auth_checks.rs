use securepad::auth::{hash_password, password_acceptable, password_matches, passwords_agree};

#[test]
fn hashing_matches_the_published_sha256_vectors() {
    assert_eq!(
        hash_password("abc").as_str(),
        "ba7816bf8f01cfea414140de5dae2223b00361a396177a9cb410ff61f20015ad"
    );
    assert_eq!(
        hash_password("").as_str(),
        "e3b0c44298fc1c149afbf4c8996fb92427ae41e4649b934ca495991b7852b855"
    );
}

#[test]
fn the_right_password_matches_its_stored_hash() {
    let stored = hash_password("open sesame");
    assert!(password_matches("open sesame", stored.as_str()));
}

#[test]
fn a_wrong_password_does_not_match() {
    let stored = hash_password("open sesame");
    assert!(!password_matches("open sesame!", stored.as_str()));
    assert!(!password_matches("", stored.as_str()));
}

#[test]
fn blank_passwords_are_rejected_at_setup() {
    assert!(!password_acceptable(""));
    assert!(!password_acceptable("   "));
    assert!(!password_acceptable(" \t "));
    assert!(password_acceptable("a"));
    assert!(password_acceptable("  a  "));
}

#[test]
fn confirmation_must_repeat_the_password_exactly() {
    assert!(passwords_agree("pw", "pw"));
    assert!(!passwords_agree("pw", "pw "));
    assert!(!passwords_agree("pw", "PW"));
}
