use type_more::{HashedPassword, RawPassword, TypeMoreError};

fn parse_message(e: &TypeMoreError) -> String {
    match e {
        TypeMoreError::ParseError(m) => m.clone(),
        TypeMoreError::UnhandledError(m) => panic!("unexpected unhandled error: {}", m),
    }
}

#[test]
fn weak_tier_needs_eight_bytes() {
    let err = RawPassword::new_weak("abcdefg").err().unwrap();
    assert_eq!(parse_message(&err), "invalid weak password");
    let ok = RawPassword::new_weak("abcdefgh").ok().unwrap();
    assert_eq!(ok.get_strength(), "weak");
    // four two-byte characters make eight bytes
    assert!(RawPassword::new_weak("éééé").is_ok());
    assert!(RawPassword::new_weak("ééé").is_err());
}

// The tiers refuse a password only when it fails every requirement, so an
// eight-letter password without digit or capital is accepted by the strong
// tier, and every accepted password is recorded as weak.
#[test]
fn tiers_refuse_only_when_every_check_fails() {
    let strong = RawPassword::new_strong("abcdefgh").ok().unwrap();
    assert_eq!(strong.get_strength(), "weak");
    assert_eq!(
        parse_message(&RawPassword::new_strong("abcdefg").err().unwrap()),
        "invalid strong password"
    );
    assert!(RawPassword::new_strong("Abc").is_ok());
    assert!(RawPassword::new_strong("abc1").is_ok());
    assert!(RawPassword::new_strong("ÀBC").is_ok());

    assert!(RawPassword::new_moderate("abc1").is_ok());
    assert_eq!(
        parse_message(&RawPassword::new_moderate("Abcdefg").err().unwrap()),
        "invalid moderate password"
    );
    assert!(RawPassword::new_moderate("abcdefgh").is_ok());

    assert_eq!(
        parse_message(&RawPassword::new_extreme("abcdefghi").err().unwrap()),
        "invalid extreme password"
    );
    assert!(RawPassword::new_extreme("abcdefghij").is_ok());
    assert!(RawPassword::new_extreme("a#").is_ok());
    assert!(RawPassword::new_extreme("a`").is_ok());
    assert!(RawPassword::new_extreme("A").is_ok());
    assert!(RawPassword::new_extreme("7").is_ok());
    assert!(RawPassword::new_extreme("a!").is_err());
    assert_eq!(RawPassword::new_extreme("Ab1#").ok().unwrap().get_strength(), "weak");
}

#[test]
fn digest_verifies_its_secret_only() {
    let hashed = HashedPassword::new("correct horse", Some(4)).ok().unwrap();
    assert_eq!(hashed.to_string().len(), 60);
    assert!(hashed.to_string().starts_with("$2b$04$"));
    assert!(hashed.verify("correct horse").unwrap());
    assert!(!hashed.verify("wrong horse").unwrap());
}

#[test]
fn digests_are_salted() {
    let a = HashedPassword::new("secret", Some(4)).ok().unwrap();
    let b = HashedPassword::new("secret", Some(4)).ok().unwrap();
    assert_ne!(a.to_string(), b.to_string());
    assert!(a.verify("secret").unwrap());
    assert!(b.verify("secret").unwrap());
}

#[test]
fn cost_outside_range_is_refused() {
    assert!(HashedPassword::new("secret", Some(3)).is_err());
    assert!(HashedPassword::new("secret", Some(32)).is_err());
}

#[test]
fn raw_password_hashes_at_default_cost() {
    let raw = RawPassword::new_weak("password123").ok().unwrap();
    let hashed = raw.hash_bcrypt().ok().unwrap();
    let digest = hashed.to_string();
    assert_eq!(digest.len(), 60);
    assert!(digest.starts_with("$2b$12$"));
}
