use prismoire::federation::trust_code::{
    decode_hex32, encode_hex32, mint, parse, TrustCodeError, MAX_DISPLAY_NAME_LEN, PREFIX,
};

fn key(seed: u8) -> [u8; 32] {
    [seed; 32]
}

#[test]
fn round_trips() {
    let code = mint("alice", "example.com", &key(0xab), &key(0xcd));
    let parsed = parse(&code).expect("round-trips");
    assert_eq!(parsed.display_name, "alice");
    assert_eq!(parsed.home_domain, "example.com");
    assert_eq!(parsed.user_pubkey, key(0xab));
    assert_eq!(parsed.instance_pubkey, key(0xcd));
}

#[test]
fn round_trips_with_port() {
    let code = mint("bob", "host.local:8443", &key(1), &key(2));
    let parsed = parse(&code).expect("port domain round-trips");
    assert_eq!(parsed.home_domain, "host.local:8443");
    assert_eq!(parsed.user_pubkey, key(1));
    assert_eq!(parsed.instance_pubkey, key(2));
}

#[test]
fn round_trips_bracketed_ipv6() {
    let code = mint("carol", "[2001:db8::1]:443", &key(3), &key(4));
    let parsed = parse(&code).expect("ipv6 domain round-trips");
    assert_eq!(parsed.home_domain, "[2001:db8::1]:443");
}

#[test]
fn tolerates_surrounding_whitespace() {
    let code = mint("dave", "example.com", &key(5), &key(6));
    let padded = format!("  \n{code}\t ");
    assert_eq!(parse(&padded).unwrap().display_name, "dave");
}

#[test]
fn rejects_missing_prefix() {
    let code = mint("erin", "example.com", &key(7), &key(8));
    let no_prefix = code.strip_prefix(PREFIX).unwrap();
    assert_eq!(parse(no_prefix), Err(TrustCodeError::MissingPrefix));
}

#[test]
fn rejects_truncated_tail() {
    let code = mint("frank", "example.com", &key(9), &key(10));
    // Lop off the last 5 chars of the instance pubkey.
    let truncated = &code[..code.len() - 5];
    assert!(matches!(
        parse(truncated),
        Err(TrustCodeError::BadHex | TrustCodeError::Malformed)
    ));
}

#[test]
fn rejects_uppercase_hex() {
    let mut code = mint("grace", "example.com", &key(0x0a), &key(0x0b));
    code = code.to_uppercase(); // also uppercases the prefix
    let fixed = format!("{PREFIX}{}", &code[PREFIX.len()..]);
    assert_eq!(parse(&fixed), Err(TrustCodeError::BadHex));
}

#[test]
fn rejects_non_hex_in_key() {
    let user = encode_hex32(&key(1));
    let bad = format!(
        "{PREFIX}heidi@example.com:{}@{}",
        &user[..63],
        "zz".repeat(32)
    );
    assert_eq!(parse(&bad), Err(TrustCodeError::BadHex));
}

#[test]
fn rejects_empty_name() {
    let code = mint("", "example.com", &key(1), &key(2));
    assert_eq!(parse(&code), Err(TrustCodeError::BadName));
}

#[test]
fn rejects_control_char_in_name() {
    let code = mint("ev\u{7}il", "example.com", &key(1), &key(2));
    assert_eq!(parse(&code), Err(TrustCodeError::BadName));
}

#[test]
fn rejects_overlong_name() {
    let long = "a".repeat(MAX_DISPLAY_NAME_LEN + 1);
    let code = mint(&long, "example.com", &key(1), &key(2));
    assert_eq!(parse(&code), Err(TrustCodeError::BadName));
}

#[test]
fn rejects_bad_domain() {
    let code = mint("ivan", "example.com/evil", &key(1), &key(2));
    assert_eq!(parse(&code), Err(TrustCodeError::BadDomain));
}

#[test]
fn rejects_missing_domain() {
    let user = encode_hex32(&key(1));
    let inst = encode_hex32(&key(2));
    let bad = format!("{PREFIX}justname:{user}@{inst}");
    assert_eq!(parse(&bad), Err(TrustCodeError::Malformed));
}

#[test]
fn name_with_unicode_letters_ok() {
    let code = mint("José", "example.com", &key(1), &key(2));
    assert_eq!(parse(&code).unwrap().display_name, "José");
}

#[test]
fn a_code_reads_as_documented() {
    let code = mint("alice", "example.com", &key(0xab), &key(0x01));
    assert_eq!(
        code,
        format!(":trust:alice@example.com:{}@{}", "ab".repeat(32), "01".repeat(32))
    );
    assert_eq!(encode_hex32(&key(0x0f)), "0f".repeat(32));
    assert_eq!(decode_hex32(&"0f".repeat(32)), Some(key(0x0f)));
    assert_eq!(decode_hex32(&"0F".repeat(32)), None);
    assert_eq!(decode_hex32("0f"), None);
}

#[test]
fn a_cut_through_a_letter_is_malformed() {
    let tail = format!("{}@{}", "a".repeat(63), "b".repeat(64));
    let bad = format!("{PREFIX}é{tail}");
    assert!(parse(&bad).is_err());
}

#[test]
fn errors_say_what_is_wrong() {
    for e in [
        TrustCodeError::MissingPrefix,
        TrustCodeError::Malformed,
        TrustCodeError::BadHex,
        TrustCodeError::BadName,
        TrustCodeError::BadDomain,
    ] {
        assert!(!e.as_str().is_empty());
    }
}
