use chat_cli::jwt::{b64_decode, b64_encode, decode_claims, install_token, parse_token};
use chat_cli::chars::chars_of;
use chat_cli::session::{RenewOutcome, Role, Session, User};
use jsonwebtoken::crypto::sign;
use jsonwebtoken::{Algorithm, EncodingKey};

/// base64url without padding, as JWT segments are written.
fn b64url(data: &[u8]) -> String {
    b64_encode(data).into_iter().collect()
}

/// A signed token over the given claim-set JSON.
fn mint(claims_json: &str, secret: &[u8]) -> String {
    let header = "{\"alg\":\"HS256\",\"typ\":\"JWT\"}";
    let message = format!("{}.{}", b64url(header.as_bytes()), b64url(claims_json.as_bytes()));
    let sig = sign(message.as_bytes(), &EncodingKey::from_secret(secret), Algorithm::HS256)
        .expect("signing works");
    format!("{}.{}", message, sig)
}

fn alice_claims(exp: i64) -> String {
    format!(
        "{{\"id\":1,\"name\":\"alice\",\"email\":null,\"phone\":null,\"dgraph_uid\":\"0x1\",\"role\":\"User\",\"exp\":{}}}",
        exp
    )
}

const FAR_FUTURE: i64 = 33_000_000_000;

#[test]
fn base64url_round_trips() {
    for bytes in [b"".to_vec(), b"a".to_vec(), b"ab".to_vec(), b"abc".to_vec(), vec![0, 255, 7, 128]] {
        let encoded = b64_encode(&bytes);
        assert_eq!(b64_decode(&encoded), Some(bytes));
    }
    assert_eq!(b64url(b"hello"), "aGVsbG8");
}

#[test]
fn base64url_decodes_known_vectors() {
    let d = b64_decode(&chars_of("aGVsbG8")).expect("valid");
    assert_eq!(d, b"hello".to_vec());
    assert_eq!(b64_decode(&chars_of("")), Some(Vec::new()));
    assert_eq!(b64_decode(&chars_of("QQ")), Some(vec![b'A']));
    assert_eq!(b64_decode(&chars_of("QUI")), Some(vec![b'A', b'B']));
    // one leftover character can never be a byte
    assert_eq!(b64_decode(&chars_of("Q")), None);
    // '+' belongs to plain base64, not base64url
    assert_eq!(b64_decode(&chars_of("Q+Q=")), None);
    // padding bits must be clear
    assert_eq!(b64_decode(&chars_of("QR")), None);
}

#[test]
fn claims_decode_from_a_token() {
    let token = mint(&alice_claims(FAR_FUTURE), b"abc");
    let u = decode_claims(&token).expect("claims decode");
    assert_eq!(u.id, 1);
    assert_eq!(u.name, "alice");
    assert_eq!(u.email, None);
    assert_eq!(u.phone, None);
    assert_eq!(u.dgraph_uid, "0x1");
    assert_eq!(u.role, Role::User);
    assert_eq!(u.exp, FAR_FUTURE);
}

#[test]
fn claims_with_all_fields_decode() {
    let json = "{\"id\":7,\"name\":\"bo b\",\"email\":\"b@x.y\",\"phone\":\"1\",\"dgraph_uid\":\"0x7\",\"role\":\"Admin\",\"exp\":2}";
    let token = format!("h.{}.s", b64url(json.as_bytes()));
    let u = decode_claims(&token).expect("claims decode");
    assert_eq!(u.id, 7);
    assert_eq!(u.name, "bo b");
    assert_eq!(u.email.as_deref(), Some("b@x.y"));
    assert_eq!(u.phone.as_deref(), Some("1"));
    assert_eq!(u.role, Role::Admin);
}

#[test]
fn claims_with_multibyte_text_decode() {
    let json = "{\"id\":9,\"name\":\"张三\",\"email\":null,\"phone\":null,\"dgraph_uid\":\"0x9\",\"role\":\"User\",\"exp\":5}";
    let token = format!("h.{}.s", b64url(json.as_bytes()));
    let u = decode_claims(&token).expect("claims decode");
    assert_eq!(u.name, "张三");
}

#[test]
fn parse_token_accepts_a_fresh_signed_token() {
    let token = mint(&alice_claims(FAR_FUTURE), b"abc");
    let u = parse_token(&token, b"abc").expect("valid token");
    assert_eq!(u.name, "alice");
}

#[test]
fn parse_token_refuses_wrong_secret_and_expiry() {
    let token = mint(&alice_claims(FAR_FUTURE), b"abc");
    assert!(parse_token(&token, b"other").is_err());
    let expired = mint(&alice_claims(1000), b"abc");
    assert!(parse_token(&expired, b"abc").is_err());
    assert!(parse_token("not-a-token", b"abc").is_err());
}

#[test]
fn store_is_all_or_nothing() {
    let mut s = Session::empty();
    assert!(s.snapshot().is_none());
    assert!(s.is_cleared());
    let mut u = User::default();
    u.id = 1;
    u.name = "alice".to_string();
    s.set(u, "T1".to_string());
    let (user, token) = s.snapshot().expect("populated");
    assert_eq!(user.name, "alice");
    assert_eq!(token, "T1");
    assert!(!s.is_cleared());
    s.clear();
    assert!(s.snapshot().is_none());
    assert!(s.is_cleared());
}

#[test]
fn token_is_always_the_last_issued_one() {
    let mut s = Session::empty();
    let mut u = User::default();
    u.name = "a".to_string();
    s.apply_renewal(RenewOutcome::Issued { user: u, token: "T1".to_string() });
    assert_eq!(s.snapshot().unwrap().1, "T1");
    // a failed renewal never installs its candidate
    s.apply_renewal(RenewOutcome::Failed);
    assert_eq!(s.snapshot().unwrap().1, "T1");
    let mut u2 = User::default();
    u2.name = "b".to_string();
    s.apply_renewal(RenewOutcome::Issued { user: u2, token: "T2".to_string() });
    let (user, token) = s.snapshot().unwrap();
    assert_eq!(token, "T2");
    assert_eq!(user.name, "b");
}

#[test]
fn login_then_renew_swaps_claims_and_token_together() {
    let t1 = mint(&alice_claims(FAR_FUTURE), b"abc");
    let json2 = "{\"id\":1,\"name\":\"alice\",\"email\":null,\"phone\":null,\"dgraph_uid\":\"0x1\",\"role\":\"User\",\"exp\":33000000001}";
    let t2 = mint(json2, b"abc");

    let mut s = Session::empty();
    match install_token(&mut s, t1.clone(), b"abc") {
        RenewOutcome::Issued { .. } => {}
        RenewOutcome::Failed => panic!("first login must succeed"),
    }
    {
        let (user, token) = s.snapshot().expect("populated");
        assert_eq!(user.exp, FAR_FUTURE);
        assert_eq!(*token, t1);
    }
    match install_token(&mut s, t2.clone(), b"abc") {
        RenewOutcome::Issued { .. } => {}
        RenewOutcome::Failed => panic!("renewal must succeed"),
    }
    {
        let (user, token) = s.snapshot().expect("populated");
        // the new claims arrived together with the new token
        assert_eq!(user.exp, 33_000_000_001);
        assert_eq!(*token, t2);
    }
    // a renewal that does not check out leaves the old pair alone
    match install_token(&mut s, "garbage".to_string(), b"abc") {
        RenewOutcome::Failed => {}
        RenewOutcome::Issued { .. } => panic!("garbage must be refused"),
    }
    let (user, token) = s.snapshot().expect("still populated");
    assert_eq!(user.exp, 33_000_000_001);
    assert_eq!(*token, t2);
}
