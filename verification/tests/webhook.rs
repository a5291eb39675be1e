use billing_gateway::webhook::{parse_i64, sign_payload, timing_safe_eq, verify_webhook_signature};
use billing_gateway::ApiError;
use hmac::Mac;

const SECRET: &[u8] = b"whsec_test_secret";
const PAYLOAD: &[u8] = b"{\"type\":\"customer.subscription.updated\",\"data\":{\"object\":{}}}";
const T: i64 = 1700000000;

fn signed_header(payload: &[u8], secret: &[u8], t: i64) -> Vec<u8> {
    sign_payload(payload, secret, t)
}

#[test]
fn fresh_signature_verifies() {
    let header = signed_header(PAYLOAD, SECRET, T);
    let r = verify_webhook_signature(PAYLOAD, &header, SECRET, T + 100);
    assert_eq!(r.unwrap(), true);
}

#[test]
fn signature_at_window_edge_verifies() {
    let header = signed_header(PAYLOAD, SECRET, T);
    assert_eq!(verify_webhook_signature(PAYLOAD, &header, SECRET, T + 300).unwrap(), true);
    assert_eq!(verify_webhook_signature(PAYLOAD, &header, SECRET, T - 300).unwrap(), true);
}

#[test]
fn stale_signature_is_rejected() {
    let header = signed_header(PAYLOAD, SECRET, T);
    assert_eq!(verify_webhook_signature(PAYLOAD, &header, SECRET, T + 301).unwrap(), false);
    assert_eq!(verify_webhook_signature(PAYLOAD, &header, SECRET, T - 301).unwrap(), false);
}

#[test]
fn wrong_secret_is_rejected() {
    let header = signed_header(PAYLOAD, b"whsec_other_secret", T);
    assert_eq!(verify_webhook_signature(PAYLOAD, &header, SECRET, T).unwrap(), false);
}

#[test]
fn tampered_payload_is_rejected() {
    let header = signed_header(PAYLOAD, SECRET, T);
    let mut tampered = PAYLOAD.to_vec();
    tampered[0] = b' ';
    assert_eq!(verify_webhook_signature(&tampered, &header, SECRET, T).unwrap(), false);
}

#[test]
fn any_matching_candidate_suffices() {
    let good = signed_header(PAYLOAD, SECRET, T);
    // good ends with "v1=<hex>"; build a header with a bogus candidate first
    let mut header = format!("t={},v1={}", T, "0".repeat(64)).into_bytes();
    let good_str = String::from_utf8(good.clone()).unwrap();
    let sig = good_str.split("v1=").nth(1).unwrap();
    header.extend_from_slice(format!(",v1={}", sig).as_bytes());
    assert_eq!(verify_webhook_signature(PAYLOAD, &header, SECRET, T).unwrap(), true);

    // and with the bogus candidate last
    let header2 = format!("t={},v1={},v1={}", T, sig, "0".repeat(64)).into_bytes();
    assert_eq!(
        verify_webhook_signature(PAYLOAD, &header2, SECRET, T).unwrap(),
        true
    );
}

#[test]
fn no_matching_candidate_fails() {
    let header = format!("t={},v1={},v1={}", T, "0".repeat(64), "f".repeat(64)).into_bytes();
    assert_eq!(verify_webhook_signature(PAYLOAD, &header, SECRET, T).unwrap(), false);
}

#[test]
fn missing_timestamp_is_bad_request() {
    let r = verify_webhook_signature(PAYLOAD, b"v1=abcdef", SECRET, T);
    match r {
        Err(ApiError::BadRequest(m)) => assert_eq!(m, "Missing timestamp"),
        other => panic!("expected BadRequest, got {:?}", other),
    }
}

#[test]
fn missing_signature_is_bad_request() {
    let r = verify_webhook_signature(PAYLOAD, b"t=1700000000", SECRET, T);
    match r {
        Err(ApiError::BadRequest(m)) => assert_eq!(m, "Missing signature"),
        other => panic!("expected BadRequest, got {:?}", other),
    }
}

#[test]
fn empty_header_is_bad_request() {
    let r = verify_webhook_signature(PAYLOAD, b"", SECRET, T);
    assert!(matches!(r, Err(ApiError::BadRequest(_))));
}

#[test]
fn non_numeric_timestamp_is_bad_request() {
    let r = verify_webhook_signature(PAYLOAD, b"t=abc,v1=ff", SECRET, T);
    match r {
        Err(ApiError::BadRequest(m)) => assert_eq!(m, "Invalid timestamp"),
        other => panic!("expected BadRequest, got {:?}", other),
    }
}

#[test]
fn unrecognized_fields_are_ignored() {
    let good = signed_header(PAYLOAD, SECRET, T);
    let good_str = String::from_utf8(good).unwrap();
    let sig = good_str.split("v1=").nth(1).unwrap();
    let header = format!("a=b, t={} , v0=zzz, v1={}", T, sig);
    assert_eq!(
        verify_webhook_signature(PAYLOAD, header.as_bytes(), SECRET, T).unwrap(),
        true
    );
}

#[test]
fn later_timestamp_field_wins() {
    // sign at T, but prepend a decoy t= field: the last t= is the one used
    let good = signed_header(PAYLOAD, SECRET, T);
    let good_str = String::from_utf8(good).unwrap();
    let sig = good_str.split("v1=").nth(1).unwrap();
    let header = format!("t=1,t={},v1={}", T, sig);
    assert_eq!(
        verify_webhook_signature(PAYLOAD, header.as_bytes(), SECRET, T).unwrap(),
        true
    );
}

#[test]
fn signature_matches_independent_hmac() {
    // recompute the signature with the hmac and hex crates directly and
    // check that the library accepts a header built from it
    let mut mac = hmac::Hmac::<sha2::Sha256>::new_from_slice(SECRET).unwrap();
    mac.update(format!("{}.", T).as_bytes());
    mac.update(PAYLOAD);
    let sig = hex::encode(mac.finalize().into_bytes());
    let header = format!("t={},v1={}", T, sig);
    assert_eq!(
        verify_webhook_signature(PAYLOAD, header.as_bytes(), SECRET, T).unwrap(),
        true
    );
    // and that sign_payload produced exactly this header
    assert_eq!(sign_payload(PAYLOAD, SECRET, T), header.into_bytes());
}

#[test]
fn empty_payload_and_secret_still_round_trip() {
    let header = sign_payload(b"", b"", 0);
    assert_eq!(verify_webhook_signature(b"", &header, b"", 0).unwrap(), true);
    assert_eq!(verify_webhook_signature(b"", &header, b"", 301).unwrap(), false);
    assert_eq!(verify_webhook_signature(b"x", &header, b"", 0).unwrap(), false);
}

#[test]
fn timing_safe_eq_basics() {
    assert!(timing_safe_eq(b"abc", b"abc"));
    assert!(!timing_safe_eq(b"abc", b"abd"));
    assert!(!timing_safe_eq(b"abc", b"ab"));
    assert!(!timing_safe_eq(b"", b"a"));
    assert!(timing_safe_eq(b"", b""));
}

#[test]
fn parse_i64_basics() {
    assert_eq!(parse_i64(b"0"), Some(0));
    assert_eq!(parse_i64(b"1700000000"), Some(1700000000));
    assert_eq!(parse_i64(b"-42"), Some(-42));
    assert_eq!(parse_i64(b"+42"), Some(42));
    assert_eq!(parse_i64(b""), None);
    assert_eq!(parse_i64(b"-"), None);
    assert_eq!(parse_i64(b"12a"), None);
    assert_eq!(parse_i64(b"9223372036854775807"), Some(i64::MAX));
    assert_eq!(parse_i64(b"-9223372036854775808"), Some(i64::MIN));
    assert_eq!(parse_i64(b"9223372036854775808"), None);
    assert_eq!(parse_i64(b"-9223372036854775809"), None);
    assert_eq!(parse_i64(b"00012"), Some(12));
}
