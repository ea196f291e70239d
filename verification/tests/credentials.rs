use vb365_audit::codec::{decode_record, encode_record};
use vb365_audit::errors::AuthError;
use vb365_audit::time::{format_rfc3339, parse_rfc3339};
use vb365_audit::token::{plan_session, SessionPlan, TokenRecord};

fn sample_record() -> TokenRecord {
    TokenRecord {
        access_token: String::from("tok-123"),
        token_type: String::from("Bearer"),
        refresh_token: String::from("refresh-456"),
        expires_in: 3600,
        expires_on: String::from("2001-09-09T02:46:40+00:00"),
    }
}

#[test]
fn issued_record_carries_the_computed_expiry() {
    let rec = TokenRecord::issue(
        String::from("tok-123"),
        String::from("Bearer"),
        String::from("refresh-456"),
        3600,
        1_000_000_000,
    );
    assert_eq!(rec.access_token, "tok-123");
    assert_eq!(rec.token_type, "Bearer");
    assert_eq!(rec.refresh_token, "refresh-456");
    assert_eq!(rec.expires_in, 3600);
    assert_eq!(rec.expires_on, "2001-09-09T02:46:40+00:00");
}

#[test]
fn record_is_valid_until_its_expiry_and_not_after() {
    let rec = sample_record();
    // The expiry text denotes epoch second 1_000_003_600.
    assert_eq!(parse_rfc3339("2001-09-09T02:46:40+00:00"), Some(1_000_003_600));
    assert!(rec.is_valid(1_000_003_600));
    assert!(rec.is_valid(999_999_999));
    assert!(!rec.is_valid(1_000_003_601));
}

#[test]
fn malformed_expiry_text_is_never_valid() {
    let mut rec = sample_record();
    rec.expires_on = String::from("not a timestamp");
    assert!(!rec.is_valid(0));
}

#[test]
fn formatting_an_epoch_reads_back_as_the_same_instant() {
    let text = format_rfc3339(1_000_003_600);
    assert_eq!(parse_rfc3339(text.as_str()), Some(1_000_003_600));
}

#[test]
fn expired_record_routes_to_the_full_flow() {
    let rec = sample_record();
    let plan = plan_session(Some(&rec), 1_000_003_601).unwrap();
    assert_eq!(plan, SessionPlan::FullFlow);
}

#[test]
fn valid_record_reuses_the_access_token_unchanged() {
    let rec = sample_record();
    let plan = plan_session(Some(&rec), 1_000_000_000).unwrap();
    assert_eq!(plan, SessionPlan::Reuse(String::from("tok-123")));
}

#[test]
fn absent_record_routes_to_the_full_flow() {
    let plan = plan_session(None, 0).unwrap();
    assert_eq!(plan, SessionPlan::FullFlow);
}

#[test]
fn unparseable_expiry_is_a_storage_fault() {
    let mut rec = sample_record();
    rec.expires_on = String::from("yesterday-ish");
    assert_eq!(plan_session(Some(&rec), 0), Err(AuthError::StorageError));
}

#[test]
fn encoding_writes_the_canonical_document() {
    let rec = TokenRecord {
        access_token: String::from("a"),
        token_type: String::from("b"),
        refresh_token: String::from("c"),
        expires_in: 42,
        expires_on: String::from("d"),
    };
    assert_eq!(
        encode_record(&rec),
        "{\"accessToken\":\"a\",\"tokenType\":\"b\",\"refreshToken\":\"c\",\"expiresIn\":42,\"expiresOn\":\"d\"}"
    );
}

#[test]
fn saved_record_loads_back_identically() {
    let rec = sample_record();
    let loaded = decode_record(encode_record(&rec).as_str()).unwrap();
    assert_eq!(loaded, rec);
}

#[test]
fn round_trip_survives_quotes_and_backslashes() {
    let rec = TokenRecord {
        access_token: String::from("to\"k\\en"),
        token_type: String::from("Be\\are\"r"),
        refresh_token: String::from("\\\""),
        expires_in: 18446744073709551615,
        expires_on: String::from("2001-09-09T02:46:40+00:00"),
    };
    let loaded = decode_record(encode_record(&rec).as_str()).unwrap();
    assert_eq!(loaded, rec);
}

#[test]
fn garbage_documents_are_storage_faults() {
    assert_eq!(decode_record(""), Err(AuthError::StorageError));
    assert_eq!(decode_record("{}"), Err(AuthError::StorageError));
    assert_eq!(
        decode_record("{\"accessToken\":\"a\",\"tokenType\":\"b\"}"),
        Err(AuthError::StorageError)
    );
    // An unterminated string value.
    assert_eq!(decode_record("{\"accessToken\":\"a"), Err(AuthError::StorageError));
    // Trailing bytes after the closing brace.
    let rec = sample_record();
    let mut doc = encode_record(&rec);
    doc.push(' ');
    assert_eq!(decode_record(doc.as_str()), Err(AuthError::StorageError));
    // A lifetime that does not fit.
    assert_eq!(
        decode_record(
            "{\"accessToken\":\"a\",\"tokenType\":\"b\",\"refreshToken\":\"c\",\"expiresIn\":99999999999999999999,\"expiresOn\":\"d\"}"
        ),
        Err(AuthError::StorageError)
    );
}
