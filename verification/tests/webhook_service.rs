use clipcash::webhook::{
    next_retry_at, next_retry_at_from, retry_delay_secs, should_retry, sign_payload, validate_url,
    verify_signature, DeliveryStatus, WebhookDelivery, WebhookEndpoint, MAX_RETRIES,
};

fn delivery(status: DeliveryStatus, attempts: u32) -> WebhookDelivery {
    WebhookDelivery {
        id: "1".into(),
        endpoint_id: "e1".into(),
        payload: "{}".into(),
        status,
        attempts,
        next_retry_at: None,
    }
}

#[test]
fn test_validate_url_valid() {
    assert!(validate_url("https://example.com/webhook"));
}

#[test]
fn test_validate_url_rejects_http() {
    assert!(!validate_url("http://example.com/webhook"));
}

#[test]
fn test_sign_and_verify() {
    let secret = "my-secret";
    let payload = r#"{"event":"payment","amount":100}"#;
    let sig = sign_payload(secret, payload);
    assert!(verify_signature(secret, payload, &sig));
}

#[test]
fn test_verify_rejects_wrong_signature() {
    assert!(!verify_signature("secret", "payload", "badsig"));
}

#[test]
fn test_exponential_backoff_increases() {
    let t0 = next_retry_at(0);
    let t1 = next_retry_at(1);
    assert!(t1 > t0);
}

#[test]
fn test_should_retry_when_failed_and_under_limit() {
    let d = delivery(DeliveryStatus::Failed, 2);
    assert!(should_retry(&d));
}

#[test]
fn test_should_not_retry_when_max_attempts_reached() {
    let d = delivery(DeliveryStatus::Failed, MAX_RETRIES);
    assert!(!should_retry(&d));
}

#[test]
fn test_should_not_retry_when_delivered() {
    let d = delivery(DeliveryStatus::Delivered, 1);
    assert!(!should_retry(&d));
}

// ── further cases ───────────────────────────────────────────────────────────

#[test]
fn validate_url_length_boundary() {
    // "https://abc" is 11 bytes: accepted; "https://ab" is 10 bytes: refused.
    assert!(validate_url("https://abc"));
    assert!(!validate_url("https://ab"));
    assert!(!validate_url(""));
    assert!(!validate_url("ftp://example.com/hook"));
    assert!(!validate_url("HTTPS://example.com/hook"));
}

#[test]
fn sign_payload_known_vector() {
    // The RFC 4231 HMAC-SHA256 vector with the key "Jefe".
    let sig = sign_payload("Jefe", "what do ya want for nothing?");
    assert_eq!(sig, "5bdcc146bf60754e6a042426089575c75a003f089d2739839dec58b964ec3843");
    assert_eq!(sig.len(), 64);
}

#[test]
fn sign_payload_depends_on_secret_and_payload() {
    let a = sign_payload("secret-a", "payload");
    let b = sign_payload("secret-b", "payload");
    let c = sign_payload("secret-a", "payload!");
    assert_ne!(a, b);
    assert_ne!(a, c);
    assert!(!verify_signature("secret-b", "payload", &a));
    assert!(!verify_signature("secret-a", "payload!", &a));
}

#[test]
fn verify_rejects_signature_differing_in_last_digit() {
    let mut sig = sign_payload("k", "body");
    let last = sig.pop().unwrap();
    sig.push(if last == '0' { '1' } else { '0' });
    assert!(!verify_signature("k", "body", &sig));
    // Upper-case hex is not the same signature.
    let upper = sign_payload("k", "body").to_uppercase();
    if upper != sign_payload("k", "body") {
        assert!(!verify_signature("k", "body", &upper));
    }
}

#[test]
fn retry_delays_double_then_stop_at_one_hour() {
    let expected = [2u64, 4, 8, 16, 32, 64, 128, 256, 512, 1024, 2048, 3600, 3600];
    for (attempt, want) in expected.iter().enumerate() {
        assert_eq!(retry_delay_secs(attempt as u32), *want);
    }
    assert_eq!(retry_delay_secs(u32::MAX), 3600);
    assert_eq!(retry_delay_secs(1000), 3600);
}

#[test]
fn next_retry_at_from_adds_delay() {
    assert_eq!(next_retry_at_from(1_000, 0), 1_002);
    assert_eq!(next_retry_at_from(1_000, 3), 1_016);
    assert_eq!(next_retry_at_from(0, 20), 3_600);
    assert_eq!(next_retry_at_from(1_000, 10), 3_048);
    assert_eq!(next_retry_at_from(1_000, 11), 4_600);
    assert_eq!(next_retry_at_from(1_000, u32::MAX), 4_600);
    assert_eq!(next_retry_at_from(u64::MAX - 1, 0), u64::MAX);
}

#[test]
fn next_retry_at_is_in_the_future() {
    let now = std::time::SystemTime::now()
        .duration_since(std::time::UNIX_EPOCH)
        .unwrap()
        .as_secs();
    let t = next_retry_at(4);
    assert!(t >= now + 32);
    assert!(t <= now + 32 + 60);
}

#[test]
fn should_retry_pending_is_false() {
    assert!(!should_retry(&delivery(DeliveryStatus::Pending, 0)));
    assert!(should_retry(&delivery(DeliveryStatus::Failed, 0)));
    assert!(should_retry(&delivery(DeliveryStatus::Failed, MAX_RETRIES - 1)));
    assert!(!should_retry(&delivery(DeliveryStatus::Failed, u32::MAX)));
}

#[test]
fn endpoint_holds_its_fields() {
    let e = WebhookEndpoint {
        id: "e1".into(),
        url: "https://example.com/hook".into(),
        secret: "s".into(),
        active: true,
    };
    assert!(validate_url(&e.url));
    let sig = sign_payload(&e.secret, "{}");
    assert!(verify_signature(&e.secret, "{}", &sig));
}
