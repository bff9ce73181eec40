//! Webhook delivery: endpoint URL validation, payload signing and signature
//! checking with HMAC-SHA256, and the retry schedule of failed deliveries.
use vstd::prelude::*;
use crate::digest::{hex_encode, hex_lower, hmac_sha256, hmac_sha256_tag, hex_digit};
use vstd::utf8::{encode_utf8, decode_utf8, encode_utf8_decode_utf8};
use vstd::string::StringSliceAdditionalSpecFns;

verus! {

/// The number of delivery attempts after which a delivery is given up.
pub const MAX_RETRIES: u32 = 5;

/// The delay before the first retry, in seconds.
pub const BASE_DELAY_SECS: u64 = 2;

/// The longest delay between two attempts, in seconds (one hour).
pub const MAX_DELAY_SECS: u64 = 3600;

/// The exponent from which the doubling delay is past the one-hour cap
/// (`BASE_DELAY_SECS * 2^11` is 4096 seconds), so that the schedule needs no
/// larger power of two.
pub const MAX_BACKOFF_EXPONENT: u32 = 11;

#[derive(Debug, Clone, PartialEq, Eq, Structural)]
pub enum DeliveryStatus {
    Pending,
    Delivered,
    Failed,
}

#[derive(Debug, Clone)]
pub struct WebhookEndpoint {
    pub id: String,
    pub url: String,
    pub secret: String,
    pub active: bool,
}

#[derive(Debug, Clone)]
pub struct WebhookDelivery {
    pub id: String,
    pub endpoint_id: String,
    pub payload: String,
    pub status: DeliveryStatus,
    pub attempts: u32,
    pub next_retry_at: Option<u64>,
}

/// The bytes of `https://`.
pub open spec fn https_scheme() -> Seq<u8> {
    seq![104u8, 116u8, 116u8, 112u8, 115u8, 58u8, 47u8, 47u8]
}

/// A URL is accepted when its bytes begin with `https://` and it is longer
/// than ten bytes.
pub open spec fn url_is_valid(url: Seq<u8>) -> bool {
    &&& url.len() > 10
    &&& url.subrange(0, 8) == https_scheme()
}

/// Validate that a URL is well-formed and uses https.
pub fn validate_url(url: &str) -> (r: bool)
    ensures
        r == url_is_valid(url.spec_bytes()),
{
    let b = url.as_bytes();
    if b.len() <= 10 {
        return false;
    }
    let ok = b[0] == 104u8 && b[1] == 116u8 && b[2] == 116u8 && b[3] == 112u8 && b[4] == 115u8
        && b[5] == 58u8 && b[6] == 47u8 && b[7] == 47u8;
    proof {
        if ok {
            assert(b@.subrange(0, 8) =~= https_scheme());
        } else {
            assert(b@.subrange(0, 8) != https_scheme()) by {
                if b@.subrange(0, 8) == https_scheme() {
                    assert(b@.subrange(0, 8)[0] == b@[0]);
                    assert(b@.subrange(0, 8)[1] == b@[1]);
                    assert(b@.subrange(0, 8)[2] == b@[2]);
                    assert(b@.subrange(0, 8)[3] == b@[3]);
                    assert(b@.subrange(0, 8)[4] == b@[4]);
                    assert(b@.subrange(0, 8)[5] == b@[5]);
                    assert(b@.subrange(0, 8)[6] == b@[6]);
                    assert(b@.subrange(0, 8)[7] == b@[7]);
                }
            }
        }
    }
    ok
}

/// The signature of a payload: the lower-case hex encoding of its
/// HMAC-SHA256 tag under the endpoint secret.
pub open spec fn payload_signature(secret: Seq<u8>, payload: Seq<u8>) -> Seq<char> {
    hex_lower(hmac_sha256_tag(secret, payload))
}

pub proof fn lemma_hex_lower_len(data: Seq<u8>)
    ensures
        hex_lower(data).len() == 2 * data.len(),
    decreases data.len(),
{
    if data.len() > 0 {
        lemma_hex_lower_len(data.drop_first());
    }
}

/// Compute HMAC-SHA256 signature for a payload using the endpoint secret.
pub fn sign_payload(secret: &str, payload: &str) -> (r: String)
    ensures
        r@ == payload_signature(secret.spec_bytes(), payload.spec_bytes()),
        r@.len() == 64,
{
    let tag = hmac_sha256(secret.as_bytes(), payload.as_bytes());
    let r = hex_encode(tag.as_slice());
    proof {
        lemma_hex_lower_len(tag@);
    }
    r
}

proof fn lemma_or_xor_zero(acc: u8, x: u8, y: u8)
    ensures
        ((acc | (x ^ y)) == 0) == (acc == 0 && x == y),
{
    assert(((acc | (x ^ y)) == 0) == (acc == 0 && x == y)) by (bit_vector);
}

/// Whether `signature` is accepted for `payload` under `secret`: it is the
/// payload's signature, character for character.
pub open spec fn signature_accepted(secret: Seq<u8>, payload: Seq<u8>, signature: Seq<char>) -> bool {
    signature == payload_signature(secret, payload)
}

/// Verify an incoming webhook signature.
///
/// The comparison runs over every byte whatever the bytes hold, so that its
/// duration does not depend on where a mismatch lies.
pub fn verify_signature(secret: &str, payload: &str, signature: &str) -> (r: bool)
    ensures
        r == signature_accepted(secret.spec_bytes(), payload.spec_bytes(), signature@),
        signature.spec_bytes().len() != 64 ==> !r,
{
    let expected = sign_payload(secret, payload);
    let e = expected.as_str().as_bytes();
    let s = signature.as_bytes();
    proof {
        broadcast use vstd::utf8::is_ascii_chars_encode_utf8;
        let ghost chars = expected@;
        assert(forall|i: int| 0 <= i < chars.len() ==> '\0' <= #[trigger] chars[i] <= '\u{7f}') by {
            lemma_hex_ascii(hmac_sha256_tag(secret.spec_bytes(), payload.spec_bytes()));
        }
        assert(vstd::utf8::is_ascii_chars(chars));
        assert(e@.len() == 64);
        encode_utf8_decode_utf8(expected@);
        encode_utf8_decode_utf8(signature@);
    }
    if e.len() != s.len() {
        return false;
    }
    let n = e.len();
    let mut acc: u8 = 0;
    let mut i: usize = 0;
    while i < n
        invariant
            n == e@.len(),
            n == s@.len(),
            i <= n,
            (acc == 0) == (e@.subrange(0, i as int) =~= s@.subrange(0, i as int)),
        decreases n - i,
    {
        proof {
            lemma_or_xor_zero(acc, e@[i as int], s@[i as int]);
            if e@.subrange(0, i + 1) =~= s@.subrange(0, i + 1) {
                assert(e@.subrange(0, i as int) =~= e@.subrange(0, i + 1).subrange(0, i as int));
                assert(s@.subrange(0, i as int) =~= s@.subrange(0, i + 1).subrange(0, i as int));
                assert(e@[i as int] == e@.subrange(0, i + 1)[i as int]);
                assert(s@[i as int] == s@.subrange(0, i + 1)[i as int]);
            }
        }
        acc = acc | (e[i] ^ s[i]);
        i = i + 1;
    }
    proof {
        assert(e@.subrange(0, n as int) =~= e@);
        assert(s@.subrange(0, n as int) =~= s@);
    }
    acc == 0
}

proof fn lemma_hex_ascii(data: Seq<u8>)
    ensures
        forall|i: int| 0 <= i < hex_lower(data).len() ==> '\0' <= #[trigger] hex_lower(data)[i] <= '\u{7f}',
    decreases data.len(),
{
    if data.len() > 0 {
        lemma_hex_ascii(data.drop_first());
        let head = seq![hex_digit(data[0] as int / 16), hex_digit(data[0] as int % 16)];
        assert(hex_lower(data) =~= head + hex_lower(data.drop_first()));
        assert(forall|i: int| 0 <= i < hex_lower(data).len() ==> '\0' <= #[trigger] hex_lower(data)[i] <= '\u{7f}') by {
            assert forall|i: int| 0 <= i < hex_lower(data).len() implies '\0' <= #[trigger] hex_lower(data)[i] <= '\u{7f}' by {
                if i >= 2 {
                    assert(hex_lower(data)[i] == hex_lower(data.drop_first())[i - 2]);
                }
            }
        }
    }
}

/// Whether a delivery should be retried: it failed and has been attempted
/// fewer than `MAX_RETRIES` times.
pub open spec fn retry_due(status: DeliveryStatus, attempts: u32) -> bool {
    status == DeliveryStatus::Failed && attempts < MAX_RETRIES
}

/// Determine whether a delivery should be retried.
pub fn should_retry(delivery: &WebhookDelivery) -> (r: bool)
    ensures
        r == retry_due(delivery.status, delivery.attempts),
{
    delivery.status == DeliveryStatus::Failed && delivery.attempts < MAX_RETRIES
}

/// Two to the power `n`.
pub open spec fn two_pow(n: nat) -> nat
    decreases n,
{
    if n == 0 { 1 } else { 2 * two_pow((n - 1) as nat) }
}

/// The delay before the retry that follows attempt number `attempt`:
/// `BASE_DELAY_SECS * 2^attempt`, capped at one hour.
pub open spec fn retry_delay(attempt: u32) -> nat {
    let d: nat = (BASE_DELAY_SECS * two_pow(attempt as nat)) as nat;
    if d < MAX_DELAY_SECS { d } else { MAX_DELAY_SECS as nat }
}

proof fn lemma_two_pow_bounds(n: nat)
    requires
        n <= 11,
    ensures
        1 <= two_pow(n) <= 2048,
        two_pow(11) == 2048,
{
    lemma_two_pow_positive(n);
    lemma_two_pow_monotone(n, 11);
    reveal_with_fuel(two_pow, 12);
}

proof fn lemma_two_pow_positive(n: nat)
    ensures
        two_pow(n) >= 1,
    decreases n,
{
    if n > 0 {
        lemma_two_pow_positive((n - 1) as nat);
    }
}

proof fn lemma_two_pow_monotone(a: nat, b: nat)
    requires
        a <= b,
    ensures
        two_pow(a) <= two_pow(b),
    decreases b,
{
    if a < b {
        lemma_two_pow_monotone(a, (b - 1) as nat);
    }
}

/// From the exponent cap on, the delay is the one-hour cap.
proof fn lemma_retry_delay_past_cap(attempt: u32)
    requires
        attempt >= MAX_BACKOFF_EXPONENT,
    ensures
        retry_delay(attempt) == MAX_DELAY_SECS,
{
    lemma_two_pow_bounds(11);
    lemma_two_pow_monotone(11, attempt as nat);
}

/// The delay in seconds before the retry that follows attempt `attempt`.
pub fn retry_delay_secs(attempt: u32) -> (r: u64)
    ensures
        r == retry_delay(attempt),
{
    let k: u32 = if attempt < MAX_BACKOFF_EXPONENT { attempt } else { MAX_BACKOFF_EXPONENT };
    let mut p: u64 = 1;
    let mut i: u32 = 0;
    while i < k
        invariant
            k <= 11,
            i <= k,
            p == two_pow(i as nat),
        decreases k - i,
    {
        proof {
            lemma_two_pow_bounds(i as nat);
        }
        p = p * 2;
        i = i + 1;
    }
    proof {
        lemma_two_pow_bounds(k as nat);
        if attempt >= MAX_BACKOFF_EXPONENT {
            lemma_retry_delay_past_cap(attempt);
        }
    }
    let d = BASE_DELAY_SECS * p;
    if d < MAX_DELAY_SECS { d } else { MAX_DELAY_SECS }
}

/// The time of the retry that follows attempt `attempt`, counted from the
/// Unix time `now`; a sum that does not fit in a `u64` gives `u64::MAX`.
pub open spec fn retry_time(now: u64, attempt: u32) -> int {
    if now + retry_delay(attempt) <= u64::MAX { now + retry_delay(attempt) } else { u64::MAX as int }
}

/// The time of the next retry for a delivery that has been attempted
/// `attempt` times, counted from the Unix time `now`.
pub fn next_retry_at_from(now: u64, attempt: u32) -> (r: u64)
    ensures
        r == retry_time(now, attempt),
{
    let delay = retry_delay_secs(attempt);
    if now <= u64::MAX - delay {
        now + delay
    } else {
        u64::MAX
    }
}

/// `std::time::SystemTime::now`, read as whole seconds since the Unix epoch
/// (`duration_since(UNIX_EPOCH)`, 0 where the clock stands before the
/// epoch, `as_secs`). Nothing is promised of the reading.
#[verifier::external_body]
fn unix_time_secs() -> (r: u64) {
    std::time::SystemTime::now()
        .duration_since(std::time::UNIX_EPOCH)
        .unwrap_or(std::time::Duration::ZERO)
        .as_secs()
}

/// Compute the next retry timestamp using exponential backoff.
/// delay = BASE_DELAY_SECS * 2^attempt (capped at 1 hour).
///
/// The result is the current Unix time plus the delay; a clock reading so
/// late that the sum would not fit in a `u64` gives `u64::MAX`.
pub fn next_retry_at(attempt: u32) -> (r: u64)
    ensures
        exists|now: u64| r == #[trigger] retry_time(now, attempt),
        r >= retry_delay(attempt),
{
    let now = unix_time_secs();
    let r = next_retry_at_from(now, attempt);
    proof {
        assert(r == retry_time(now, attempt));
    }
    r
}

/// The retry delay never decreases as attempts accumulate.
pub proof fn lemma_retry_delay_monotone(a: u32, b: u32)
    requires
        a <= b,
    ensures
        retry_delay(a) <= retry_delay(b),
{
    lemma_two_pow_monotone(a as nat, b as nat);
}

/// Until the delay reaches the one-hour cap, each further attempt strictly
/// lengthens it.
pub proof fn lemma_retry_delay_grows(a: u32)
    requires
        retry_delay(a) < MAX_DELAY_SECS,
    ensures
        a < u32::MAX,
        retry_delay(a) < retry_delay((a + 1) as u32),
{
    if a >= MAX_BACKOFF_EXPONENT {
        lemma_retry_delay_past_cap(a);
    }
    lemma_two_pow_positive(a as nat);
    assert(two_pow((a + 1) as nat) == 2 * two_pow(a as nat));
}

/// The delay between attempts never exceeds one hour.
pub proof fn lemma_retry_delay_capped(a: u32)
    ensures
        retry_delay(a) <= MAX_DELAY_SECS,
{
}

/// From one clock reading, a later attempt is never retried earlier, and is
/// retried strictly later while the earlier delay is under the one-hour cap
/// (and the times fit in a `u64`).
pub proof fn lemma_retry_time_monotone(now: u64, a: u32, b: u32)
    requires
        a <= b,
    ensures
        retry_time(now, a) <= retry_time(now, b),
        a < b && retry_delay(a) < MAX_DELAY_SECS && now + MAX_DELAY_SECS <= u64::MAX
            ==> retry_time(now, a) < retry_time(now, b),
{
    lemma_retry_delay_monotone(a, b);
    lemma_retry_delay_capped(b);
    if a < b && retry_delay(a) < MAX_DELAY_SECS {
        lemma_retry_delay_grows(a);
        lemma_retry_delay_monotone((a + 1) as u32, b);
    }
}

/// A signature made with `sign_payload` passes `verify_signature` for the
/// same secret and payload.
pub proof fn lemma_signed_payload_verifies(secret: Seq<u8>, payload: Seq<u8>)
    ensures
        signature_accepted(secret, payload, payload_signature(secret, payload)),
{
}

} // verus!
