use klayer::embed::{fnv1a64, tokenize, HashingEmbedder, EMBED_DIMS};
use klayer::health::{turso_config, SyncHealth};
use klayer::hex::hex_text;
use klayer::like::is_like;
use klayer::redact::{redact, redact_report};
use klayer::text::{natural, number, parse_i64, parse_u64, split_lines, split_words, trimmed, white};
use klayer::types::{Kind, Trust};

#[test]
fn fresh_health_snapshot_is_all_zero() {
    let health = SyncHealth::new();
    let snap = health.snapshot(false);
    assert!(!snap.remote_configured);
    assert_eq!(snap.last_success_at, None);
    assert_eq!(snap.consecutive_failures, 0);
    assert_eq!(snap.fallback_events, 0);
}

#[test]
fn failure_then_success_resets_consecutive_but_keeps_fallback_total() {
    let mut health = SyncHealth::new();
    health.record_failure();
    health.record_failure();
    let snap = health.snapshot(true);
    assert!(snap.remote_configured);
    assert_eq!(snap.consecutive_failures, 2);
    assert_eq!(snap.fallback_events, 2);
    assert_eq!(snap.last_success_at, None);

    health.record_success(1_700_000_000);
    let snap = health.snapshot(true);
    assert_eq!(snap.consecutive_failures, 0);
    assert_eq!(
        snap.fallback_events, 2,
        "fallback total is cumulative, not reset by success"
    );
    assert!(snap.last_success_at.is_some());
}

#[test]
fn a_remote_needs_an_address_and_a_token() {
    assert!(turso_config(None, None).is_none());
    assert!(turso_config(Some("libsql://x".to_string()), None).is_none());
    assert!(turso_config(Some(String::new()), Some("t".to_string())).is_none());
    let both = turso_config(Some("libsql://x".to_string()), Some("t".to_string())).unwrap();
    assert_eq!(both.0, "libsql://x");
    assert_eq!(both.1, "t");
}

#[test]
fn redacts_email() {
    let (out, hit) = redact_report("contact me at test@example.com please");
    assert!(hit);
    assert_eq!(out, "contact me at [REDACTED:EMAIL] please");
}

#[test]
fn redacts_credit_card_grouped() {
    let (out, hit) = redact_report("card is 4111-1111-1111-1111 exp 12/30");
    assert!(hit);
    assert!(out.contains("[REDACTED:CARD]"));
    assert!(!out.contains("4111"));
}

#[test]
fn redacts_credit_card_plain() {
    let (out, hit) = redact_report("card 4111111111111111 on file");
    assert!(hit);
    assert!(out.contains("[REDACTED:CARD]"));
}

#[test]
fn redacts_phone_number() {
    let (out, hit) = redact_report("call +1-555-123-4567 tomorrow");
    assert!(hit);
    assert!(out.contains("[REDACTED:PHONE]"));
    assert!(!out.contains("555"));
}

#[test]
fn redacts_phone_number_with_parens() {
    let (out, hit) = redact_report("office: (555) 123-4567 front desk");
    assert!(hit);
    assert!(out.contains("[REDACTED:PHONE]"));
}

#[test]
fn redacts_national_id_like_digit_run() {
    let (out, hit) = redact_report("national id 123456789 on file");
    assert!(hit);
    assert!(out.contains("[REDACTED:ID_NUMBER]"));
    assert!(!out.contains("123456789"));
}

#[test]
fn clean_text_passes_through_unchanged() {
    let text = "This is a normal sentence with no PII in it at all.";
    let (out, hit) = redact_report(text);
    assert!(!hit);
    assert_eq!(out, text);
}

#[test]
fn redact_wrapper_returns_same_text_as_report() {
    let text = "email me: someone@domain.org";
    assert_eq!(redact(text), redact_report(text).0);
}

#[test]
fn does_not_flag_short_numbers_as_id() {
    let (out, hit) = redact_report("we have 42 widgets and order #12345");
    assert!(!hit);
    assert_eq!(out, "we have 42 widgets and order #12345");
}

fn unit(v: &[i64]) -> Vec<f32> {
    let raw: Vec<f32> = v.iter().map(|x| *x as f32).collect();
    let norm: f32 = raw.iter().map(|x| x * x).sum::<f32>().sqrt();
    raw.iter().map(|x| x / norm).collect()
}

fn cosine(a: &[f32], b: &[f32]) -> f32 {
    a.iter().zip(b).map(|(x, y)| x * y).sum()
}

#[test]
fn hashing_embedder_is_384d_and_unit_norm() {
    let e = HashingEmbedder::new();
    let v = unit(&e.embed("fn authenticate_user password hash"));
    assert_eq!(v.len(), EMBED_DIMS);
    assert_eq!(e.dims(), EMBED_DIMS);
    let norm: f32 = v.iter().map(|x| x * x).sum::<f32>().sqrt();
    assert!((norm - 1.0).abs() < 1e-5, "norm={norm}");
}

#[test]
fn similar_texts_rank_higher_than_unrelated() {
    let e = HashingEmbedder::new();
    let q = unit(&e.embed("JWT authentication middleware"));
    let near = unit(&e.embed("authenticate requests with JWT tokens"));
    let far = unit(&e.embed("css flexbox layout grid columns"));
    assert!(cosine(&q, &near) > cosine(&q, &far));
}

#[test]
fn an_empty_text_is_embedded_as_the_first_bucket() {
    let v = HashingEmbedder::new().embed(" ... ! ");
    assert_eq!(v[0], 1);
    assert!(v[1..].iter().all(|x| *x == 0));
}

#[test]
fn tokens_are_lower_case_and_two_bytes_at_least() {
    assert_eq!(tokenize("A Big-Fox, x9 É"), vec!["big", "fox", "x9", "é"]);
}

#[test]
fn the_hash_is_fnv1a() {
    assert_eq!(fnv1a64(b""), 0xcbf29ce484222325);
    assert_eq!(fnv1a64(b"a"), 0xaf63dc4c8601ec8c);
    assert_eq!(fnv1a64(b"foobar"), 0x85944171f73967e8);
}

#[test]
fn kinds_and_tiers_have_names() {
    for k in [Kind::Fact, Kind::Rule, Kind::Procedure] {
        assert_eq!(Kind::parse(k.as_str()), Some(k));
    }
    assert_eq!(Kind::parse(" RULE "), Some(Kind::Rule));
    assert_eq!(Kind::parse("law"), None);
    for t in [Trust::Untrusted, Trust::Proposed, Trust::Reviewed, Trust::User] {
        assert_eq!(Trust::parse(t.as_str()), t);
    }
    assert_eq!(Trust::parse("nonsense"), Trust::Untrusted);
    assert!(Trust::User.is_enforceable() && Trust::Reviewed.is_enforceable());
    assert!(!Trust::Proposed.is_enforceable() && !Trust::Untrusted.is_enforceable());
    assert!(Trust::User.rank() > Trust::Reviewed.rank());
    assert!(Trust::Reviewed.rank() > Trust::Proposed.rank());
    assert!(Trust::Proposed.rank() > Trust::Untrusted.rank());
}

#[test]
fn white_space_is_that_of_unicode() {
    for n in 0..=0x10ffff_u32 {
        if let Some(c) = char::from_u32(n) {
            assert_eq!(white(c), c.is_whitespace(), "U+{n:04X}");
        }
    }
}

#[test]
fn words_and_lines_are_those_of_std() {
    for s in ["", " ", "a", " a  b\tc\n", "a\r\nb\n\nc", "\n", "x\r", "\u{a0}y\u{3000}z"] {
        let words: Vec<&str> = s.split_whitespace().collect();
        assert_eq!(split_words(s), words);
        let lines: Vec<&str> = s.lines().collect();
        assert_eq!(split_lines(s), lines);
        assert_eq!(trimmed(s), s.trim());
    }
}

#[test]
fn numbers_are_read_and_written_as_std_does() {
    for n in [0i128, 7, -7, 10, 99, 100, -100, i64::MAX as i128, i64::MIN as i128] {
        assert_eq!(number(n), n.to_string());
    }
    assert_eq!(natural(u128::MAX), u128::MAX.to_string());
    for s in [
        "0", "7", "-7", "+7", "007", "", "-", "+", " 1", "1 ", "1x", "9223372036854775807",
        "9223372036854775808", "-9223372036854775808", "-9223372036854775809",
        "18446744073709551615", "18446744073709551616", "-0",
    ] {
        assert_eq!(parse_i64(s), s.parse::<i64>().ok(), "{s}");
        assert_eq!(parse_u64(s), s.parse::<u64>().ok(), "{s}");
    }
}

#[test]
fn patterns_match_as_in_sql() {
    assert!(is_like("harness=Code-Agent model=x", "%harness=code-agent%"));
    assert!(is_like("abc", "a_c"));
    assert!(!is_like("abbc", "a_c"));
    assert!(is_like("", "%"));
    assert!(!is_like("", "_"));
    assert!(!is_like("abc", "%abd%"));
}

#[test]
fn bytes_are_written_in_small_digits() {
    assert_eq!(hex_text(&vec![0x00, 0x0f, 0xa5, 0xff]), "000fa5ff");
    assert_eq!(hex_text(&Vec::new()), "");
}
