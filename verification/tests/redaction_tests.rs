use rustchain::agents::middleware::pii::PIIMiddleware;
use rustchain::agents::middleware::redaction::{
    apply_matches, apply_rules, apply_strategy, builtin_detectors, detect_credit_card, detect_email,
    detect_ip, detect_mac_address, detect_url, get_builtin_detector, luhn_check, mask_credit_card,
    mask_email, mask_ip, simple_hash, uniform_mask, PIIDetector, PIIMatch, RedactionStrategy,
    ResolvedRedactionRule,
};
use rustchain::messages::{Message, MessageType, ToolCall};

fn m(pii_type: &str, value: &str, start: usize, end: usize) -> PIIMatch {
    PIIMatch { pii_type: pii_type.into(), value: value.into(), start, end }
}

#[test]
fn test_detect_email_basic() {
    let matches = detect_email("Contact us at user@example.com for info.");
    assert_eq!(matches.len(), 1);
    assert_eq!(matches[0].value, "user@example.com");
    assert_eq!(matches[0].pii_type, "email");
}

#[test]
fn test_detect_email_multiple() {
    let matches = detect_email("a@b.com and c@d.org");
    assert_eq!(matches.len(), 2);
}

#[test]
fn test_detect_email_no_match() {
    let matches = detect_email("no email here");
    assert!(matches.is_empty());
}

#[test]
fn test_detect_credit_card_valid_visa() {
    let matches = detect_credit_card("Card: 4111111111111111 end");
    assert_eq!(matches.len(), 1);
    assert_eq!(matches[0].pii_type, "credit_card");
    assert_eq!(matches[0].value, "4111111111111111");
}

#[test]
fn test_detect_credit_card_with_separators() {
    let matches = detect_credit_card("Card: 4111-1111-1111-1111 end");
    assert_eq!(matches.len(), 1);
}

#[test]
fn test_detect_credit_card_invalid_luhn() {
    let matches = detect_credit_card("Card: 1234567890123456 end");
    assert!(matches.is_empty());
}

#[test]
fn test_luhn_check_valid() {
    assert!(luhn_check(b"4111111111111111"));
    assert!(luhn_check(b"79927398713"));
}

#[test]
fn test_luhn_check_invalid() {
    assert!(!luhn_check(b"1234567890123456"));
    assert!(!luhn_check(b"1"));
}

#[test]
fn test_detect_ip_basic() {
    let matches = detect_ip("Server at 192.168.1.1 is up");
    assert_eq!(matches.len(), 1);
    assert_eq!(matches[0].value, "192.168.1.1");
    assert_eq!(matches[0].pii_type, "ip");
}

#[test]
fn test_detect_ip_invalid_octet() {
    let matches = detect_ip("Not an IP: 999.999.999.999");
    assert!(matches.is_empty());
}

#[test]
fn test_detect_mac_address_colon() {
    let matches = detect_mac_address("MAC: AA:BB:CC:DD:EE:FF done");
    assert_eq!(matches.len(), 1);
    assert_eq!(matches[0].value, "AA:BB:CC:DD:EE:FF");
}

#[test]
fn test_detect_mac_address_dash() {
    let matches = detect_mac_address("MAC: AA-BB-CC-DD-EE-FF done");
    assert_eq!(matches.len(), 1);
}

#[test]
fn test_detect_mac_address_none() {
    let matches = detect_mac_address("no mac here");
    assert!(matches.is_empty());
}

#[test]
fn test_detect_url_https() {
    let matches = detect_url("Visit https://example.com/path for info.");
    assert_eq!(matches.len(), 1);
    assert_eq!(matches[0].value, "https://example.com/path");
}

#[test]
fn test_detect_url_http() {
    let matches = detect_url("Go to http://foo.bar/baz end");
    assert_eq!(matches.len(), 1);
}

#[test]
fn test_apply_strategy_redact() {
    let text = "Email: user@test.com is here";
    let pm = m("email", "user@test.com", 7, 20);
    let result = apply_strategy(text, &pm, &RedactionStrategy::Redact).unwrap();
    assert_eq!(result, "Email: [REDACTED_EMAIL] is here");
}

#[test]
fn test_apply_strategy_mask() {
    let text = "Email: user@test.com is here";
    let pm = m("email", "user@test.com", 7, 20);
    let result = apply_strategy(text, &pm, &RedactionStrategy::Mask).unwrap();
    assert_eq!(result, "Email: u***@****.com is here");
}

#[test]
fn test_apply_strategy_hash() {
    let text = "Email: user@test.com is here";
    let pm = m("email", "user@test.com", 7, 20);
    let result = apply_strategy(text, &pm, &RedactionStrategy::Hash).unwrap();
    assert!(result.starts_with("Email: [HASH:"));
    assert!(result.ends_with("] is here"));
}

#[test]
fn test_apply_strategy_block() {
    let text = "Email: user@test.com is here";
    let pm = m("email", "user@test.com", 7, 20);
    let result = apply_strategy(text, &pm, &RedactionStrategy::Block);
    assert!(result.is_err());
    let err = result.unwrap_err();
    assert!(err.to_string().contains("blocked"));
}

#[test]
fn test_apply_rules_multiple() {
    let text = "a@b.com and c@d.org";
    let rules = vec![
        ResolvedRedactionRule { pii_match: m("email", "a@b.com", 0, 7), strategy: RedactionStrategy::Redact },
        ResolvedRedactionRule { pii_match: m("email", "c@d.org", 12, 19), strategy: RedactionStrategy::Redact },
    ];
    let result = apply_rules(text, rules).unwrap();
    assert_eq!(result, "[REDACTED_EMAIL] and [REDACTED_EMAIL]");
}

#[test]
fn test_mask_credit_card() {
    let pm = m("credit_card", "4111111111111111", 6, 22);
    let result = apply_strategy("Card: 4111111111111111 end", &pm, &RedactionStrategy::Mask).unwrap();
    assert_eq!(result, "Card: ****-****-****-1111 end");
}

#[test]
fn test_mask_ip() {
    let pm = m("ip", "192.168.1.1", 4, 15);
    let result = apply_strategy("IP: 192.168.1.1 done", &pm, &RedactionStrategy::Mask).unwrap();
    assert_eq!(result, "IP: *.*.*.1 done");
}

#[test]
fn test_apply_matches_multiple() {
    let text = "a@b.com and c@d.org";
    let matches = detect_email(text);
    let result = apply_matches(text, matches, &RedactionStrategy::Redact).unwrap();
    assert_eq!(result, "[REDACTED_EMAIL] and [REDACTED_EMAIL]");
}

#[test]
fn test_builtin_detectors() {
    let detectors = builtin_detectors();
    assert_eq!(detectors.len(), 5);
    let names: Vec<&str> = detectors.iter().map(|(name, _)| *name).collect();
    assert!(names.contains(&"email"));
    assert!(names.contains(&"ip"));
}

#[test]
fn test_get_builtin_detector() {
    let detector = get_builtin_detector("email");
    assert!(detector.is_some());
    let matches = detector.unwrap().run("test@example.com");
    assert_eq!(matches.len(), 1);
    assert!(get_builtin_detector("unknown").is_none());
}

#[test]
fn test_mask_helpers_exact() {
    assert_eq!(uniform_mask("ab-12"), "**-**");
    assert_eq!(mask_email("user@test.com"), "u***@****.com");
    assert_eq!(mask_credit_card("4111111111111111"), "****-****-****-1111");
    assert_eq!(mask_ip("10.0.0.7"), "*.*.*.7");
}

#[test]
fn test_simple_hash_is_stable_and_hex() {
    let a = simple_hash("hello");
    let b = simple_hash("hello");
    assert_eq!(a, b);
    assert_eq!(a.len(), 16);
    assert!(a.chars().all(|c| c.is_ascii_hexdigit()));
    assert_ne!(simple_hash("hello"), simple_hash("hellp"));
}

#[test]
fn test_pii_middleware_detect_email() {
    let mw = PIIMiddleware::for_type("email", RedactionStrategy::Redact);
    let matches = mw.detect("Send to user@example.com");
    assert_eq!(matches.len(), 1);
    assert_eq!(matches[0].pii_type, "email");
}

#[test]
fn test_pii_middleware_redact_text() {
    let mw = PIIMiddleware::for_type("email", RedactionStrategy::Redact);
    let result = mw.redact_text("Contact user@example.com please");
    assert!(result.contains("[REDACTED_EMAIL]"));
    assert!(!result.contains("user@example.com"));
}

#[test]
fn test_pii_middleware_all_types() {
    let mw = PIIMiddleware::new(RedactionStrategy::Redact);
    let text = "Email: a@b.com, IP: 10.0.0.1";
    let matches = mw.detect(text);
    assert!(matches.len() >= 2);
}

#[test]
fn test_pii_middleware_block_strategy() {
    let mw = PIIMiddleware::for_type("email", RedactionStrategy::Block);
    let result = mw.redact_text("Email: a@b.com");
    assert_eq!(result, "");
}

#[test]
fn test_pii_middleware_no_match() {
    let mw = PIIMiddleware::for_type("email", RedactionStrategy::Redact);
    let result = mw.redact_text("No PII here");
    assert_eq!(result, "No PII here");
}

#[test]
fn test_pii_middleware_redact_input_messages_only_last_human() {
    let mw = PIIMiddleware::for_type("email", RedactionStrategy::Redact);
    let msgs = vec![
        Message::human("My email is first@example.com"),
        Message::ai("Got it"),
        Message::human("My email is test@example.com"),
    ];
    let redacted = mw.redact_input_messages(&msgs);
    assert!(redacted.is_some());
    let redacted = redacted.unwrap();
    assert!(redacted[0].text().contains("first@example.com"));
    assert!(redacted[2].text().contains("[REDACTED_EMAIL]"));
}

#[test]
fn test_pii_middleware_redact_output_messages_only_last_ai() {
    let mw = PIIMiddleware::for_type("email", RedactionStrategy::Redact);
    let msgs = vec![
        Message::human("Hi"),
        Message::ai("First reply with first@example.com"),
        Message::human("Another"),
        Message::ai("Second reply with second@example.com"),
    ];
    let redacted = mw.redact_output_messages(&msgs);
    assert!(redacted.is_some());
    let redacted = redacted.unwrap();
    assert!(redacted[1].text().contains("first@example.com"));
    assert!(redacted[3].text().contains("[REDACTED_EMAIL]"));
}

#[test]
fn test_pii_middleware_preserves_metadata() {
    let mw = PIIMiddleware::for_type("email", RedactionStrategy::Redact);
    let mut ai_msg = Message::ai("Email is ai@test.com");
    ai_msg.id = Some("msg-123".to_string());
    ai_msg.name = Some("assistant".to_string());
    ai_msg.tool_calls = vec![ToolCall { name: "search".into(), args: "{}".into(), id: Some("tc-1".into()) }];
    let msgs = vec![ai_msg];
    let redacted = mw.redact_output_messages(&msgs);
    assert!(redacted.is_some());
    let redacted = redacted.unwrap();
    let r = &redacted[0];
    assert!(matches!(r.message_type, MessageType::Ai));
    assert_eq!(r.id, Some("msg-123".to_string()));
    assert_eq!(r.name, Some("assistant".to_string()));
    assert_eq!(r.tool_calls.len(), 1);
    assert_eq!(r.tool_calls[0].name, "search");
    assert!(r.text().contains("[REDACTED_EMAIL]"));
}

struct SecretDetector;

impl PIIDetector for SecretDetector {
    fn detect(&self, text: &str) -> Vec<PIIMatch> {
        let mut matches = Vec::new();
        if let Some(start) = text.find("SECRET") {
            matches.push(PIIMatch { pii_type: "secret".into(), value: "SECRET".into(), start, end: start + 6 });
        }
        matches
    }
}

#[test]
fn test_pii_middleware_custom_detector() {
    let mw = PIIMiddleware::new(RedactionStrategy::Redact).with_detector(Box::new(SecretDetector));
    let result = mw.redact_text("My SECRET code");
    assert_eq!(result, "My [REDACTED_SECRET] code");
}

#[test]
fn test_pii_middleware_name() {
    let mw = PIIMiddleware::new(RedactionStrategy::Mask);
    assert_eq!(mw.name(), "PIIMiddleware");
}

#[test]
fn test_pii_middleware_no_redaction_returns_none() {
    let mw = PIIMiddleware::for_type("email", RedactionStrategy::Redact);
    let msgs = vec![Message::human("Hello world")];
    assert!(mw.redact_input_messages(&msgs).is_none());
}

#[test]
fn rules_give_same_text_in_either_order() {
    let text = "a@b.com and 10.0.0.1";
    let first = ResolvedRedactionRule { pii_match: m("email", "a@b.com", 0, 7), strategy: RedactionStrategy::Redact };
    let second = ResolvedRedactionRule { pii_match: m("ip", "10.0.0.1", 12, 20), strategy: RedactionStrategy::Mask };
    let forward = apply_rules(text, vec![first.clone(), second.clone()]).unwrap();
    let backward = apply_rules(text, vec![second, first]).unwrap();
    assert_eq!(forward, backward);
    assert_eq!(forward, "[REDACTED_EMAIL] and *.*.*.1");
}

#[test]
fn rules_fail_exactly_when_one_blocks() {
    let text = "a@b.com and c@d.org";
    let redact = ResolvedRedactionRule { pii_match: m("email", "a@b.com", 0, 7), strategy: RedactionStrategy::Redact };
    let block = ResolvedRedactionRule { pii_match: m("email", "c@d.org", 12, 19), strategy: RedactionStrategy::Block };
    assert!(apply_rules(text, vec![redact.clone(), block.clone()]).is_err());
    assert!(apply_rules(text, vec![block, redact.clone()]).is_err());
    assert!(apply_rules(text, vec![redact]).is_ok());
}

#[test]
fn redact_text_removes_url_with_ip_inside() {
    let mw = PIIMiddleware::new(RedactionStrategy::Redact);
    let result = mw.redact_text("http://10.0.0.1/abcdefgh");
    assert_eq!(result, "[REDACTED_URL]");
    assert!(!result.contains("10.0.0.1"));
    assert!(!result.contains("defgh"));
}

struct FixedSpans(Vec<(usize, usize, &'static str)>);

impl PIIDetector for FixedSpans {
    fn detect(&self, text: &str) -> Vec<PIIMatch> {
        self.0
            .iter()
            .map(|&(start, end, ty)| PIIMatch { pii_type: ty.into(), value: text[start..end].into(), start, end })
            .collect()
    }
}

#[test]
fn redact_text_merges_partly_overlapping_matches() {
    let spans = vec![(3, 8, "y"), (0, 5, "x")];
    let mw = PIIMiddleware::new(RedactionStrategy::Redact).with_detector(Box::new(FixedSpans(spans.clone())));
    assert_eq!(mw.redact_text("abcdefghij"), "[REDACTED_X]ij");
    let mw = PIIMiddleware::new(RedactionStrategy::Mask).with_detector(Box::new(FixedSpans(spans)));
    assert_eq!(mw.redact_text("abcdefghij"), "********ij");
}

#[test]
fn redact_text_keeps_separate_matches_apart() {
    let spans = vec![(7, 10, "b"), (0, 2, "a")];
    let mw = PIIMiddleware::new(RedactionStrategy::Redact).with_detector(Box::new(FixedSpans(spans)));
    assert_eq!(mw.redact_text("xy and zzz!"), "[REDACTED_A] and [REDACTED_B]!");
}

#[test]
fn mask_keeps_length_of_email_and_other_types() {
    let text = "mail john@example.com now";
    let r = apply_strategy(text, &m("email", "john@example.com", 5, 21), &RedactionStrategy::Mask).unwrap();
    assert_eq!(r.chars().count(), text.chars().count());
    let r = apply_strategy("id ab12cd", &m("token", "ab12cd", 3, 9), &RedactionStrategy::Mask).unwrap();
    assert_eq!(r, "id ******");
}

#[test]
fn hash_is_sixteen_lowercase_hex_digits() {
    let r = apply_strategy("x secret y", &m("token", "secret", 2, 8), &RedactionStrategy::Hash).unwrap();
    let h = &r[2..r.len() - 2];
    assert!(h.starts_with("[HASH:") && h.ends_with(']'));
    let digits = &h[6..h.len() - 1];
    assert_eq!(digits.len(), 16);
    assert!(digits.chars().all(|c| c.is_ascii_digit() || ('a'..='f').contains(&c)));
}

#[test]
fn custom_detector_is_used_alone() {
    let mw = PIIMiddleware::for_type("email", RedactionStrategy::Redact).with_detector(Box::new(SecretDetector));
    assert_eq!(mw.redact_text("a@b.com has SECRET"), "a@b.com has [REDACTED_SECRET]");
    assert_eq!(mw.detect("a@b.com only").len(), 0);
}
