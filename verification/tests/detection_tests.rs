use aiav_core::ai::{ai_signature, AiPrediction, ClassifierScript};
use aiav_core::crypto::sha256_hex;
use aiav_core::detection::ThreatStatus;
use aiav_core::errors::AvError;
use aiav_core::signature::SignatureDetector;
use aiav_core::scanner::Scanner;

const EMPTY_SHA256: &str = "e3b0c44298fc1c149afbf4c8996fb92427ae41e4649b934ca495991b7852b855";

fn reply(malicious: bool, confidence_bp: u32) -> Option<AiPrediction> {
    Some(AiPrediction { malicious, confidence_bp, sha256: None })
}

#[test]
fn hash_positive_negative() {
    let sig = SignatureDetector::load("e3b0c44298fc1c149afbf4c8996fb924", "").unwrap();
    assert!(sig.is_malicious_hash("e3b0c44298fc1c149afbf4c8996fb924"));
    assert!(!sig.is_malicious_hash("ffffffffffffffffffffffffffffffff"));
}

#[test]
fn hash_membership_ignores_ascii_case() {
    let sig = SignatureDetector::load("aa11bb22cc33", "").unwrap();
    assert!(sig.is_malicious_hash("AA11BB22CC33"));
    assert!(sig.is_malicious_hash("aa11bb22cc33"));
    assert!(sig.is_malicious_hash("Aa11Bb22Cc33"));
    assert!(!sig.is_malicious_hash("aa11bb22cc34"));
}

#[test]
fn sha256_of_empty_input() {
    assert_eq!(sha256_hex(b"").as_str(), EMPTY_SHA256);
}

#[test]
fn sha256_of_abc() {
    assert_eq!(
        sha256_hex(b"abc").as_str(),
        "ba7816bf8f01cfea414140de5dae2223b00361a396177a9cb410ff61f20015ad"
    );
}

#[test]
fn hash_tier_matches_stored_digest_without_network_call() {
    let db = format!("{}:EICAR-Test", EMPTY_SHA256);
    let scanner = Scanner::new(db.as_str(), "").unwrap();
    let mut script = ClassifierScript::new(vec![reply(true, 9900)]);
    let result = scanner.scan_bytes("/tmp/empty.bin", b"", &mut script).unwrap();
    assert_eq!(
        result.status,
        ThreatStatus::ThreatDetected { signature: "EICAR-Test".to_string() }
    );
    assert_eq!(script.consumed(), 0);
}

#[test]
fn hash_tier_is_case_insensitive_for_stored_upper_case_digest() {
    let db = format!("{}:Upper", EMPTY_SHA256.to_uppercase());
    let scanner = Scanner::new(db.as_str(), "").unwrap();
    let mut script = ClassifierScript::unavailable();
    let result = scanner.scan_bytes("/tmp/empty.bin", b"", &mut script).unwrap();
    assert_eq!(result.status, ThreatStatus::ThreatDetected { signature: "Upper".to_string() });
}

#[test]
fn pattern_tier_precedes_hash_tier() {
    let rule = "rule marks_payload { strings: $a = \"EVILSTRING\" condition: $a }";
    let db = format!(
        "{}:HashLabel",
        sha256_hex(b"xxEVILSTRINGxx")
    );
    let scanner = Scanner::new(db.as_str(), rule).unwrap();
    let mut script = ClassifierScript::new(vec![reply(true, 9900)]);
    let result = scanner.scan_bytes("/tmp/payload.bin", b"xxEVILSTRINGxx", &mut script).unwrap();
    assert_eq!(
        result.status,
        ThreatStatus::ThreatDetected { signature: "marks_payload".to_string() }
    );
    assert_eq!(script.consumed(), 0);
}

#[test]
fn classifier_tier_flags_confident_malicious_reply() {
    let scanner = Scanner::new("", "").unwrap();
    let mut script = ClassifierScript::new(vec![reply(true, 8500)]);
    let result = scanner.scan_bytes("/tmp/x.bin", b"unknown content", &mut script).unwrap();
    assert_eq!(
        result.status,
        ThreatStatus::ThreatDetected { signature: "AI-Detected (Confidence: 85.00%)".to_string() }
    );
    assert_eq!(script.consumed(), 1);
}

#[test]
fn classifier_tier_respects_exact_threshold() {
    let scanner = Scanner::new("", "").unwrap();
    let mut script = ClassifierScript::new(vec![reply(true, 8000)]);
    let result = scanner.scan_bytes("/tmp/x.bin", b"unknown content", &mut script).unwrap();
    assert!(result.status.is_threat());
}

#[test]
fn classifier_tier_ignores_low_confidence() {
    let scanner = Scanner::new("", "").unwrap();
    let mut script = ClassifierScript::new(vec![reply(true, 7999)]);
    let result = scanner.scan_bytes("/tmp/x.bin", b"unknown content", &mut script).unwrap();
    assert_eq!(result.status, ThreatStatus::Clean);
    assert_eq!(script.consumed(), 1);
}

#[test]
fn classifier_tier_ignores_benign_reply() {
    let scanner = Scanner::new("", "").unwrap();
    let mut script = ClassifierScript::new(vec![reply(false, 9999)]);
    let result = scanner.scan_bytes("/tmp/x.bin", b"unknown content", &mut script).unwrap();
    assert_eq!(result.status, ThreatStatus::Clean);
}

#[test]
fn classifier_outage_degrades_to_clean() {
    let scanner = Scanner::new("", "").unwrap();
    let mut script = ClassifierScript::unavailable();
    let result = scanner.scan_bytes("/tmp/x.bin", b"unknown content", &mut script).unwrap();
    assert_eq!(result.status, ThreatStatus::Clean);
    assert_eq!(script.consumed(), 1);
}

#[test]
fn rule_compilation_failure_is_fatal_to_construction() {
    let result = Scanner::new("", "rule broken {");
    assert!(matches!(result, Err(AvError::Yara(_))));
}

#[test]
fn rule_source_with_nul_character_is_rejected_not_panicking() {
    let result = Scanner::new("", "rule x { condition: true }\0");
    assert!(matches!(result, Err(AvError::Yara(_))));
}

#[test]
fn ai_signature_formats_confidence_with_two_decimals() {
    assert_eq!(ai_signature(8500).as_str(), "AI-Detected (Confidence: 85.00%)");
    assert_eq!(ai_signature(8000).as_str(), "AI-Detected (Confidence: 80.00%)");
    assert_eq!(ai_signature(9905).as_str(), "AI-Detected (Confidence: 99.05%)");
    assert_eq!(ai_signature(10000).as_str(), "AI-Detected (Confidence: 100.00%)");
    assert_eq!(ai_signature(1).as_str(), "AI-Detected (Confidence: 0.01%)");
}

#[test]
fn error_message_round_trip() {
    let e = AvError::new("something went sideways");
    assert_eq!(e.message().as_str(), "something went sideways");
}

#[test]
fn signature_db_later_lines_override_earlier_ones() {
    let scanner = Scanner::new("aa11:First\nAA11:Second", "").unwrap();
    let label = scanner.db_lookup("aa11").unwrap();
    assert_eq!(label.as_str(), "Second");
}

#[test]
fn signature_db_skips_lines_without_colon() {
    let scanner = Scanner::new("not a database line\nbb22:Label", "").unwrap();
    assert!(scanner.db_lookup("not a database line").is_none());
    assert_eq!(scanner.db_lookup("bb22").unwrap().as_str(), "Label");
}

#[test]
fn signature_db_trims_digest_and_label() {
    let scanner = Scanner::new("  cc33  :  Spaced Label  \r\n", "").unwrap();
    assert_eq!(scanner.db_lookup("cc33").unwrap().as_str(), "Spaced Label");
}
