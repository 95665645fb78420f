use coomi::cognitive::{
    bounded_text, check_protocol, check_response, check_token, generate_cognitive_token,
    next_request_id, recall_limit, sidecar_launch, validate_profile_id, CognitiveError,
};

#[test]
fn token_is_random_and_long_enough_for_sidecar_authentication() {
    let first = generate_cognitive_token();
    let second = generate_cognitive_token();
    assert_ne!(first, second);
    assert_eq!(first.len(), 64);
}

#[test]
fn profile_and_turn_inputs_are_bounded() {
    assert_eq!(validate_profile_id("life_1"), "life_1");
    assert_eq!(validate_profile_id("../escape"), "invalid-profile");
    assert_eq!(bounded_text(&"x".repeat(20_000)).len(), 12_000);
}

#[test]
fn profile_ids_at_the_edges() {
    assert_eq!(validate_profile_id(""), "invalid-profile");
    assert_eq!(validate_profile_id(&"a".repeat(64)), "a".repeat(64));
    assert_eq!(validate_profile_id(&"a".repeat(65)), "invalid-profile");
    assert_eq!(validate_profile_id("Life-2_b"), "Life-2_b");
    assert_eq!(validate_profile_id("é"), "invalid-profile");
}

#[test]
fn bounded_text_counts_characters() {
    let text = "é".repeat(12_001);
    let bounded = bounded_text(&text);
    assert_eq!(bounded.chars().count(), 12_000);
    assert_eq!(bounded_text("short"), "short");
}

#[test]
fn recall_limit_is_clamped() {
    assert_eq!(recall_limit(0), 1);
    assert_eq!(recall_limit(5), 5);
    assert_eq!(recall_limit(40), 12);
}

#[test]
fn generated_tokens_pass_the_sidecar_check() {
    let token = generate_cognitive_token();
    assert!(token.chars().all(|c| c.is_ascii_hexdigit() && !c.is_ascii_uppercase()));
    assert!(check_token(&token).is_ok());
    let short = check_token("short").unwrap_err();
    assert!(matches!(short, CognitiveError::TokenTooShort));
    assert_eq!(short.message(), "cognitive sidecar token is too short");
}

#[test]
fn protocol_and_response_checks() {
    assert!(check_protocol(Some(1)).is_ok());
    assert!(matches!(check_protocol(Some(2)), Err(CognitiveError::ProtocolMismatch)));
    assert!(matches!(check_protocol(None), Err(CognitiveError::ProtocolMismatch)));
    assert!(check_response(Some(7), 7, false, None).is_ok());
    assert!(matches!(check_response(Some(8), 7, false, None), Err(CognitiveError::ResponseIdMismatch)));
    let err = check_response(Some(7), 7, true, None).unwrap_err();
    assert_eq!(err.message(), "cognitive sidecar error: unknown error");
    let err = check_response(Some(7), 7, true, Some("boom".to_string())).unwrap_err();
    assert_eq!(err.message(), "cognitive sidecar error: boom");
}

#[test]
fn request_ids_advance_and_saturate() {
    assert_eq!(next_request_id(1), (1, 2));
    assert_eq!(next_request_id(u64::MAX), (u64::MAX, u64::MAX));
}

#[test]
fn sidecar_gets_only_its_own_environment() {
    let launch = sidecar_launch("/opt/sidecar.py", "/data/life", "tok");
    assert_eq!(launch.arguments, vec!["/opt/sidecar.py", "--stdio", "--state-root", "/data/life"]);
    assert_eq!(launch.environment.len(), 4);
    assert_eq!(launch.environment.get("HOME").map(String::as_str), Some("/data/life"));
    assert_eq!(launch.environment.get("COOMI_LIFE_TOKEN").map(String::as_str), Some("tok"));
    assert_eq!(launch.environment.get("PATH").map(String::as_str), Some("/usr/local/bin:/usr/bin:/bin"));
    assert_eq!(launch.environment.get("LANG").map(String::as_str), Some("C.UTF-8"));
}
