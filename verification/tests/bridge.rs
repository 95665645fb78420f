use coomi::bridge::{
    session_cwd, turn_cwd,    access_mode_label, permission_settings_path, providers_path,
    approval_access, auto_approves, origin_allowed, parse_permission_mode, permission_mode_name,
    question_timeout_ms, system_prompt, turn_access_mode, turn_selector, AccessMode,
    PermissionMode, SkillEntry,
};

#[test]
fn approval_risk_maps_to_frontend_access_values() {
    assert_eq!(approval_access("command may delete data"), "destructive");
    assert_eq!(approval_access("shell can change files"), "write");
    assert_eq!(approval_access("read metadata"), "read_only");
}

#[test]
fn approval_access_ignores_ascii_case() {
    assert_eq!(approval_access("Will OVERWRITE config"), "destructive");
    assert_eq!(approval_access("Starts a Process"), "write");
}

#[test]
fn web_prompt_does_not_include_shared_persistent_memory() {
    let prompt = system_prompt("/project", "full access", &Vec::new(), "");
    assert!(!prompt.contains("CROSS_SESSION_SENTINEL"));
    assert!(!prompt.contains("Persistent memory:"));
}

#[test]
fn system_prompt_lists_enabled_skills_and_instructions() {
    let skills = vec![
        SkillEntry { name: "git".to_string(), enabled: true },
        SkillEntry { name: "off".to_string(), enabled: false },
        SkillEntry { name: "build".to_string(), enabled: true },
    ];
    let prompt = system_prompt("/p", "workspace write", &skills, "Use tabs.");
    assert!(prompt.starts_with("You are Coomi, a pragmatic coding agent running locally on Android."));
    assert!(prompt.contains("\n\nWorking directory: /p\nAccess policy: workspace write"));
    assert!(prompt.contains("\nInstalled skills: git, build"));
    assert!(!prompt.contains("off"));
    assert!(prompt.ends_with("\n\nProject instructions:\nUse tabs."));
    let blank = system_prompt("/p", "x", &Vec::new(), "  \n ");
    assert!(blank.ends_with("Access policy: x"));
}

#[test]
fn permission_modes_round_trip() {
    for mode in [PermissionMode::Ask, PermissionMode::Auto, PermissionMode::Full] {
        assert_eq!(parse_permission_mode(Some(permission_mode_name(mode))), mode);
    }
    assert_eq!(parse_permission_mode(Some("other")), PermissionMode::Ask);
    assert_eq!(parse_permission_mode(None), PermissionMode::Ask);
    assert_eq!(turn_access_mode(PermissionMode::Ask), AccessMode::WorkspaceWrite);
    assert_eq!(turn_access_mode(PermissionMode::Auto), AccessMode::FullAccess);
}

#[test]
fn auto_mode_still_asks_before_deleting() {
    assert!(auto_approves(PermissionMode::Full, "delete everything"));
    assert!(auto_approves(PermissionMode::Auto, "write a file"));
    assert!(!auto_approves(PermissionMode::Auto, "may DELETE data"));
    assert!(!auto_approves(PermissionMode::Ask, "read"));
}

#[test]
fn only_local_origins_may_connect() {
    assert!(origin_allowed(None, 8765));
    assert!(origin_allowed(Some("http://127.0.0.1:8765"), 8765));
    assert!(origin_allowed(Some("http://localhost:8765"), 8765));
    assert!(!origin_allowed(Some("http://localhost:8766"), 8765));
    assert!(!origin_allowed(Some("https://evil.example"), 8765));
    assert!(!origin_allowed(Some(""), 8765));
}

#[test]
fn question_timeouts_are_clamped() {
    assert_eq!(question_timeout_ms(None), 300_000);
    assert_eq!(question_timeout_ms(Some(10)), 1_000);
    assert_eq!(question_timeout_ms(Some(5_000)), 5_000);
    assert_eq!(question_timeout_ms(Some(900_000)), 300_000);
}

#[test]
fn turn_selector_prefers_the_connection_choice() {
    assert_eq!(turn_selector(Some("a:m".to_string()), Some("b".to_string())), Some("a:m".to_string()));
    assert_eq!(turn_selector(None, Some("b".to_string())), Some("b".to_string()));
    assert_eq!(turn_selector(None, Some(String::new())), None);
    assert_eq!(turn_selector(None, None), None);
}

#[test]
fn settings_live_under_the_config_directory() {
    assert_eq!(providers_path("/home/u/.coomi"), "/home/u/.coomi/config/providers.json");
    assert_eq!(permission_settings_path("/h/"), "/h/config/web-settings.json");
    assert_eq!(access_mode_label(AccessMode::WorkspaceWrite), "workspace-write");
    assert_eq!(access_mode_label(AccessMode::FullAccess), "full-access");
}

#[test]
fn turns_run_in_the_session_directory() {
    assert_eq!(session_cwd("", "/engine"), "/engine");
    assert_eq!(session_cwd("/project", "/engine"), "/project");
    assert_eq!(turn_cwd("/project", true, "/engine"), "/project");
    assert_eq!(turn_cwd("/moved", false, "/engine"), "/engine");
}
