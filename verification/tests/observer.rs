use coomi::ids::{new_session_id, question_call_id};
use coomi::observer::{loop_progress, step_in_progress, BrowserUsageState};

#[test]
fn browser_usage_includes_session_and_context_totals() {
    let mut usage = BrowserUsageState::new(12_000, 800);
    usage.context_updated(32_000, 128_000);
    assert_eq!(usage.total_tokens(), 12_800);
    assert_eq!(usage.context_used_tokens, 32_000);
    assert_eq!(usage.context_window_tokens, 128_000);
    usage.turn_completed(u64::MAX, 1);
    assert_eq!(usage.total_tokens(), u64::MAX);
    assert_eq!(usage.context_used_tokens, 32_000);
}

#[test]
fn plan_and_loop_progress() {
    assert_eq!(step_in_progress(&vec![false, true, true]), Some(2));
    assert_eq!(step_in_progress(&vec![false, false]), None);
    assert_eq!(step_in_progress(&Vec::new()), None);
    assert_eq!(loop_progress(3, true), (3, 4));
    assert_eq!(loop_progress(3, false), (3, 3));
}

#[test]
fn fresh_ids_are_random_uuids() {
    let a = new_session_id();
    let b = new_session_id();
    assert_ne!(a, b);
    assert_eq!(a.len(), 36);
    assert_eq!(&a[14..15], "4");
    assert!(a.chars().enumerate().all(|(i, c)| if [8, 13, 18, 23].contains(&i) { c == '-' } else { c.is_ascii_hexdigit() && !c.is_ascii_uppercase() }));
    let q = question_call_id();
    assert!(q.starts_with("question-"));
    assert_eq!(q.len(), 45);
}
