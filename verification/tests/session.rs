use coomi::bridge::PermissionMode;
use coomi::session::{
    handle_command, model_selection_finished, permission_saved, turn_finished, BridgeAction,
    CommandPayload, ConnectionState, ModelSelection,
};

fn payload(command: &str) -> CommandPayload {
    CommandPayload {
        command: Some(command.into()),
        text: None,
        call_id: None,
        decision: None,
        answer: None,
        request_id: None,
        paths: None,
        mode: None,
        provider_id: None,
        model: None,
    }
}

fn error_of(actions: &[BridgeAction]) -> Option<&str> {
    match actions {
        [BridgeAction::Error(m)] => Some(m.as_str()),
        _ => None,
    }
}

#[test]
fn send_message_starts_one_turn_at_a_time() {
    let state = ConnectionState::new(PermissionMode::Ask);
    let mut p = payload("send_message");
    p.text = Some("  fix the bug \n".into());
    let (running, actions) = handle_command(&state, &p);
    assert!(running.running);
    assert!(matches!(actions.as_slice(), [BridgeAction::Ack, BridgeAction::StartTurn(t)] if t == "fix the bug"));
    let (again, actions) = handle_command(&running, &p);
    assert!(again.running);
    assert_eq!(error_of(&actions), Some("a turn is already running"));
    let finished = turn_finished(&again);
    assert!(!finished.running);
}

#[test]
fn send_message_needs_text() {
    let state = ConnectionState::new(PermissionMode::Ask);
    let mut p = payload("send_message");
    p.text = Some("   ".into());
    let (n, actions) = handle_command(&state, &p);
    assert!(!n.running);
    assert_eq!(error_of(&actions), Some("message text is required"));
}

#[test]
fn planning_mode_prefixes_the_prompt() {
    let state = ConnectionState::new(PermissionMode::Ask);
    let (planning, actions) = handle_command(&state, &payload("enter_plan_mode"));
    assert!(planning.plan_mode);
    assert!(matches!(actions.as_slice(), [BridgeAction::Ack]));
    let mut p = payload("send_message");
    p.text = Some("go".into());
    let (_, actions) = handle_command(&planning, &p);
    assert!(matches!(actions.as_slice(), [BridgeAction::Ack, BridgeAction::StartTurn(t)]
        if t == "Work in planning mode. Inspect the project and return an actionable plan before making changes.\n\ngo"));
    let (normal, _) = handle_command(&planning, &payload("exit_plan_mode"));
    assert!(!normal.plan_mode);
}

#[test]
fn cancel_stops_the_turn_then_its_processes() {
    let mut state = ConnectionState::new(PermissionMode::Full);
    state.running = true;
    let (n, actions) = handle_command(&state, &payload("cancel"));
    assert!(!n.running);
    assert!(matches!(
        actions.as_slice(),
        [BridgeAction::AbortTurn, BridgeAction::TerminateProcesses, BridgeAction::Ack, BridgeAction::AgentCancelled, BridgeAction::TurnEnd]
    ));
}

#[test]
fn jump_in_queues_only_real_text() {
    let state = ConnectionState::new(PermissionMode::Ask);
    let mut p = payload("jump_in");
    p.text = Some(" also this ".into());
    let (_, actions) = handle_command(&state, &p);
    assert!(matches!(actions.as_slice(), [BridgeAction::QueueInput(t), BridgeAction::Ack] if t == " also this "));
    p.text = Some(" \t".into());
    let (_, actions) = handle_command(&state, &p);
    assert!(matches!(actions.as_slice(), [BridgeAction::Ack]));
}

#[test]
fn answers_are_routed_to_pending_requests() {
    let state = ConnectionState::new(PermissionMode::Ask);
    let mut p = payload("approve_tool");
    p.call_id = Some("c1".into());
    p.decision = Some("always".into());
    let (_, actions) = handle_command(&state, &p);
    assert!(matches!(actions.as_slice(), [BridgeAction::ResolveApproval(id, true), BridgeAction::Ack] if id == "c1"));
    p.decision = Some("deny".into());
    let (_, actions) = handle_command(&state, &p);
    assert!(matches!(actions.as_slice(), [BridgeAction::ResolveApproval(_, false), BridgeAction::Ack]));

    let mut q = payload("answer_question");
    q.call_id = Some("q1".into());
    q.answer = Some("yes".into());
    let (_, actions) = handle_command(&state, &q);
    assert!(matches!(actions.as_slice(), [BridgeAction::ResolveQuestion(id, a), BridgeAction::Ack] if id == "q1" && a == "yes"));

    let mut f = payload("file_transfer_result");
    f.request_id = Some("r1".into());
    f.paths = Some(vec!["/a".into(), "/b".into()]);
    let (_, actions) = handle_command(&state, &f);
    assert!(matches!(actions.as_slice(), [BridgeAction::ResolveFileRequest(id, paths), BridgeAction::Ack]
        if id == "r1" && paths == &vec!["/a".to_string(), "/b".to_string()]));
}

#[test]
fn permission_mode_is_set_then_saved() {
    let state = ConnectionState::new(PermissionMode::Ask);
    let mut p = payload("set_permission_mode");
    p.mode = Some("full".into());
    let (n, actions) = handle_command(&state, &p);
    assert_eq!(n.permission, PermissionMode::Full);
    assert!(matches!(actions.as_slice(), [BridgeAction::SavePermissionMode(PermissionMode::Full)]));
    p.mode = Some("weird".into());
    let (n, _) = handle_command(&state, &p);
    assert_eq!(n.permission, PermissionMode::Ask);
    assert!(matches!(permission_saved(Ok(())), BridgeAction::Ack));
    assert!(matches!(permission_saved(Err("disk full".into())), BridgeAction::Error(m) if m == "failed to save permission mode: disk full"));
}

#[test]
fn select_model_needs_both_fields_and_remembers_the_choice() {
    let state = ConnectionState::new(PermissionMode::Ask);
    let mut p = payload("select_model");
    p.provider_id = Some("openai".into());
    let (_, actions) = handle_command(&state, &p);
    assert_eq!(error_of(&actions), Some("provider_id and model are required"));
    p.model = Some("gpt".into());
    let (_, actions) = handle_command(&state, &p);
    assert!(matches!(actions.as_slice(), [BridgeAction::SelectModel(a, b)] if a == "openai" && b == "gpt"));
    let (n, a) = model_selection_finished(&state, "openai", "gpt", ModelSelection::Saved);
    assert_eq!(n.selected_model.as_deref(), Some("openai:gpt"));
    assert!(matches!(a, BridgeAction::Ack));
    let (n, a) = model_selection_finished(&state, "openai", "gpt", ModelSelection::NotFound);
    assert!(n.selected_model.is_none());
    assert!(matches!(a, BridgeAction::Error(m) if m == "provider not found"));
    let (_, a) = model_selection_finished(&state, "x", "y", ModelSelection::LoadFailed("bad json".into()));
    assert!(matches!(a, BridgeAction::Error(m) if m == "failed to load providers: bad json"));
    let (_, a) = model_selection_finished(&state, "x", "y", ModelSelection::SaveFailed("read-only".into()));
    assert!(matches!(a, BridgeAction::Error(m) if m == "failed to persist model: read-only"));
}

#[test]
fn unknown_commands_are_named_in_the_error() {
    let state = ConnectionState::new(PermissionMode::Ask);
    let (_, actions) = handle_command(&state, &payload("dance"));
    assert_eq!(error_of(&actions), Some("unsupported command: dance"));
    let mut empty = payload("");
    empty.command = None;
    let (_, actions) = handle_command(&state, &empty);
    assert_eq!(error_of(&actions), Some("unsupported command: "));
}
