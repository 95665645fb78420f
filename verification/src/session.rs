//! The command protocol of a browser session: what each command the browser
//! sends does to the connection's state and which effects it asks for.
use vstd::prelude::*;
use crate::bridge::{PermissionMode, permission_mode_spec, parse_permission_mode};
use crate::providers::{opt_view, strs_view, clone_opt};
use crate::text::{is_blank, is_blank_spec, owned, str_eq, trim, trim_spec};

verus! {

broadcast use vstd::string::group_string_axioms;

/// What a connection remembers between commands.
pub struct ConnectionState {
    /// A turn is in progress.
    pub running: bool,
    /// Prompts are prefixed with the planning instruction.
    pub plan_mode: bool,
    pub permission: PermissionMode,
    /// `provider:model` picked in this connection.
    pub selected_model: Option<String>,
}

impl ConnectionState {
    /// A fresh connection with the stored permission mode.
    pub fn new(permission: PermissionMode) -> (s: Self)
        ensures
            !s.running,
            !s.plan_mode,
            s.permission == permission,
            s.selected_model is None,
    {
        ConnectionState { running: false, plan_mode: false, permission, selected_model: None }
    }
}

/// The string fields of a command envelope's payload.
pub struct CommandPayload {
    pub command: Option<String>,
    pub text: Option<String>,
    pub call_id: Option<String>,
    pub decision: Option<String>,
    pub answer: Option<String>,
    pub request_id: Option<String>,
    /// The string entries of `paths`, when it is a list.
    pub paths: Option<Vec<String>>,
    pub mode: Option<String>,
    pub provider_id: Option<String>,
    pub model: Option<String>,
}

/// An effect the bridge performs, in order.
pub enum BridgeAction {
    /// Acknowledge the command.
    Ack,
    /// Answer the command with an error message.
    Error(String),
    /// Run an agent turn on this prompt.
    StartTurn(String),
    /// Abort the running turn, if any.
    AbortTurn,
    /// Kill every shell process the turn's tools started.
    TerminateProcesses,
    /// Tell the browser the turn was cancelled.
    AgentCancelled,
    /// Tell the browser the turn has ended.
    TurnEnd,
    /// Queue text for the running turn.
    QueueInput(String),
    /// Answer a pending approval.
    ResolveApproval(String, bool),
    /// Answer a pending question.
    ResolveQuestion(String, String),
    /// Answer a pending file request.
    ResolveFileRequest(String, Vec<String>),
    /// Persist the permission mode, then call `permission_saved`.
    SavePermissionMode(PermissionMode),
    /// Load the providers, select this provider's model, save them, then
    /// call `model_selection_finished`.
    SelectModel(String, String),
}

/// An absent string read as empty.
pub open spec fn or_empty(o: Option<String>) -> Seq<char> {
    match o {
        Some(s) => s@,
        None => Seq::empty(),
    }
}

/// The instruction prepended to prompts in planning mode.
pub open spec fn plan_prefix() -> Seq<char> {
    "Work in planning mode. Inspect the project and return an actionable plan before making changes.\n\n"@
}

/// `new` is `old` with only the running flag changed to `running`.
pub open spec fn only_running(old: ConnectionState, new: ConnectionState, running: bool) -> bool {
    new.running == running && new.plan_mode == old.plan_mode && new.permission == old.permission
        && opt_view(new.selected_model) == opt_view(old.selected_model)
}

/// `new` is `old` unchanged.
pub open spec fn unchanged(old: ConnectionState, new: ConnectionState) -> bool {
    only_running(old, new, old.running)
}

/// What a command does: the new state and the effects, for every command.
pub open spec fn command_outcome(s: ConnectionState, p: CommandPayload, n: ConnectionState, a: Seq<BridgeAction>) -> bool {
    let c = or_empty(p.command);
    if c == "send_message"@ {
        let prompt = trim_spec(or_empty(p.text));
        if prompt.len() == 0 {
            unchanged(s, n) && a.len() == 1 && (a[0] matches BridgeAction::Error(m) && m@ == "message text is required"@)
        } else if s.running {
            unchanged(s, n) && a.len() == 1 && (a[0] matches BridgeAction::Error(m) && m@ == "a turn is already running"@)
        } else {
            &&& only_running(s, n, true)
            &&& a.len() == 2
            &&& a[0] is Ack
            &&& a[1] matches BridgeAction::StartTurn(t) && t@ == (if s.plan_mode { plan_prefix() + prompt } else { prompt })
        }
    } else if c == "cancel"@ {
        &&& only_running(s, n, false)
        &&& a.len() == 5
        &&& a[0] is AbortTurn
        &&& a[1] is TerminateProcesses
        &&& a[2] is Ack
        &&& a[3] is AgentCancelled
        &&& a[4] is TurnEnd
    } else if c == "jump_in"@ {
        &&& unchanged(s, n)
        &&& (if p.text is Some && !is_blank_spec(or_empty(p.text)) {
            a.len() == 2 && (a[0] matches BridgeAction::QueueInput(t) && t@ == or_empty(p.text)) && a[1] is Ack
        } else {
            a.len() == 1 && a[0] is Ack
        })
    } else if c == "approve_tool"@ {
        &&& unchanged(s, n)
        &&& a.len() == 2
        &&& a[0] matches BridgeAction::ResolveApproval(id, allow) && id@ == or_empty(p.call_id)
            && allow == (p.decision is Some && (or_empty(p.decision) == "allow"@ || or_empty(p.decision) == "always"@))
        &&& a[1] is Ack
    } else if c == "answer_question"@ {
        &&& unchanged(s, n)
        &&& a.len() == 2
        &&& a[0] matches BridgeAction::ResolveQuestion(id, answer) && id@ == or_empty(p.call_id)
            && answer@ == or_empty(p.answer)
        &&& a[1] is Ack
    } else if c == "file_transfer_result"@ {
        &&& unchanged(s, n)
        &&& a.len() == 2
        &&& a[0] matches BridgeAction::ResolveFileRequest(id, paths) && id@ == or_empty(p.request_id)
            && strs_view(paths@) == (match p.paths { Some(v) => strs_view(v@), None => Seq::empty() })
        &&& a[1] is Ack
    } else if c == "set_permission_mode"@ {
        let m = permission_mode_spec(opt_view(p.mode));
        &&& n.permission == m && n.running == s.running && n.plan_mode == s.plan_mode
            && opt_view(n.selected_model) == opt_view(s.selected_model)
        &&& a.len() == 1
        &&& a[0] matches BridgeAction::SavePermissionMode(saved) && saved == m
    } else if c == "enter_plan_mode"@ || c == "exit_plan_mode"@ {
        &&& n.plan_mode == (c == "enter_plan_mode"@) && n.running == s.running && n.permission == s.permission
            && opt_view(n.selected_model) == opt_view(s.selected_model)
        &&& a.len() == 1
        &&& a[0] is Ack
    } else if c == "select_model"@ {
        &&& unchanged(s, n)
        &&& a.len() == 1
        &&& if or_empty(p.provider_id).len() == 0 || or_empty(p.model).len() == 0 {
            a[0] matches BridgeAction::Error(m) && m@ == "provider_id and model are required"@
        } else {
            a[0] matches BridgeAction::SelectModel(pid, model) && pid@ == or_empty(p.provider_id)
                && model@ == or_empty(p.model)
        }
    } else {
        &&& unchanged(s, n)
        &&& a.len() == 1
        &&& a[0] matches BridgeAction::Error(m) && m@ == "unsupported command: "@ + c
    }
}

/// An owned copy of an optional string, absent read as empty.
fn field_or_empty(o: &Option<String>) -> (r: String)
    ensures
        r@ == or_empty(*o),
{
    match o {
        Some(s) => s.clone(),
        None => String::new(),
    }
}

/// A copy of the state with the running flag set.
fn with_running(s: &ConnectionState, running: bool) -> (n: ConnectionState)
    ensures
        only_running(*s, n, running),
{
    ConnectionState {
        running,
        plan_mode: s.plan_mode,
        permission: s.permission,
        selected_model: clone_opt(&s.selected_model),
    }
}

/// Decides what a browser command does (the `handle_command` of a session).
pub fn handle_command(s: &ConnectionState, p: &CommandPayload) -> (r: (ConnectionState, Vec<BridgeAction>))
    ensures
        command_outcome(*s, *p, r.0, r.1@),
{
    let c = field_or_empty(&p.command);
    let mut actions: Vec<BridgeAction> = Vec::new();
    if str_eq(c.as_str(), "send_message") {
        let text = field_or_empty(&p.text);
        let prompt = trim(text.as_str());
        if prompt.unicode_len() == 0 {
            actions.push(BridgeAction::Error(owned("message text is required")));
            return (with_running(s, s.running), actions);
        }
        if s.running {
            actions.push(BridgeAction::Error(owned("a turn is already running")));
            return (with_running(s, s.running), actions);
        }
        actions.push(BridgeAction::Ack);
        let turn_prompt = if s.plan_mode {
            let mut t = owned("Work in planning mode. Inspect the project and return an actionable plan before making changes.\n\n");
            t.append(prompt.as_str());
            t
        } else {
            prompt
        };
        actions.push(BridgeAction::StartTurn(turn_prompt));
        (with_running(s, true), actions)
    } else if str_eq(c.as_str(), "cancel") {
        actions.push(BridgeAction::AbortTurn);
        actions.push(BridgeAction::TerminateProcesses);
        actions.push(BridgeAction::Ack);
        actions.push(BridgeAction::AgentCancelled);
        actions.push(BridgeAction::TurnEnd);
        (with_running(s, false), actions)
    } else if str_eq(c.as_str(), "jump_in") {
        match &p.text {
            Some(t) => {
                if !is_blank(t.as_str()) {
                    actions.push(BridgeAction::QueueInput(t.clone()));
                }
            },
            None => {},
        }
        actions.push(BridgeAction::Ack);
        (with_running(s, s.running), actions)
    } else if str_eq(c.as_str(), "approve_tool") {
        let allow = match &p.decision {
            Some(d) => str_eq(d.as_str(), "allow") || str_eq(d.as_str(), "always"),
            None => false,
        };
        actions.push(BridgeAction::ResolveApproval(field_or_empty(&p.call_id), allow));
        actions.push(BridgeAction::Ack);
        (with_running(s, s.running), actions)
    } else if str_eq(c.as_str(), "answer_question") {
        actions.push(BridgeAction::ResolveQuestion(field_or_empty(&p.call_id), field_or_empty(&p.answer)));
        actions.push(BridgeAction::Ack);
        (with_running(s, s.running), actions)
    } else if str_eq(c.as_str(), "file_transfer_result") {
        let paths = match &p.paths {
            Some(v) => crate::providers::clone_strs(v),
            None => Vec::new(),
        };
        proof {
            if p.paths is None {
                assert(strs_view(paths@) =~= Seq::<Seq<char>>::empty());
            }
        }
        actions.push(BridgeAction::ResolveFileRequest(field_or_empty(&p.request_id), paths));
        actions.push(BridgeAction::Ack);
        (with_running(s, s.running), actions)
    } else if str_eq(c.as_str(), "set_permission_mode") {
        let m = match &p.mode {
            Some(x) => parse_permission_mode(Some(x.as_str())),
            None => parse_permission_mode(None),
        };
        actions.push(BridgeAction::SavePermissionMode(m));
        let n = ConnectionState {
            running: s.running,
            plan_mode: s.plan_mode,
            permission: m,
            selected_model: clone_opt(&s.selected_model),
        };
        (n, actions)
    } else if str_eq(c.as_str(), "enter_plan_mode") || str_eq(c.as_str(), "exit_plan_mode") {
        let enter = str_eq(c.as_str(), "enter_plan_mode");
        actions.push(BridgeAction::Ack);
        let n = ConnectionState {
            running: s.running,
            plan_mode: enter,
            permission: s.permission,
            selected_model: clone_opt(&s.selected_model),
        };
        (n, actions)
    } else if str_eq(c.as_str(), "select_model") {
        let provider = field_or_empty(&p.provider_id);
        let model = field_or_empty(&p.model);
        if provider.unicode_len() == 0 || model.unicode_len() == 0 {
            actions.push(BridgeAction::Error(owned("provider_id and model are required")));
        } else {
            actions.push(BridgeAction::SelectModel(provider, model));
        }
        (with_running(s, s.running), actions)
    } else {
        let mut m = owned("unsupported command: ");
        m.append(c.as_str());
        actions.push(BridgeAction::Error(m));
        (with_running(s, s.running), actions)
    }
}

/// The command names are pairwise different.
proof fn lemma_commands_distinct()
    ensures
        "send_message"@ != "cancel"@,
        "send_message"@ != "jump_in"@,
        "send_message"@ != "approve_tool"@,
        "send_message"@ != "answer_question"@,
        "send_message"@ != "file_transfer_result"@,
        "send_message"@ != "set_permission_mode"@,
        "send_message"@ != "enter_plan_mode"@,
        "send_message"@ != "exit_plan_mode"@,
        "send_message"@ != "select_model"@,
        "cancel"@ != "jump_in"@,
        "cancel"@ != "approve_tool"@,
        "cancel"@ != "answer_question"@,
        "cancel"@ != "file_transfer_result"@,
        "cancel"@ != "set_permission_mode"@,
        "cancel"@ != "enter_plan_mode"@,
        "cancel"@ != "exit_plan_mode"@,
        "cancel"@ != "select_model"@,
        "jump_in"@ != "approve_tool"@,
        "jump_in"@ != "answer_question"@,
        "jump_in"@ != "file_transfer_result"@,
        "jump_in"@ != "set_permission_mode"@,
        "jump_in"@ != "enter_plan_mode"@,
        "jump_in"@ != "exit_plan_mode"@,
        "jump_in"@ != "select_model"@,
        "approve_tool"@ != "answer_question"@,
        "approve_tool"@ != "file_transfer_result"@,
        "approve_tool"@ != "set_permission_mode"@,
        "approve_tool"@ != "enter_plan_mode"@,
        "approve_tool"@ != "exit_plan_mode"@,
        "approve_tool"@ != "select_model"@,
        "answer_question"@ != "file_transfer_result"@,
        "answer_question"@ != "set_permission_mode"@,
        "answer_question"@ != "enter_plan_mode"@,
        "answer_question"@ != "exit_plan_mode"@,
        "answer_question"@ != "select_model"@,
        "file_transfer_result"@ != "set_permission_mode"@,
        "file_transfer_result"@ != "enter_plan_mode"@,
        "file_transfer_result"@ != "exit_plan_mode"@,
        "file_transfer_result"@ != "select_model"@,
        "set_permission_mode"@ != "enter_plan_mode"@,
        "set_permission_mode"@ != "exit_plan_mode"@,
        "set_permission_mode"@ != "select_model"@,
        "enter_plan_mode"@ != "exit_plan_mode"@,
        "enter_plan_mode"@ != "select_model"@,
        "exit_plan_mode"@ != "select_model"@,
{
    reveal_strlit("send_message");
    reveal_strlit("cancel");
    reveal_strlit("jump_in");
    reveal_strlit("approve_tool");
    reveal_strlit("answer_question");
    reveal_strlit("file_transfer_result");
    reveal_strlit("set_permission_mode");
    reveal_strlit("enter_plan_mode");
    reveal_strlit("exit_plan_mode");
    reveal_strlit("select_model");
    assert("send_message"@.len() == 12);
    assert("cancel"@.len() == 6);
    assert("jump_in"@.len() == 7);
    assert("approve_tool"@.len() == 12);
    assert("answer_question"@.len() == 15);
    assert("file_transfer_result"@.len() == 20);
    assert("set_permission_mode"@.len() == 19);
    assert("enter_plan_mode"@.len() == 15);
    assert("exit_plan_mode"@.len() == 14);
    assert("select_model"@.len() == 12);
    assert("send_message"@[0] == 's' && "approve_tool"@[0] == 'a');
    assert("send_message"@[2] == 'n' && "select_model"@[2] == 'l');
    assert("approve_tool"@[0] == 'a' && "select_model"@[0] == 's');
    assert("answer_question"@[0] == 'a' && "enter_plan_mode"@[0] == 'e');
}

/// Only one turn runs at a time: a command asks for a turn only when none
/// is running, the connection is then marked running, and nothing else
/// marks it running.
pub proof fn lemma_one_turn_at_a_time(s: ConnectionState, p: CommandPayload, n: ConnectionState, a: Seq<BridgeAction>)
    requires
        command_outcome(s, p, n, a),
    ensures
        forall|i: int| 0 <= i < a.len() && #[trigger] a[i] is StartTurn ==> !s.running && n.running,
        n.running && !s.running ==> exists|i: int| 0 <= i < a.len() && #[trigger] a[i] is StartTurn,
{
    let c = or_empty(p.command);
    if c == "send_message"@ {
        let prompt = trim_spec(or_empty(p.text));
        if prompt.len() != 0 && !s.running {
            assert(a[1] is StartTurn);
        }
    }
}

/// A tool call is approved exactly when the browser's decision is `allow`
/// or `always`; any other decision, or none, denies it.
pub proof fn lemma_approval_decision(s: ConnectionState, p: CommandPayload, n: ConnectionState, a: Seq<BridgeAction>)
    requires
        command_outcome(s, p, n, a),
        or_empty(p.command) == "approve_tool"@,
    ensures
        a.len() == 2,
        a[0] matches BridgeAction::ResolveApproval(id, allow) && id@ == or_empty(p.call_id)
            && (allow <==> (p.decision matches Some(d) && (d@ == "allow"@ || d@ == "always"@))),
        a[1] is Ack,
{
    lemma_commands_distinct();
}

/// `send_message` starts a turn on the trimmed text when the text is not
/// blank and no turn is running, prefixed with the planning instruction in
/// planning mode; otherwise it answers with an error and starts nothing.
pub proof fn lemma_send_message(s: ConnectionState, p: CommandPayload, n: ConnectionState, a: Seq<BridgeAction>)
    requires
        command_outcome(s, p, n, a),
        or_empty(p.command) == "send_message"@,
    ensures
        ({
            let prompt = trim_spec(or_empty(p.text));
            &&& (prompt.len() == 0 || s.running) ==> (a.len() == 1 && a[0] is Error && n.running == s.running)
            &&& (prompt.len() > 0 && !s.running) ==> {
                &&& n.running
                &&& n.plan_mode == s.plan_mode
                &&& n.permission == s.permission
                &&& a.len() == 2
                &&& a[0] is Ack
                &&& a[1] matches BridgeAction::StartTurn(t) && (s.plan_mode ==> t@ == plan_prefix() + prompt)
                    && (!s.plan_mode ==> t@ == prompt)
            }
        }),
{
}

/// `jump_in` queues the text exactly as sent when it is not blank, never
/// changes the connection, and always acknowledges.
pub proof fn lemma_jump_in(s: ConnectionState, p: CommandPayload, n: ConnectionState, a: Seq<BridgeAction>)
    requires
        command_outcome(s, p, n, a),
        or_empty(p.command) == "jump_in"@,
    ensures
        n.running == s.running && n.plan_mode == s.plan_mode && n.permission == s.permission,
        a.len() >= 1 && a[a.len() - 1] is Ack,
        !is_blank_spec(or_empty(p.text)) && p.text is Some ==> (a.len() == 2
            && (a[0] matches BridgeAction::QueueInput(t) && t@ == p.text->0@)),
        (is_blank_spec(or_empty(p.text)) || p.text is None) ==> a.len() == 1,
{
    lemma_commands_distinct();
}

/// `set_permission_mode` makes `auto` and `full` those modes and anything
/// else `ask`, and asks for exactly that mode to be saved.
pub proof fn lemma_set_permission_mode(s: ConnectionState, p: CommandPayload, n: ConnectionState, a: Seq<BridgeAction>)
    requires
        command_outcome(s, p, n, a),
        or_empty(p.command) == "set_permission_mode"@,
    ensures
        (p.mode is Some && p.mode->0@ == "auto"@) ==> n.permission == PermissionMode::Auto,
        (p.mode is Some && p.mode->0@ == "full"@) ==> n.permission == PermissionMode::Full,
        !(p.mode is Some && (p.mode->0@ == "auto"@ || p.mode->0@ == "full"@)) ==> n.permission == PermissionMode::Ask,
        n.running == s.running && n.plan_mode == s.plan_mode,
        a.len() == 1,
        a[0] matches BridgeAction::SavePermissionMode(m) && m == n.permission,
{
    lemma_commands_distinct();
    reveal_strlit("auto");
    reveal_strlit("full");
    assert("auto"@[0] == 'a' && "full"@[0] == 'f');
}

/// `enter_plan_mode` turns planning on and `exit_plan_mode` turns it off;
/// both leave the rest as it was and acknowledge.
pub proof fn lemma_plan_mode(s: ConnectionState, p: CommandPayload, n: ConnectionState, a: Seq<BridgeAction>)
    requires
        command_outcome(s, p, n, a),
        or_empty(p.command) == "enter_plan_mode"@ || or_empty(p.command) == "exit_plan_mode"@,
    ensures
        n.plan_mode == (or_empty(p.command) == "enter_plan_mode"@),
        n.running == s.running && n.permission == s.permission,
        a.len() == 1 && a[0] is Ack,
{
    lemma_commands_distinct();
}

/// `select_model` asks for the model to be selected exactly when both the
/// provider id and the model are given and not empty; it changes nothing
/// itself.
pub proof fn lemma_select_model_command(s: ConnectionState, p: CommandPayload, n: ConnectionState, a: Seq<BridgeAction>)
    requires
        command_outcome(s, p, n, a),
        or_empty(p.command) == "select_model"@,
    ensures
        n.running == s.running && n.plan_mode == s.plan_mode && n.permission == s.permission,
        a.len() == 1,
        (or_empty(p.provider_id).len() > 0 && or_empty(p.model).len() > 0) ==> (a[0] matches
            BridgeAction::SelectModel(pid, m) && pid@ == p.provider_id->0@ && m@ == p.model->0@),
        !(or_empty(p.provider_id).len() > 0 && or_empty(p.model).len() > 0) ==> a[0] is Error,
{
    lemma_commands_distinct();
}

/// `cancel` always stops the turn: no turn is running afterwards, the
/// running turn and its processes are stopped before the browser hears of
/// it, and the browser is told the turn ended.
pub proof fn lemma_cancel_stops_turn(s: ConnectionState, p: CommandPayload, n: ConnectionState, a: Seq<BridgeAction>)
    requires
        command_outcome(s, p, n, a),
        or_empty(p.command) == "cancel"@,
    ensures
        !n.running,
        a.len() == 5,
        a[0] is AbortTurn,
        a[1] is TerminateProcesses,
        a[a.len() - 1] is TurnEnd,
{
    reveal_strlit("cancel");
    reveal_strlit("send_message");
}

/// Only `send_message` and `cancel` change whether a turn is running.
pub proof fn lemma_running_changes_only_by_turn_commands(s: ConnectionState, p: CommandPayload, n: ConnectionState, a: Seq<BridgeAction>)
    requires
        command_outcome(s, p, n, a),
    ensures
        n.running != s.running ==> (or_empty(p.command) == "send_message"@ || or_empty(p.command) == "cancel"@),
{
}

/// The answer to a `set_permission_mode` command once the mode was
/// written (or failed to be).
pub fn permission_saved(saved: Result<(), String>) -> (a: BridgeAction)
    ensures
        saved is Ok ==> a is Ack,
        saved matches Err(e) ==> (a matches BridgeAction::Error(m) && m@ == "failed to save permission mode: "@ + e@),
{
    match saved {
        Ok(()) => BridgeAction::Ack,
        Err(e) => {
            let mut m = owned("failed to save permission mode: ");
            m.append(e.as_str());
            BridgeAction::Error(m)
        },
    }
}

/// How loading, updating and saving the providers for `select_model` went.
pub enum ModelSelection {
    /// The providers could not be read.
    LoadFailed(String),
    /// No provider has that id.
    NotFound,
    /// The updated providers could not be written.
    SaveFailed(String),
    /// The model is selected and saved.
    Saved,
}

/// The end of a `select_model` command: on success the connection
/// remembers `provider:model` and acknowledges; otherwise an error.
pub fn model_selection_finished(s: &ConnectionState, provider: &str, model: &str, outcome: ModelSelection) -> (r: (ConnectionState, BridgeAction))
    ensures
        outcome is Saved ==> (opt_view(r.0.selected_model) == Some(provider@ + ":"@ + model@)
            && r.0.running == s.running && r.0.plan_mode == s.plan_mode && r.0.permission == s.permission
            && r.1 is Ack),
        !(outcome is Saved) ==> unchanged(*s, r.0),
        outcome is NotFound ==> (r.1 matches BridgeAction::Error(m) && m@ == "provider not found"@),
        outcome matches ModelSelection::LoadFailed(e) ==> (r.1 matches BridgeAction::Error(m) && m@ == "failed to load providers: "@ + e@),
        outcome matches ModelSelection::SaveFailed(e) ==> (r.1 matches BridgeAction::Error(m) && m@ == "failed to persist model: "@ + e@),
{
    match outcome {
        ModelSelection::Saved => {
            let mut sel = owned(provider);
            sel.append(":");
            sel.append(model);
            (ConnectionState { running: s.running, plan_mode: s.plan_mode, permission: s.permission, selected_model: Some(sel) }, BridgeAction::Ack)
        },
        ModelSelection::NotFound => (with_running(s, s.running), BridgeAction::Error(owned("provider not found"))),
        ModelSelection::LoadFailed(e) => {
            let mut m = owned("failed to load providers: ");
            m.append(e.as_str());
            (with_running(s, s.running), BridgeAction::Error(m))
        },
        ModelSelection::SaveFailed(e) => {
            let mut m = owned("failed to persist model: ");
            m.append(e.as_str());
            (with_running(s, s.running), BridgeAction::Error(m))
        },
    }
}

/// The state once a turn has finished: no turn is running.
pub fn turn_finished(s: &ConnectionState) -> (n: ConnectionState)
    ensures
        only_running(*s, n, false),
{
    with_running(s, false)
}

} // verus!
