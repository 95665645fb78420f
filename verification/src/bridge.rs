//! Decisions of the local web bridge: which browser origins may connect,
//! what each session command does, when a tool call needs the user's
//! approval, and the system prompt of a turn.
use vstd::prelude::*;
use crate::text::{contains_spec, decimal_spec, is_blank, is_blank_spec, lower_contains, lower_seq, owned, str_eq, trim, trim_spec};

verus! {

broadcast use vstd::string::group_string_axioms;

/// How much a turn may do without asking.
#[derive(PartialEq, Eq, Structural, Clone, Copy, Debug)]
pub enum PermissionMode {
    Ask,
    Auto,
    Full,
}

/// The mode a stored or requested name stands for: `auto`, `full`, and
/// anything else (or nothing) is `ask`.
pub open spec fn permission_mode_spec(name: Option<Seq<char>>) -> PermissionMode {
    match name {
        Some(n) => if n == "auto"@ {
            PermissionMode::Auto
        } else if n == "full"@ {
            PermissionMode::Full
        } else {
            PermissionMode::Ask
        },
        None => PermissionMode::Ask,
    }
}

/// Reads a permission mode name.
pub fn parse_permission_mode(name: Option<&str>) -> (m: PermissionMode)
    ensures
        m == permission_mode_spec(match name { Some(n) => Some(n@), None => None }),
{
    match name {
        Some(n) => if str_eq(n, "auto") {
            PermissionMode::Auto
        } else if str_eq(n, "full") {
            PermissionMode::Full
        } else {
            PermissionMode::Ask
        },
        None => PermissionMode::Ask,
    }
}

/// The name a permission mode is stored under.
pub open spec fn permission_mode_name_spec(m: PermissionMode) -> Seq<char> {
    match m {
        PermissionMode::Ask => "ask"@,
        PermissionMode::Auto => "auto"@,
        PermissionMode::Full => "full"@,
    }
}

/// The stored name of a permission mode.
pub fn permission_mode_name(m: PermissionMode) -> (r: &'static str)
    ensures
        r@ == permission_mode_name_spec(m),
{
    match m {
        PermissionMode::Ask => "ask",
        PermissionMode::Auto => "auto",
        PermissionMode::Full => "full",
    }
}

/// A saved permission mode reads back as the same mode.
pub proof fn lemma_permission_mode_round_trip(m: PermissionMode)
    ensures
        permission_mode_spec(Some(permission_mode_name_spec(m))) == m,
{
    reveal_strlit("ask");
    reveal_strlit("auto");
    reveal_strlit("full");
    assert("ask"@.len() == 3 && "auto"@.len() == 4 && "full"@.len() == 4);
    assert("auto"@[0] != "full"@[0]);
}

/// The file access a turn gets.
#[derive(PartialEq, Eq, Structural, Clone, Copy, Debug)]
pub enum AccessMode {
    WorkspaceWrite,
    FullAccess,
}

/// `ask` confines a turn to writing in its workspace; `auto` and `full` give full access.
pub fn turn_access_mode(m: PermissionMode) -> (a: AccessMode)
    ensures
        m == PermissionMode::Ask ==> a == AccessMode::WorkspaceWrite,
        m != PermissionMode::Ask ==> a == AccessMode::FullAccess,
{
    match m {
        PermissionMode::Ask => AccessMode::WorkspaceWrite,
        _ => AccessMode::FullAccess,
    }
}

/// How an access mode is named in the system prompt.
pub open spec fn access_mode_label_spec(a: AccessMode) -> Seq<char> {
    match a {
        AccessMode::WorkspaceWrite => "workspace-write"@,
        AccessMode::FullAccess => "full-access"@,
    }
}

/// The name of an access mode.
pub fn access_mode_label(a: AccessMode) -> (r: &'static str)
    ensures
        r@ == access_mode_label_spec(a),
{
    match a {
        AccessMode::WorkspaceWrite => "workspace-write",
        AccessMode::FullAccess => "full-access",
    }
}

/// Where the providers are stored: `config/providers.json` under the home.
pub fn providers_path(home: &str) -> (r: String)
    ensures
        r@ == crate::runtime::join_path_spec(crate::runtime::join_path_spec(home@, "config"@), "providers.json"@),
{
    let config = crate::runtime::join_path(home, "config");
    crate::runtime::join_path(config.as_str(), "providers.json")
}

/// Where the browser's permission mode is stored:
/// `config/web-settings.json` under the home.
pub fn permission_settings_path(home: &str) -> (r: String)
    ensures
        r@ == crate::runtime::join_path_spec(crate::runtime::join_path_spec(home@, "config"@), "web-settings.json"@),
{
    let config = crate::runtime::join_path(home, "config");
    crate::runtime::join_path(config.as_str(), "web-settings.json")
}

/// The access class shown for an approval request, from its risk summary.
pub open spec fn approval_access_spec(reason: Seq<char>) -> Seq<char> {
    let l = lower_seq(reason);
    if contains_spec(l, "delete"@) || contains_spec(l, "overwrite"@) || contains_spec(l, "destructive"@) {
        "destructive"@
    } else if contains_spec(l, "write"@) || contains_spec(l, "change"@) || contains_spec(l, "process"@) {
        "write"@
    } else {
        "read_only"@
    }
}

/// A risk summary that mentions deleting, overwriting or destruction (in
/// any letter case) is `destructive`; otherwise one that mentions writing,
/// changing or a process is `write`; anything else is `read_only`.
pub proof fn lemma_approval_access_classes(reason: Seq<char>)
    ensures
        ({
            let l = lower_seq(reason);
            let destructive = contains_spec(l, "delete"@) || contains_spec(l, "overwrite"@) || contains_spec(l, "destructive"@);
            let writes = contains_spec(l, "write"@) || contains_spec(l, "change"@) || contains_spec(l, "process"@);
            &&& destructive ==> approval_access_spec(reason) == "destructive"@
            &&& (!destructive && writes) ==> approval_access_spec(reason) == "write"@
            &&& (!destructive && !writes) ==> approval_access_spec(reason) == "read_only"@
        }),
{
}

/// Classifies a risk summary as `destructive`, `write` or `read_only`.
pub fn approval_access(reason: &str) -> (r: &'static str)
    ensures
        r@ == approval_access_spec(reason@),
{
    if lower_contains(reason, "delete") || lower_contains(reason, "overwrite") || lower_contains(
        reason,
        "destructive",
    ) {
        "destructive"
    } else if lower_contains(reason, "write") || lower_contains(reason, "change") || lower_contains(
        reason,
        "process",
    ) {
        "write"
    } else {
        "read_only"
    }
}

/// A tool call goes ahead without asking in `full` mode, and in `auto`
/// mode unless its risk summary mentions deleting.
pub open spec fn auto_approves_spec(m: PermissionMode, reason: Seq<char>) -> bool {
    m == PermissionMode::Full || (m == PermissionMode::Auto && !contains_spec(lower_seq(reason), "delete"@))
}

/// `full` approves every tool call, `ask` none, and `auto` every call whose
/// risk summary does not mention deleting (in any letter case).
pub proof fn lemma_auto_approval(m: PermissionMode, reason: Seq<char>)
    ensures
        m == PermissionMode::Full ==> auto_approves_spec(m, reason),
        m == PermissionMode::Ask ==> !auto_approves_spec(m, reason),
        m == PermissionMode::Auto ==> (auto_approves_spec(m, reason) <==> !contains_spec(lower_seq(reason), "delete"@)),
{
}

/// Whether a tool call is approved without asking the user.
pub fn auto_approves(m: PermissionMode, reason: &str) -> (r: bool)
    ensures
        r == auto_approves_spec(m, reason@),
{
    match m {
        PermissionMode::Full => true,
        PermissionMode::Auto => !lower_contains(reason, "delete"),
        PermissionMode::Ask => false,
    }
}

/// How long a question waits for the user: the asked delay (5 minutes by
/// default) kept between 1 second and 5 minutes.
pub fn question_timeout_ms(auto_resolution_ms: Option<u64>) -> (r: u64)
    ensures
        auto_resolution_ms is None ==> r == 300_000,
        auto_resolution_ms matches Some(v) ==> r == (if v < 1_000 { 1_000 } else if v > 300_000 { 300_000 } else { v }),
{
    let v = match auto_resolution_ms {
        Some(v) => v,
        None => 300_000,
    };
    if v < 1_000 {
        1_000
    } else if v > 300_000 {
        300_000
    } else {
        v
    }
}

/// The two origins a browser may connect from: this port on 127.0.0.1 or on localhost.
pub open spec fn allowed_origin(origin: Seq<char>, port: u16) -> bool {
    origin == "http://127.0.0.1:"@ + decimal_spec(port as nat) || origin == "http://localhost:"@
        + decimal_spec(port as nat)
}

/// Whether a WebSocket upgrade is let through: requests without an
/// `Origin` header (no browser behind them) pass, browsers only from the
/// bridge's own origins.
pub fn origin_allowed(origin: Option<&str>, port: u16) -> (r: bool)
    ensures
        r == match origin {
            None => true,
            Some(o) => allowed_origin(o@, port),
        },
{
    match origin {
        None => true,
        Some(o) => {
            let mut a = owned("http://127.0.0.1:");
            crate::text::append_decimal(&mut a, port as u64);
            let mut b = owned("http://localhost:");
            crate::text::append_decimal(&mut b, port as u64);
            str_eq(o, a.as_str()) || str_eq(o, b.as_str())
        },
    }
}

/// The provider selector of a turn: the model picked in this connection,
/// else the provider the session was last run with, if any.
pub fn turn_selector(selected: Option<String>, session_provider: Option<String>) -> (r: Option<String>)
    ensures
        selected is Some ==> r == selected,
        selected is None ==> match session_provider {
            Some(p) => if p@.len() > 0 { r == Some(p) } else { r is None },
            None => r is None,
        },
{
    match selected {
        Some(s) => Some(s),
        None => match session_provider {
            Some(p) => if p.unicode_len() > 0 { Some(p) } else { None },
            None => None,
        },
    }
}

/// The working directory a loaded session keeps: its own, or the engine's
/// when it has none (sessions saved without one).
pub fn session_cwd(stored: &str, engine_cwd: &str) -> (r: String)
    ensures
        stored@.len() == 0 ==> r@ == engine_cwd@,
        stored@.len() > 0 ==> r@ == stored@,
{
    if stored.unicode_len() == 0 {
        owned(engine_cwd)
    } else {
        owned(stored)
    }
}

/// The directory a turn runs in: the session's own while it still exists,
/// so that history and project stay together; the engine's otherwise.
pub fn turn_cwd(session_cwd: &str, session_cwd_is_dir: bool, engine_cwd: &str) -> (r: String)
    ensures
        session_cwd_is_dir ==> r@ == session_cwd@,
        !session_cwd_is_dir ==> r@ == engine_cwd@,
{
    if session_cwd_is_dir {
        owned(session_cwd)
    } else {
        owned(engine_cwd)
    }
}

/// `list[0] + sep + list[1] + ...`.
pub open spec fn join_spec(list: Seq<Seq<char>>, sep: Seq<char>) -> Seq<char>
    decreases list.len(),
{
    if list.len() == 0 {
        Seq::empty()
    } else if list.len() == 1 {
        list[0]
    } else {
        join_spec(list.drop_last(), sep) + sep + list.last()
    }
}

/// An installed skill.
pub struct SkillEntry {
    pub name: String,
    pub enabled: bool,
}

/// The names of the enabled skills, in order.
pub open spec fn enabled_skill_names(skills: Seq<SkillEntry>) -> Seq<Seq<char>>
    decreases skills.len(),
{
    if skills.len() == 0 {
        Seq::empty()
    } else {
        let rest = enabled_skill_names(skills.drop_last());
        if skills.last().enabled {
            rest.push(skills.last().name@)
        } else {
            rest
        }
    }
}

/// The fixed opening of every system prompt, up to the working directory.
pub open spec fn prompt_head() -> Seq<char> {
    "You are Coomi, a pragmatic coding agent running locally on Android. Inspect evidence before editing, keep changes scoped, preserve unrelated work, and verify results. Use request_file_import when the user needs to choose phone files and request_file_export to return local artifacts such as APKs. For web access, use web_search to find pages and the built-in fetch tool to read their content; if web_search reports unavailable, explain the cause once and never replace it with shell, curl, wget, or repeated command-line searches.\n\nWorking directory: "@
}

/// The system prompt of a turn: the fixed opening, the working directory
/// and access policy, the enabled skills when there are any, and the
/// project's instructions when they are not blank.
pub open spec fn system_prompt_spec(cwd: Seq<char>, policy: Seq<char>, skills: Seq<SkillEntry>, instructions: Seq<char>) -> Seq<char> {
    let base = prompt_head() + cwd + "\nAccess policy: "@ + policy;
    let names = enabled_skill_names(skills);
    let with_skills = if names.len() > 0 {
        base + "\nInstalled skills: "@ + join_spec(names, ", "@)
    } else {
        base
    };
    if !is_blank_spec(instructions) {
        with_skills + "\n\nProject instructions:\n"@ + instructions
    } else {
        with_skills
    }
}

/// Builds the system prompt of a turn.
pub fn system_prompt(cwd: &str, policy: &str, skills: &Vec<SkillEntry>, instructions: &str) -> (r: String)
    ensures
        r@ == system_prompt_spec(cwd@, policy@, skills@, instructions@),
{
    let mut prompt = owned("You are Coomi, a pragmatic coding agent running locally on Android. Inspect evidence before editing, keep changes scoped, preserve unrelated work, and verify results. Use request_file_import when the user needs to choose phone files and request_file_export to return local artifacts such as APKs. For web access, use web_search to find pages and the built-in fetch tool to read their content; if web_search reports unavailable, explain the cause once and never replace it with shell, curl, wget, or repeated command-line searches.\n\nWorking directory: ");
    prompt.append(cwd);
    prompt.append("\nAccess policy: ");
    prompt.append(policy);
    let mut joined = String::new();
    let mut any = false;
    let mut i: usize = 0;
    while i < skills.len()
        invariant
            i <= skills@.len(),
            any == (enabled_skill_names(skills@.take(i as int)).len() > 0),
            joined@ == join_spec(enabled_skill_names(skills@.take(i as int)), ", "@),
        decreases skills@.len() - i,
    {
        assert(skills@.take(i + 1).drop_last() =~= skills@.take(i as int));
        if skills[i].enabled {
            let ghost names = enabled_skill_names(skills@.take(i as int));
            let ghost x = skills@[i as int].name@;
            assert(enabled_skill_names(skills@.take(i + 1)) == names.push(x));
            assert(names.push(x).drop_last() =~= names);
            if any {
                joined.append(", ");
            }
            joined.append(skills[i].name.as_str());
            any = true;
        }
        i = i + 1;
    }
    assert(skills@.take(skills@.len() as int) =~= skills@);
    if any {
        prompt.append("\nInstalled skills: ");
        prompt.append(joined.as_str());
    }
    if !is_blank(instructions) {
        prompt.append("\n\nProject instructions:\n");
        prompt.append(instructions);
    }
    prompt
}

} // verus!
