//! Reading a submitted slash-command line into the action it asks for.
use vstd::prelude::*;
use crate::text::{
    chars_of, chars_start_with, lowercase, parse_u64, parse_uint_spec, parse_usize,
    parse_usize_spec, runs, split_runs, starts_with, str_eq, string_from_chars, string_of_chars,
    strip_front, strip_front_exec, to_lowercase, trim, trim_string, char_views, CharClass,
};
use crate::tui::app::ExecutionMode;
use crate::tui::picker::{ItemView, PickerItem, PickerKind};
use crate::text::{decimal, push_decimal, push_str, string_of};
use crate::types::message::opt_view;

verus! {

/// What a slash-command line asks the interface to do. `S` is the text type:
/// `String` in values, `Seq<char>` in contracts. A `...Picker` variant opens
/// the interactive list instead of acting on an argument.
#[derive(Debug, PartialEq, Eq)]
pub enum SlashAction<S> {
    ResumePicker,
    Resume(S),
    Help,
    ModelPicker,
    Model(S),
    ModePicker,
    ModeSet(ExecutionMode),
    ModeUnknown(S),
    SkillsPicker,
    SkillsDetach,
    SkillsLoad(S),
    SkillsShow(S),
    SkillsScan(Option<S>),
    SkillsList,
    McpPicker,
    McpList,
    Clear,
    ConfigShow,
    /// The raw value; the host parses the float and ignores a value that
    /// does not parse.
    ConfigTemperature(S),
    /// `None` when the value is not a `usize` (the setting is left alone).
    ConfigMaxTurns(Option<usize>),
    /// `None` when the value is not a `u64` (the setting is left alone).
    ConfigTimeout(Option<u64>),
    ConfigModel(S),
    ConfigUnknownKey(S),
    Compact,
    Stats,
    Workspace(Option<S>),
    Export(Option<S>),
    Health,
    Quit,
}

impl View for SlashAction<String> {
    type V = SlashAction<Seq<char>>;

    open spec fn view(&self) -> SlashAction<Seq<char>> {
        match self {
            SlashAction::ResumePicker => SlashAction::ResumePicker,
            SlashAction::Resume(s) => SlashAction::Resume(s@),
            SlashAction::Help => SlashAction::Help,
            SlashAction::ModelPicker => SlashAction::ModelPicker,
            SlashAction::Model(s) => SlashAction::Model(s@),
            SlashAction::ModePicker => SlashAction::ModePicker,
            SlashAction::ModeSet(m) => SlashAction::ModeSet(*m),
            SlashAction::ModeUnknown(s) => SlashAction::ModeUnknown(s@),
            SlashAction::SkillsPicker => SlashAction::SkillsPicker,
            SlashAction::SkillsDetach => SlashAction::SkillsDetach,
            SlashAction::SkillsLoad(s) => SlashAction::SkillsLoad(s@),
            SlashAction::SkillsShow(s) => SlashAction::SkillsShow(s@),
            SlashAction::SkillsScan(o) => SlashAction::SkillsScan(opt_view(*o)),
            SlashAction::SkillsList => SlashAction::SkillsList,
            SlashAction::McpPicker => SlashAction::McpPicker,
            SlashAction::McpList => SlashAction::McpList,
            SlashAction::Clear => SlashAction::Clear,
            SlashAction::ConfigShow => SlashAction::ConfigShow,
            SlashAction::ConfigTemperature(s) => SlashAction::ConfigTemperature(s@),
            SlashAction::ConfigMaxTurns(n) => SlashAction::ConfigMaxTurns(*n),
            SlashAction::ConfigTimeout(n) => SlashAction::ConfigTimeout(*n),
            SlashAction::ConfigModel(s) => SlashAction::ConfigModel(s@),
            SlashAction::ConfigUnknownKey(s) => SlashAction::ConfigUnknownKey(s@),
            SlashAction::Compact => SlashAction::Compact,
            SlashAction::Stats => SlashAction::Stats,
            SlashAction::Workspace(o) => SlashAction::Workspace(opt_view(*o)),
            SlashAction::Export(o) => SlashAction::Export(opt_view(*o)),
            SlashAction::Health => SlashAction::Health,
            SlashAction::Quit => SlashAction::Quit,
        }
    }
}

pub open spec fn opt_action_view(o: Option<SlashAction<String>>) -> Option<SlashAction<Seq<char>>> {
    match o {
        Some(a) => Some(a@),
        None => None,
    }
}

/// The argument words of a command line: `ws[i + 1]`, if present.
pub open spec fn arg_word(ws: Seq<Seq<char>>, i: int) -> Option<Seq<char>> {
    if 0 <= i && i + 1 < ws.len() {
        Some(ws[i + 1])
    } else {
        None
    }
}

/// `/mode [auto | router | single | direct]`, the mode name in any case.
pub open spec fn mode_action(a0: Option<Seq<char>>) -> SlashAction<Seq<char>> {
    match a0 {
        None => SlashAction::ModePicker,
        Some(m) => {
            let l = lowercase(m);
            if l == "auto"@ || l == "router"@ {
                SlashAction::ModeSet(ExecutionMode::AutoRouter)
            } else if l == "single"@ || l == "direct"@ {
                SlashAction::ModeSet(ExecutionMode::SingleAgent)
            } else {
                SlashAction::ModeUnknown(m)
            }
        },
    }
}

/// `/skills [off | load <name> | show <name> | scan [path] | list]`; any
/// other or missing sub-command, or a missing name, opens the picker.
pub open spec fn skills_action(a0: Option<Seq<char>>, a1: Option<Seq<char>>) -> SlashAction<Seq<char>> {
    match a0 {
        None => SlashAction::SkillsPicker,
        Some(sub) => {
            if sub == "off"@ || sub == "detach"@ || sub == "clear"@ || sub == "none"@ {
                SlashAction::SkillsDetach
            } else if sub == "load"@ {
                match a1 {
                    Some(n) => SlashAction::SkillsLoad(n),
                    None => SlashAction::SkillsPicker,
                }
            } else if sub == "show"@ || sub == "view"@ {
                match a1 {
                    Some(n) => SlashAction::SkillsShow(n),
                    None => SlashAction::SkillsPicker,
                }
            } else if sub == "scan"@ || sub == "reload"@ {
                SlashAction::SkillsScan(a1)
            } else if sub == "list"@ {
                SlashAction::SkillsList
            } else {
                SlashAction::SkillsPicker
            }
        },
    }
}

/// `/mcp [list | servers | reload]`; anything else opens the picker.
pub open spec fn mcp_action(a0: Option<Seq<char>>) -> SlashAction<Seq<char>> {
    if a0 == Some("list"@) || a0 == Some("servers"@) || a0 == Some("reload"@) {
        SlashAction::McpList
    } else {
        SlashAction::McpPicker
    }
}

/// `/config <key> <value>` with the key already lower-cased.
pub open spec fn config_action(key: Seq<char>, val: Seq<char>) -> SlashAction<Seq<char>> {
    if key == "temperature"@ || key == "temp"@ {
        SlashAction::ConfigTemperature(val)
    } else if key == "max_turns"@ || key == "turns"@ {
        SlashAction::ConfigMaxTurns(
            match parse_usize_spec(val) {
                Some(n) => Some(n as usize),
                None => None,
            },
        )
    } else if key == "timeout"@ || key == "timeout_ms"@ {
        SlashAction::ConfigTimeout(
            match parse_uint_spec(val, u64::MAX as nat) {
                Some(n) => Some(n as u64),
                None => None,
            },
        )
    } else if key == "model"@ {
        SlashAction::ConfigModel(val)
    } else {
        SlashAction::ConfigUnknownKey(key)
    }
}

/// The action for command name `name` (lower-cased, without its slashes)
/// and the whitespace-separated words `ws` of the line.
pub open spec fn named_action(name: Seq<char>, ws: Seq<Seq<char>>) -> Option<SlashAction<Seq<char>>> {
    let a0 = arg_word(ws, 0);
    let a1 = arg_word(ws, 1);
    if name == "resume"@ || name == "load_session"@ || name == "switch"@ || name == "sessions"@ {
        Some(
            match a0 {
                Some(t) => SlashAction::Resume(t),
                None => SlashAction::ResumePicker,
            },
        )
    } else if name == "help"@ || name == "?"@ {
        Some(SlashAction::Help)
    } else if name == "model"@ || name == "m"@ {
        Some(
            match a0 {
                Some(m) => SlashAction::Model(m),
                None => SlashAction::ModelPicker,
            },
        )
    } else if name == "mode"@ || name == "topology"@ {
        Some(mode_action(a0))
    } else if name == "skills"@ || name == "skill"@ || name == "sk"@ {
        Some(skills_action(a0, a1))
    } else if name == "mcp"@ || name == "server"@ || name == "tools"@ {
        Some(mcp_action(a0))
    } else if name == "clear"@ || name == "new"@ || name == "reset"@ {
        Some(SlashAction::Clear)
    } else if name == "config"@ || name == "settings"@ || name == "cfg"@ {
        Some(
            if ws.len() >= 3 {
                config_action(lowercase(ws[1]), ws[2])
            } else {
                SlashAction::ConfigShow
            },
        )
    } else if name == "compact"@ || name == "prune"@ || name == "compress"@ {
        Some(SlashAction::Compact)
    } else if name == "stats"@ || name == "cost"@ || name == "tokens"@ || name == "usage"@ {
        Some(SlashAction::Stats)
    } else if name == "workspace"@ || name == "cwd"@ || name == "dir"@ {
        Some(SlashAction::Workspace(a0))
    } else if name == "export"@ || name == "dump"@ {
        Some(SlashAction::Export(a0))
    } else if name == "health"@ || name == "doctor"@ {
        Some(SlashAction::Health)
    } else if name == "quit"@ || name == "exit"@ || name == "q"@ {
        Some(SlashAction::Quit)
    } else {
        None
    }
}

/// The action a submitted line asks for: the trimmed line must start with
/// `/`; its first word, without leading slashes and lower-cased, names the
/// command. `None` when the line is no known command.
pub open spec fn slash_action(raw: Seq<char>) -> Option<SlashAction<Seq<char>>> {
    let t = trim(raw);
    let ws = runs(t, false);
    if t.len() == 0 || t[0] != '/' || ws.len() == 0 {
        None
    } else {
        named_action(lowercase(strip_front(ws[0], CharClass::Slash)), ws)
    }
}

fn arg_at(ws: &Vec<Vec<char>>, i: usize) -> (r: Option<String>)
    requires
        i < 2,
    ensures
        opt_view(r) == arg_word(char_views(ws@), i as int),
{
    if i + 1 < ws.len() {
        Some(string_of_chars(&ws[i + 1]))
    } else {
        None
    }
}

fn mode_action_of(a0: &Option<String>) -> (r: SlashAction<String>)
    ensures
        r@ == mode_action(opt_view(*a0)),
{
    match a0 {
        None => SlashAction::ModePicker,
        Some(m) => {
            let l = to_lowercase(m.as_str());
            if str_eq(l.as_str(), "auto") || str_eq(l.as_str(), "router") {
                SlashAction::ModeSet(ExecutionMode::AutoRouter)
            } else if str_eq(l.as_str(), "single") || str_eq(l.as_str(), "direct") {
                SlashAction::ModeSet(ExecutionMode::SingleAgent)
            } else {
                SlashAction::ModeUnknown(m.clone())
            }
        },
    }
}

fn skills_action_of(a0: Option<String>, a1: Option<String>) -> (r: SlashAction<String>)
    ensures
        r@ == skills_action(opt_view(a0), opt_view(a1)),
{
    match a0 {
        None => SlashAction::SkillsPicker,
        Some(sub) => {
            let s = sub.as_str();
            if str_eq(s, "off") || str_eq(s, "detach") || str_eq(s, "clear") || str_eq(s, "none") {
                SlashAction::SkillsDetach
            } else if str_eq(s, "load") {
                match a1 {
                    Some(n) => SlashAction::SkillsLoad(n),
                    None => SlashAction::SkillsPicker,
                }
            } else if str_eq(s, "show") || str_eq(s, "view") {
                match a1 {
                    Some(n) => SlashAction::SkillsShow(n),
                    None => SlashAction::SkillsPicker,
                }
            } else if str_eq(s, "scan") || str_eq(s, "reload") {
                SlashAction::SkillsScan(a1)
            } else if str_eq(s, "list") {
                SlashAction::SkillsList
            } else {
                SlashAction::SkillsPicker
            }
        },
    }
}

fn mcp_action_of(a0: &Option<String>) -> (r: SlashAction<String>)
    ensures
        r@ == mcp_action(opt_view(*a0)),
{
    match a0 {
        Some(sub) => {
            let s = sub.as_str();
            if str_eq(s, "list") || str_eq(s, "servers") || str_eq(s, "reload") {
                SlashAction::McpList
            } else {
                SlashAction::McpPicker
            }
        },
        None => SlashAction::McpPicker,
    }
}

fn config_action_of(key: String, val: String) -> (r: SlashAction<String>)
    ensures
        r@ == config_action(key@, val@),
{
    let k = key.as_str();
    if str_eq(k, "temperature") || str_eq(k, "temp") {
        SlashAction::ConfigTemperature(val)
    } else if str_eq(k, "max_turns") || str_eq(k, "turns") {
        SlashAction::ConfigMaxTurns(parse_usize(val.as_str()))
    } else if str_eq(k, "timeout") || str_eq(k, "timeout_ms") {
        SlashAction::ConfigTimeout(parse_u64(val.as_str()))
    } else if str_eq(k, "model") {
        SlashAction::ConfigModel(val)
    } else {
        SlashAction::ConfigUnknownKey(key)
    }
}

/// The action for command word `name` with the line's words `ws` (the
/// command word first).
pub fn named_action_of(name: &str, ws: &Vec<Vec<char>>) -> (r: Option<SlashAction<String>>)
    ensures
        opt_action_view(r) == named_action(name@, char_views(ws@)),
{
    let a0 = arg_at(ws, 0);
    let ghost v = char_views(ws@);
    if str_eq(name, "resume") || str_eq(name, "load_session") || str_eq(name, "switch")
        || str_eq(name, "sessions") {
        Some(
            match a0 {
                Some(t) => SlashAction::Resume(t),
                None => SlashAction::ResumePicker,
            },
        )
    } else if str_eq(name, "help") || str_eq(name, "?") {
        Some(SlashAction::Help)
    } else if str_eq(name, "model") || str_eq(name, "m") {
        Some(
            match a0 {
                Some(m) => SlashAction::Model(m),
                None => SlashAction::ModelPicker,
            },
        )
    } else if str_eq(name, "mode") || str_eq(name, "topology") {
        Some(mode_action_of(&a0))
    } else if str_eq(name, "skills") || str_eq(name, "skill") || str_eq(name, "sk") {
        let a1 = arg_at(ws, 1);
        Some(skills_action_of(a0, a1))
    } else if str_eq(name, "mcp") || str_eq(name, "server") || str_eq(name, "tools") {
        Some(mcp_action_of(&a0))
    } else if str_eq(name, "clear") || str_eq(name, "new") || str_eq(name, "reset") {
        Some(SlashAction::Clear)
    } else if str_eq(name, "config") || str_eq(name, "settings") || str_eq(name, "cfg") {
        if ws.len() >= 3 {
            let k = string_of_chars(&ws[1]);
            let key = to_lowercase(k.as_str());
            let val = string_of_chars(&ws[2]);
            Some(config_action_of(key, val))
        } else {
            Some(SlashAction::ConfigShow)
        }
    } else if str_eq(name, "compact") || str_eq(name, "prune") || str_eq(name, "compress") {
        Some(SlashAction::Compact)
    } else if str_eq(name, "stats") || str_eq(name, "cost") || str_eq(name, "tokens")
        || str_eq(name, "usage") {
        Some(SlashAction::Stats)
    } else if str_eq(name, "workspace") || str_eq(name, "cwd") || str_eq(name, "dir") {
        Some(SlashAction::Workspace(a0))
    } else if str_eq(name, "export") || str_eq(name, "dump") {
        Some(SlashAction::Export(a0))
    } else if str_eq(name, "health") || str_eq(name, "doctor") {
        Some(SlashAction::Health)
    } else if str_eq(name, "quit") || str_eq(name, "exit") || str_eq(name, "q") {
        Some(SlashAction::Quit)
    } else {
        None
    }
}

/// Reads a submitted line as a slash command; `None` when it is not one
/// the interface knows (the line is then an ordinary prompt).
pub fn parse_slash_command(raw: &str) -> (r: Option<SlashAction<String>>)
    ensures
        opt_action_view(r) == slash_action(raw@),
{
    let t = trim_string(raw);
    let tv = chars_of(t.as_str());
    if tv.len() == 0 || tv[0] != '/' {
        return None;
    }
    let ws = split_runs(&tv, false);
    if ws.len() == 0 {
        return None;
    }
    let head = strip_front_exec(&ws[0], CharClass::Slash);
    let head_s = string_of_chars(&head);
    let name = to_lowercase(head_s.as_str());
    named_action_of(name.as_str(), &ws)
}

/// A `/single ` or `/auto ` prefix on a trimmed prompt picks the mode for
/// that prompt and is removed; otherwise the prompt is kept as written and
/// the current mode applies (`None`).
pub open spec fn prompt_mode(raw: Seq<char>) -> (Option<ExecutionMode>, Seq<char>) {
    let t = trim(raw);
    if starts_with(t, "/single "@) {
        (Some(ExecutionMode::SingleAgent), t.subrange("/single "@.len() as int, t.len() as int))
    } else if starts_with(t, "/auto "@) {
        (Some(ExecutionMode::AutoRouter), t.subrange("/auto "@.len() as int, t.len() as int))
    } else {
        (None, raw)
    }
}

pub fn split_mode_prefix(raw: &str) -> (r: (Option<ExecutionMode>, String))
    ensures
        (r.0, r.1@) == prompt_mode(raw@),
{
    let t = trim_string(raw);
    let tv = chars_of(t.as_str());
    if chars_start_with(&tv, "/single ") {
        let n = chars_of("/single ").len();
        (Some(ExecutionMode::SingleAgent), string_from_chars(&tv, n, tv.len()))
    } else if chars_start_with(&tv, "/auto ") {
        let n = chars_of("/auto ").len();
        (Some(ExecutionMode::AutoRouter), string_from_chars(&tv, n, tv.len()))
    } else {
        (None, string_of_chars(&chars_of(raw)))
    }
}

// ---------------------------------------------------------------------------
// Replies
// ---------------------------------------------------------------------------

pub open spec fn badge_of(m: ExecutionMode) -> Seq<char> {
    match m {
        ExecutionMode::AutoRouter => "⚡ Auto"@,
        ExecutionMode::SingleAgent => "Single"@,
    }
}

pub open spec fn description_of(m: ExecutionMode) -> Seq<char> {
    match m {
        ExecutionMode::AutoRouter => "Plugin-Host Agent (Conversation + Skills + MCP)"@,
        ExecutionMode::SingleAgent => "Single Agent Direct Run"@,
    }
}

pub open spec fn mode_switched(m: ExecutionMode) -> Seq<char> {
    "✔ Execution mode switched to **`"@ + badge_of(m) + "`** ("@ + description_of(m) + ")"@
}

/// The assistant's reply to a command that needs nothing but the command
/// and the current model: a model or mode switch, an unknown mode, a
/// whole-number setting, the model setting, an unknown setting, or a fresh
/// session. `None` for commands answered with the host's data.
pub open spec fn reply_to(a: SlashAction<Seq<char>>, current_model: Seq<char>) -> Option<Seq<char>> {
    match a {
        SlashAction::Model(m) => Some("✔ Model switched from `"@ + current_model + "` to **`"@ + m + "`**."@),
        SlashAction::ModeSet(m) => Some(mode_switched(m) + "\n"@),
        SlashAction::ModeUnknown(m) => Some("❌ Unknown mode `"@ + m + "`. Available: `auto`, `single`"@),
        SlashAction::ConfigMaxTurns(Some(n)) => Some("✔ `max_turns` set to `"@ + decimal(n as nat) + "`"@),
        SlashAction::ConfigTimeout(Some(n)) => Some("✔ `request_timeout_ms` set to `"@ + decimal(n as nat) + "`"@),
        SlashAction::ConfigModel(v) => Some("✔ `model` set to `"@ + v + "`"@),
        SlashAction::ConfigUnknownKey(k) => Some(
            "❌ Unknown config key `"@ + k + "`. Available: `model`, `temperature`, `max_turns`, `timeout_ms`"@,
        ),
        SlashAction::Clear => Some("✨ Started a fresh conversation session. How can I help you today?"@),
        _ => None,
    }
}

fn push_mode_switched(s: &mut String, m: ExecutionMode)
    ensures
        final(s)@ == old(s)@ + mode_switched(m),
{
    push_str(s, "✔ Execution mode switched to **`");
    push_str(s, m.badge());
    push_str(s, "`** (");
    push_str(s, m.description());
    push_str(s, ")");
}

pub fn reply(a: &SlashAction<String>, current_model: &str) -> (r: Option<String>)
    ensures
        match r {
            Some(t) => reply_to(a@, current_model@) == Some(t@),
            None => reply_to(a@, current_model@) is None,
        },
{
    match a {
        SlashAction::Model(m) => {
            let mut t = string_of("✔ Model switched from `");
            push_str(&mut t, current_model);
            push_str(&mut t, "` to **`");
            push_str(&mut t, m.as_str());
            push_str(&mut t, "`**.");
            Some(t)
        },
        SlashAction::ModeSet(m) => {
            let mut t = String::new();
            push_mode_switched(&mut t, *m);
            push_str(&mut t, "\n");
            assert(t@ =~= mode_switched(*m) + "\n"@);
            Some(t)
        },
        SlashAction::ModeUnknown(m) => {
            let mut t = string_of("❌ Unknown mode `");
            push_str(&mut t, m.as_str());
            push_str(&mut t, "`. Available: `auto`, `single`");
            Some(t)
        },
        SlashAction::ConfigMaxTurns(Some(n)) => {
            let mut t = string_of("✔ `max_turns` set to `");
            push_decimal(&mut t, *n as u64);
            push_str(&mut t, "`");
            Some(t)
        },
        SlashAction::ConfigTimeout(Some(n)) => {
            let mut t = string_of("✔ `request_timeout_ms` set to `");
            push_decimal(&mut t, *n);
            push_str(&mut t, "`");
            Some(t)
        },
        SlashAction::ConfigModel(v) => {
            let mut t = string_of("✔ `model` set to `");
            push_str(&mut t, v.as_str());
            push_str(&mut t, "`");
            Some(t)
        },
        SlashAction::ConfigUnknownKey(k) => {
            let mut t = string_of("❌ Unknown config key `");
            push_str(&mut t, k.as_str());
            push_str(&mut t, "`. Available: `model`, `temperature`, `max_turns`, `timeout_ms`");
            Some(t)
        },
        SlashAction::Clear => Some(string_of("✨ Started a fresh conversation session. How can I help you today?")),
        _ => None,
    }
}

/// The reply to `/compact`: how far the history shrank, or that it was
/// already compact.
pub fn compact_reply(before: usize, after: usize) -> (r: String)
    ensures
        r@ == if before > after {
            "✔ Context compacted: compressed from "@ + decimal(before as nat) + " messages down to "@
                + decimal(after as nat) + " messages."@
        } else {
            "Context is already compact ("@ + decimal(before as nat) + " messages). No pruning needed."@
        },
{
    if before > after {
        let mut t = string_of("✔ Context compacted: compressed from ");
        push_decimal(&mut t, before as u64);
        push_str(&mut t, " messages down to ");
        push_decimal(&mut t, after as u64);
        push_str(&mut t, " messages.");
        t
    } else {
        let mut t = string_of("Context is already compact (");
        push_decimal(&mut t, before as u64);
        push_str(&mut t, " messages). No pruning needed.");
        t
    }
}

/// The note when `/resume <target>` finds no such session.
pub fn resume_not_found(target: &str) -> (r: String)
    ensures
        r@ == "❌ Could not find session `"@ + target@ + "` to resume. Use `/resume` to view all saved sessions."@,
{
    let mut t = string_of("❌ Could not find session `");
    push_str(&mut t, target);
    push_str(&mut t, "` to resume. Use `/resume` to view all saved sessions.");
    t
}

/// What choosing an item in a picker does.
#[derive(Debug, PartialEq, Eq)]
pub enum PickerEffect {
    /// Open the chosen session.
    LoadSession(String),
    /// Record `note` as the user's line and `reply` as the answer; for a
    /// model or mode choice the setting changes too.
    SwitchModel { model: String, note: String, reply: String },
    SwitchMode { mode: ExecutionMode, note: String, reply: String },
    ShowMcp { note: String, reply: String },
    /// Attach the chosen skill with its description.
    AttachSkill { id: String, description: String },
    /// Put `/name ` on the prompt.
    FillPrompt(String),
}

pub open spec fn chosen_mode(id: Seq<char>) -> ExecutionMode {
    if id == "single"@ { ExecutionMode::SingleAgent } else { ExecutionMode::AutoRouter }
}

pub fn picker_effect(kind: PickerKind, item: &PickerItem, current_model: &str) -> (e: PickerEffect)
    ensures
        match kind {
            PickerKind::ResumeSession => e matches PickerEffect::LoadSession(id) && id@ == item@.id,
            PickerKind::SelectModel => e matches PickerEffect::SwitchModel { model, note, reply } && model@ == item@.id
                && note@ == "/model "@ + item@.id
                && reply@ == "✔ Active LLM model switched from `"@ + current_model@ + "` to **`"@ + item@.id + "`**."@,
            PickerKind::SelectMode => e matches PickerEffect::SwitchMode { mode, note, reply } && mode == chosen_mode(item@.id)
                && note@ == "/mode "@ + item@.id && reply@ == mode_switched(chosen_mode(item@.id)),
            PickerKind::SelectSkill => e matches PickerEffect::AttachSkill { id, description } && id@ == item@.id
                && description@ == item@.description,
            PickerKind::SelectMcp => e matches PickerEffect::ShowMcp { note, reply } && note@ == "/mcp show "@ + item@.id
                && reply@ == "### 🔌 MCP Server Endpoint: `"@ + item@.title + "`\n\n- **Status**: "@ + (match item@.badge {
                    Some(b) => b,
                    None => "Active"@,
                }) + "\n- **Command**: "@ + item@.description,
            PickerKind::SlashCommand => e matches PickerEffect::FillPrompt(t) && t@ == "/"@ + item@.id + " "@,
        },
{
    match kind {
        PickerKind::ResumeSession => PickerEffect::LoadSession(item.id.clone()),
        PickerKind::SelectModel => {
            let mut note = string_of("/model ");
            push_str(&mut note, item.id.as_str());
            let mut reply = string_of("✔ Active LLM model switched from `");
            push_str(&mut reply, current_model);
            push_str(&mut reply, "` to **`");
            push_str(&mut reply, item.id.as_str());
            push_str(&mut reply, "`**.");
            PickerEffect::SwitchModel { model: item.id.clone(), note, reply }
        },
        PickerKind::SelectMode => {
            let mode = if crate::text::str_eq(item.id.as_str(), "single") {
                ExecutionMode::SingleAgent
            } else {
                ExecutionMode::AutoRouter
            };
            let mut note = string_of("/mode ");
            push_str(&mut note, item.id.as_str());
            let mut reply = String::new();
            push_mode_switched(&mut reply, mode);
            assert(reply@ =~= mode_switched(mode));
            PickerEffect::SwitchMode { mode, note, reply }
        },
        PickerKind::SelectSkill => PickerEffect::AttachSkill { id: item.id.clone(), description: item.description.clone() },
        PickerKind::SelectMcp => {
            let mut note = string_of("/mcp show ");
            push_str(&mut note, item.id.as_str());
            let mut reply = string_of("### 🔌 MCP Server Endpoint: `");
            push_str(&mut reply, item.title.as_str());
            push_str(&mut reply, "`\n\n- **Status**: ");
            match &item.badge {
                Some(b) => push_str(&mut reply, b.as_str()),
                None => push_str(&mut reply, "Active"),
            }
            push_str(&mut reply, "\n- **Command**: ");
            push_str(&mut reply, item.description.as_str());
            PickerEffect::ShowMcp { note, reply }
        },
        PickerKind::SlashCommand => {
            let mut t = string_of("/");
            push_str(&mut t, item.id.as_str());
            push_str(&mut t, " ");
            PickerEffect::FillPrompt(t)
        },
    }
}

/// The interface settings a slash command can change: the model selection
/// (as typed; the host parses it), the execution mode, the turn limit, the
/// request timeout, the attached skill's name, and whether to quit.
#[derive(Debug)]
pub struct SlashSettings {
    pub model: String,
    pub mode: ExecutionMode,
    pub max_turns: usize,
    pub request_timeout_ms: u64,
    pub active_skill: Option<String>,
    pub should_quit: bool,
}

/// What a command does to the conversation and the status line: whether the
/// command line is recorded as the user's message, whether a fresh session
/// replaces the conversation first, the assistant's reply when the command
/// alone decides it, and the status message.
#[derive(Debug)]
pub struct SlashOutcome {
    pub record_command: bool,
    pub fresh_session: bool,
    pub reply: Option<String>,
    pub status: Option<String>,
}

/// Whether the command line is recorded in the conversation before the
/// command's answer. Pickers, skill attachment, `/clear` and `/quit` record
/// nothing.
pub open spec fn records_command(a: SlashAction<Seq<char>>) -> bool {
    match a {
        SlashAction::ResumePicker | SlashAction::ModelPicker | SlashAction::ModePicker
        | SlashAction::SkillsPicker | SlashAction::SkillsLoad(_) | SlashAction::McpPicker
        | SlashAction::Clear | SlashAction::Quit => false,
        _ => true,
    }
}

/// The reply to detaching the skill handler.
pub open spec fn detach_reply(active: Option<Seq<char>>) -> Seq<char> {
    match active {
        Some(n) => "Detached skill handler **"@ + n + "**."@,
        None => "No skill handler is currently attached."@,
    }
}

/// The reply a command gets from the command and the settings alone.
pub open spec fn outcome_reply(a: SlashAction<Seq<char>>, model: Seq<char>, active: Option<Seq<char>>) -> Option<Seq<char>> {
    match a {
        SlashAction::SkillsDetach => Some(detach_reply(active)),
        SlashAction::Help => Some(crate::tui::commands::help_text()),
        _ => reply_to(a, model),
    }
}

/// The status message a command sets.
pub open spec fn outcome_status(a: SlashAction<Seq<char>>) -> Option<Seq<char>> {
    match a {
        SlashAction::Model(m) => Some("Switched model to "@ + m),
        SlashAction::ModeSet(m) => Some("Mode: "@ + description_of(m)),
        SlashAction::SkillsDetach => Some("Skill detached"@),
        SlashAction::Help => Some("Displayed help reference."@),
        SlashAction::Clear => Some("Created new session."@),
        _ => None,
    }
}

pub open spec fn opt_text(o: Option<String>) -> Option<Seq<char>> {
    match o {
        Some(t) => Some(t@),
        None => None,
    }
}

/// The settings after a command: a model or mode choice, a turn limit or
/// timeout that parsed, the model setting, a detached skill (also on a
/// fresh session), or quitting.
pub open spec fn settings_after(s: SlashSettings, a: SlashAction<Seq<char>>) -> (Seq<char>, ExecutionMode, usize, u64, Option<Seq<char>>, bool) {
    let cur = (s.model@, s.mode, s.max_turns, s.request_timeout_ms, opt_text(s.active_skill), s.should_quit);
    match a {
        SlashAction::Model(m) => (m, cur.1, cur.2, cur.3, cur.4, cur.5),
        SlashAction::ConfigModel(m) => (m, cur.1, cur.2, cur.3, cur.4, cur.5),
        SlashAction::ModeSet(m) => (cur.0, m, cur.2, cur.3, cur.4, cur.5),
        SlashAction::ConfigMaxTurns(Some(n)) => (cur.0, cur.1, n, cur.3, cur.4, cur.5),
        SlashAction::ConfigTimeout(Some(n)) => (cur.0, cur.1, cur.2, n, cur.4, cur.5),
        SlashAction::SkillsDetach | SlashAction::Clear => (cur.0, cur.1, cur.2, cur.3, None, cur.5),
        SlashAction::Quit => (cur.0, cur.1, cur.2, cur.3, cur.4, true),
        _ => cur,
    }
}

pub open spec fn settings_view(s: SlashSettings) -> (Seq<char>, ExecutionMode, usize, u64, Option<Seq<char>>, bool) {
    (s.model@, s.mode, s.max_turns, s.request_timeout_ms, opt_text(s.active_skill), s.should_quit)
}

fn status_of(a: &SlashAction<String>) -> (r: Option<String>)
    ensures
        opt_text(r) == outcome_status(a@),
{
    match a {
        SlashAction::Model(m) => {
            let mut t = string_of("Switched model to ");
            push_str(&mut t, m.as_str());
            Some(t)
        },
        SlashAction::ModeSet(m) => {
            let mut t = string_of("Mode: ");
            push_str(&mut t, m.description());
            Some(t)
        },
        SlashAction::SkillsDetach => Some(string_of("Skill detached")),
        SlashAction::Help => Some(string_of("Displayed help reference.")),
        SlashAction::Clear => Some(string_of("Created new session.")),
        _ => None,
    }
}

/// Applies a parsed command to the settings and says what the conversation
/// and status line get. Commands answered with the host's data (sessions,
/// skills, servers, statistics, files, the temperature) change no setting
/// here and leave their reply to the host.
pub fn apply_slash_action(settings: &mut SlashSettings, action: &SlashAction<String>) -> (o: SlashOutcome)
    ensures
        settings_view(*final(settings)) == settings_after(*old(settings), action@),
        o.record_command == records_command(action@),
        o.fresh_session == (action@ == SlashAction::<Seq<char>>::Clear),
        opt_text(o.reply) == outcome_reply(action@, old(settings).model@, opt_text(old(settings).active_skill)),
        opt_text(o.status) == outcome_status(action@),
{
    let reply_text = match action {
        SlashAction::SkillsDetach => match &settings.active_skill {
            Some(n) => {
                let mut t = string_of("Detached skill handler **");
                push_str(&mut t, n.as_str());
                push_str(&mut t, "**.");
                Some(t)
            },
            None => Some(string_of("No skill handler is currently attached.")),
        },
        SlashAction::Help => Some(crate::tui::commands::help_reference()),
        _ => reply(action, settings.model.as_str()),
    };
    let record_command = match action {
        SlashAction::ResumePicker | SlashAction::ModelPicker | SlashAction::ModePicker
        | SlashAction::SkillsPicker | SlashAction::SkillsLoad(_) | SlashAction::McpPicker
        | SlashAction::Clear | SlashAction::Quit => false,
        _ => true,
    };
    let fresh_session = match action {
        SlashAction::Clear => true,
        _ => false,
    };
    match action {
        SlashAction::Model(m) => settings.model = m.clone(),
        SlashAction::ConfigModel(m) => settings.model = m.clone(),
        SlashAction::ModeSet(m) => settings.mode = *m,
        SlashAction::ConfigMaxTurns(Some(n)) => settings.max_turns = *n,
        SlashAction::ConfigTimeout(Some(n)) => settings.request_timeout_ms = *n,
        SlashAction::SkillsDetach | SlashAction::Clear => settings.active_skill = None,
        SlashAction::Quit => settings.should_quit = true,
        _ => {},
    }
    SlashOutcome { record_command, fresh_session, reply: reply_text, status: status_of(action) }
}

} // verus!
