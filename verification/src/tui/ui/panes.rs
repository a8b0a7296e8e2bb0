//! The text of the header, the prompt line, the status bar and the session
//! sidebar (their styling is the drawing code's part).
use vstd::prelude::*;
use crate::text::{decimal, push_decimal, push_str, string_of};
use crate::tui::app::{AgentStatus, ExecutionMode};
use crate::tui::slash::badge_of;

verus! {

/// The agent's state as the header shows it.
pub open spec fn status_text(s: AgentStatus) -> Seq<char> {
    match s {
        AgentStatus::Idle => " ● IDLE "@,
        AgentStatus::Thinking => " ◐ THINKING... "@,
        AgentStatus::Streaming => " ▶ STREAMING "@,
        AgentStatus::ExecutingTool { name, .. } => " [⚙ "@ + name@ + "] "@,
        AgentStatus::Done => " ✔ DONE "@,
        AgentStatus::Error(_) => " ✖ ERROR "@,
    }
}

pub fn status_label(s: &AgentStatus) -> (r: String)
    ensures
        r@ == status_text(*s),
{
    match s {
        AgentStatus::Idle => string_of(" ● IDLE "),
        AgentStatus::Thinking => string_of(" ◐ THINKING... "),
        AgentStatus::Streaming => string_of(" ▶ STREAMING "),
        AgentStatus::ExecutingTool { name, .. } => {
            let mut r = string_of(" [⚙ ");
            push_str(&mut r, name.as_str());
            push_str(&mut r, "] ");
            r
        },
        AgentStatus::Done => string_of(" ✔ DONE "),
        AgentStatus::Error(_) => string_of(" ✖ ERROR "),
    }
}

/// The header: the model, the mode, the attached skill, the agent's state,
/// the session's title, and its token and turn counts.
pub open spec fn header_text(
    model: Seq<char>,
    mode: ExecutionMode,
    skill: Option<Seq<char>>,
    status: AgentStatus,
    title: Option<Seq<char>>,
    tokens: nat,
    turns: nat,
) -> Seq<char> {
    "⚡ THUNDER "@ + "["@ + model + "] "@ + "["@ + badge_of(mode) + "] "@ + (match skill {
        Some(k) => "[skill:"@ + k + "] "@,
        None => Seq::empty(),
    }) + status_text(status) + "   "@ + "Session: "@ + (match title {
        Some(t) => t,
        None => "Untitled"@,
    }) + "   "@ + "Tokens: ~"@ + decimal(tokens) + " | "@ + "Turns: "@ + decimal(turns)
}

pub fn header_line(
    model: &str,
    mode: ExecutionMode,
    skill: Option<&str>,
    status: &AgentStatus,
    title: Option<&str>,
    tokens: u64,
    turns: u64,
) -> (r: String)
    ensures
        r@ == header_text(
            model@,
            mode,
            match skill {
                Some(k) => Some(k@),
                None => None,
            },
            *status,
            match title {
                Some(t) => Some(t@),
                None => None,
            },
            tokens as nat,
            turns as nat,
        ),
{
    let mut r = string_of("⚡ THUNDER ");
    push_str(&mut r, "[");
    push_str(&mut r, model);
    push_str(&mut r, "] ");
    push_str(&mut r, "[");
    push_str(&mut r, mode.badge());
    push_str(&mut r, "] ");
    match skill {
        Some(k) => {
            push_str(&mut r, "[skill:");
            push_str(&mut r, k);
            push_str(&mut r, "] ");
        },
        None => {},
    }
    let s = status_label(status);
    push_str(&mut r, s.as_str());
    push_str(&mut r, "   ");
    push_str(&mut r, "Session: ");
    match title {
        Some(t) => push_str(&mut r, t),
        None => push_str(&mut r, "Untitled"),
    }
    push_str(&mut r, "   ");
    push_str(&mut r, "Tokens: ~");
    push_decimal(&mut r, tokens);
    push_str(&mut r, " | ");
    push_str(&mut r, "Turns: ");
    push_decimal(&mut r, turns);
    r
}

/// The mark before the prompt, by the agent's state.
pub open spec fn prompt_mark(s: AgentStatus) -> Seq<char> {
    match s {
        AgentStatus::Idle => "❯ "@,
        AgentStatus::Thinking => "◐ "@,
        AgentStatus::Streaming => "▶ "@,
        AgentStatus::ExecutingTool { .. } => "⚙ "@,
        AgentStatus::Done => "✔ "@,
        AgentStatus::Error(_) => "✖ "@,
    }
}

/// The prompt line: its mark, the typed text (or a hint when empty), and a
/// cursor when the prompt has focus and the agent is idle.
pub open spec fn prompt_text(s: AgentStatus, input: Seq<char>, focused: bool) -> Seq<char> {
    prompt_mark(s) + (if input.len() == 0 {
        if focused {
            "Type a message, or / for commands (e.g. /resume, /model, /skills)..."@
        } else {
            "Press Tab to focus input..."@
        }
    } else {
        input
    }) + (if focused && s is Idle { "█"@ } else { Seq::empty() })
}

pub fn prompt_line(s: &AgentStatus, input: &str, focused: bool) -> (r: String)
    ensures
        r@ == prompt_text(*s, input@, focused),
{
    let mut r = match s {
        AgentStatus::Idle => string_of("❯ "),
        AgentStatus::Thinking => string_of("◐ "),
        AgentStatus::Streaming => string_of("▶ "),
        AgentStatus::ExecutingTool { .. } => string_of("⚙ "),
        AgentStatus::Done => string_of("✔ "),
        AgentStatus::Error(_) => string_of("✖ "),
    };
    if input.is_empty() {
        if focused {
            push_str(&mut r, "Type a message, or / for commands (e.g. /resume, /model, /skills)...");
        } else {
            push_str(&mut r, "Press Tab to focus input...");
        }
    } else {
        push_str(&mut r, input);
    }
    let idle = match s {
        AgentStatus::Idle => true,
        _ => false,
    };
    if focused && idle {
        push_str(&mut r, "█");
    }
    r
}

/// The status bar: a recent status message when there is one, else the
/// command hints with the attached skill and the token count.
pub open spec fn hints_text(skill: Option<Seq<char>>, tokens: nat, recent: Option<Seq<char>>) -> Seq<char> {
    match recent {
        Some(m) => " ⚡ "@ + m,
        None => " ? "@ + "/help"@ + " | "@ + "/resume"@ + " | "@ + "/model"@ + " | "@ + "/skills"@
            + (match skill {
            Some(k) => " ["@ + k + "]"@,
            None => Seq::empty(),
        }) + " | "@ + "/mcp"@ + " | "@ + "/compact"@ + " | "@ + "Tokens: ~"@ + decimal(tokens) + " | "@
            + "Ctrl+C / Esc"@ + " Cancel"@,
    }
}

pub fn status_hints(skill: Option<&str>, tokens: u64, recent: Option<&str>) -> (r: String)
    ensures
        r@ == hints_text(
            match skill {
                Some(k) => Some(k@),
                None => None,
            },
            tokens as nat,
            match recent {
                Some(m) => Some(m@),
                None => None,
            },
        ),
{
    match recent {
        Some(m) => {
            let mut r = string_of(" ⚡ ");
            push_str(&mut r, m);
            r
        },
        None => {
            let mut r = string_of(" ? ");
            push_str(&mut r, "/help");
            push_str(&mut r, " | ");
            push_str(&mut r, "/resume");
            push_str(&mut r, " | ");
            push_str(&mut r, "/model");
            push_str(&mut r, " | ");
            push_str(&mut r, "/skills");
            match skill {
                Some(k) => {
                    push_str(&mut r, " [");
                    push_str(&mut r, k);
                    push_str(&mut r, "]");
                },
                None => {},
            }
            push_str(&mut r, " | ");
            push_str(&mut r, "/mcp");
            push_str(&mut r, " | ");
            push_str(&mut r, "/compact");
            push_str(&mut r, " | ");
            push_str(&mut r, "Tokens: ~");
            push_decimal(&mut r, tokens);
            push_str(&mut r, " | ");
            push_str(&mut r, "Ctrl+C / Esc");
            push_str(&mut r, " Cancel");
            r
        },
    }
}

/// One session of the sidebar: the selection cursor, whether it is the
/// open session, its title (or its id), and its message and token counts.
pub open spec fn session_lines(
    title: Option<Seq<char>>,
    id: Seq<char>,
    selected: bool,
    current: bool,
    messages: nat,
    tokens: nat,
) -> (Seq<char>, Seq<char>) {
    (
        (if selected { "❯ "@ } else { "  "@ }) + (if current { "● "@ } else { "○ "@ }) + (match title {
            Some(t) => t,
            None => id,
        }),
        "    msgs: "@ + decimal(messages) + " | ~"@ + decimal(tokens) + " tok"@,
    )
}

pub fn session_entry(
    title: Option<&str>,
    id: &str,
    selected: bool,
    current: bool,
    messages: u64,
    tokens: u64,
) -> (r: (String, String))
    ensures
        (r.0@, r.1@) == session_lines(
            match title {
                Some(t) => Some(t@),
                None => None,
            },
            id@,
            selected,
            current,
            messages as nat,
            tokens as nat,
        ),
{
    let mut a = if selected { string_of("❯ ") } else { string_of("  ") };
    push_str(&mut a, if current { "● " } else { "○ " });
    match title {
        Some(t) => push_str(&mut a, t),
        None => push_str(&mut a, id),
    }
    let mut b = string_of("    msgs: ");
    push_decimal(&mut b, messages);
    push_str(&mut b, " | ~");
    push_decimal(&mut b, tokens);
    push_str(&mut b, " tok");
    (a, b)
}

/// The sidebar's title, with its keys while it has focus.
pub fn sidebar_title(focused: bool) -> (r: &'static str)
    ensures
        r@ == (if focused { " 📁 Sessions (Enter: Load, d: Del) "@ } else { " 📁 Sessions "@ }),
{
    if focused {
        " 📁 Sessions (Enter: Load, d: Del) "
    } else {
        " 📁 Sessions "
    }
}

} // verus!
