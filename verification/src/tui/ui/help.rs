//! The help window: where it sits and the reference it shows.
use vstd::prelude::*;
use crate::text::{string_of, views};

verus! {

/// The help window's title.
pub open spec fn help_title_text() -> Seq<char> {
    " 📖 Help & Command Reference "@
}

pub fn help_title() -> (s: String)
    ensures
        s@ == help_title_text(),
{
    string_of(" 📖 Help & Command Reference ")
}

/// The lines of the help window: the keyboard shortcuts, then the slash
/// commands, each key or command padded to a column before its meaning.
pub open spec fn help_lines() -> Seq<Seq<char>> {
    seq![
        "⚡ THUNDER TUI — INTERACTIVE COMMANDS & SHORTCUTS"@,
        ""@,
        "⌨️  KEYBOARD SHORTCUTS"@,
        "Enter          Send message / Execute prompt or slash command"@,
        "Tab            Autocomplete slash command / Switch focus pane"@,
        "Ctrl + N       Start new conversation session"@,
        "Ctrl + P       Cycle mode: Auto ➔ Pipeline ➔ Parallel ➔ Single"@,
        "Ctrl + B       Toggle sidebar visibility"@,
        "Ctrl + M       Toggle Orchestra multi-agent monitor"@,
        "Ctrl + H       Toggle this help window"@,
        "Up / Down      Select command suggestion / History / Scroll chat"@,
        "Ctrl + C / Esc Cancel running agent or dismiss popup"@,
        ""@,
        "⚡ SLASH COMMANDS (type / in input box for autocompletion):"@,
        "/help                     Show full command and shortcut reference"@,
        "/model [name]             View or switch active LLM model (gpt-4o, deepseek-chat, etc.)"@,
        "/mode [auto|pipe|par|dir] Switch orchestration topology mode"@,
        "/skills [list|load|scan]  Browse skills, inspect playbooks, or re-scan dirs"@,
        "/mcp [list|servers|reload]List connected MCP servers & discovered remote tools"@,
        "/config [key] [val]       View or update runtime settings (temp, turns, timeout)"@,
        "/compact                  Compact dialogue history to optimize tokens"@,
        "/stats                    Show dialogue turns, tool executions & token estimation"@,
        "/workspace [path]         Display or switch active workspace directory"@,
        "/export [path]            Export current conversation to a Markdown file"@,
        "/clear                    Reset conversation and start fresh session"@,
        "/health                   Run Orchestra system diagnostic probe"@,
        "/pipeline <task>          Directly run Sequential Pipeline (Planner ➔ Coder)"@,
        "/parallel <task>          Directly run Parallel Council (Planner + Verifier)"@,
        "/quit                     Exit Thunder TUI"@,
        ""@,
        "Press Esc or Ctrl+H to close this window"@,
    ]
}

fn push_line(out: &mut Vec<String>, l: String)
    ensures
        views(final(out)@) == views(old(out)@).push(l@),
{
    out.push(l);
    assert(views(out@) =~= views(old(out)@).push(l@));
}

pub fn help_text() -> (r: Vec<String>)
    ensures
        views(r@) == help_lines(),
{
    let mut out: Vec<String> = Vec::new();
    push_line(&mut out, string_of("⚡ THUNDER TUI — INTERACTIVE COMMANDS & SHORTCUTS"));
    push_line(&mut out, string_of(""));
    push_line(&mut out, string_of("⌨️  KEYBOARD SHORTCUTS"));
    push_line(&mut out, string_of("Enter          Send message / Execute prompt or slash command"));
    push_line(&mut out, string_of("Tab            Autocomplete slash command / Switch focus pane"));
    push_line(&mut out, string_of("Ctrl + N       Start new conversation session"));
    push_line(&mut out, string_of("Ctrl + P       Cycle mode: Auto ➔ Pipeline ➔ Parallel ➔ Single"));
    push_line(&mut out, string_of("Ctrl + B       Toggle sidebar visibility"));
    push_line(&mut out, string_of("Ctrl + M       Toggle Orchestra multi-agent monitor"));
    push_line(&mut out, string_of("Ctrl + H       Toggle this help window"));
    push_line(&mut out, string_of("Up / Down      Select command suggestion / History / Scroll chat"));
    push_line(&mut out, string_of("Ctrl + C / Esc Cancel running agent or dismiss popup"));
    push_line(&mut out, string_of(""));
    push_line(&mut out, string_of("⚡ SLASH COMMANDS (type / in input box for autocompletion):"));
    push_line(&mut out, string_of("/help                     Show full command and shortcut reference"));
    push_line(&mut out, string_of("/model [name]             View or switch active LLM model (gpt-4o, deepseek-chat, etc.)"));
    push_line(&mut out, string_of("/mode [auto|pipe|par|dir] Switch orchestration topology mode"));
    push_line(&mut out, string_of("/skills [list|load|scan]  Browse skills, inspect playbooks, or re-scan dirs"));
    push_line(&mut out, string_of("/mcp [list|servers|reload]List connected MCP servers & discovered remote tools"));
    push_line(&mut out, string_of("/config [key] [val]       View or update runtime settings (temp, turns, timeout)"));
    push_line(&mut out, string_of("/compact                  Compact dialogue history to optimize tokens"));
    push_line(&mut out, string_of("/stats                    Show dialogue turns, tool executions & token estimation"));
    push_line(&mut out, string_of("/workspace [path]         Display or switch active workspace directory"));
    push_line(&mut out, string_of("/export [path]            Export current conversation to a Markdown file"));
    push_line(&mut out, string_of("/clear                    Reset conversation and start fresh session"));
    push_line(&mut out, string_of("/health                   Run Orchestra system diagnostic probe"));
    push_line(&mut out, string_of("/pipeline <task>          Directly run Sequential Pipeline (Planner ➔ Coder)"));
    push_line(&mut out, string_of("/parallel <task>          Directly run Parallel Council (Planner + Verifier)"));
    push_line(&mut out, string_of("/quit                     Exit Thunder TUI"));
    push_line(&mut out, string_of(""));
    push_line(&mut out, string_of("Press Esc or Ctrl+H to close this window"));
    assert(views(out@) =~= help_lines());
    out
}

/// A box of `percent_x` by `percent_y` percent of a `width` by `height`
/// area, centred in it, as (x, y, width, height). Positions count from the
/// area's own corner.
pub open spec fn centered(percent_x: nat, percent_y: nat, width: nat, height: nat) -> (nat, nat, nat, nat) {
    let w = width * percent_x / 100;
    let h = height * percent_y / 100;
    let x = (if width >= w { (width - w) as nat } else { 0nat }) / 2;
    let y = (if height >= h { (height - h) as nat } else { 0nat }) / 2;
    (x, y, w, h)
}

pub fn centered_rect(percent_x: u16, percent_y: u16, width: u16, height: u16) -> (r: (u16, u16, u16, u16))
    requires
        width * percent_x <= u16::MAX,
        height * percent_y <= u16::MAX,
    ensures
        (r.0 as nat, r.1 as nat, r.2 as nat, r.3 as nat) == centered(
            percent_x as nat,
            percent_y as nat,
            width as nat,
            height as nat,
        ),
        percent_x <= 100 ==> r.0 + r.2 <= width,
        percent_y <= 100 ==> r.1 + r.3 <= height,
{
    proof {
        if percent_x <= 100 {
            assert(width * percent_x <= width * 100) by (nonlinear_arith)
                requires
                    percent_x <= 100,
            ;
        }
        if percent_y <= 100 {
            assert(height * percent_y <= height * 100) by (nonlinear_arith)
                requires
                    percent_y <= 100,
            ;
        }
    }
    let w = width * percent_x / 100;
    let h = height * percent_y / 100;
    let x = width.saturating_sub(w) / 2;
    let y = height.saturating_sub(h) / 2;
    (x, y, w, h)
}

} // verus!
