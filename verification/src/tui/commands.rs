//! Slash commands of the terminal interface and their completion.
use vstd::prelude::*;
use crate::text::{
    join, push_str, chars_of, chars_start_with, eq_ignore_ascii_case, eq_ignore_ascii_case_exec, lowercase, runs,
    split_runs, starts_with, starts_with_exec, strip_front, strip_front_exec, string_of_chars,
    to_lowercase, CharClass,
};

verus! {

#[derive(Debug, Clone, Copy, PartialEq, Eq, Structural)]
pub enum CommandCategory {
    General,
    Config,
    SkillsAndMcp,
    Session,
}

pub open spec fn category_label(c: CommandCategory) -> Seq<char> {
    match c {
        CommandCategory::General => "General"@,
        CommandCategory::Config => "Configuration"@,
        CommandCategory::SkillsAndMcp => "Skills & MCP"@,
        CommandCategory::Session => "Session"@,
    }
}

impl CommandCategory {
    pub fn label(&self) -> (r: &'static str)
        ensures
            r@ == category_label(*self),
    {
        match self {
            CommandCategory::General => "General",
            CommandCategory::Config => "Configuration",
            CommandCategory::SkillsAndMcp => "Skills & MCP",
            CommandCategory::Session => "Session",
        }
    }
}

/// A slash command: its name, aliases, argument hint and description.
#[derive(Debug)]
pub struct SlashCommand {
    pub name: &'static str,
    pub aliases: Vec<&'static str>,
    pub args_hint: &'static str,
    pub description: &'static str,
    pub category: CommandCategory,
}

#[verifier::ext_equal]
pub struct CommandView {
    pub name: Seq<char>,
    pub aliases: Seq<Seq<char>>,
    pub args_hint: Seq<char>,
    pub description: Seq<char>,
    pub category: CommandCategory,
}

pub open spec fn str_views(v: Seq<&str>) -> Seq<Seq<char>> {
    v.map_values(|s: &str| s@)
}

impl View for SlashCommand {
    type V = CommandView;

    open spec fn view(&self) -> CommandView {
        CommandView {
            name: self.name@,
            aliases: str_views(self.aliases@),
            args_hint: self.args_hint@,
            description: self.description@,
            category: self.category,
        }
    }
}

pub open spec fn command_views(v: Seq<SlashCommand>) -> Seq<CommandView> {
    v.map_values(|c: SlashCommand| c@)
}

/// The commands the interface offers, in the order they are listed.
pub open spec fn command_table() -> Seq<CommandView> {
    seq![
        CommandView {
            name: "resume"@,
            aliases: seq!["load_session"@, "switch"@, "sessions"@],
            args_hint: "[session_id | #]"@,
            description: "List all previous conversation sessions or resume by ID/index"@,
            category: CommandCategory::Session,
        },
        CommandView {
            name: "help"@,
            aliases: seq!["?"@],
            args_hint: ""@,
            description: "Show interactive slash commands and keyboard shortcuts reference"@,
            category: CommandCategory::General,
        },
        CommandView {
            name: "model"@,
            aliases: seq!["m"@],
            args_hint: "[provider/model]"@,
            description: "View current LLM model or switch to a new model (e.g., gpt-4o, deepseek-chat)"@,
            category: CommandCategory::Config,
        },
        CommandView {
            name: "mode"@,
            aliases: seq!["topology"@],
            args_hint: "[auto | single]"@,
            description: "Switch execution mode (plugin host or direct single agent)"@,
            category: CommandCategory::Config,
        },
        CommandView {
            name: "skills"@,
            aliases: seq!["skill"@, "sk"@],
            args_hint: "[attach | load <name> | show <name> | off]"@,
            description: "Attach a skill handler, show a playbook, or detach the active skill"@,
            category: CommandCategory::SkillsAndMcp,
        },
        CommandView {
            name: "mcp"@,
            aliases: seq!["server"@, "tools"@],
            args_hint: "[list | servers | reload]"@,
            description: "Inspect connected MCP servers, discover and execute remote tools"@,
            category: CommandCategory::SkillsAndMcp,
        },
        CommandView {
            name: "clear"@,
            aliases: seq!["new"@, "reset"@],
            args_hint: ""@,
            description: "Clear current conversation messages and start a fresh session"@,
            category: CommandCategory::Session,
        },
        CommandView {
            name: "config"@,
            aliases: seq!["settings"@, "cfg"@],
            args_hint: "[key] [value]"@,
            description: "View or modify runtime configuration (temperature, max_turns, timeout)"@,
            category: CommandCategory::Config,
        },
        CommandView {
            name: "compact"@,
            aliases: seq!["prune"@, "compress"@],
            args_hint: ""@,
            description: "Compact conversation history and prune context tokens"@,
            category: CommandCategory::Session,
        },
        CommandView {
            name: "stats"@,
            aliases: seq!["cost"@, "tokens"@, "usage"@],
            args_hint: ""@,
            description: "Display dialogue turns, token estimations, and tool execution stats"@,
            category: CommandCategory::Session,
        },
        CommandView {
            name: "workspace"@,
            aliases: seq!["cwd"@, "dir"@],
            args_hint: "[path]"@,
            description: "View or change active workspace working directory"@,
            category: CommandCategory::Config,
        },
        CommandView {
            name: "export"@,
            aliases: seq!["save"@, "dump"@],
            args_hint: "[path]"@,
            description: "Export the current multi-turn conversation into a Markdown file"@,
            category: CommandCategory::Session,
        },
        CommandView {
            name: "health"@,
            aliases: seq!["doctor"@, "status"@],
            args_hint: ""@,
            description: "Run agent and environment health checks"@,
            category: CommandCategory::General,
        },
        CommandView {
            name: "pipeline"@,
            aliases: Seq::empty(),
            args_hint: "<task>"@,
            description: "Directly run Sequential Pipeline (Planner ➔ Coder)"@,
            category: CommandCategory::General,
        },
        CommandView {
            name: "parallel"@,
            aliases: Seq::empty(),
            args_hint: "<task>"@,
            description: "Directly run Parallel Council (Planner + Verifier)"@,
            category: CommandCategory::General,
        },
        CommandView {
            name: "quit"@,
            aliases: seq!["exit"@, "q"@],
            args_hint: ""@,
            description: "Cleanly exit Thunder TUI"@,
            category: CommandCategory::General,
        }
    ]
}

impl SlashCommand {
    pub fn new(
        name: &'static str,
        aliases: Vec<&'static str>,
        args_hint: &'static str,
        description: &'static str,
        category: CommandCategory,
    ) -> (c: SlashCommand)
        ensures
            c.name == name,
            c.aliases@ == aliases@,
            c.args_hint == args_hint,
            c.description == description,
            c.category == category,
    {
        SlashCommand { name, aliases, args_hint, description, category }
    }

    pub fn duplicate(&self) -> (c: SlashCommand)
        ensures
            c@ == self@,
    {
        let mut aliases: Vec<&'static str> = Vec::new();
        let mut i: usize = 0;
        while i < self.aliases.len()
            invariant
                i <= self.aliases.len(),
                aliases@ == self.aliases@.subrange(0, i as int),
            decreases self.aliases.len() - i,
        {
            aliases.push(self.aliases[i]);
            assert(aliases@ =~= self.aliases@.subrange(0, i + 1));
            i += 1;
        }
        assert(aliases@ =~= self.aliases@);
        SlashCommand {
            name: self.name,
            aliases,
            args_hint: self.args_hint,
            description: self.description,
            category: self.category,
        }
    }

    /// Whether `token`, leading slashes removed, names this command or one of
    /// its aliases, ignoring ASCII case.
    pub fn matches(&self, token: &str) -> (r: bool)
        ensures
            r == command_matches(self@, token@),
    {
        let t = chars_of(token);
        let clean_chars = strip_front_exec(&t, CharClass::Slash);
        let clean = string_of_chars(&clean_chars);
        if eq_ignore_ascii_case_exec(self.name, clean.as_str()) {
            return true;
        }
        let mut i: usize = 0;
        while i < self.aliases.len()
            invariant
                i <= self.aliases.len(),
                clean@ == strip_front(token@, CharClass::Slash),
                forall|j: int| 0 <= j < i ==> !eq_ignore_ascii_case(#[trigger] str_views(self.aliases@)[j], clean@),
            decreases self.aliases.len() - i,
        {
            if eq_ignore_ascii_case_exec(self.aliases[i], clean.as_str()) {
                assert(self@.aliases[i as int] == str_views(self.aliases@)[i as int]);
                assert(eq_ignore_ascii_case(self@.aliases[i as int], clean@));
                return true;
            }
            i += 1;
        }
        false
    }
}

pub open spec fn command_matches(c: CommandView, token: Seq<char>) -> bool {
    let clean = strip_front(token, CharClass::Slash);
    eq_ignore_ascii_case(c.name, clean) || exists|j: int|
        0 <= j < c.aliases.len() && eq_ignore_ascii_case(#[trigger] c.aliases[j], clean)
}

/// All commands, in the order they are listed.
pub fn all_commands() -> (v: Vec<SlashCommand>)
    ensures
        command_views(v@) == command_table(),
{
    let mut v: Vec<SlashCommand> = Vec::new();
    v.push(SlashCommand::new(
        "resume",
        vec!["load_session", "switch", "sessions"],
        "[session_id | #]",
        "List all previous conversation sessions or resume by ID/index",
        CommandCategory::Session,
    ));
    v.push(SlashCommand::new(
        "help",
        vec!["?"],
        "",
        "Show interactive slash commands and keyboard shortcuts reference",
        CommandCategory::General,
    ));
    v.push(SlashCommand::new(
        "model",
        vec!["m"],
        "[provider/model]",
        "View current LLM model or switch to a new model (e.g., gpt-4o, deepseek-chat)",
        CommandCategory::Config,
    ));
    v.push(SlashCommand::new(
        "mode",
        vec!["topology"],
        "[auto | single]",
        "Switch execution mode (plugin host or direct single agent)",
        CommandCategory::Config,
    ));
    v.push(SlashCommand::new(
        "skills",
        vec!["skill", "sk"],
        "[attach | load <name> | show <name> | off]",
        "Attach a skill handler, show a playbook, or detach the active skill",
        CommandCategory::SkillsAndMcp,
    ));
    v.push(SlashCommand::new(
        "mcp",
        vec!["server", "tools"],
        "[list | servers | reload]",
        "Inspect connected MCP servers, discover and execute remote tools",
        CommandCategory::SkillsAndMcp,
    ));
    v.push(SlashCommand::new(
        "clear",
        vec!["new", "reset"],
        "",
        "Clear current conversation messages and start a fresh session",
        CommandCategory::Session,
    ));
    v.push(SlashCommand::new(
        "config",
        vec!["settings", "cfg"],
        "[key] [value]",
        "View or modify runtime configuration (temperature, max_turns, timeout)",
        CommandCategory::Config,
    ));
    v.push(SlashCommand::new(
        "compact",
        vec!["prune", "compress"],
        "",
        "Compact conversation history and prune context tokens",
        CommandCategory::Session,
    ));
    v.push(SlashCommand::new(
        "stats",
        vec!["cost", "tokens", "usage"],
        "",
        "Display dialogue turns, token estimations, and tool execution stats",
        CommandCategory::Session,
    ));
    v.push(SlashCommand::new(
        "workspace",
        vec!["cwd", "dir"],
        "[path]",
        "View or change active workspace working directory",
        CommandCategory::Config,
    ));
    v.push(SlashCommand::new(
        "export",
        vec!["save", "dump"],
        "[path]",
        "Export the current multi-turn conversation into a Markdown file",
        CommandCategory::Session,
    ));
    v.push(SlashCommand::new(
        "health",
        vec!["doctor", "status"],
        "",
        "Run agent and environment health checks",
        CommandCategory::General,
    ));
    v.push(SlashCommand::new(
        "pipeline",
        Vec::new(),
        "<task>",
        "Directly run Sequential Pipeline (Planner ➔ Coder)",
        CommandCategory::General,
    ));
    v.push(SlashCommand::new(
        "parallel",
        Vec::new(),
        "<task>",
        "Directly run Parallel Council (Planner + Verifier)",
        CommandCategory::General,
    ));
    v.push(SlashCommand::new(
        "quit",
        vec!["exit", "q"],
        "",
        "Cleanly exit Thunder TUI",
        CommandCategory::General,
    ));
    assert(command_views(v@) =~~= command_table());
    v
}

/// The word after the slash that completion matches against: the text after
/// leading slashes, lower-cased, up to the first whitespace.
pub open spec fn search_token(input: Seq<char>) -> Seq<char> {
    let words = runs(lowercase(strip_front(input, CharClass::Slash)), false);
    if words.len() > 0 {
        words[0]
    } else {
        Seq::empty()
    }
}

/// Whether a command is offered for the search token `t`: any command for an
/// empty token, else those whose name or an alias starts with it.
pub open spec fn offered(c: CommandView, t: Seq<char>) -> bool {
    t.len() == 0 || starts_with(c.name, t) || exists|j: int|
        0 <= j < c.aliases.len() && starts_with(#[trigger] c.aliases[j], t)
}

/// The commands of `cs` offered for `t`, in order.
pub open spec fn offered_commands(cs: Seq<CommandView>, t: Seq<char>) -> Seq<CommandView>
    decreases cs.len(),
{
    if cs.len() == 0 {
        Seq::empty()
    } else {
        let rest = offered_commands(cs.drop_last(), t);
        if offered(cs.last(), t) {
            rest.push(cs.last())
        } else {
            rest
        }
    }
}

/// What completion offers for `input`: nothing unless it starts with `/`.
pub open spec fn completions(input: Seq<char>) -> Seq<CommandView> {
    if input.len() > 0 && input[0] == '/' {
        offered_commands(command_table(), search_token(input))
    } else {
        Seq::empty()
    }
}

/// Completion offers a command for the typed word `t` when the word is
/// empty, or the command's name or one of its aliases starts with it.
pub proof fn lemma_completion_offers(cs: Seq<CommandView>, t: Seq<char>, i: int)
    requires
        0 <= i < cs.len(),
        t.len() == 0 || starts_with(cs[i].name, t) || exists|j: int|
            0 <= j < cs[i].aliases.len() && starts_with(#[trigger] cs[i].aliases[j], t),
    ensures
        offered_commands(cs, t).contains(cs[i]),
    decreases cs.len(),
{
    let rest = offered_commands(cs.drop_last(), t);
    if i == cs.len() - 1 {
        assert(offered_commands(cs, t) == rest.push(cs[i]));
        assert(offered_commands(cs, t)[rest.len() as int] == cs[i]);
    } else {
        assert(cs.drop_last()[i] == cs[i]);
        lemma_completion_offers(cs.drop_last(), t, i);
        let k = choose|k: int| 0 <= k < rest.len() && rest[k] == cs[i];
        if offered(cs.last(), t) {
            assert(offered_commands(cs, t)[k] == cs[i]);
        }
    }
}

/// Completion offers nothing else: each command offered for a non-empty
/// word has a name or an alias starting with it, and comes from the table.
pub proof fn lemma_completion_only_matches(cs: Seq<CommandView>, t: Seq<char>, k: int)
    requires
        0 <= k < offered_commands(cs, t).len(),
        t.len() > 0,
    ensures
        cs.contains(offered_commands(cs, t)[k]),
        starts_with(offered_commands(cs, t)[k].name, t) || exists|j: int|
            0 <= j < offered_commands(cs, t)[k].aliases.len() && starts_with(
                #[trigger] offered_commands(cs, t)[k].aliases[j],
                t,
            ),
    decreases cs.len(),
{
    let rest = offered_commands(cs.drop_last(), t);
    if offered(cs.last(), t) && k == rest.len() {
        assert(offered_commands(cs, t)[k] == cs.last());
        assert(cs[cs.len() - 1] == cs.last());
    } else {
        assert(offered_commands(cs, t)[k] == rest[k]);
        lemma_completion_only_matches(cs.drop_last(), t, k);
        let m = choose|m: int| 0 <= m < cs.drop_last().len() && cs.drop_last()[m] == rest[k];
        assert(cs[m] == rest[k]);
    }
}

fn offers(c: &SlashCommand, t: &Vec<char>) -> (r: bool)
    ensures
        r == offered(c@, t@),
{
    if t.len() == 0 {
        return true;
    }
    let n = chars_of(c.name);
    if starts_with_exec(&n, t) {
        return true;
    }
    let mut i: usize = 0;
    while i < c.aliases.len()
        invariant
            i <= c.aliases.len(),
            t@.len() > 0,
            !starts_with(c@.name, t@),
            forall|j: int| 0 <= j < i ==> !starts_with(#[trigger] str_views(c.aliases@)[j], t@),
        decreases c.aliases.len() - i,
    {
        let a = chars_of(c.aliases[i]);
        if starts_with_exec(&a, t) {
            assert(c@.aliases[i as int] == str_views(c.aliases@)[i as int]);
            assert(starts_with(c@.aliases[i as int], t@));
            return true;
        }
        i += 1;
    }
    false
}

/// The commands completion offers for `input`, in listed order.
pub fn filter_commands(input: &str) -> (r: Vec<SlashCommand>)
    ensures
        command_views(r@) == completions(input@),
{
    let v = chars_of(input);
    if !(v.len() > 0 && v[0] == '/') {
        let r: Vec<SlashCommand> = Vec::new();
        assert(command_views(r@) =~= Seq::<CommandView>::empty());
        return r;
    }
    let stripped = string_of_chars(&strip_front_exec(&v, CharClass::Slash));
    let search = to_lowercase(stripped.as_str());
    let words = split_runs(&chars_of(search.as_str()), false);
    let token: Vec<char> = if words.len() > 0 {
        let w = &words[0];
        let mut t: Vec<char> = Vec::new();
        let mut k: usize = 0;
        while k < w.len()
            invariant
                k <= w.len(),
                t@ == w@.subrange(0, k as int),
            decreases w.len() - k,
        {
            t.push(w[k]);
            assert(t@ =~= w@.subrange(0, k + 1));
            k += 1;
        }
        assert(t@ =~= w@);
        t
    } else {
        Vec::new()
    };
    assert(token@ == search_token(input@));
    let all = all_commands();
    let mut out: Vec<SlashCommand> = Vec::new();
    let mut i: usize = 0;
    while i < all.len()
        invariant
            i <= all.len(),
            command_views(all@) == command_table(),
            command_views(out@) == offered_commands(command_views(all@).subrange(0, i as int), token@),
        decreases all.len() - i,
    {
        proof {
            let pre = command_views(all@).subrange(0, i + 1);
            assert(pre.drop_last() =~= command_views(all@).subrange(0, i as int));
            assert(pre.last() == all@[i as int]@);
        }
        if offers(&all[i], &token) {
            let ghost before = command_views(out@);
            let c = all[i].duplicate();
            out.push(c);
            assert(command_views(out@) =~= before.push(all@[i as int]@));
        }
        i += 1;
    }
    assert(command_views(all@).subrange(0, all.len() as int) =~= command_views(all@));
    out
}

/// ` (`/a, /b`)` after a command with aliases, nothing otherwise.
pub open spec fn alias_note(aliases: Seq<Seq<char>>) -> Seq<char> {
    if aliases.len() == 0 {
        Seq::empty()
    } else {
        " (`/"@ + join(aliases, ", /"@) + "`)"@
    }
}

/// One row of the reference table.
pub open spec fn help_row(c: CommandView) -> Seq<char> {
    "| `/"@ + c.name + "`"@ + alias_note(c.aliases) + " | `"@ + c.args_hint + "` | "@
        + c.description + " |\n"@
}

pub open spec fn help_rows(cs: Seq<CommandView>) -> Seq<char>
    decreases cs.len(),
{
    if cs.len() == 0 {
        Seq::empty()
    } else {
        help_rows(cs.drop_last()) + help_row(cs.last())
    }
}

pub open spec fn help_header() -> Seq<char> {
    "### ⚡ Thunder TUI Slash Commands Reference\n\n"@ + "| Command | Arguments | Description |\n"@
        + "|---|---|---|\n"@
}

pub open spec fn help_footer() -> Seq<char> {
    "\n**Keyboard Shortcuts:**\n"@
        + "- `Ctrl+N`: New Session | `Ctrl+P`: Cycle Mode | `Tab`: Autocomplete / Cycle Focus\n"@
        + "- `Ctrl+B`: Toggle Sidebar | `Ctrl+M`: Toggle Monitor | `Ctrl+C / Esc`: Cancel\n"@
}

/// The `/help` answer: a markdown table of every command, then the
/// keyboard shortcuts.
pub open spec fn help_text() -> Seq<char> {
    help_header() + help_rows(command_table()) + help_footer()
}

fn push_aliases(out: &mut String, aliases: &Vec<&'static str>)
    ensures
        final(out)@ == old(out)@ + alias_note(str_views(aliases@)),
{
    if aliases.len() == 0 {
        assert(old(out)@ + alias_note(str_views(aliases@)) =~= old(out)@);
        return;
    }
    let ghost start = out@;
    push_str(out, " (`/");
    let ghost base = out@;
    let mut i: usize = 0;
    while i < aliases.len()
        invariant
            i <= aliases.len(),
            out@ == base + join(str_views(aliases@).subrange(0, i as int), ", /"@),
        decreases aliases.len() - i,
    {
        let ghost pre = str_views(aliases@).subrange(0, i as int);
        if i > 0 {
            push_str(out, ", /");
        }
        push_str(out, aliases[i]);
        proof {
            let next = str_views(aliases@).subrange(0, i + 1);
            assert(next.drop_last() =~= pre);
            assert(next.last() == aliases@[i as int]@);
            if i == 0 {
                assert(join(next, ", /"@) == next[0]);
                assert(pre =~= Seq::<Seq<char>>::empty());
            }
        }
        i += 1;
    }
    push_str(out, "`)");
    assert(str_views(aliases@).subrange(0, aliases.len() as int) =~= str_views(aliases@));
}

/// The `/help` reference text.
pub fn help_reference() -> (r: String)
    ensures
        r@ == help_text(),
{
    let mut out = String::new();
    push_str(&mut out, "### ⚡ Thunder TUI Slash Commands Reference\n\n");
    push_str(&mut out, "| Command | Arguments | Description |\n");
    push_str(&mut out, "|---|---|---|\n");
    let ghost head = out@;
    assert(head =~= help_header());
    let all = all_commands();
    let mut i: usize = 0;
    while i < all.len()
        invariant
            i <= all.len(),
            command_views(all@) == command_table(),
            out@ == head + help_rows(command_views(all@).subrange(0, i as int)),
        decreases all.len() - i,
    {
        let c = &all[i];
        let ghost before = out@;
        push_str(&mut out, "| `/");
        push_str(&mut out, c.name);
        push_str(&mut out, "`");
        push_aliases(&mut out, &c.aliases);
        push_str(&mut out, " | `");
        push_str(&mut out, c.args_hint);
        push_str(&mut out, "` | ");
        push_str(&mut out, c.description);
        push_str(&mut out, " |\n");
        proof {
            let pre = command_views(all@).subrange(0, i + 1);
            assert(pre.drop_last() =~= command_views(all@).subrange(0, i as int));
            assert(pre.last() == all@[i as int]@);
            assert(out@ =~= before + help_row(all@[i as int]@));
        }
        i += 1;
    }
    assert(command_views(all@).subrange(0, all.len() as int) =~= command_views(all@));
    push_str(&mut out, "\n**Keyboard Shortcuts:**\n");
    push_str(&mut out, "- `Ctrl+N`: New Session | `Ctrl+P`: Cycle Mode | `Tab`: Autocomplete / Cycle Focus\n");
    push_str(&mut out, "- `Ctrl+B`: Toggle Sidebar | `Ctrl+M`: Toggle Monitor | `Ctrl+C / Esc`: Cancel\n");
    assert(out@ =~= help_text());
    out
}

} // verus!
