//! The prompt line of the interface: editing, slash-command completion,
//! submission and the history of submitted prompts.
use vstd::prelude::*;
use crate::text::{
    chars_of, pop_char, push_char, push_str, runs, split_runs, string_of, strip_front,
    strip_front_exec, trim, trim_string, views, CharClass,
};
use crate::tui::commands::{
    all_commands, command_matches, command_table, command_views, completions, filter_commands,
    CommandView,
};

verus! {

/// The prompt line's state: its text, the prompts submitted so far, the
/// position while browsing them, and the highlighted completion.
pub struct InputView {
    pub text: Seq<char>,
    pub history: Seq<Seq<char>>,
    pub history_idx: Option<usize>,
    pub popup_idx: nat,
}

pub struct PromptInput {
    text: String,
    history: Vec<String>,
    history_idx: Option<usize>,
    popup_idx: usize,
}

impl View for PromptInput {
    type V = InputView;

    closed spec fn view(&self) -> InputView {
        InputView {
            text: self.text@,
            history: views(self.history@),
            history_idx: self.history_idx,
            popup_idx: self.popup_idx as nat,
        }
    }
}

/// What Enter did.
#[derive(Debug, PartialEq, Eq)]
pub enum EnterOutcome {
    /// A partial command was completed in place.
    Completed,
    /// The line was submitted (and recorded in the history).
    Submitted(String),
    /// Nothing to do.
    Ignored,
}

/// What an arrow key did.
#[derive(Debug, Clone, Copy, PartialEq, Eq, Structural)]
pub enum InputMove {
    /// It moved in the completion list or the history.
    Handled,
    /// The line is empty and there is nothing to browse: the chat scrolls.
    ScrollUp,
    ScrollDown,
    /// No effect.
    Ignored,
}

pub open spec fn starts_command(t: Seq<char>) -> bool {
    t.len() > 0 && t[0] == '/'
}

/// The line a completion puts in place: `/name `.
pub open spec fn completion_text(c: CommandView) -> Seq<char> {
    "/"@ + c.name + " "@
}

/// The highlighted completion, if any is offered.
pub open spec fn highlighted(t: Seq<char>, popup: nat) -> Option<CommandView> {
    let ms = completions(t);
    if ms.len() > 0 {
        Some(ms[(popup % ms.len()) as int])
    } else {
        None
    }
}

/// The command word of a line on Enter: after trimming and leading
/// slashes, up to the first whitespace.
pub open spec fn enter_token(t: Seq<char>) -> Seq<char> {
    let ws = runs(strip_front(trim(t), CharClass::Slash), false);
    if ws.len() > 0 {
        ws[0]
    } else {
        Seq::empty()
    }
}

/// Whether `token` names a command exactly (or one of its aliases).
pub open spec fn names_command(token: Seq<char>) -> bool {
    exists|i: int| 0 <= i < command_table().len() && command_matches(#[trigger] command_table()[i], token)
}

/// Whether Enter completes the line instead of submitting it: on a command
/// line that is just `/` or not yet a whole command name, while completions
/// are offered.
pub open spec fn enter_completes(t: Seq<char>) -> bool {
    starts_command(t) && (trim(t) == "/"@ || !names_command(enter_token(t))) && completions(t).len() > 0
}

impl PromptInput {
    pub closed spec fn wf(&self) -> bool {
        &&& self.popup_idx < usize::MAX
        &&& (self.history_idx matches Some(i) ==> i < self.history@.len())
    }

    pub fn new() -> (p: PromptInput)
        ensures
            p.wf(),
            p@ == (InputView { text: Seq::empty(), history: Seq::empty(), history_idx: None, popup_idx: 0 }),
    {
        let p = PromptInput { text: String::new(), history: Vec::new(), history_idx: None, popup_idx: 0 };
        assert(views(p.history@) =~= Seq::<Seq<char>>::empty());
        p
    }

    pub fn text(&self) -> (s: &str)
        ensures
            s@ == self@.text,
    {
        self.text.as_str()
    }

    pub fn popup_idx(&self) -> (n: usize)
        ensures
            n == self@.popup_idx,
    {
        self.popup_idx
    }

    /// Replaces the line (a picker or command may fill it in).
    pub fn set_text(&mut self, text: String)
        requires
            old(self).wf(),
        ensures
            final(self).wf(),
            final(self)@ == (InputView { text: text@, ..old(self)@ }),
    {
        self.text = text;
    }

    /// A typed character: appended; the highlight returns to the first
    /// completion.
    pub fn type_char(&mut self, c: char)
        requires
            old(self).wf(),
        ensures
            final(self).wf(),
            final(self)@ == (InputView { text: old(self)@.text.push(c), popup_idx: 0, ..old(self)@ }),
    {
        push_char(&mut self.text, c);
        self.popup_idx = 0;
    }

    /// Backspace: the last character goes; the highlight returns to the
    /// first completion.
    pub fn backspace(&mut self)
        requires
            old(self).wf(),
        ensures
            final(self).wf(),
            final(self)@ == (InputView {
                text: if old(self)@.text.len() > 0 { old(self)@.text.drop_last() } else { old(self)@.text },
                popup_idx: 0,
                ..old(self)@
            }),
    {
        pop_char(&mut self.text);
        self.popup_idx = 0;
    }

    /// Tab on the prompt: completes a command line with the highlighted
    /// command; answers whether it did (otherwise focus moves on).
    pub fn tab(&mut self) -> (completed: bool)
        requires
            old(self).wf(),
        ensures
            final(self).wf(),
            match highlighted(old(self)@.text, old(self)@.popup_idx) {
                Some(c) => completed && final(self)@ == (InputView { text: completion_text(c), ..old(self)@ }),
                None => !completed && final(self)@ == old(self)@,
            },
    {
        let ms = filter_commands(self.text.as_str());
        if ms.len() > 0 {
            let k = self.popup_idx % ms.len();
            let mut t = string_of("/");
            push_str(&mut t, ms[k].name);
            push_str(&mut t, " ");
            proof {
                assert(command_views(ms@)[k as int] == ms@[k as int]@);
            }
            self.text = t;
            true
        } else {
            false
        }
    }

    /// Escape on a command line: clears it; answers whether it did.
    pub fn escape(&mut self) -> (cleared: bool)
        requires
            old(self).wf(),
        ensures
            final(self).wf(),
            if starts_command(old(self)@.text) {
                cleared && final(self)@ == (InputView { text: Seq::empty(), popup_idx: 0, ..old(self)@ })
            } else {
                !cleared && final(self)@ == old(self)@
            },
    {
        let v = chars_of(self.text.as_str());
        if v.len() > 0 && v[0] == '/' {
            self.text = String::new();
            self.popup_idx = 0;
            true
        } else {
            false
        }
    }

    fn names_command_exec(token: &str) -> (b: bool)
        ensures
            b == names_command(token@),
    {
        let all = all_commands();
        let mut i: usize = 0;
        while i < all.len()
            invariant
                i <= all.len(),
                command_views(all@) == command_table(),
                forall|k: int| 0 <= k < i ==> !command_matches(#[trigger] command_table()[k], token@),
            decreases all.len() - i,
        {
            proof {
                assert(command_views(all@)[i as int] == all@[i as int]@);
            }
            if all[i].matches(token) {
                return true;
            }
            i += 1;
        }
        false
    }

    /// Enter: completes a partial command, or submits a non-blank line when
    /// the agent is ready for one (clearing it and recording it in the
    /// history), or does nothing.
    pub fn enter(&mut self, agent_ready: bool) -> (r: EnterOutcome)
        requires
            old(self).wf(),
        ensures
            final(self).wf(),
            if enter_completes(old(self)@.text) {
                &&& r == EnterOutcome::Completed
                &&& final(self)@ == (InputView {
                    text: completion_text(highlighted(old(self)@.text, old(self)@.popup_idx).unwrap()),
                    popup_idx: 0,
                    ..old(self)@
                })
            } else if trim(old(self)@.text).len() > 0 && agent_ready {
                &&& r matches EnterOutcome::Submitted(p) && p@ == old(self)@.text
                &&& final(self)@ == (InputView {
                    text: Seq::empty(),
                    history: old(self)@.history.push(old(self)@.text),
                    history_idx: None,
                    popup_idx: 0,
                })
            } else {
                r == EnterOutcome::Ignored && final(self)@ == old(self)@
            },
    {
        let v = chars_of(self.text.as_str());
        if v.len() > 0 && v[0] == '/' {
            let trimmed = trim_string(self.text.as_str());
            let ms = filter_commands(self.text.as_str());
            let tv = chars_of(trimmed.as_str());
            let clean = strip_front_exec(&tv, CharClass::Slash);
            let words = split_runs(&clean, false);
            let token = if words.len() > 0 {
                proof {
                    assert(crate::text::char_views(words@)[0] == words@[0]@);
                }
                crate::text::string_of_chars(&words[0])
            } else {
                String::new()
            };
            let exact = PromptInput::names_command_exec(token.as_str());
            let just_slash = crate::text::str_eq(trimmed.as_str(), "/");
            if (just_slash || !exact) && ms.len() > 0 {
                let k = self.popup_idx % ms.len();
                let mut t = string_of("/");
                push_str(&mut t, ms[k].name);
                push_str(&mut t, " ");
                proof {
                    assert(command_views(ms@)[k as int] == ms@[k as int]@);
                }
                self.text = t;
                self.popup_idx = 0;
                return EnterOutcome::Completed;
            }
        }
        let t = trim_string(self.text.as_str());
        if chars_of(t.as_str()).len() > 0 && agent_ready {
            let mut prompt = String::new();
            std::mem::swap(&mut prompt, &mut self.text);
            self.popup_idx = 0;
            let ghost before = views(self.history@);
            self.history.push(crate::text::copy_string(&prompt));
            assert(views(self.history@) =~= before.push(prompt@));
            self.history_idx = None;
            assert(self.text@ =~= Seq::<char>::empty());
            return EnterOutcome::Submitted(prompt);
        }
        EnterOutcome::Ignored
    }

    /// Up: moves the highlight back (wrapping) on a command line with
    /// completions; otherwise steps back through the history (from the
    /// newest prompt); on an empty line with no history the chat scrolls.
    pub fn up(&mut self) -> (r: InputMove)
        requires
            old(self).wf(),
        ensures
            final(self).wf(),
            ({
                let o = old(self)@;
                let ms = completions(o.text);
                if ms.len() > 0 {
                    &&& r == InputMove::Handled
                    &&& final(self)@ == (InputView {
                        popup_idx: if o.popup_idx == 0 { (ms.len() - 1) as nat } else { (o.popup_idx - 1) as nat },
                        ..o
                    })
                } else if o.history.len() > 0 {
                    let next: usize = match o.history_idx {
                        Some(i) => if i > 0 { (i - 1) as usize } else { 0 },
                        None => (o.history.len() - 1) as usize,
                    };
                    &&& r == InputMove::Handled
                    &&& final(self)@ == (InputView { text: o.history[next as int], history_idx: Some(next), ..o })
                } else if o.text.len() == 0 {
                    r == InputMove::ScrollUp && final(self)@ == o
                } else {
                    r == InputMove::Ignored && final(self)@ == o
                }
            }),
    {
        let ms = filter_commands(self.text.as_str());
        if ms.len() > 0 {
            self.popup_idx = if self.popup_idx == 0 { ms.len() - 1 } else { self.popup_idx - 1 };
            return InputMove::Handled;
        }
        if self.history.len() > 0 {
            let next: usize = match self.history_idx {
                Some(i) => if i > 0 { i - 1 } else { 0 },
                None => self.history.len() - 1,
            };
            self.history_idx = Some(next);
            self.text = crate::text::copy_string(&self.history[next]);
            return InputMove::Handled;
        }
        if chars_of(self.text.as_str()).len() == 0 {
            InputMove::ScrollUp
        } else {
            InputMove::Ignored
        }
    }

    /// Down: moves the highlight on (wrapping) on a command line with
    /// completions; otherwise steps forward through the history, past the
    /// newest prompt back to an empty line; on an empty line outside the
    /// history the chat scrolls.
    pub fn down(&mut self) -> (r: InputMove)
        requires
            old(self).wf(),
        ensures
            final(self).wf(),
            ({
                let o = old(self)@;
                let ms = completions(o.text);
                if ms.len() > 0 {
                    r == InputMove::Handled && final(self)@ == (InputView {
                        popup_idx: ((o.popup_idx + 1) % ms.len()) as nat,
                        ..o
                    })
                } else if o.history_idx is Some {
                    let i = o.history_idx.unwrap();
                    &&& r == InputMove::Handled
                    &&& if i + 1 < o.history.len() {
                        final(self)@ == (InputView {
                            text: o.history[i + 1],
                            history_idx: Some((i + 1) as usize),
                            ..o
                        })
                    } else {
                        final(self)@ == (InputView { text: Seq::empty(), history_idx: None, ..o })
                    }
                } else if o.text.len() == 0 {
                    r == InputMove::ScrollDown && final(self)@ == o
                } else {
                    r == InputMove::Ignored && final(self)@ == o
                }
            }),
    {
        let ms = filter_commands(self.text.as_str());
        if ms.len() > 0 {
            self.popup_idx = (self.popup_idx + 1) % ms.len();
            return InputMove::Handled;
        }
        match self.history_idx {
            Some(i) => {
                assert(i < self.history@.len());
                if i < self.history.len() - 1 {
                    self.history_idx = Some(i + 1);
                    self.text = crate::text::copy_string(&self.history[i + 1]);
                } else {
                    self.history_idx = None;
                    self.text = String::new();
                }
                InputMove::Handled
            },
            None => {
                if chars_of(self.text.as_str()).len() == 0 {
                    InputMove::ScrollDown
                } else {
                    InputMove::Ignored
                }
            },
        }
    }
}

} // verus!
