//! Workspace jail: which paths, and which shell write targets, the agent may
//! touch. Paths are judged on their text after `.` and `..` are resolved
//! logically; what a path resolves to on disk is supplied by the host.
use vstd::prelude::*;
use std::time::Duration;
use crate::json::{json_str_field, json_string_field};
use crate::types::message::{opt_view, ToolCall};
use crate::types::tool::{error_with_notice, is_noticed_error, ToolExecutionResult};
use crate::text::{
    char_views, chars_are, chars_of, chars_start_with, is_ascii_digit, join, push_char, push_str, runs,
    seq_eq, split_runs, starts_with, string_from_chars, string_of_chars, strip_back, strip_back_exec,
    strip_both, strip_both_exec, views, CharClass, contains, trim, trim_string, str_contains, string_of,
    join_strings,
};

verus! {

pub open spec fn dot() -> Seq<char> {
    seq!['.']
}

pub open spec fn dot_dot() -> Seq<char> {
    seq!['.', '.']
}

/// The components left after resolving `.` (dropped) and `..` (drops the
/// component before it, if any) over `segs`, left to right.
pub open spec fn resolve_dots(segs: Seq<Seq<char>>) -> Seq<Seq<char>>
    decreases segs.len(),
{
    if segs.len() == 0 {
        Seq::empty()
    } else {
        let out = resolve_dots(segs.drop_last());
        let s = segs.last();
        if s == dot() {
            out
        } else if s == dot_dot() {
            if out.len() > 0 {
                out.drop_last()
            } else {
                out
            }
        } else {
            out.push(s)
        }
    }
}

/// A path in normal form: whether it is absolute, and its components.
pub type PathForm = (bool, Seq<Seq<char>>);

/// The normal form of a `/`-separated path text.
pub open spec fn normal_form(p: Seq<char>) -> PathForm {
    (p.len() > 0 && p[0] == '/', resolve_dots(runs(p, true)))
}

/// The text of a path in normal form.
pub open spec fn form_text(f: PathForm) -> Seq<char> {
    if f.0 {
        seq!['/'] + join(f.1, seq!['/'])
    } else {
        join(f.1, seq!['/'])
    }
}

/// Component-wise prefix (`Path::starts_with`): `p` lies at or below `root`.
pub open spec fn form_within(p: PathForm, root: PathForm) -> bool {
    ||| (!root.0 && root.1.len() == 0)
    ||| (root.0 == p.0 && root.1.len() <= p.1.len() && p.1.subrange(0, root.1.len() as int) == root.1)
}

/// A path with `.` and `..` resolved.
#[derive(Debug)]
pub struct NormalPath {
    pub absolute: bool,
    pub components: Vec<String>,
}

impl NormalPath {
    pub open spec fn form(&self) -> PathForm {
        (self.absolute, views(self.components@))
    }

    /// The path as text (`Path::display`).
    pub fn display(&self) -> (r: String)
        ensures
            r@ == form_text(self.form()),
    {
        let sep = "/";
        proof {
            reveal_strlit("/");
            assert(sep@ =~= seq!['/']);
        }
        let body = crate::text::join_strings(&self.components, sep);
        if self.absolute {
            let mut r = String::new();
            push_char(&mut r, '/');
            push_str(&mut r, body.as_str());
            assert(r@ =~= seq!['/'] + body@);
            r
        } else {
            body
        }
    }

    /// Whether this path lies at or below `root` (`Path::starts_with`).
    pub fn starts_with(&self, root: &NormalPath) -> (r: bool)
        ensures
            r == form_within(self.form(), root.form()),
    {
        if !root.absolute && root.components.len() == 0 {
            return true;
        }
        if root.absolute != self.absolute || root.components.len() > self.components.len() {
            return false;
        }
        let mut i: usize = 0;
        while i < root.components.len()
            invariant
                i <= root.components.len() <= self.components.len(),
                forall|j: int| 0 <= j < i ==> views(self.components@)[j] == views(root.components@)[j],
            decreases root.components.len() - i,
        {
            let a = chars_of(self.components[i].as_str());
            let b = chars_of(root.components[i].as_str());
            if !seq_eq(&a, &b) {
                assert(views(self.components@).subrange(0, root.components.len() as int)[i as int]
                    != views(root.components@)[i as int]);
                return false;
            }
            i += 1;
        }
        assert(views(self.components@).subrange(0, root.components.len() as int) =~= views(
            root.components@,
        ));
        true
    }

    /// Whether both paths have the same normal form (`PathBuf == PathBuf`).
    pub fn same_as(&self, other: &NormalPath) -> (r: bool)
        ensures
            r == (self.form() == other.form()),
    {
        if self.absolute != other.absolute || self.components.len() != other.components.len() {
            proof {
                if self.form() == other.form() {
                    assert(views(self.components@).len() == views(other.components@).len());
                }
            }
            return false;
        }
        let mut i: usize = 0;
        while i < self.components.len()
            invariant
                i <= self.components.len() == other.components.len(),
                forall|j: int| 0 <= j < i ==> views(self.components@)[j] == views(other.components@)[j],
            decreases self.components.len() - i,
        {
            let a = chars_of(self.components[i].as_str());
            let b = chars_of(other.components[i].as_str());
            if !seq_eq(&a, &b) {
                assert(views(self.components@)[i as int] != views(other.components@)[i as int]);
                return false;
            }
            i += 1;
        }
        assert(views(self.components@) =~= views(other.components@));
        true
    }

    pub fn duplicate(&self) -> (r: NormalPath)
        ensures
            r.form() == self.form(),
    {
        let mut comps: Vec<String> = Vec::new();
        let mut i: usize = 0;
        while i < self.components.len()
            invariant
                i <= self.components.len(),
                views(comps@) == views(self.components@).subrange(0, i as int),
            decreases self.components.len() - i,
        {
            let c = crate::text::copy_string(&self.components[i]);
            let ghost before = views(comps@);
            comps.push(c);
            assert(views(comps@) =~= before.push(self.components@[i as int]@));
            assert(views(comps@) =~= views(self.components@).subrange(0, i + 1));
            i += 1;
        }
        assert(views(self.components@).subrange(0, i as int) =~= views(self.components@));
        NormalPath { absolute: self.absolute, components: comps }
    }
}

/// Resolves `.` and `..` components logically, without touching the disk.
pub fn normalize_path(p: &str) -> (r: NormalPath)
    ensures
        r.form() == normal_form(p@),
{
    let v = chars_of(p);
    let segs = split_runs(&v, true);
    let mut out: Vec<String> = Vec::new();
    let mut i: usize = 0;
    while i < segs.len()
        invariant
            i <= segs.len(),
            char_views(segs@) == runs(p@, true),
            views(out@) == resolve_dots(char_views(segs@).subrange(0, i as int)),
        decreases segs.len() - i,
    {
        let ghost pre = char_views(segs@).subrange(0, i as int);
        let ghost next = char_views(segs@).subrange(0, i + 1);
        proof {
            assert(next.drop_last() =~= pre);
            assert(next.last() == segs@[i as int]@);
        }
        let s = &segs[i];
        let n = s.len();
        if n == 1 && s[0] == '.' {
            assert(s@ =~= dot());
        } else if n == 2 && s[0] == '.' && s[1] == '.' {
            assert(s@ =~= dot_dot());
            if out.len() > 0 {
                let ghost before = views(out@);
                out.pop();
                assert(views(out@) =~= before.drop_last());
            }
        } else {
            proof {
                if s@ == dot() {
                    assert(s@.len() == 1 && s@[0] == '.');
                }
                if s@ == dot_dot() {
                    assert(s@.len() == 2 && s@[0] == '.' && s@[1] == '.');
                }
            }
            let ghost before = views(out@);
            let w = string_from_chars(s, 0, s.len());
            assert(s@.subrange(0, s.len() as int) =~= s@);
            out.push(w);
            assert(views(out@) =~= before.push(s@));
        }
        i += 1;
    }
    assert(char_views(segs@).subrange(0, segs.len() as int) =~= char_views(segs@));
    let absolute = v.len() > 0 && v[0] == '/';
    NormalPath { absolute, components: out }
}


// ---------------------------------------------------------------------------
// Write targets of a shell command line
// ---------------------------------------------------------------------------

/// Number of leading ASCII digits of `s`.
pub open spec fn digit_run(s: Seq<char>) -> nat
    decreases s.len(),
{
    if s.len() > 0 && is_ascii_digit(s[0]) {
        1 + digit_run(s.drop_first())
    } else {
        0
    }
}

proof fn lemma_digit_run(s: Seq<char>, n: int)
    requires
        0 <= n <= s.len(),
        forall|j: int| 0 <= j < n ==> is_ascii_digit(#[trigger] s[j]),
        n < s.len() ==> !is_ascii_digit(s[n]),
    ensures
        digit_run(s) == n,
    decreases n,
{
    if n > 0 {
        let t = s.drop_first();
        assert forall|j: int| 0 <= j < n - 1 implies is_ascii_digit(#[trigger] t[j]) by {
            assert(t[j] == s[j + 1]);
        }
        if n - 1 < t.len() {
            assert(t[n - 1] == s[n]);
        }
        lemma_digit_run(t, n - 1);
    }
}

/// For a word that is, or starts with, a redirection operator (`>`, `>>`,
/// optionally after a descriptor number or `&`): the text fused to the
/// operator (empty when the target is the next word). `None` otherwise.
pub open spec fn redirect_target(tok: Seq<char>) -> Option<Seq<char>> {
    let d = digit_run(tok);
    let rest = if tok.len() > 0 && tok[0] == '&' {
        tok.drop_first()
    } else if 0 < d && d < tok.len() {
        tok.subrange(d as int, tok.len() as int)
    } else {
        tok
    };
    if rest.len() >= 2 && rest[0] == '>' && rest[1] == '>' {
        Some(rest.subrange(2, rest.len() as int))
    } else if rest.len() >= 1 && rest[0] == '>' {
        Some(rest.drop_first())
    } else {
        None
    }
}

fn redirect_operand(tok: &Vec<char>) -> (r: Option<Vec<char>>)
    ensures
        match r {
            Some(t) => redirect_target(tok@) == Some(t@),
            None => redirect_target(tok@) is None,
        },
{
    let mut d: usize = 0;
    while d < tok.len() && '0' <= tok[d] && tok[d] <= '9'
        invariant
            d <= tok.len(),
            forall|j: int| 0 <= j < d ==> is_ascii_digit(#[trigger] tok@[j]),
        decreases tok.len() - d,
    {
        d += 1;
    }
    proof {
        lemma_digit_run(tok@, d as int);
    }
    let start: usize = if tok.len() > 0 && tok[0] == '&' {
        1
    } else if 0 < d && d < tok.len() {
        d
    } else {
        0
    };
    let ghost rest = tok@.subrange(start as int, tok.len() as int);
    proof {
        if tok.len() > 0 && tok@[0] == '&' {
            assert(rest =~= tok@.drop_first());
        } else if !(0 < d && d < tok.len()) {
            assert(rest =~= tok@);
        }
    }
    let n = tok.len() - start;
    let skip: usize = if n >= 2 && tok[start] == '>' && tok[start + 1] == '>' {
        2
    } else if n >= 1 && tok[start] == '>' {
        1
    } else {
        return None;
    };
    let mut out: Vec<char> = Vec::new();
    let mut k = start + skip;
    while k < tok.len()
        invariant
            start + skip <= k <= tok.len(),
            out@ == tok@.subrange(start + skip, k as int),
        decreases tok.len() - k,
    {
        out.push(tok[k]);
        assert(tok@.subrange(start + skip, k + 1) =~= tok@.subrange(start + skip, k as int).push(tok@[k as int]));
        k += 1;
    }
    proof {
        assert(out@ =~= rest.subrange(skip as int, rest.len() as int));
        if skip == 1 {
            assert(rest.subrange(1, rest.len() as int) =~= rest.drop_first());
        }
    }
    Some(out)
}

/// Words that separate commands on a line.
pub open spec fn is_separator(w: Seq<char>) -> bool {
    ||| w == "|"@
    ||| w == "||"@
    ||| w == "&&"@
    ||| w == ";"@
    ||| w == ";;"@
    ||| w == "&"@
}

fn separator_word(w: &Vec<char>) -> (r: bool)
    ensures
        r == is_separator(w@),
{
    chars_are(w, "|") || chars_are(w, "||") || chars_are(w, "&&") || chars_are(w, ";")
        || chars_are(w, ";;") || chars_are(w, "&")
}

/// Commands whose every non-option operand is written.
pub open spec fn writes_all_operands(w: Seq<char>) -> bool {
    ||| w == "rm"@
    ||| w == "tee"@
    ||| w == "mkdir"@
    ||| w == "touch"@
    ||| w == "truncate"@
    ||| w == "unlink"@
    ||| w == "rmdir"@
    ||| w == "shred"@
}

/// Commands whose last non-option operand is written.
pub open spec fn writes_last_operand(w: Seq<char>) -> bool {
    ||| w == "cp"@
    ||| w == "mv"@
    ||| w == "ln"@
    ||| w == "install"@
}

/// Commands taking a mode or owner operand before the written operands.
pub open spec fn writes_after_first_operand(w: Seq<char>) -> bool {
    w == "chmod"@ || w == "chown"@
}

/// What the scan remembers of the command being read.
pub enum ScanMode {
    Idle,
    AllOperands,
    /// The last operand seen so far.
    LastOperand(Option<Seq<char>>),
    /// Whether the control operand was seen.
    AfterFirst(bool),
}

pub open spec fn verb_mode(w: Seq<char>) -> ScanMode {
    if writes_all_operands(w) {
        ScanMode::AllOperands
    } else if writes_last_operand(w) {
        ScanMode::LastOperand(None)
    } else if writes_after_first_operand(w) {
        ScanMode::AfterFirst(false)
    } else {
        ScanMode::Idle
    }
}

/// Whether any word asks for in-place editing.
pub open spec fn edits_in_place(ts: Seq<Seq<char>>) -> bool {
    exists|j: int| 0 <= j < ts.len() && (starts_with(#[trigger] ts[j], "-i"@) || starts_with(ts[j], "--in-place"@))
}

/// The absolute-path-looking words, quotes stripped, in order.
pub open spec fn absolute_words(ts: Seq<Seq<char>>) -> Seq<Seq<char>>
    decreases ts.len(),
{
    if ts.len() == 0 {
        Seq::empty()
    } else {
        let rest = absolute_words(ts.drop_last());
        let w = strip_both(ts.last(), CharClass::Quote);
        if w.len() > 0 && w[0] == '/' {
            rest.push(w)
        } else {
            rest
        }
    }
}

/// An operand of the active command.
pub open spec fn take_operand(mode: ScanMode, w: Seq<char>, acc: Seq<Seq<char>>) -> (ScanMode, Seq<Seq<char>>) {
    match mode {
        ScanMode::AllOperands => (mode, acc.push(w)),
        ScanMode::LastOperand(_) => (ScanMode::LastOperand(Some(w)), acc),
        ScanMode::AfterFirst(seen) => if seen {
            (mode, acc.push(w))
        } else {
            (ScanMode::AfterFirst(true), acc)
        },
        ScanMode::Idle => (mode, acc),
    }
}

pub open spec fn finish_scan(mode: ScanMode, acc: Seq<Seq<char>>) -> Seq<Seq<char>> {
    match mode {
        ScanMode::LastOperand(Some(w)) => acc.push(w),
        _ => acc,
    }
}

/// The write targets found in words `ts[i..]`, given the state reached
/// before word `i` (`at_verb`: the word stands where a command name goes)
/// and the targets found so far.
pub open spec fn scan(ts: Seq<Seq<char>>, i: nat, mode: ScanMode, at_verb: bool, acc: Seq<Seq<char>>) -> Seq<Seq<char>>
    decreases ts.len() - i,
{
    if i >= ts.len() {
        finish_scan(mode, acc)
    } else {
        let tok = strip_back(ts[i as int], CharClass::Trailer);
        let bare = strip_both(tok, CharClass::Quote);
        if is_separator(bare) {
            scan(ts, i + 1, ScanMode::Idle, true, acc)
        } else if redirect_target(bare) is Some {
            let t = redirect_target(bare)->0;
            if t.len() > 0 {
                scan(ts, i + 1, mode, false, acc.push(t))
            } else if i + 1 < ts.len() {
                scan(ts, i + 2, mode, false, acc.push(strip_both(ts[i + 1 as int], CharClass::Quote)))
            } else {
                scan(ts, i + 1, mode, false, acc)
            }
        } else if at_verb {
            let acc2 = if bare == "sed"@ && edits_in_place(ts) {
                acc + absolute_words(ts)
            } else {
                acc
            };
            scan(ts, i + 1, verb_mode(bare), false, acc2)
        } else if tok.len() > 1 && tok[0] == '-' {
            scan(ts, i + 1, mode, false, acc)
        } else {
            let (m2, acc2) = take_operand(mode, bare, acc);
            scan(ts, i + 1, m2, false, acc2)
        }
    }
}

/// Candidate write targets of a command line: redirection targets and the
/// written operands of write commands, in the order met.
pub open spec fn write_targets(command: Seq<char>) -> Seq<Seq<char>> {
    scan(runs(command, false), 0, ScanMode::Idle, true, Seq::empty())
}

enum WriteMode {
    Idle,
    AllOperands,
    LastOperand(Option<Vec<char>>),
    AfterFirst(bool),
}

impl WriteMode {
    spec fn view(&self) -> ScanMode {
        match self {
            WriteMode::Idle => ScanMode::Idle,
            WriteMode::AllOperands => ScanMode::AllOperands,
            WriteMode::LastOperand(None) => ScanMode::LastOperand(None),
            WriteMode::LastOperand(Some(w)) => ScanMode::LastOperand(Some(w@)),
            WriteMode::AfterFirst(b) => ScanMode::AfterFirst(*b),
        }
    }
}

fn mode_for_verb(w: &Vec<char>) -> (m: WriteMode)
    ensures
        m.view() == verb_mode(w@),
{
    if chars_are(w, "rm") || chars_are(w, "tee") || chars_are(w, "mkdir") || chars_are(w, "touch")
        || chars_are(w, "truncate") || chars_are(w, "unlink") || chars_are(w, "rmdir") || chars_are(
        w,
        "shred",
    ) {
        WriteMode::AllOperands
    } else if chars_are(w, "cp") || chars_are(w, "mv") || chars_are(w, "ln") || chars_are(w, "install") {
        WriteMode::LastOperand(None)
    } else if chars_are(w, "chmod") || chars_are(w, "chown") {
        WriteMode::AfterFirst(false)
    } else {
        WriteMode::Idle
    }
}

fn any_in_place(ts: &Vec<Vec<char>>) -> (r: bool)
    ensures
        r == edits_in_place(char_views(ts@)),
{
    let ghost t = char_views(ts@);
    let mut k: usize = 0;
    while k < ts.len()
        invariant
            k <= ts.len(),
            t == char_views(ts@),
            forall|j: int| 0 <= j < k ==> !(starts_with(#[trigger] t[j], "-i"@) || starts_with(t[j], "--in-place"@)),
        decreases ts.len() - k,
    {
        if chars_start_with(&ts[k], "-i") || chars_start_with(&ts[k], "--in-place") {
            assert(t[k as int] == ts@[k as int]@);
            return true;
        }
        assert(t[k as int] == ts@[k as int]@);
        k += 1;
    }
    false
}

fn push_absolute_words(targets: &mut Vec<String>, ts: &Vec<Vec<char>>)
    ensures
        views(final(targets)@) == views(old(targets)@) + absolute_words(char_views(ts@)),
{
    let ghost t = char_views(ts@);
    let ghost start = views(targets@);
    let mut k: usize = 0;
    while k < ts.len()
        invariant
            k <= ts.len(),
            t == char_views(ts@),
            views(targets@) == start + absolute_words(t.subrange(0, k as int)),
        decreases ts.len() - k,
    {
        proof {
            assert(t.subrange(0, k + 1).drop_last() =~= t.subrange(0, k as int));
            assert(t.subrange(0, k + 1).last() == ts@[k as int]@);
        }
        let w = strip_both_exec(&ts[k], CharClass::Quote);
        if w.len() > 0 && w[0] == '/' {
            let ghost before = views(targets@);
            targets.push(string_of_chars(&w));
            assert(views(targets@) =~= before.push(w@));
        }
        k += 1;
    }
    assert(t.subrange(0, ts.len() as int) =~= t);
}

/// Candidate write targets of a shell command line, in the order met:
/// redirection targets (`>`, `>>`, `2>`, `&>`, fused or not) and the written
/// operands of `rm`, `tee`, `cp`, `mv`, `chmod`, `sed -i` and the like. Words
/// are split on whitespace; command names count only where a command starts.
pub fn extract_write_targets(command: &str) -> (r: Vec<String>)
    ensures
        views(r@) == write_targets(command@),
{
    let v = chars_of(command);
    let ts = split_runs(&v, false);
    let ghost t = char_views(ts@);
    let mut targets: Vec<String> = Vec::new();
    let mut mode = WriteMode::Idle;
    let mut at_verb = true;
    let mut i: usize = 0;
    proof {
        assert(views(targets@) =~= Seq::<Seq<char>>::empty());
    }
    while i < ts.len()
        invariant
            i <= ts.len(),
            t == char_views(ts@),
            t == runs(command@, false),
            scan(t, i as nat, mode.view(), at_verb, views(targets@)) == write_targets(command@),
        decreases ts.len() - i,
    {
        assert(t[i as int] == ts@[i as int]@);
        let tok = strip_back_exec(&ts[i], CharClass::Trailer);
        let bare = strip_both_exec(&tok, CharClass::Quote);
        if separator_word(&bare) {
            mode = WriteMode::Idle;
            at_verb = true;
            i += 1;
            continue;
        }
        match redirect_operand(&bare) {
            Some(target) => {
                if target.len() > 0 {
                    let ghost before = views(targets@);
                    targets.push(string_of_chars(&target));
                    assert(views(targets@) =~= before.push(target@));
                } else if i + 1 < ts.len() {
                    assert(t[i + 1] == ts@[i + 1]@);
                    let next = strip_both_exec(&ts[i + 1], CharClass::Quote);
                    let ghost before = views(targets@);
                    targets.push(string_of_chars(&next));
                    assert(views(targets@) =~= before.push(next@));
                    i += 1;
                }
                at_verb = false;
                i += 1;
                continue;
            },
            None => {},
        }
        if at_verb {
            if chars_are(&bare, "sed") && any_in_place(&ts) {
                push_absolute_words(&mut targets, &ts);
            }
            mode = mode_for_verb(&bare);
            at_verb = false;
            i += 1;
            continue;
        }
        if tok.len() > 1 && tok[0] == '-' {
            i += 1;
            continue;
        }
        let ghost before = views(targets@);
        match mode {
            WriteMode::AllOperands => {
                targets.push(string_of_chars(&bare));
                assert(views(targets@) =~= before.push(bare@));
            },
            WriteMode::LastOperand(_) => {
                mode = WriteMode::LastOperand(Some(bare));
            },
            WriteMode::AfterFirst(seen) => {
                if seen {
                    targets.push(string_of_chars(&bare));
                    assert(views(targets@) =~= before.push(bare@));
                } else {
                    mode = WriteMode::AfterFirst(true);
                }
            },
            WriteMode::Idle => {},
        }
        i += 1;
    }
    match mode {
        WriteMode::LastOperand(Some(last)) => {
            let ghost before = views(targets@);
            targets.push(string_of_chars(&last));
            assert(views(targets@) =~= before.push(last@));
        },
        _ => {},
    }
    targets
}


// ---------------------------------------------------------------------------
// The guard
// ---------------------------------------------------------------------------

/// Shell command patterns refused outright, by substring.
pub open spec fn default_forbidden() -> Seq<Seq<char>> {
    seq!["rm -rf /"@, "rm -rf /*"@, ":(){ :|:& };:"@, "mkfs"@, "dd if="@]
}

pub open spec fn forms(v: Seq<NormalPath>) -> Seq<PathForm> {
    v.map_values(|p: NormalPath| p.form())
}

/// `roots` extended by the normal forms of `texts` that it does not list yet,
/// in order.
pub open spec fn add_roots(roots: Seq<PathForm>, texts: Seq<Seq<char>>) -> Seq<PathForm>
    decreases texts.len(),
{
    if texts.len() == 0 {
        roots
    } else {
        let r = add_roots(roots, texts.drop_last());
        let f = normal_form(texts.last());
        if r.contains(f) {
            r
        } else {
            r.push(f)
        }
    }
}

/// Granting extra roots keeps the existing roots first and in order, lists
/// no root twice when none was listed twice before, and lists every granted
/// root.
pub proof fn lemma_add_roots(roots: Seq<PathForm>, texts: Seq<Seq<char>>)
    ensures
        add_roots(roots, texts).len() >= roots.len(),
        add_roots(roots, texts).subrange(0, roots.len() as int) == roots,
        roots.no_duplicates() ==> add_roots(roots, texts).no_duplicates(),
        forall|i: int| 0 <= i < texts.len() ==> add_roots(roots, texts).contains(normal_form(#[trigger] texts[i])),
    decreases texts.len(),
{
    if texts.len() > 0 {
        let prev = texts.drop_last();
        lemma_add_roots(roots, prev);
        let r = add_roots(roots, prev);
        let f = normal_form(texts.last());
        if !r.contains(f) {
            assert(r.push(f).subrange(0, roots.len() as int) =~= r.subrange(0, roots.len() as int));
            assert forall|i: int| 0 <= i < texts.len() implies r.push(f).contains(normal_form(#[trigger] texts[i])) by {
                if i < texts.len() - 1 {
                    assert(prev[i] == texts[i]);
                    let k = choose|k: int| 0 <= k < r.len() && r[k] == normal_form(prev[i]);
                    assert(r.push(f)[k] == r[k]);
                } else {
                    assert(r.push(f)[r.len() as int] == f);
                }
            }
        } else {
            assert forall|i: int| 0 <= i < texts.len() implies r.contains(normal_form(#[trigger] texts[i])) by {
                if i < texts.len() - 1 {
                    assert(prev[i] == texts[i]);
                }
            }
        }
    } else {
        assert(roots.subrange(0, roots.len() as int) =~= roots);
    }
}

/// The roots as listed in messages: their texts joined by ", ".
pub open spec fn roots_text(roots: Seq<PathForm>) -> Seq<char> {
    join(roots.map_values(|f: PathForm| form_text(f)), ", "@)
}

/// Whether `p` lies within one of `roots`.
pub open spec fn allowed_in(roots: Seq<PathForm>, p: PathForm) -> bool {
    exists|i: int| 0 <= i < roots.len() && form_within(p, #[trigger] roots[i])
}

/// The path the host must resolve for a tool's `target`: `target` itself when
/// absolute, else `target` joined onto `base` (`Path::join`).
pub open spec fn joined_target(base: Seq<char>, target: Seq<char>) -> Seq<char> {
    if target.len() > 0 && target[0] == '/' {
        target
    } else if base.len() == 0 {
        target
    } else if base.last() == '/' {
        base + target
    } else {
        base + seq!['/'] + target
    }
}

pub open spec fn traversal_message(target: Seq<char>, roots: Seq<PathForm>) -> Seq<char> {
    "Path traversal detected! Path '"@ + target + "' escapes all allowed workspace roots ["@
        + roots_text(roots) + "]"@
}

pub open spec fn forbidden_message(pattern: Seq<char>) -> Seq<char> {
    "Forbidden high-risk command pattern detected: '"@ + pattern + "'"@
}

pub open spec fn escape_message(target: Seq<char>, roots: Seq<PathForm>) -> Seq<char> {
    "Shell write target '"@ + target + "' escapes all allowed workspace roots ["@ + roots_text(
        roots,
    ) + "]"@
}

/// Device files that redirections may name.
pub open spec fn is_device_target(t: Seq<char>) -> bool {
    exists|d: Seq<char>|
        #![trigger d + "/fd/"@]
        (d == "/dev/null"@ || d == "/dev/stdin"@ || d == "/dev/stdout"@ || d == "/dev/stderr"@)
            && (t == d || starts_with(t, d + "/fd/"@))
}

/// A shell write target that can be judged statically: quotes stripped,
/// absolute, free of `$`, backquote and `~`, and not a device. `None` for a
/// target that passes unjudged.
pub open spec fn static_target(t: Seq<char>) -> Option<Seq<char>> {
    let s = strip_both(t, CharClass::Quote);
    if !(s.len() > 0 && s[0] == '/') {
        None
    } else if s.contains('$') || s.contains('`') || s.contains('~') {
        None
    } else if is_device_target(s) {
        None
    } else {
        Some(s)
    }
}

/// The statically judged targets among `ts`, in order.
pub open spec fn static_targets(ts: Seq<Seq<char>>) -> Seq<Seq<char>>
    decreases ts.len(),
{
    if ts.len() == 0 {
        Seq::empty()
    } else {
        let rest = static_targets(ts.drop_last());
        match static_target(ts.last()) {
            Some(s) => rest.push(s),
            None => rest,
        }
    }
}

/// The targets of `command` that are judged against the roots.
pub open spec fn judged_targets(command: Seq<char>) -> Seq<Seq<char>> {
    static_targets(write_targets(trim(command)))
}

/// What target `j` of `targets` resolved to: the host's answer when given,
/// else the target itself (an unresolvable path is judged as written).
pub open spec fn resolution_of(targets: Seq<Seq<char>>, resolved: Seq<Seq<char>>, j: int) -> Seq<char> {
    if j < resolved.len() {
        resolved[j]
    } else {
        targets[j]
    }
}

/// The first of `patterns` that `s` contains.
pub open spec fn first_forbidden(patterns: Seq<Seq<char>>, s: Seq<char>) -> Option<Seq<char>>
    decreases patterns.len(),
{
    if patterns.len() == 0 {
        None
    } else if contains(s, patterns[0]) {
        Some(patterns[0])
    } else {
        first_forbidden(patterns.drop_first(), s)
    }
}

/// The first of `targets[j..]` whose resolution lies outside every root.
pub open spec fn first_escape(roots: Seq<PathForm>, targets: Seq<Seq<char>>, resolved: Seq<Seq<char>>, j: int) -> Option<Seq<char>>
    decreases targets.len() - j,
{
    if j < 0 || j >= targets.len() {
        None
    } else if !allowed_in(roots, normal_form(resolution_of(targets, resolved, j))) {
        Some(targets[j])
    } else {
        first_escape(roots, targets, resolved, j + 1)
    }
}

/// Why a shell command is refused, if it is: the first forbidden pattern it
/// contains (trimmed), else the first judged write target outside the roots.
pub open spec fn command_verdict(
    forbidden: Seq<Seq<char>>,
    roots: Seq<PathForm>,
    command: Seq<char>,
    resolved: Seq<Seq<char>>,
) -> Option<Seq<char>> {
    match first_forbidden(forbidden, trim(command)) {
        Some(f) => Some(forbidden_message(f)),
        None => match first_escape(roots, judged_targets(command), resolved, 0) {
            Some(t) => Some(escape_message(t, roots)),
            None => None,
        },
    }
}

/// Enforces the workspace jail: tool paths must lie within one of the
/// allowed roots, and shell commands may neither match a forbidden pattern
/// nor write statically-known absolute paths outside the roots.
#[derive(Debug)]
pub struct SecurityGuardMiddleware {
    workspace_root: NormalPath,
    allowed_roots: Vec<NormalPath>,
    forbidden_commands: Vec<String>,
}

fn display_all(roots: &Vec<NormalPath>) -> (r: String)
    ensures
        r@ == roots_text(forms(roots@)),
{
    let mut texts: Vec<String> = Vec::new();
    let mut i: usize = 0;
    while i < roots.len()
        invariant
            i <= roots.len(),
            views(texts@) == forms(roots@).map_values(|f: PathForm| form_text(f)).subrange(0, i as int),
        decreases roots.len() - i,
    {
        let d = roots[i].display();
        let ghost before = views(texts@);
        texts.push(d);
        assert(views(texts@) =~= before.push(d@));
        assert(views(texts@) =~= forms(roots@).map_values(|f: PathForm| form_text(f)).subrange(0, i + 1));
        i += 1;
    }
    assert(forms(roots@).map_values(|f: PathForm| form_text(f)).subrange(0, roots.len() as int)
        =~= forms(roots@).map_values(|f: PathForm| form_text(f)));
    let sep = ", ";
    join_strings(&texts, sep)
}

fn within_any(roots: &Vec<NormalPath>, p: &NormalPath) -> (r: bool)
    ensures
        r == allowed_in(forms(roots@), p.form()),
{
    let mut i: usize = 0;
    while i < roots.len()
        invariant
            i <= roots.len(),
            forall|j: int| 0 <= j < i ==> !form_within(p.form(), #[trigger] forms(roots@)[j]),
        decreases roots.len() - i,
    {
        if p.starts_with(&roots[i]) {
            assert(form_within(p.form(), forms(roots@)[i as int]));
            return true;
        }
        i += 1;
    }
    false
}

fn lists_form(all: &Vec<NormalPath>, p: &NormalPath) -> (r: bool)
    ensures
        r == forms(all@).contains(p.form()),
{
    let mut k: usize = 0;
    while k < all.len()
        invariant
            k <= all.len(),
            forall|j: int| 0 <= j < k ==> forms(all@)[j] != p.form(),
        decreases all.len() - k,
    {
        if all[k].same_as(&p) {
            assert(forms(all@)[k as int] == p.form());
            return true;
        }
        k += 1;
    }
    false
}

fn is_device_path(s: &Vec<char>) -> (r: bool)
    ensures
        r == is_device_target(s@),
{
    let devs = ["/dev/null", "/dev/stdin", "/dev/stdout", "/dev/stderr"];
    let mut k: usize = 0;
    while k < 4
        invariant
            k <= 4,
            devs@.len() == 4,
            devs@[0]@ == "/dev/null"@,
            devs@[1]@ == "/dev/stdin"@,
            devs@[2]@ == "/dev/stdout"@,
            devs@[3]@ == "/dev/stderr"@,
            forall|j: int| 0 <= j < k ==> !(s@ == (#[trigger] devs@[j])@ || starts_with(s@, devs@[j]@ + "/fd/"@)),
        decreases 4 - k,
    {
        let d = devs[k];
        let mut prefix = string_of(d);
        push_str(&mut prefix, "/fd/");
        if chars_are(s, d) || chars_start_with(s, prefix.as_str()) {
            assert(s@ == d@ || starts_with(s@, d@ + "/fd/"@));
            return true;
        }
        k += 1;
    }
    proof {
        assert forall|d: Seq<char>|
            (d == "/dev/null"@ || d == "/dev/stdin"@ || d == "/dev/stdout"@ || d == "/dev/stderr"@)
                implies !(s@ == d || starts_with(s@, #[trigger] (d + "/fd/"@))) by {
            if d == "/dev/null"@ {
                assert(devs@[0]@ == d);
            } else if d == "/dev/stdin"@ {
                assert(devs@[1]@ == d);
            } else if d == "/dev/stdout"@ {
                assert(devs@[2]@ == d);
            } else {
                assert(devs@[3]@ == d);
            }
        }
    }
    false
}

fn has_char(s: &Vec<char>, c: char) -> (r: bool)
    ensures
        r == s@.contains(c),
{
    let mut i: usize = 0;
    while i < s.len()
        invariant
            i <= s.len(),
            forall|j: int| 0 <= j < i ==> s@[j] != c,
        decreases s.len() - i,
    {
        if s[i] == c {
            return true;
        }
        i += 1;
    }
    false
}

/// `static_target(t)`.
fn static_target_of(t: &Vec<char>) -> (r: Option<Vec<char>>)
    ensures
        match r {
            Some(s) => static_target(t@) == Some(s@),
            None => static_target(t@) is None,
        },
{
    let s = strip_both_exec(t, CharClass::Quote);
    if !(s.len() > 0 && s[0] == '/') {
        return None;
    }
    if has_char(&s, '$') || has_char(&s, '`') || has_char(&s, '~') {
        return None;
    }
    if is_device_path(&s) {
        return None;
    }
    Some(s)
}

fn judged_targets_of(command: &str) -> (r: Vec<String>)
    ensures
        views(r@) == judged_targets(command@),
{
    let trimmed = trim_string(command);
    let all = extract_write_targets(trimmed.as_str());
    let ghost w = views(all@);
    let mut out: Vec<String> = Vec::new();
    let mut i: usize = 0;
    while i < all.len()
        invariant
            i <= all.len(),
            w == views(all@),
            w == write_targets(trim(command@)),
            views(out@) == static_targets(w.subrange(0, i as int)),
        decreases all.len() - i,
    {
        proof {
            assert(w.subrange(0, i + 1).drop_last() =~= w.subrange(0, i as int));
            assert(w.subrange(0, i + 1).last() == all@[i as int]@);
        }
        let cs = chars_of(all[i].as_str());
        match static_target_of(&cs) {
            Some(s) => {
                let ghost before = views(out@);
                out.push(string_of_chars(&s));
                assert(views(out@) =~= before.push(s@));
            },
            None => {},
        }
        i += 1;
    }
    assert(w.subrange(0, all.len() as int) =~= w);
    out
}

impl SecurityGuardMiddleware {
    /// Normal form of the primary root, against which relative paths resolve.
    pub closed spec fn primary(&self) -> PathForm {
        self.workspace_root.form()
    }

    /// Normal forms of all allowed roots, primary first.
    pub closed spec fn roots(&self) -> Seq<PathForm> {
        forms(self.allowed_roots@)
    }

    /// Forbidden command patterns, in the order they are tried.
    pub closed spec fn forbidden(&self) -> Seq<Seq<char>> {
        views(self.forbidden_commands@)
    }

    /// A guard whose only root is `workspace_root` (as the host resolved it
    /// on disk) and which forbids the default destructive patterns.
    pub fn new(workspace_root: &str) -> (g: SecurityGuardMiddleware)
        ensures
            g.primary() == normal_form(workspace_root@),
            g.roots() == seq![normal_form(workspace_root@)],
            g.forbidden() == default_forbidden(),
    {
        let ws = normalize_path(workspace_root);
        let first = ws.duplicate();
        let mut roots: Vec<NormalPath> = Vec::new();
        roots.push(first);
        let mut forbidden: Vec<String> = Vec::new();
        forbidden.push(string_of("rm -rf /"));
        forbidden.push(string_of("rm -rf /*"));
        forbidden.push(string_of(":(){ :|:& };:"));
        forbidden.push(string_of("mkfs"));
        forbidden.push(string_of("dd if="));
        assert(forms(roots@) =~= seq![normal_form(workspace_root@)]);
        assert(views(forbidden@) =~= default_forbidden());
        SecurityGuardMiddleware { workspace_root: ws, allowed_roots: roots, forbidden_commands: forbidden }
    }

    /// Grants extra roots (as the host resolved them on disk) the standing of
    /// the primary one; roots already listed are not repeated.
    pub fn with_extra_roots(self, roots: Vec<String>) -> (g: SecurityGuardMiddleware)
        ensures
            g.primary() == self.primary(),
            g.roots() == add_roots(self.roots(), views(roots@)),
            g.forbidden() == self.forbidden(),
    {
        let SecurityGuardMiddleware { workspace_root, allowed_roots, forbidden_commands } = self;
        let mut all = allowed_roots;
        let ghost start = forms(all@);
        let mut i: usize = 0;
        while i < roots.len()
            invariant
                i <= roots.len(),
                forms(all@) == add_roots(start, views(roots@).subrange(0, i as int)),
            decreases roots.len() - i,
        {
            proof {
                assert(views(roots@).subrange(0, i + 1).drop_last() =~= views(roots@).subrange(0, i as int));
                assert(views(roots@).subrange(0, i + 1).last() == roots@[i as int]@);
            }
            let p = normalize_path(roots[i].as_str());
            let found = lists_form(&all, &p);
            if !found {
                let ghost before = forms(all@);
                all.push(p);
                assert(forms(all@) =~= before.push(normal_form(roots@[i as int]@)));
            }
            i += 1;
        }
        assert(views(roots@).subrange(0, roots.len() as int) =~= views(roots@));
        SecurityGuardMiddleware { workspace_root, allowed_roots: all, forbidden_commands }
    }

    /// Adds a forbidden command pattern, tried after the existing ones.
    pub fn with_forbidden_command(self, cmd: &str) -> (g: SecurityGuardMiddleware)
        ensures
            g.primary() == self.primary(),
            g.roots() == self.roots(),
            g.forbidden() == self.forbidden().push(cmd@),
    {
        let SecurityGuardMiddleware { workspace_root, allowed_roots, forbidden_commands } = self;
        let mut f = forbidden_commands;
        let ghost before = views(f@);
        f.push(string_of(cmd));
        assert(views(f@) =~= before.push(cmd@));
        SecurityGuardMiddleware { workspace_root, allowed_roots, forbidden_commands: f }
    }

    pub fn workspace_root(&self) -> (r: &NormalPath)
        ensures
            r.form() == self.primary(),
    {
        &self.workspace_root
    }

    /// All roots a path may lie in, primary first.
    pub fn allowed_roots(&self) -> (r: &Vec<NormalPath>)
        ensures
            forms(r@) == self.roots(),
    {
        &self.allowed_roots
    }

    /// The roots as listed in messages.
    pub fn roots_display(&self) -> (r: String)
        ensures
            r@ == roots_text(self.roots()),
    {
        display_all(&self.allowed_roots)
    }

    /// The path the host must resolve on disk before `check_path(target, ..)`.
    pub fn candidate_path(&self, target: &str) -> (r: String)
        ensures
            r@ == joined_target(form_text(self.primary()), target@),
    {
        let t = chars_of(target);
        if t.len() > 0 && t[0] == '/' {
            return string_of(target);
        }
        let base = self.workspace_root.display();
        let b = chars_of(base.as_str());
        let mut r = base;
        if b.len() > 0 && b[b.len() - 1] != '/' {
            push_char(&mut r, '/');
        }
        push_str(&mut r, target);
        proof {
            if b.len() == 0 {
                assert(r@ =~= target@);
            }
        }
        r
    }

    /// Judges a tool's `target` path, given `resolved`: what the host found
    /// `candidate_path(target)` to be on disk (symbolic links followed; the
    /// candidate itself when nothing resolves). The normal form of `resolved`
    /// must lie within an allowed root.
    pub fn check_path(&self, target: &str, resolved: &str) -> (r: Result<NormalPath, String>)
        ensures
            match r {
                Ok(p) => p.form() == normal_form(resolved@) && allowed_in(self.roots(), normal_form(resolved@)),
                Err(m) => !allowed_in(self.roots(), normal_form(resolved@)) && m@ == traversal_message(
                    target@,
                    self.roots(),
                ),
            },
    {
        let normalized = normalize_path(resolved);
        if !within_any(&self.allowed_roots, &normalized) {
            let mut m = string_of("Path traversal detected! Path '");
            push_str(&mut m, target);
            push_str(&mut m, "' escapes all allowed workspace roots [");
            let roots = self.roots_display();
            push_str(&mut m, roots.as_str());
            push_str(&mut m, "]");
            return Err(m);
        }
        Ok(normalized)
    }

    /// The write targets of `command` that `check_command` judges, in order;
    /// the host resolves each on disk.
    pub fn judged_command_targets(&self, command: &str) -> (r: Vec<String>)
        ensures
            views(r@) == judged_targets(command@),
    {
        judged_targets_of(command)
    }

    /// Judges a shell command: the first forbidden pattern contained in the
    /// trimmed command refuses it; otherwise the first judged write target
    /// whose resolution (`resolved[j]`, or the target itself past the end of
    /// `resolved`) lies outside every root refuses it.
    pub fn check_command(&self, command: &str, resolved: &Vec<String>) -> (r: Result<(), String>)
        ensures
            match r {
                Ok(_) => command_verdict(self.forbidden(), self.roots(), command@, views(resolved@)) is None,
                Err(m) => command_verdict(self.forbidden(), self.roots(), command@, views(resolved@)) == Some(m@),
            },
    {
        let trimmed = trim_string(command);
        let mut i: usize = 0;
        assert(self.forbidden().subrange(0, self.forbidden().len() as int) =~= self.forbidden());
        while i < self.forbidden_commands.len()
            invariant
                i <= self.forbidden_commands.len(),
                trimmed@ == trim(command@),
                first_forbidden(self.forbidden(), trim(command@)) == first_forbidden(
                    self.forbidden().subrange(i as int, self.forbidden().len() as int),
                    trim(command@),
                ),
            decreases self.forbidden_commands.len() - i,
        {
            proof {
                let rest = self.forbidden().subrange(i as int, self.forbidden().len() as int);
                assert(rest.drop_first() =~= self.forbidden().subrange(i + 1, self.forbidden().len() as int));
                assert(rest[0] == self.forbidden_commands@[i as int]@);
            }
            if str_contains(trimmed.as_str(), self.forbidden_commands[i].as_str()) {
                let mut m = string_of("Forbidden high-risk command pattern detected: '");
                push_str(&mut m, self.forbidden_commands[i].as_str());
                push_str(&mut m, "'");
                assert(self.forbidden()[i as int] == self.forbidden_commands@[i as int]@);
                return Err(m);
            }
            i += 1;
        }
        proof {
            assert(self.forbidden().subrange(i as int, self.forbidden().len() as int).len() == 0);
        }
        let targets = judged_targets_of(command);
        let ghost ts = views(targets@);
        let mut j: usize = 0;
        while j < targets.len()
            invariant
                j <= targets.len(),
                ts == views(targets@),
                ts == judged_targets(command@),
                first_forbidden(self.forbidden(), trim(command@)) is None,
                first_escape(self.roots(), ts, views(resolved@), 0) == first_escape(
                    self.roots(),
                    ts,
                    views(resolved@),
                    j as int,
                ),
            decreases targets.len() - j,
        {
            let res: &str = if j < resolved.len() {
                resolved[j].as_str()
            } else {
                targets[j].as_str()
            };
            assert(res@ == resolution_of(ts, views(resolved@), j as int));
            let p = normalize_path(res);
            if !within_any(&self.allowed_roots, &p) {
                let mut m = string_of("Shell write target '");
                push_str(&mut m, targets[j].as_str());
                push_str(&mut m, "' escapes all allowed workspace roots [");
                let roots = self.roots_display();
                push_str(&mut m, roots.as_str());
                push_str(&mut m, "]");
                assert(targets@[j as int]@ == ts[j as int]);
                return Err(m);
            }
            j += 1;
        }
        Ok(())
    }
}


// ---------------------------------------------------------------------------
// Screening a tool call
// ---------------------------------------------------------------------------

/// Paths the host resolves on disk before a call is screened (as asked by
/// `resolution_queries`), or its answers (as passed to `screen`).
#[derive(Debug)]
pub struct PathResolutions {
    /// For the call's `path` argument.
    pub path: Option<String>,
    /// For the call's `cwd` argument.
    pub cwd: Option<String>,
    /// For each judged write target of a `bash` command, in order.
    pub command_targets: Vec<String>,
}

pub open spec fn resolved_or(o: Option<Seq<char>>, d: Seq<char>) -> Seq<char> {
    match o {
        Some(x) => x,
        None => d,
    }
}

pub open spec fn path_guidance(roots: Seq<PathForm>) -> Seq<char> {
    "Confine all file operations within the allowed workspace roots: ["@ + roots_text(roots)
        + "]. Paths inside any listed root are read/write accessible."@
}

pub open spec fn cwd_guidance(roots: Seq<PathForm>) -> Seq<char> {
    "Ensure working directory targets remain inside the allowed roots: ["@ + roots_text(roots) + "]."@
}

pub open spec fn write_guidance(roots: Seq<PathForm>) -> Seq<char> {
    "Use write_file for edits, or keep shell write targets inside the allowed workspace roots: ["@
        + roots_text(roots) + "]."@
}

pub open spec fn halted_ground_truth() -> Seq<char> {
    "No file system modifications were performed. Command was halted at security perimeter."@
}

/// Why a call is refused, as (message, action, ground truth, guidance): the
/// `path` argument outside the roots, else the `cwd` argument outside them,
/// else, for `bash`, the command's verdict. `None` lets the call through.
pub open spec fn screen_verdict(
    primary: Seq<char>,
    roots: Seq<PathForm>,
    forbidden: Seq<Seq<char>>,
    tool_name: Seq<char>,
    path: Option<Seq<char>>,
    cwd: Option<Seq<char>>,
    command: Option<Seq<char>>,
    resolved_path: Option<Seq<char>>,
    resolved_cwd: Option<Seq<char>>,
    resolved_targets: Seq<Seq<char>>,
) -> Option<(Seq<char>, Seq<char>, Seq<char>, Seq<char>)> {
    if path is Some && !allowed_in(
        roots,
        normal_form(resolved_or(resolved_path, joined_target(primary, path->0))),
    ) {
        Some(
            (
                "Access Denied: "@ + traversal_message(path->0, roots),
                "Path traversal attack blocked"@,
                halted_ground_truth(),
                path_guidance(roots),
            ),
        )
    } else if cwd is Some && !allowed_in(
        roots,
        normal_form(resolved_or(resolved_cwd, joined_target(primary, cwd->0))),
    ) {
        Some(
            (
                "Access Denied: "@ + traversal_message(cwd->0, roots),
                "Working directory traversal blocked"@,
                "Process spawn aborted. Cwd escaped sandbox roots."@,
                cwd_guidance(roots),
            ),
        )
    } else if tool_name == "bash"@ && command is Some && command_verdict(
        forbidden,
        roots,
        command->0,
        resolved_targets,
    ) is Some {
        let v = command_verdict(forbidden, roots, command->0, resolved_targets)->0;
        if starts_with(v, "Shell write target"@) {
            Some(
                (
                    "Execution Blocked: "@ + v,
                    "Out-of-jail shell write blocked"@,
                    halted_ground_truth(),
                    write_guidance(roots),
                ),
            )
        } else {
            Some(
                (
                    "Execution Blocked: "@ + v,
                    "Forbidden destructive command blocked"@,
                    "Command was intercepted before being dispatched to the shell subsystem."@,
                    "Dangerous destructive shell operations are disabled by safety guardrails."@,
                ),
            )
        }
    } else {
        None
    }
}

fn opt_ref(o: &Option<String>) -> (r: Option<&str>)
    ensures
        match r {
            Some(s) => *o matches Some(x) && s@ == x@,
            None => o is None,
        },
{
    match o {
        Some(x) => Some(x.as_str()),
        None => None,
    }
}

impl SecurityGuardMiddleware {
    /// The paths to resolve on disk before screening a call with these
    /// arguments: each of `path` and `cwd` joined onto the primary root, and
    /// for `bash` the judged write targets of `command`.
    pub fn resolution_queries_for(
        &self,
        tool_name: &str,
        path: &Option<String>,
        cwd: &Option<String>,
        command: &Option<String>,
    ) -> (r: PathResolutions)
        ensures
            opt_view(r.path) == (match opt_view(*path) {
                Some(p) => Some(joined_target(form_text(self.primary()), p)),
                None => None,
            }),
            opt_view(r.cwd) == (match opt_view(*cwd) {
                Some(p) => Some(joined_target(form_text(self.primary()), p)),
                None => None,
            }),
            views(r.command_targets@) == (if tool_name@ == "bash"@ && command is Some {
                judged_targets(command->0@)
            } else {
                Seq::empty()
            }),
    {
        let p = match path {
            Some(t) => Some(self.candidate_path(t.as_str())),
            None => None,
        };
        let c = match cwd {
            Some(t) => Some(self.candidate_path(t.as_str())),
            None => None,
        };
        let is_bash = crate::text::str_eq(tool_name, "bash");
        let targets = match command {
            Some(cmd) => if is_bash {
                self.judged_command_targets(cmd.as_str())
            } else {
                Vec::new()
            },
            None => Vec::new(),
        };
        proof {
            if !(tool_name@ == "bash"@ && command is Some) {
                assert(views(targets@) =~= Seq::<Seq<char>>::empty());
            }
        }
        PathResolutions { path: p, cwd: c, command_targets: targets }
    }

    /// The paths to resolve on disk before screening `call`.
    pub fn resolution_queries(&self, call: &ToolCall) -> (r: PathResolutions)
        ensures
            opt_view(r.path) == (match json_str_field(call.function.arguments@, "path"@) {
                Some(p) => Some(joined_target(form_text(self.primary()), p)),
                None => None,
            }),
            opt_view(r.cwd) == (match json_str_field(call.function.arguments@, "cwd"@) {
                Some(p) => Some(joined_target(form_text(self.primary()), p)),
                None => None,
            }),
            views(r.command_targets@) == (if call.function.name@ == "bash"@ && json_str_field(
                call.function.arguments@,
                "command"@,
            ) is Some {
                judged_targets(json_str_field(call.function.arguments@, "command"@)->0)
            } else {
                Seq::empty()
            }),
    {
        let args = call.function.arguments.as_str();
        let path = json_string_field(args, "path");
        let cwd = json_string_field(args, "cwd");
        let command = json_string_field(args, "command");
        self.resolution_queries_for(call.function.name.as_str(), &path, &cwd, &command)
    }

    /// The guard's decision on a call with these arguments, given the host's
    /// resolutions: `None` lets it through; otherwise the refusal, timed at
    /// `elapsed`, with a "SecurityGuard" notice.
    pub fn screen_arguments(
        &self,
        tool_name: &str,
        path: &Option<String>,
        cwd: &Option<String>,
        command: &Option<String>,
        resolved: &PathResolutions,
        elapsed: Duration,
    ) -> (r: Option<ToolExecutionResult>)
        ensures
            match screen_verdict(
                form_text(self.primary()),
                self.roots(),
                self.forbidden(),
                tool_name@,
                opt_view(*path),
                opt_view(*cwd),
                opt_view(*command),
                opt_view(resolved.path),
                opt_view(resolved.cwd),
                views(resolved.command_targets@),
            ) {
                None => r is None,
                Some(v) => r matches Some(res) && is_noticed_error(
                    res,
                    v.0,
                    "SecurityGuard"@,
                    v.1,
                    v.2,
                    Some(v.3),
                    elapsed,
                ),
            },
    {
        if let Some(p) = path {
            let cand = self.candidate_path(p.as_str());
            let res: &str = match opt_ref(&resolved.path) {
                Some(x) => x,
                None => cand.as_str(),
            };
            if let Err(violation) = self.check_path(p.as_str(), res) {
                let mut msg = string_of("Access Denied: ");
                push_str(&mut msg, violation.as_str());
                let mut guidance = string_of("Confine all file operations within the allowed workspace roots: [");
                let roots = self.roots_display();
                push_str(&mut guidance, roots.as_str());
                push_str(&mut guidance, "]. Paths inside any listed root are read/write accessible.");
                return Some(
                    error_with_notice(
                        msg,
                        "SecurityGuard",
                        "Path traversal attack blocked",
                        "No file system modifications were performed. Command was halted at security perimeter.",
                        guidance.as_str(),
                        elapsed,
                    ),
                );
            }
        }
        if let Some(c) = cwd {
            let cand = self.candidate_path(c.as_str());
            let res: &str = match opt_ref(&resolved.cwd) {
                Some(x) => x,
                None => cand.as_str(),
            };
            if let Err(violation) = self.check_path(c.as_str(), res) {
                let mut msg = string_of("Access Denied: ");
                push_str(&mut msg, violation.as_str());
                let mut guidance = string_of("Ensure working directory targets remain inside the allowed roots: [");
                let roots = self.roots_display();
                push_str(&mut guidance, roots.as_str());
                push_str(&mut guidance, "].");
                return Some(
                    error_with_notice(
                        msg,
                        "SecurityGuard",
                        "Working directory traversal blocked",
                        "Process spawn aborted. Cwd escaped sandbox roots.",
                        guidance.as_str(),
                        elapsed,
                    ),
                );
            }
        }
        if crate::text::str_eq(tool_name, "bash") {
            if let Some(cmd) = command {
                if let Err(violation) = self.check_command(cmd.as_str(), &resolved.command_targets) {
                    let mut msg = string_of("Execution Blocked: ");
                    push_str(&mut msg, violation.as_str());
                    let vc = chars_of(violation.as_str());
                    if chars_start_with(&vc, "Shell write target") {
                        let mut guidance = string_of(
                            "Use write_file for edits, or keep shell write targets inside the allowed workspace roots: [",
                        );
                        let roots = self.roots_display();
                        push_str(&mut guidance, roots.as_str());
                        push_str(&mut guidance, "].");
                        return Some(
                            error_with_notice(
                                msg,
                                "SecurityGuard",
                                "Out-of-jail shell write blocked",
                                "No file system modifications were performed. Command was halted at security perimeter.",
                                guidance.as_str(),
                                elapsed,
                            ),
                        );
                    } else {
                        return Some(
                            error_with_notice(
                                msg,
                                "SecurityGuard",
                                "Forbidden destructive command blocked",
                                "Command was intercepted before being dispatched to the shell subsystem.",
                                "Dangerous destructive shell operations are disabled by safety guardrails.",
                                elapsed,
                            ),
                        );
                    }
                }
            }
        }
        None
    }

    /// The guard's decision on `call` (its JSON arguments read with
    /// `serde_json`), given the host's resolutions of `resolution_queries`.
    pub fn screen(&self, call: &ToolCall, resolved: &PathResolutions, elapsed: Duration) -> (r: Option<ToolExecutionResult>)
        ensures
            match screen_verdict(
                form_text(self.primary()),
                self.roots(),
                self.forbidden(),
                call.function.name@,
                json_str_field(call.function.arguments@, "path"@),
                json_str_field(call.function.arguments@, "cwd"@),
                json_str_field(call.function.arguments@, "command"@),
                opt_view(resolved.path),
                opt_view(resolved.cwd),
                views(resolved.command_targets@),
            ) {
                None => r is None,
                Some(v) => r matches Some(res) && is_noticed_error(
                    res,
                    v.0,
                    "SecurityGuard"@,
                    v.1,
                    v.2,
                    Some(v.3),
                    elapsed,
                ),
            },
    {
        let args = call.function.arguments.as_str();
        let path = json_string_field(args, "path");
        let cwd = json_string_field(args, "cwd");
        let command = json_string_field(args, "command");
        self.screen_arguments(call.function.name.as_str(), &path, &cwd, &command, resolved, elapsed)
    }
}

} // verus!
