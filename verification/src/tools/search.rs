//! Content search (`grep`) and file lookup (`find`): their arguments, glob
//! filters, and how matches are gathered, bounded and reported. Walking the
//! tree and reading files is the host's part.
use vstd::prelude::*;
use crate::stream::sse::{decode_lossy, utf8_lossy};
use crate::text::{
    chars_of, contains, decimal, join, join_strings, push_decimal, push_str, string_from_chars,
    string_of, trim, trim_string, views,
};
use crate::tools::listing::{arranged, entry_views, lemma_is_arranged, names_as_entries, sort_entries};
use crate::types::tool::{byte_len, string_byte_len};

verus! {

/// Matches a search reports by default.
pub const DEFAULT_MATCH_LIMIT: usize = 100;
/// Characters of a matched line shown before it is cut.
pub const MAX_LINE_LENGTH: usize = 500;
/// Bytes of output after which collection stops (50 KiB).
pub const MAX_OUTPUT_BYTES: usize = 51200;
/// Files a lookup reports by default.
pub const DEFAULT_FIND_LIMIT: usize = 1000;

// ---------------------------------------------------------------------------
// Arguments
// ---------------------------------------------------------------------------

/// A result limit: the requested one (at least 1), else `default`.
pub open spec fn limit_of(requested: Option<u64>, default: usize) -> usize {
    match requested {
        Some(v) => if (v as usize) > 0 { v as usize } else { 1 },
        None => default,
    }
}

pub fn result_limit(requested: Option<u64>, default: usize) -> (n: usize)
    ensures
        n == limit_of(requested, default),
{
    match requested {
        Some(v) => {
            let n = v as usize;
            if n > 0 { n } else { 1 }
        },
        None => default,
    }
}

/// The `pattern` argument of a content search: required and not empty.
pub fn grep_pattern_arg(pattern: Option<String>) -> (r: Result<String, String>)
    ensures
        match pattern {
            None => r matches Err(e) && e@ == "Missing required parameter 'pattern'"@,
            Some(p) => if p@.len() == 0 {
                r matches Err(e) && e@ == "Pattern must not be empty"@
            } else {
                r matches Ok(q) && q@ == p@
            },
        },
{
    match pattern {
        None => Err(string_of("Missing required parameter 'pattern'")),
        Some(p) => {
            if chars_of(p.as_str()).len() == 0 {
                Err(string_of("Pattern must not be empty"))
            } else {
                Ok(p)
            }
        },
    }
}

/// The `pattern` argument of a file lookup: required and not blank.
pub fn find_pattern_arg(pattern: Option<String>) -> (r: Result<String, String>)
    ensures
        match pattern {
            None => r matches Err(e) && e@ == "Missing required parameter 'pattern'"@,
            Some(p) => if trim(p@).len() == 0 {
                r matches Err(e) && e@ == "Pattern must not be empty"@
            } else {
                r matches Ok(q) && q@ == p@
            },
        },
{
    match pattern {
        None => Err(string_of("Missing required parameter 'pattern'")),
        Some(p) => {
            let t = trim_string(p.as_str());
            if chars_of(t.as_str()).len() == 0 {
                Err(string_of("Pattern must not be empty"))
            } else {
                Ok(p)
            }
        },
    }
}

/// Characters with a meaning in a regular expression.
pub open spec fn is_regex_meta(c: char) -> bool {
    c == '\\' || c == '.' || c == '+' || c == '*' || c == '?' || c == '(' || c == ')' || c == '|'
        || c == '[' || c == ']' || c == '{' || c == '}' || c == '^' || c == '$' || c == '#'
        || c == '&' || c == '-' || c == '~'
}

/// `s` with a backslash before each meta character.
pub open spec fn regex_escape(s: Seq<char>) -> Seq<char>
    decreases s.len(),
{
    if s.len() == 0 {
        Seq::empty()
    } else {
        regex_escape(s.drop_last()) + (if is_regex_meta(s.last()) {
            seq!['\\', s.last()]
        } else {
            seq![s.last()]
        })
    }
}

/// `regex::escape`: the contract states what its source does, a backslash
/// before each of the characters `\ . + * ? ( ) | [ ] { } ^ $ # & - ~`.
#[verifier::external_body]
fn escape_regex(pattern: &str) -> (r: String)
    ensures
        r@ == regex_escape(pattern@),
{
    regex::escape(pattern)
}

/// The expression searched for: the pattern itself, or escaped when it is
/// to be taken literally.
pub fn search_expression(pattern: &str, literal: bool) -> (r: String)
    ensures
        r@ == (if literal { regex_escape(pattern@) } else { pattern@ }),
{
    if literal {
        escape_regex(pattern)
    } else {
        string_of(pattern)
    }
}

/// Whether `grep_regex` builds a matcher of `expression` (case-insensitive
/// when `ignore_case`).
pub uninterp spec fn matcher_compiles(expression: Seq<char>, ignore_case: bool) -> bool;

/// The message `grep_regex` gives for an expression it refuses.
pub uninterp spec fn matcher_error_text(expression: Seq<char>, ignore_case: bool) -> Seq<char>;

#[verifier::external_type_specification]
#[verifier::external_body]
pub struct ExRegexMatcher(grep_regex::RegexMatcher);

/// `grep_regex::RegexMatcherBuilder::new`, `case_insensitive(ignore_case)`
/// and `build(expression)`. The contract names whether that succeeds and,
/// when it does not, the error's message (its `Display`), both as functions
/// of the two arguments.
#[verifier::external_body]
fn compile_matcher(expression: &str, ignore_case: bool) -> (r: Result<grep_regex::RegexMatcher, String>)
    ensures
        r is Ok <==> matcher_compiles(expression@, ignore_case),
        r matches Err(e) ==> e@ == matcher_error_text(expression@, ignore_case),
{
    grep_regex::RegexMatcherBuilder::new().case_insensitive(ignore_case).build(expression).map_err(|e| e.to_string())
}

/// The matcher a search uses: the pattern, escaped when it is to be taken
/// literally, compiled case-insensitively when asked; or `Invalid pattern
/// '<pattern>': <reason>` when it does not compile.
pub fn grep_matcher(pattern: &str, literal: bool, ignore_case: bool) -> (r: Result<grep_regex::RegexMatcher, String>)
    ensures
        ({
            let expression = if literal { regex_escape(pattern@) } else { pattern@ };
            &&& r is Ok <==> matcher_compiles(expression, ignore_case)
            &&& r matches Err(e) ==> e@ == "Invalid pattern '"@ + pattern@ + "': "@ + matcher_error_text(
                expression,
                ignore_case,
            )
        }),
{
    let expression = search_expression(pattern, literal);
    match compile_matcher(expression.as_str(), ignore_case) {
        Ok(m) => Ok(m),
        Err(reason) => {
            let mut msg = string_of("Invalid pattern '");
            push_str(&mut msg, pattern);
            push_str(&mut msg, "': ");
            push_str(&mut msg, reason.as_str());
            Err(msg)
        },
    }
}

// ---------------------------------------------------------------------------
// Glob filters
// ---------------------------------------------------------------------------

/// Whether `globset` accepts `pattern` as a glob and builds a set of it.
pub uninterp spec fn glob_compiles(pattern: Seq<char>) -> bool;

/// The message `globset` gives for a glob it refuses.
pub uninterp spec fn glob_error_text(pattern: Seq<char>) -> Seq<char>;

/// Whether the set built from glob `pattern` matches `path`.
pub uninterp spec fn glob_matches(pattern: Seq<char>, path: Seq<char>) -> bool;

#[verifier::external_type_specification]
#[verifier::external_body]
pub struct ExGlobSet(globset::GlobSet);

/// `globset::Glob::new` on `pattern`, put into a one-glob `GlobSetBuilder`
/// and built. The contract names whether that succeeds and, when it does
/// not, the message of the error (its `Display`), both as functions of the
/// pattern.
#[verifier::external_body]
fn compile_glob(pattern: &str) -> (r: Result<globset::GlobSet, String>)
    ensures
        r is Ok <==> glob_compiles(pattern@),
        r matches Err(e) ==> e@ == glob_error_text(pattern@),
{
    let glob = globset::Glob::new(pattern).map_err(|e| e.to_string())?;
    let mut builder = globset::GlobSetBuilder::new();
    builder.add(glob);
    builder.build().map_err(|e| e.to_string())
}

/// The glob actually matched for a user's glob: blank means none; one
/// without a `/` matches at any depth (`**/` is put before it).
pub open spec fn glob_source(glob: Seq<char>) -> Option<Seq<char>> {
    let p = trim(glob);
    if p.len() == 0 {
        None
    } else if p.contains('/') {
        Some(p)
    } else {
        Some("**/"@ + p)
    }
}

/// A compiled file-name filter, with the glob it was built from.
pub struct GlobFilter {
    source: String,
    set: globset::GlobSet,
}

impl GlobFilter {
    pub closed spec fn source(&self) -> Seq<char> {
        self.source@
    }

    /// `GlobSet::is_match` on `path`, named as a function of the glob the
    /// set was built from (the only way a filter is made) and the path.
    #[verifier::external_body]
    fn is_match(&self, path: &str) -> (b: bool)
        ensures
            b == glob_matches(self.source(), path@),
    {
        self.set.is_match(path)
    }
}

/// The filter for a user's glob: none for a blank glob, the compiled one
/// otherwise, or `Invalid glob '<glob>': <reason>` when it does not compile.
pub fn glob_filter(glob: &str) -> (r: Result<Option<GlobFilter>, String>)
    ensures
        match glob_source(glob@) {
            None => r matches Ok(None),
            Some(src) => if glob_compiles(src) {
                r matches Ok(Some(f)) && f.source() == src
            } else {
                r matches Err(e) && e@ == "Invalid glob '"@ + trim(glob@) + "': "@ + glob_error_text(src)
            },
        },
{
    let p = trim_string(glob);
    let pv = chars_of(p.as_str());
    if pv.len() == 0 {
        return Ok(None);
    }
    let mut has_slash = false;
    let mut i: usize = 0;
    while i < pv.len()
        invariant
            i <= pv.len(),
            has_slash <==> (exists|k: int| 0 <= k < i && pv@[k] == '/'),
        decreases pv.len() - i,
    {
        if pv[i] == '/' {
            has_slash = true;
        }
        i += 1;
    }
    let source = if has_slash {
        string_of(p.as_str())
    } else {
        let mut s = string_of("**/");
        push_str(&mut s, p.as_str());
        s
    };
    match compile_glob(source.as_str()) {
        Ok(set) => Ok(Some(GlobFilter { source, set })),
        Err(reason) => {
            let mut e = string_of("Invalid glob '");
            push_str(&mut e, p.as_str());
            push_str(&mut e, "': ");
            push_str(&mut e, reason.as_str());
            Err(e)
        },
    }
}

/// Whether a file is searched: always without a filter, else when the
/// filter matches its path.
pub fn admits_file(filter: &Option<GlobFilter>, path: &str) -> (b: bool)
    ensures
        b == match filter {
            None => true,
            Some(f) => glob_matches(f.source(), path@),
        },
{
    match filter {
        None => true,
        Some(f) => f.is_match(path),
    }
}

// ---------------------------------------------------------------------------
// Content search results
// ---------------------------------------------------------------------------

/// The state of a search: the output lines so far, the matches counted,
/// the bytes emitted, whether output was cut, and the match limit.
pub struct GrepView {
    pub lines: Seq<Seq<char>>,
    pub match_count: nat,
    pub total_bytes: nat,
    pub truncated: bool,
    pub match_limit: nat,
}

/// Gathers the output lines of a search across files.
pub struct GrepCollector {
    lines: Vec<String>,
    match_count: usize,
    total_bytes: usize,
    truncated: bool,
    match_limit: usize,
}

impl View for GrepCollector {
    type V = GrepView;

    closed spec fn view(&self) -> GrepView {
        GrepView {
            lines: views(self.lines@),
            match_count: self.match_count as nat,
            total_bytes: self.total_bytes as nat,
            truncated: self.truncated,
            match_limit: self.match_limit as nat,
        }
    }
}

/// `a + b` as a `usize` counter adds two `usize` values: wrapping around.
pub open spec fn wrapped_sum(a: nat, b: nat) -> nat {
    if a + b > usize::MAX {
        (a + b - (usize::MAX + 1)) as nat
    } else {
        a + b
    }
}

/// Bytes of a line as `str::len` reports them.
pub open spec fn line_bytes(line: Seq<char>) -> nat {
    (byte_len(line) as usize) as nat
}

/// Whether a search has what it may collect: the match limit reached, or
/// the output budget spent.
pub open spec fn at_capacity_spec(v: GrepView) -> bool {
    v.match_count >= v.match_limit || v.total_bytes >= MAX_OUTPUT_BYTES
}

/// One more output line, and its bytes with a line break counted.
pub open spec fn with_line(v: GrepView, line: Seq<char>) -> GrepView {
    let tb = wrapped_sum(wrapped_sum(v.total_bytes, line_bytes(line)), 1);
    GrepView {
        lines: v.lines.push(line),
        total_bytes: tb,
        truncated: v.truncated || tb >= MAX_OUTPUT_BYTES,
        ..v
    }
}

/// `s` without trailing `\n` and `\r` characters.
pub open spec fn trim_line_end(s: Seq<char>) -> Seq<char>
    decreases s.len(),
{
    if s.len() > 0 && (s.last() == '\n' || s.last() == '\r') {
        trim_line_end(s.drop_last())
    } else {
        s
    }
}

/// A matched or context line as shown: without its line ending, and when
/// longer than `MAX_LINE_LENGTH` characters cut to leave room for a marker.
pub open spec fn shown_line(raw: Seq<char>) -> Seq<char> {
    let t = trim_line_end(raw);
    if t.len() > MAX_LINE_LENGTH {
        t.take(482) + "… (line truncated)"@
    } else {
        t
    }
}

/// `path:line:text` for a match, `path-line:text` for a context line.
pub open spec fn located_line(path: Seq<char>, n: u64, is_match: bool, text: Seq<char>) -> Seq<char> {
    path + (if is_match { ":"@ } else { "-"@ }) + decimal(n as nat) + ":"@ + text
}

/// The report of a search for `pattern`: its lines, one per row, with a note
/// when output was cut or more matches were found than reported; or a
/// notice when nothing matched.
pub open spec fn grep_report_text(v: GrepView, pattern: Seq<char>) -> Seq<char> {
    let out = join(v.lines, "\n"@);
    if out.len() == 0 {
        "No matches found for pattern '"@ + pattern + "'"@
    } else if v.truncated || v.match_count > v.match_limit {
        out + "\n\n[Output truncated — narrow the pattern/path or pass a smaller 'limit']"@
    } else {
        out
    }
}

impl GrepCollector {
    pub fn new(match_limit: usize) -> (c: GrepCollector)
        ensures
            c@ == (GrepView {
                lines: Seq::empty(),
                match_count: 0,
                total_bytes: 0,
                truncated: false,
                match_limit: match_limit as nat,
            }),
    {
        let c = GrepCollector {
            lines: Vec::new(),
            match_count: 0,
            total_bytes: 0,
            truncated: false,
            match_limit,
        };
        assert(views(c.lines@) =~= Seq::<Seq<char>>::empty());
        c
    }

    pub fn at_capacity(&self) -> (b: bool)
        ensures
            b == at_capacity_spec(self@),
    {
        self.match_count >= self.match_limit || self.total_bytes >= MAX_OUTPUT_BYTES
    }

    /// Records that collection stopped early (limit, budget or cancel).
    pub fn mark_truncated(&mut self)
        ensures
            final(self)@ == (GrepView { truncated: true, ..old(self)@ }),
    {
        self.truncated = true;
    }

    pub fn push(&mut self, line: String)
        ensures
            final(self)@ == with_line(old(self)@, line@),
    {
        let bytes = string_byte_len(&line);
        let ghost before = views(self.lines@);
        self.lines.push(line);
        assert(views(self.lines@) =~= before.push(line@));
        self.total_bytes = self.total_bytes.wrapping_add(bytes).wrapping_add(1);
        if self.total_bytes >= MAX_OUTPUT_BYTES {
            self.truncated = true;
        }
    }

    /// The search's report for `pattern`.
    pub fn report(&self, pattern: &str) -> (r: String)
        ensures
            r@ == grep_report_text(self@, pattern@),
    {
        let mut out = join_strings(&self.lines, "\n");
        if chars_of(out.as_str()).len() == 0 {
            let mut e = string_of("No matches found for pattern '");
            push_str(&mut e, pattern);
            push_str(&mut e, "'");
            return e;
        }
        if self.truncated || self.match_count > self.match_limit {
            push_str(&mut out, "\n\n[Output truncated — narrow the pattern/path or pass a smaller 'limit']");
        }
        out
    }
}

// ---------------------------------------------------------------------------
// Writing one file's lines
// ---------------------------------------------------------------------------

/// How one file's lines enter a search's output: under the path shown for
/// the file, with `--` between groups of lines that are not adjacent when
/// context lines are on.
pub struct FileSink {
    pub display_path: String,
    pub last_line: Option<u64>,
    pub use_separators: bool,
}

impl FileSink {
    pub fn new(display_path: String, context_lines: usize) -> (s: FileSink)
        ensures
            s.display_path == display_path,
            s.last_line is None,
            s.use_separators == (context_lines > 0),
    {
        FileSink { display_path, last_line: None, use_separators: context_lines > 0 }
    }
}

/// Whether line `n` starts a new group after a gap.
pub open spec fn gap_before(s: FileSink, n: u64) -> bool {
    s.use_separators && (s.last_line matches Some(p) && n > p + 1)
}

/// The search after writing line `n` (text `text`) of the file.
pub open spec fn rendered(v: GrepView, s: FileSink, n: u64, text: Seq<char>, is_match: bool) -> GrepView {
    let v1 = if gap_before(s, n) { with_line(v, "--"@) } else { v };
    with_line(v1, located_line(s.display_path@, n, is_match, shown_line(text)))
}

pub open spec fn after_line(s: FileSink, n: u64) -> FileSink {
    FileSink { last_line: Some(n), ..s }
}

pub open spec fn byte_views(ls: Seq<Vec<u8>>) -> Seq<Seq<u8>> {
    ls.map_values(|l: Vec<u8>| l@)
}

/// Writing lines `ls`, numbered from `start`, one after the other; empty
/// ones are passed over when `skip_empty`. The result is the search, the
/// sink, and whether the search may go on after the last line written.
pub open spec fn render_run(
    v: GrepView,
    s: FileSink,
    start: int,
    ls: Seq<Seq<u8>>,
    is_match: bool,
    skip_empty: bool,
) -> (GrepView, FileSink, bool)
    decreases ls.len(),
{
    if ls.len() == 0 {
        (v, s, true)
    } else {
        let (v1, s1, k1) = render_run(v, s, start, ls.drop_last(), is_match, skip_empty);
        if skip_empty && ls.last().len() == 0 {
            (v1, s1, k1)
        } else {
            let n = (start + ls.len() - 1) as u64;
            let v2 = rendered(v1, s1, n, utf8_lossy(ls.last()), is_match);
            (v2, after_line(s1, n), !at_capacity_spec(v2))
        }
    }
}

/// The search after one more match is counted.
pub open spec fn match_counted(v: GrepView) -> GrepView {
    GrepView { match_count: wrapped_sum(v.match_count, 1), ..v }
}

/// The pieces of `b` between line feeds (`split(|b| b == b'\n')`).
pub open spec fn split_nl(b: Seq<u8>) -> Seq<Seq<u8>>
    decreases b.len(),
{
    if b.len() == 0 {
        seq![Seq::empty()]
    } else {
        let prev = split_nl(b.drop_last());
        if b.last() == 10 {
            prev.push(Seq::empty())
        } else {
            prev.update(prev.len() - 1, prev.last().push(b.last()))
        }
    }
}

proof fn lemma_split_nl_nonempty(b: Seq<u8>)
    ensures
        split_nl(b).len() >= 1,
    decreases b.len(),
{
    if b.len() > 0 {
        lemma_split_nl_nonempty(b.drop_last());
    }
}

fn split_lines(b: &[u8]) -> (r: Vec<Vec<u8>>)
    ensures
        byte_views(r@) == split_nl(b@),
{
    let mut out: Vec<Vec<u8>> = Vec::new();
    let mut cur: Vec<u8> = Vec::new();
    let mut i: usize = 0;
    while i < b.len()
        invariant
            i <= b.len(),
            byte_views(out@).push(cur@) == split_nl(b@.take(i as int)),
        decreases b.len() - i,
    {
        proof {
            assert(b@.take(i + 1).drop_last() =~= b@.take(i as int));
            assert(b@.take(i + 1).last() == b@[i as int]);
            lemma_split_nl_nonempty(b@.take(i as int));
        }
        let x = b[i];
        if x == 10 {
            let ghost before = byte_views(out@);
            let done = cur;
            cur = Vec::new();
            out.push(done);
            assert(byte_views(out@).push(cur@) =~= before.push(done@).push(Seq::<u8>::empty()));
        } else {
            let ghost before = byte_views(out@);
            let ghost c0 = cur@;
            cur.push(x);
            assert(byte_views(out@).push(cur@) =~= before.push(c0).update(before.len() as int, c0.push(x)));
        }
        i += 1;
    }
    assert(b@.take(b.len() as int) =~= b@);
    let ghost before = byte_views(out@);
    let last = cur;
    out.push(last);
    assert(byte_views(out@) =~= before.push(last@));
    out
}

fn trimmed_line_end(v: &Vec<char>) -> (n: usize)
    ensures
        n <= v.len(),
        v@.take(n as int) == trim_line_end(v@),
{
    let mut n = v.len();
    assert(v@.take(n as int) =~= v@);
    while n > 0 && (v[n - 1] == '\n' || v[n - 1] == '\r')
        invariant
            n <= v.len(),
            trim_line_end(v@.take(n as int)) == trim_line_end(v@),
        decreases n,
    {
        assert(v@.take(n as int).drop_last() =~= v@.take(n - 1));
        n -= 1;
    }
    n
}

fn shown_line_of(raw: &str) -> (r: String)
    ensures
        r@ == shown_line(raw@),
{
    let v = chars_of(raw);
    let n = trimmed_line_end(&v);
    if n > MAX_LINE_LENGTH {
        let mut s = string_from_chars(&v, 0, 482);
        push_str(&mut s, "… (line truncated)");
        assert(v@.subrange(0, 482) =~= v@.take(n as int).take(482));
        s
    } else {
        let s = string_from_chars(&v, 0, n);
        assert(v@.subrange(0, n as int) =~= v@.take(n as int));
        s
    }
}

impl FileSink {
    /// Writes line `line_number` of the file (raw bytes `text`), a match or
    /// a context line; answers whether the search may go on.
    pub fn render(&mut self, c: &mut GrepCollector, line_number: u64, text: &[u8], is_match: bool) -> (keep: bool)
        ensures
            final(c)@ == rendered(old(c)@, *old(self), line_number, utf8_lossy(text@), is_match),
            *final(self) == after_line(*old(self), line_number),
            keep == !at_capacity_spec(final(c)@),
    {
        let gap = match self.last_line {
            Some(prev) => self.use_separators && line_number > prev && line_number - prev > 1,
            None => false,
        };
        if gap {
            c.push(string_of("--"));
        }
        self.last_line = Some(line_number);
        let raw = decode_lossy(text);
        let shown = shown_line_of(raw.as_str());
        let mut line = crate::text::copy_string(&self.display_path);
        push_str(&mut line, if is_match { ":" } else { "-" });
        push_decimal(&mut line, line_number);
        push_str(&mut line, ":");
        push_str(&mut line, shown.as_str());
        c.push(line);
        !c.at_capacity()
    }

    fn render_all(
        &mut self,
        c: &mut GrepCollector,
        start_line: u64,
        lines: &Vec<Vec<u8>>,
        is_match: bool,
        skip_empty: bool,
    ) -> (keep: bool)
        requires
            lines@.len() == 0 || start_line + lines@.len() - 1 <= u64::MAX,
        ensures
            (final(c)@, *final(self), keep) == render_run(
                old(c)@,
                *old(self),
                start_line as int,
                byte_views(lines@),
                is_match,
                skip_empty,
            ),
    {
        let mut keep = true;
        let mut i: usize = 0;
        while i < lines.len()
            invariant
                i <= lines.len(),
                lines@.len() == 0 || start_line + lines@.len() - 1 <= u64::MAX,
                (c@, *self, keep) == render_run(
                    old(c)@,
                    *old(self),
                    start_line as int,
                    byte_views(lines@).take(i as int),
                    is_match,
                    skip_empty,
                ),
            decreases lines.len() - i,
        {
            proof {
                let t = byte_views(lines@).take(i + 1);
                assert(t.drop_last() =~= byte_views(lines@).take(i as int));
                assert(t.last() == lines@[i as int]@);
            }
            if !(skip_empty && lines[i].len() == 0) {
                keep = self.render(c, start_line + i as u64, lines[i].as_slice(), is_match);
            }
            i += 1;
        }
        assert(byte_views(lines@).take(lines.len() as int) =~= byte_views(lines@));
        keep
    }

    /// A match spanning `lines` from `start_line`: counted first; past the
    /// match limit the search is marked cut and stops, otherwise each line
    /// is written.
    pub fn matched(&mut self, c: &mut GrepCollector, start_line: u64, lines: &Vec<Vec<u8>>) -> (keep: bool)
        requires
            lines@.len() == 0 || start_line + lines@.len() - 1 <= u64::MAX,
        ensures
            ({
                let v1 = match_counted(old(c)@);
                if v1.match_count > v1.match_limit {
                    &&& final(c)@ == (GrepView { truncated: true, ..v1 })
                    &&& *final(self) == *old(self)
                    &&& !keep
                } else {
                    (final(c)@, *final(self), keep) == render_run(
                        v1,
                        *old(self),
                        start_line as int,
                        byte_views(lines@),
                        true,
                        false,
                    )
                }
            }),
    {
        c.match_count = c.match_count.wrapping_add(1);
        if c.match_count > c.match_limit {
            c.truncated = true;
            return false;
        }
        self.render_all(c, start_line, lines, true, false)
    }

    /// Context lines (`bytes`, possibly several lines) from `start_line`;
    /// only context before or after a match is written, blank pieces are
    /// passed over.
    pub fn context(&mut self, c: &mut GrepCollector, start_line: u64, bytes: &[u8], before_or_after: bool) -> (keep: bool)
        requires
            start_line + split_nl(bytes@).len() - 1 <= u64::MAX,
        ensures
            if before_or_after {
                (final(c)@, *final(self), keep) == render_run(
                    old(c)@,
                    *old(self),
                    start_line as int,
                    split_nl(bytes@),
                    false,
                    true,
                )
            } else {
                &&& final(c)@ == old(c)@
                &&& *final(self) == *old(self)
                &&& keep
            },
    {
        if !before_or_after {
            return true;
        }
        let pieces = split_lines(bytes);
        self.render_all(c, start_line, &pieces, false, true)
    }
}

// ---------------------------------------------------------------------------
// File lookup results
// ---------------------------------------------------------------------------

pub struct FindView {
    pub results: Seq<Seq<char>>,
    pub result_count: nat,
    pub total_bytes: nat,
    pub truncated: bool,
    pub limit: nat,
}

/// Gathers the files a lookup finds.
pub struct FindCollector {
    results: Vec<String>,
    result_count: usize,
    total_bytes: usize,
    truncated: bool,
    limit: usize,
}

impl View for FindCollector {
    type V = FindView;

    closed spec fn view(&self) -> FindView {
        FindView {
            results: views(self.results@),
            result_count: self.result_count as nat,
            total_bytes: self.total_bytes as nat,
            truncated: self.truncated,
            limit: self.limit as nat,
        }
    }
}

/// The paths found, in ascending order.
pub open spec fn sorted_paths(ps: Seq<Seq<char>>) -> Seq<Seq<char>> {
    arranged(names_as_entries(ps)).map_values(|e: (Seq<char>, u64)| e.0)
}

/// The report of a lookup for `pattern`: the paths found in ascending
/// order, one per row, with a note when collection was cut; or a notice
/// when nothing was found.
pub open spec fn find_report_text(v: FindView, pattern: Seq<char>) -> Seq<char> {
    let out = join(sorted_paths(v.results), "\n"@);
    if out.len() == 0 {
        "No files found matching '"@ + pattern + "'"@
    } else if v.truncated {
        out + "\n\n[Output truncated — narrow the pattern or pass a smaller 'limit']"@
    } else {
        out
    }
}

impl FindCollector {
    pub fn new(limit: usize) -> (c: FindCollector)
        ensures
            c@ == (FindView {
                results: Seq::empty(),
                result_count: 0,
                total_bytes: 0,
                truncated: false,
                limit: limit as nat,
            }),
    {
        let c = FindCollector { results: Vec::new(), result_count: 0, total_bytes: 0, truncated: false, limit };
        assert(views(c.results@) =~= Seq::<Seq<char>>::empty());
        c
    }

    pub fn at_capacity(&self) -> (b: bool)
        ensures
            b == (self@.result_count >= self@.limit || self@.total_bytes >= MAX_OUTPUT_BYTES),
    {
        self.result_count >= self.limit || self.total_bytes >= MAX_OUTPUT_BYTES
    }

    pub fn mark_truncated(&mut self)
        ensures
            final(self)@ == (FindView { truncated: true, ..old(self)@ }),
    {
        self.truncated = true;
    }

    /// A file met on the walk, at `path`, shown as `rel`: kept when the
    /// filter matches its path and the limit leaves room.
    pub fn offer(&mut self, filter: &GlobFilter, path: &str, rel: String)
        ensures
            if glob_matches(filter.source(), path@) && old(self)@.results.len() < old(self)@.limit {
                final(self)@ == (FindView {
                    results: old(self)@.results.push(rel@),
                    result_count: wrapped_sum(old(self)@.result_count, 1),
                    total_bytes: wrapped_sum(wrapped_sum(old(self)@.total_bytes, line_bytes(rel@)), 1),
                    ..old(self)@
                })
            } else {
                final(self)@ == old(self)@
            },
    {
        if filter.is_match(path) && self.results.len() < self.limit {
            self.result_count = self.result_count.wrapping_add(1);
            let bytes = string_byte_len(&rel);
            self.total_bytes = self.total_bytes.wrapping_add(bytes).wrapping_add(1);
            let ghost before = views(self.results@);
            self.results.push(rel);
            assert(views(self.results@) =~= before.push(rel@));
        }
    }

    /// The lookup's report for `pattern`.
    pub fn report(&self, pattern: &str) -> (r: String)
        ensures
            r@ == find_report_text(self@, pattern@),
    {
        let mut pairs: Vec<(String, u64)> = Vec::new();
        let mut i: usize = 0;
        while i < self.results.len()
            invariant
                i <= self.results.len(),
                entry_views(pairs@) == names_as_entries(views(self.results@).take(i as int)),
            decreases self.results.len() - i,
        {
            let ghost before = entry_views(pairs@);
            pairs.push((crate::text::copy_string(&self.results[i]), 0));
            assert(entry_views(pairs@) =~= before.push((self.results@[i as int]@, 0u64)));
            assert(names_as_entries(views(self.results@).take(i + 1)) =~= names_as_entries(
                views(self.results@).take(i as int),
            ).push((self.results@[i as int]@, 0u64)));
            i += 1;
        }
        assert(views(self.results@).take(self.results.len() as int) =~= views(self.results@));
        let ghost pv = entry_views(pairs@);
        let sorted = sort_entries(pairs);
        proof {
            lemma_is_arranged(entry_views(sorted@), pv);
        }
        let mut names: Vec<String> = Vec::new();
        let mut j: usize = 0;
        while j < sorted.len()
            invariant
                j <= sorted.len(),
                views(names@) == entry_views(sorted@).take(j as int).map_values(|e: (Seq<char>, u64)| e.0),
            decreases sorted.len() - j,
        {
            let ghost before = views(names@);
            names.push(crate::text::copy_string(&sorted[j].0));
            assert(views(names@) =~= before.push(sorted@[j as int].0@));
            assert(entry_views(sorted@)[j as int] == (sorted@[j as int].0@, sorted@[j as int].1));
            assert(entry_views(sorted@).take(j + 1) =~= entry_views(sorted@).take(j as int).push(
                entry_views(sorted@)[j as int],
            ));
            assert(views(names@) =~= entry_views(sorted@).take(j + 1).map_values(|e: (Seq<char>, u64)| e.0));
            j += 1;
        }
        assert(entry_views(sorted@).take(sorted.len() as int) =~= entry_views(sorted@));
        let mut out = join_strings(&names, "\n");
        if chars_of(out.as_str()).len() == 0 {
            let mut e = string_of("No files found matching '");
            push_str(&mut e, pattern);
            push_str(&mut e, "'");
            return e;
        }
        if self.truncated {
            push_str(&mut out, "\n\n[Output truncated — narrow the pattern or pass a smaller 'limit']");
        }
        out
    }
}

} // verus!
