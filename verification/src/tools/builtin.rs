//! The built-in tools' own logic: where their paths resolve, which lines a
//! read returns, and how a shell command's outcome is reported. Running
//! processes and touching files is the host's part.
use vstd::prelude::*;
use crate::text::{
    push_decimal_wide, decimal, lines, lines_upto, push_char, push_decimal, push_str, strip_back, strip_back_exec,
    chars_of, string_of, string_of_chars, views, CharClass,
};
use crate::tools::middleware::resource::join_onto;
use crate::tools::middleware::security::joined_target;
use crate::types::message::opt_view;
use crate::types::tool::byte_len;
use crate::stream::sse::{decode_lossy, utf8_lossy};
use crate::tools::schema::{flat_schema, is_flat_schema, ToolDefinition};

verus! {

/// A path argument resolved against an optional default working directory:
/// relative paths join onto it; absolute paths, or any path without one,
/// stay as given.
pub open spec fn resolved_path(default_cwd: Option<Seq<char>>, p: Seq<char>) -> Seq<char> {
    match default_cwd {
        Some(cwd) => if p.len() > 0 && p[0] == '/' {
            p
        } else {
            joined_target(cwd, p)
        },
        None => p,
    }
}

fn resolve(default_cwd: &Option<String>, p: &str) -> (r: String)
    ensures
        r@ == resolved_path(opt_view(*default_cwd), p@),
{
    match default_cwd {
        Some(cwd) => join_onto(cwd.as_str(), p),
        None => string_of(p),
    }
}

/// Runs shell commands; keeps at most `max_buffer_bytes` of each stream.
#[derive(Debug)]
pub struct BashTool {
    max_buffer_bytes: usize,
}

/// `Option<i32>` as `{:?}` prints it.
pub open spec fn code_text(code: Option<i32>) -> Seq<char> {
    match code {
        Some(c) => "Some("@ + (if c < 0 {
            seq!['-'] + decimal((-c) as nat)
        } else {
            decimal(c as nat)
        }) + ")"@,
        None => "None"@,
    }
}

/// Standard output, then standard error on a line of its own.
pub open spec fn combined_output(stdout: Seq<char>, stderr: Seq<char>) -> Seq<char> {
    if stderr.len() == 0 {
        stdout
    } else if stdout.len() == 0 {
        stderr
    } else {
        stdout + "\n"@ + stderr
    }
}

/// What a shell command reports: its combined output (or a note that there
/// was none), as an error naming the exit code when it failed.
pub open spec fn shell_report(stdout: Seq<char>, stderr: Seq<char>, success: bool, code: Option<i32>) -> Result<Seq<char>, Seq<char>> {
    let c = combined_output(stdout, stderr);
    let body = if c.len() > 0 {
        c
    } else if success {
        "(Command executed successfully with no output)"@
    } else {
        "(Command exited with status "@ + code_text(code) + " and no output)"@
    };
    if success {
        Ok(body)
    } else {
        Err("Process exit error ("@ + code_text(code) + "):\n"@ + body)
    }
}

fn push_code(s: &mut String, code: Option<i32>)
    ensures
        final(s)@ == old(s)@ + code_text(code),
{
    match code {
        Some(c) => {
            push_str(s, "Some(");
            if c < 0 {
                push_char(s, '-');
                let m: u64 = (-(c as i64)) as u64;
                push_decimal(s, m);
            } else {
                push_decimal(s, c as u64);
            }
            push_str(s, ")");
        },
        None => push_str(s, "None"),
    }
}

impl BashTool {
    pub closed spec fn buffer_limit(&self) -> usize {
        self.max_buffer_bytes
    }

    pub fn new(max_buffer_bytes: usize) -> (t: BashTool)
        ensures
            t.buffer_limit() == max_buffer_bytes,
    {
        BashTool { max_buffer_bytes }
    }

    pub fn max_buffer_bytes(&self) -> (n: usize)
        ensures
            n == self.buffer_limit(),
    {
        self.max_buffer_bytes
    }

    /// The tool's answer for a finished command, from its decoded output
    /// streams, whether it succeeded, and its exit code.
    pub fn report(&self, stdout: String, stderr: String, success: bool, code: Option<i32>) -> (r: Result<String, String>)
        ensures
            match (r, shell_report(stdout@, stderr@, success, code)) {
                (Ok(a), Ok(b)) => a@ == b,
                (Err(a), Err(b)) => a@ == b,
                _ => false,
            },
    {
        let mut combined = stdout;
        if !stderr.as_str().is_empty() {
            if !combined.as_str().is_empty() {
                push_str(&mut combined, "\n");
            }
            push_str(&mut combined, stderr.as_str());
        }
        assert(combined@ =~= combined_output(stdout@, stderr@));
        if combined.as_str().is_empty() {
            combined = if success {
                string_of("(Command executed successfully with no output)")
            } else {
                let mut t = string_of("(Command exited with status ");
                push_code(&mut t, code);
                push_str(&mut t, " and no output)");
                t
            };
        }
        if success {
            Ok(combined)
        } else {
            let mut e = string_of("Process exit error (");
            push_code(&mut e, code);
            push_str(&mut e, "):\n");
            push_str(&mut e, combined.as_str());
            Err(e)
        }
    }

    pub fn definition(&self) -> (d: ToolDefinition)
        ensures
            d.tool_type@ == "function"@,
            d.function.strict is None,
            d.function.name@ == "bash"@,
            d.function.description@ == "Execute a bash shell command and capture standard output and standard error."@,
            is_flat_schema(
                d.function.parameters,
                seq![
                    ("command"@, "string"@, "The shell command to execute."@),
                ],
                seq!["command"@],
            ),
    {
        let params = flat_schema(
            vec![
                ("command", "string", "The shell command to execute."),
            ],
            vec!["command"],
        );
        ToolDefinition::new_function(
            "bash",
            "Execute a bash shell command and capture standard output and standard error.",
            params,
        )
    }
}

impl BashTool {
    /// Takes in a chunk read from a pipe: kept while less than the buffer
    /// limit has been gathered, dropped after.
    pub fn absorb(&self, buf: &mut Vec<u8>, chunk: &[u8])
        ensures
            final(buf)@ == if old(buf)@.len() < self.buffer_limit() {
                old(buf)@ + chunk@
            } else {
                old(buf)@
            },
    {
        if buf.len() < self.max_buffer_bytes {
            let ghost start = buf@;
            let mut i: usize = 0;
            while i < chunk.len()
                invariant
                    i <= chunk.len(),
                    buf@ == start + chunk@.take(i as int),
                decreases chunk.len() - i,
            {
                buf.push(chunk[i]);
                assert(chunk@.take(i + 1) =~= chunk@.take(i as int).push(chunk@[i as int]));
                i += 1;
            }
            assert(chunk@.take(chunk.len() as int) =~= chunk@);
        }
    }

    /// The answer for a finished command from the raw bytes of its output
    /// streams (decoded as `String::from_utf8_lossy` does).
    pub fn finish(&self, stdout: &[u8], stderr: &[u8], success: bool, code: Option<i32>) -> (r: Result<String, String>)
        ensures
            match (r, shell_report(utf8_lossy(stdout@), utf8_lossy(stderr@), success, code)) {
                (Ok(a), Ok(b)) => a@ == b,
                (Err(a), Err(b)) => a@ == b,
                _ => false,
            },
    {
        let out = decode_lossy(stdout);
        let err = decode_lossy(stderr);
        self.report(out, err, success, code)
    }
}

impl Default for BashTool {
    fn default() -> (t: BashTool)
        ensures
            t.buffer_limit() == 1048576,
    {
        BashTool::new(1048576)
    }
}

/// The lines of a read: lines `offset..` (1-based), at most `limit` of
/// them, each followed by a line break, trailing breaks removed.
pub open spec fn line_window(content: Seq<char>, offset: usize, limit: Option<usize>) -> Seq<char> {
    let ls = lines(content);
    let start: int = if offset >= 1 { offset - 1 } else { 0 };
    let from: int = if start <= ls.len() { start } else { ls.len() as int };
    let rest = ls.subrange(from, ls.len() as int);
    let n: int = match limit {
        Some(l) => if l <= rest.len() { l as int } else { rest.len() as int },
        None => rest.len() as int,
    };
    strip_back(terminated(rest.take(n)), CharClass::Newline)
}

/// Each line followed by `\n`.
pub open spec fn terminated(ls: Seq<Seq<char>>) -> Seq<char>
    decreases ls.len(),
{
    if ls.len() == 0 {
        Seq::empty()
    } else {
        terminated(ls.drop_last()) + ls.last() + "\n"@
    }
}

/// What a read returns: the whole content when it starts at the first line
/// and sets no limit, else the window of lines.
pub open spec fn read_result(content: Seq<char>, offset: usize, limit: Option<usize>) -> Seq<char> {
    if offset <= 1 && limit is None {
        content
    } else {
        line_window(content, offset, limit)
    }
}

/// Reads files, whole or by line window.
#[derive(Debug)]
pub struct ReadFileTool {
    default_cwd: Option<String>,
}

impl ReadFileTool {
    pub closed spec fn cwd(&self) -> Option<Seq<char>> {
        opt_view(self.default_cwd)
    }

    pub fn new() -> (t: ReadFileTool)
        ensures
            t.cwd() is None,
    {
        ReadFileTool { default_cwd: None }
    }

    pub fn with_default_cwd(self, cwd: String) -> (t: ReadFileTool)
        ensures
            t.cwd() == Some(cwd@),
    {
        ReadFileTool { default_cwd: Some(cwd) }
    }

    /// The file a `path` argument names.
    pub fn target_path(&self, path: &str) -> (r: String)
        ensures
            r@ == resolved_path(self.cwd(), path@),
    {
        resolve(&self.default_cwd, path)
    }

    /// The text returned for a file's `content` read from line `offset`
    /// (1-based), at most `limit` lines.
    pub fn select_lines(&self, content: &str, offset: usize, limit: Option<usize>) -> (r: String)
        ensures
            r@ == read_result(content@, offset, limit),
    {
        if offset <= 1 && limit.is_none() {
            return string_of(content);
        }
        let start: usize = if offset >= 1 { offset - 1 } else { 0 };
        let ls = lines_upto(content, usize::MAX);
        let ghost all = lines(content@);
        let cl = chars_of(content);
        let cln = cl.len();
        proof {
            lemma_lines_len(content@);
            assert(content@.len() == cl@.len());
            assert(cln == cl@.len());
            assert(all.len() <= usize::MAX);
            assert(all.take(all.len() as int) =~= all);
            assert(views(ls@) == all);
        }
        let mut out = String::new();
        let mut i: usize = if start <= ls.len() { start } else { ls.len() };
        let ghost from = i as int;
        let mut taken: usize = 0;
        let unlimited = limit.is_none();
        let cap: usize = match limit {
            Some(l) => l,
            None => 0,
        };
        assert(views(ls@).len() == ls.len());
        while i < ls.len() && (unlimited || taken < cap)
            invariant
                views(ls@) == all,
                views(ls@).len() == ls.len(),
                unlimited == limit.is_none(),
                limit matches Some(l) ==> cap == l,
                limit matches Some(l) ==> taken <= l,
                0 <= from <= i <= ls.len(),
                taken == i - from,
                out@ == terminated(views(ls@).subrange(from, i as int)),
            decreases ls.len() - i,
        {
            push_str(&mut out, ls[i].as_str());
            push_str(&mut out, "\n");
            proof {
                let w = views(ls@).subrange(from, i + 1);
                assert(w.drop_last() =~= views(ls@).subrange(from, i as int));
                assert(views(ls@)[i as int] == ls@[i as int]@);
                assert(w.last() == ls@[i as int]@);
            }
            i += 1;
            taken += 1;
        }
        let oc = chars_of(out.as_str());
        let trimmed = strip_back_exec(&oc, CharClass::Newline);
        proof {
            let rest = all.subrange(from, all.len() as int);
            assert(views(ls@).subrange(from, i as int) =~= rest.take(i - from));
        }
        string_of_chars(&trimmed)
    }

    pub fn definition(&self) -> (d: ToolDefinition)
        ensures
            d.tool_type@ == "function"@,
            d.function.strict is None,
            d.function.name@ == "read_file"@,
            d.function.description@ == "Read file contents with optional line offset and limit."@,
            is_flat_schema(
                d.function.parameters,
                seq![
                    ("path"@, "string"@, "Path to the file to read."@),
                    ("offset"@, "integer"@, "Line number to start reading from (1-indexed)."@),
                    ("limit"@, "integer"@, "Maximum number of lines to read."@),
                ],
                seq!["path"@],
            ),
    {
        let params = flat_schema(
            vec![
                ("path", "string", "Path to the file to read."),
                ("offset", "integer", "Line number to start reading from (1-indexed)."),
                ("limit", "integer", "Maximum number of lines to read."),
            ],
            vec!["path"],
        );
        ToolDefinition::new_function(
            "read_file",
            "Read file contents with optional line offset and limit.",
            params,
        )
    }
}

/// A text has no more lines than characters.
proof fn lemma_lines_len(s: Seq<char>)
    ensures
        lines(s).len() <= s.len(),
    decreases s.len(),
{
    if s.len() > 0 {
        let k = crate::text::line_end(s, 0);
        if 0 <= k < s.len() {
            lemma_lines_len(s.subrange(k + 1, s.len() as int));
        }
    }
}

/// Writes files.
#[derive(Debug)]
pub struct WriteFileTool {
    default_cwd: Option<String>,
}

impl WriteFileTool {
    pub closed spec fn cwd(&self) -> Option<Seq<char>> {
        opt_view(self.default_cwd)
    }

    pub fn new() -> (t: WriteFileTool)
        ensures
            t.cwd() is None,
    {
        WriteFileTool { default_cwd: None }
    }

    pub fn with_default_cwd(self, cwd: String) -> (t: WriteFileTool)
        ensures
            t.cwd() == Some(cwd@),
    {
        WriteFileTool { default_cwd: Some(cwd) }
    }

    /// The file a `path` argument names.
    pub fn target_path(&self, path: &str) -> (r: String)
        ensures
            r@ == resolved_path(self.cwd(), path@),
    {
        resolve(&self.default_cwd, path)
    }

    /// Name of the staging file a write goes through before it is renamed
    /// over the target: `.<file>_<pid>_<nanos>.tmp` (`file` when the target
    /// has no usable file name).
    pub fn staging_name(file_name: Option<&str>, pid: u32, nanos: u128) -> (r: String)
        ensures
            r@ == "."@ + (match file_name {
                Some(f) => f@,
                None => "file"@,
            }) + "_"@ + decimal(pid as nat) + "_"@ + decimal(nanos as nat) + ".tmp"@,
    {
        let mut r = string_of(".");
        match file_name {
            Some(f) => push_str(&mut r, f),
            None => push_str(&mut r, "file"),
        }
        push_str(&mut r, "_");
        push_decimal(&mut r, pid as u64);
        push_str(&mut r, "_");
        push_decimal_wide(&mut r, nanos);
        push_str(&mut r, ".tmp");
        r
    }

    /// The answer for a completed write of `content` to `path`.
    pub fn written_message(content: &str, path: &str) -> (r: String)
        ensures
            r@ == "Successfully wrote "@ + decimal(byte_len(content@) as usize as nat) + " bytes to "@ + path@,
    {
        let n = content.len();
        let mut r = string_of("Successfully wrote ");
        push_decimal(&mut r, n as u64);
        push_str(&mut r, " bytes to ");
        push_str(&mut r, path);
        r
    }

    pub fn definition(&self) -> (d: ToolDefinition)
        ensures
            d.tool_type@ == "function"@,
            d.function.strict is None,
            d.function.name@ == "write_file"@,
            d.function.description@ == "Write content to a file on disk."@,
            is_flat_schema(
                d.function.parameters,
                seq![
                    ("path"@, "string"@, "File path."@),
                    ("content"@, "string"@, "File content string."@),
                ],
                seq!["path"@, "content"@],
            ),
    {
        let params = flat_schema(
            vec![
                ("path", "string", "File path."),
                ("content", "string", "File content string."),
            ],
            vec!["path", "content"],
        );
        ToolDefinition::new_function(
            "write_file",
            "Write content to a file on disk.",
            params,
        )
    }
}

/// A search root: `raw` joined onto the default working directory when
/// there is one (`Path::join`), else `raw` itself.
pub open spec fn search_root(default_cwd: Option<Seq<char>>, raw: Seq<char>) -> Seq<char> {
    match default_cwd {
        Some(cwd) => joined_target(cwd, raw),
        None => raw,
    }
}

fn root_of(default_cwd: &Option<String>, raw: &str) -> (r: String)
    ensures
        r@ == search_root(opt_view(*default_cwd), raw@),
{
    match default_cwd {
        Some(cwd) => join_onto(cwd.as_str(), raw),
        None => string_of(raw),
    }
}

/// Finds files by glob.
#[derive(Debug)]
pub struct FindTool {
    default_cwd: Option<String>,
}

impl FindTool {
    pub closed spec fn cwd(&self) -> Option<Seq<char>> {
        opt_view(self.default_cwd)
    }

    pub fn new() -> (t: FindTool)
        ensures
            t.cwd() is None,
    {
        FindTool { default_cwd: None }
    }

    pub fn with_default_cwd(self, cwd: String) -> (t: FindTool)
        ensures
            t.cwd() == Some(cwd@),
    {
        FindTool { default_cwd: Some(cwd) }
    }

    /// Where a search given `raw` starts.
    pub fn root_path(&self, raw: &str) -> (r: String)
        ensures
            r@ == search_root(self.cwd(), raw@),
    {
        root_of(&self.default_cwd, raw)
    }

    pub fn definition(&self) -> (d: ToolDefinition)
        ensures
            d.tool_type@ == "function"@,
            d.function.strict is None,
            d.function.name@ == "find"@,
            d.function.description@ == "Search for files by glob pattern. Returns matching file paths relative to the search directory. Respects .gitignore. Output is truncated to 1000 results or 50KB (whichever is hit first)."@,
            is_flat_schema(
                d.function.parameters,
                seq![
                    ("pattern"@, "string"@, "Glob pattern to match files, e.g. '*.ts', '**/*.json', or 'src/**/*.spec.ts'"@),
                    ("path"@, "string"@, "Directory to search in (default: current directory)"@),
                    ("limit"@, "integer"@, "Maximum number of results (default: 1000)"@),
                ],
                seq!["pattern"@],
            ),
    {
        let params = flat_schema(
            vec![
                ("pattern", "string", "Glob pattern to match files, e.g. '*.ts', '**/*.json', or 'src/**/*.spec.ts'"),
                ("path", "string", "Directory to search in (default: current directory)"),
                ("limit", "integer", "Maximum number of results (default: 1000)"),
            ],
            vec!["pattern"],
        );
        ToolDefinition::new_function(
            "find",
            "Search for files by glob pattern. Returns matching file paths relative to the search directory. Respects .gitignore. Output is truncated to 1000 results or 50KB (whichever is hit first).",
            params,
        )
    }
}

/// Lists one directory level.
#[derive(Debug)]
pub struct ListDirTool {
    default_cwd: Option<String>,
}

impl ListDirTool {
    pub closed spec fn cwd(&self) -> Option<Seq<char>> {
        opt_view(self.default_cwd)
    }

    pub fn new() -> (t: ListDirTool)
        ensures
            t.cwd() is None,
    {
        ListDirTool { default_cwd: None }
    }

    pub fn with_default_cwd(self, cwd: String) -> (t: ListDirTool)
        ensures
            t.cwd() == Some(cwd@),
    {
        ListDirTool { default_cwd: Some(cwd) }
    }

    /// The directory a listing given `raw` shows.
    pub fn root_path(&self, raw: &str) -> (r: String)
        ensures
            r@ == search_root(self.cwd(), raw@),
    {
        root_of(&self.default_cwd, raw)
    }

    pub fn definition(&self) -> (d: ToolDefinition)
        ensures
            d.tool_type@ == "function"@,
            d.function.strict is None,
            d.function.name@ == "ls"@,
            d.function.description@ == "List directory entries (single level). Directories are shown with a trailing '/'. Sorted: directories first, then files, alphabetically. Hidden files included."@,
            is_flat_schema(
                d.function.parameters,
                seq![
                    ("path"@, "string"@, "Directory to list (default: current directory)"@),
                ],
                Seq::empty(),
            ),
    {
        let params = flat_schema(
            vec![
                ("path", "string", "Directory to list (default: current directory)"),
            ],
            Vec::new(),
        );
        ToolDefinition::new_function(
            "ls",
            "List directory entries (single level). Directories are shown with a trailing '/'. Sorted: directories first, then files, alphabetically. Hidden files included.",
            params,
        )
    }
}

/// Searches file contents.
#[derive(Debug)]
pub struct GrepTool {
    default_cwd: Option<String>,
}

impl GrepTool {
    pub closed spec fn cwd(&self) -> Option<Seq<char>> {
        opt_view(self.default_cwd)
    }

    pub fn new() -> (t: GrepTool)
        ensures
            t.cwd() is None,
    {
        GrepTool { default_cwd: None }
    }

    pub fn with_default_cwd(self, cwd: String) -> (t: GrepTool)
        ensures
            t.cwd() == Some(cwd@),
    {
        GrepTool { default_cwd: Some(cwd) }
    }

    /// Where a search given `raw` starts.
    pub fn root_path(&self, raw: &str) -> (r: String)
        ensures
            r@ == search_root(self.cwd(), raw@),
    {
        root_of(&self.default_cwd, raw)
    }

    pub fn definition(&self) -> (d: ToolDefinition)
        ensures
            d.tool_type@ == "function"@,
            d.function.strict is None,
            d.function.name@ == "grep"@,
            d.function.description@ == "Search file contents for a pattern. Returns matching lines with file paths and line numbers. Respects .gitignore. Output is truncated to 100 matches or 50KB (whichever is hit first). Long lines are truncated to 500 chars."@,
            is_flat_schema(
                d.function.parameters,
                seq![
                    ("pattern"@, "string"@, "Search pattern (regex or literal string)"@),
                    ("path"@, "string"@, "Directory or file to search (default: current directory)"@),
                    ("glob"@, "string"@, "Filter files by glob pattern, e.g. '*.ts' or '**/*.spec.ts'"@),
                    ("ignoreCase"@, "boolean"@, "Case-insensitive search (default: false)"@),
                    ("literal"@, "boolean"@, "Treat pattern as literal string instead of regex (default: false)"@),
                    ("context"@, "integer"@, "Number of lines to show before and after each match (default: 0)"@),
                    ("limit"@, "integer"@, "Maximum number of matches to return (default: 100)"@),
                ],
                seq!["pattern"@],
            ),
    {
        let params = flat_schema(
            vec![
                ("pattern", "string", "Search pattern (regex or literal string)"),
                ("path", "string", "Directory or file to search (default: current directory)"),
                ("glob", "string", "Filter files by glob pattern, e.g. '*.ts' or '**/*.spec.ts'"),
                ("ignoreCase", "boolean", "Case-insensitive search (default: false)"),
                ("literal", "boolean", "Treat pattern as literal string instead of regex (default: false)"),
                ("context", "integer", "Number of lines to show before and after each match (default: 0)"),
                ("limit", "integer", "Maximum number of matches to return (default: 100)"),
            ],
            vec!["pattern"],
        );
        ToolDefinition::new_function(
            "grep",
            "Search file contents for a pattern. Returns matching lines with file paths and line numbers. Respects .gitignore. Output is truncated to 100 matches or 50KB (whichever is hit first). Long lines are truncated to 500 chars.",
            params,
        )
    }
}

} // verus!
