//! Sanitizer for tool output: strips ANSI escape sequences and keeps binary
//! payloads out of the model's context.
use crate::text::{chars_of, is_ascii_alpha, push_char, push_decimal, push_str, string_of, decimal};
use vstd::prelude::*;

verus! {

pub open spec fn esc() -> char {
    '\u{1b}'
}

/// Index just past a CSI sequence's final letter, scanning from `j`.
pub open spec fn skip_csi(s: Seq<char>, j: int) -> int
    decreases s.len() - j,
{
    if j >= s.len() {
        s.len() as int
    } else if is_ascii_alpha(s[j]) {
        j + 1
    } else {
        skip_csi(s, j + 1)
    }
}

/// Index just past an OSC sequence's terminator (BEL, or ESC optionally
/// followed by `\`), scanning from `j`.
pub open spec fn skip_osc(s: Seq<char>, j: int) -> int
    decreases s.len() - j,
{
    if j >= s.len() {
        s.len() as int
    } else if s[j] == '\u{7}' {
        j + 1
    } else if s[j] == esc() {
        if j + 1 < s.len() && s[j + 1] == '\\' {
            j + 2
        } else {
            j + 1
        }
    } else {
        skip_osc(s, j + 1)
    }
}

pub proof fn lemma_skip_csi(s: Seq<char>, j: int)
    requires
        j <= s.len(),
    ensures
        j <= skip_csi(s, j) <= s.len(),
    decreases s.len() - j,
{
    if j < s.len() && !is_ascii_alpha(s[j]) {
        lemma_skip_csi(s, j + 1);
    }
}

pub proof fn lemma_skip_osc(s: Seq<char>, j: int)
    requires
        j <= s.len(),
    ensures
        j <= skip_osc(s, j) <= s.len(),
    decreases s.len() - j,
{
    if j < s.len() && s[j] != '\u{7}' && s[j] != esc() {
        lemma_skip_osc(s, j + 1);
    }
}

/// Where scanning resumes after the escape starting at `i`, when `s[i]` is
/// ESC and a recognized introducer (`[`, `]`, `(`, `)`) follows.
pub open spec fn after_escape(s: Seq<char>, i: int) -> int {
    if s[i + 1] == '[' {
        skip_csi(s, i + 2)
    } else if s[i + 1] == ']' {
        skip_osc(s, i + 2)
    } else if i + 3 <= s.len() {
        i + 3
    } else {
        s.len() as int
    }
}

pub open spec fn starts_escape(s: Seq<char>, i: int) -> bool {
    0 <= i && i + 1 < s.len() && s[i] == esc() && (s[i + 1] == '[' || s[i + 1] == ']' || s[i + 1]
        == '(' || s[i + 1] == ')')
}

/// `s[i..]` with CSI (`ESC [ ... letter`), OSC (`ESC ] ... BEL|ESC[\]`) and
/// charset (`ESC ( x`, `ESC ) x`) sequences removed.
pub open spec fn strip_from(s: Seq<char>, i: int) -> Seq<char>
    decreases s.len() - i,
{
    if i < 0 || i >= s.len() {
        Seq::empty()
    } else if starts_escape(s, i) {
        let k = after_escape(s, i);
        proof {
            lemma_skip_csi(s, i + 2);
            lemma_skip_osc(s, i + 2);
        }
        strip_from(s, k)
    } else {
        seq![s[i]] + strip_from(s, i + 1)
    }
}

pub open spec fn strip_spec(s: Seq<char>) -> Seq<char> {
    strip_from(s, 0)
}

proof fn lemma_strip_from(s: Seq<char>, i: int)
    requires
        0 <= i <= s.len(),
    ensures
        strip_from(s, i).len() <= s.len() - i,
        (forall|j: int| i <= j < s.len() ==> s[j] != esc()) ==> strip_from(s, i) == s.subrange(i, s.len() as int),
    decreases s.len() - i,
{
    if i < s.len() {
        if starts_escape(s, i) {
            lemma_skip_csi(s, i + 2);
            lemma_skip_osc(s, i + 2);
            lemma_strip_from(s, after_escape(s, i));
        } else {
            lemma_strip_from(s, i + 1);
            assert(s.subrange(i, s.len() as int) =~= seq![s[i]] + s.subrange(i + 1, s.len() as int));
        }
    } else {
        assert(s.subrange(i, s.len() as int) =~= Seq::<char>::empty());
    }
}

/// Stripping never lengthens a text, and leaves a text without escape
/// characters exactly as it was.
pub proof fn lemma_strip_never_adds(s: Seq<char>)
    ensures
        strip_spec(s).len() <= s.len(),
        (forall|j: int| 0 <= j < s.len() ==> s[j] != esc()) ==> strip_spec(s) == s,
{
    lemma_strip_from(s, 0);
    assert(s.subrange(0, s.len() as int) =~= s);
}

/// Removes ANSI escape sequences (colors, cursor control, titles).
pub fn strip_ansi_escapes(input: &str) -> (r: String)
    ensures
        r@ == strip_spec(input@),
{
    let v = chars_of(input);
    let n = v.len();
    let mut out = String::new();
    let mut i: usize = 0;
    while i < n
        invariant
            v@ == input@,
            n == v@.len(),
            i <= n,
            out@ + strip_from(v@, i as int) == strip_spec(v@),
        decreases n - i,
    {
        let ghost s = v@;
        let ghost before = out@;
        if i + 1 < n && v[i] == '\u{1b}' && (v[i + 1] == '[' || v[i + 1] == ']' || v[i + 1] == '('
            || v[i + 1] == ')') {
            let next = v[i + 1];
            let mut j = i + 2;
            if next == '[' {
                while j < n && !(('a' <= v[j] && v[j] <= 'z') || ('A' <= v[j] && v[j] <= 'Z'))
                    invariant
                        i + 2 <= j <= n,
                        n == v@.len(),
                        skip_csi(v@, j as int) == skip_csi(v@, i + 2),
                    decreases n - j,
                {
                    j += 1;
                }
                if j < n {
                    j += 1;
                }
            } else if next == ']' {
                while j < n && v[j] != '\u{7}' && v[j] != '\u{1b}'
                    invariant
                        i + 2 <= j <= n,
                        n == v@.len(),
                        skip_osc(v@, j as int) == skip_osc(v@, i + 2),
                    decreases n - j,
                {
                    j += 1;
                }
                if j < n {
                    if v[j] == '\u{1b}' && j + 1 < n && v[j + 1] == '\\' {
                        j += 2;
                    } else {
                        j += 1;
                    }
                }
            } else {
                j = if n - i >= 3 { i + 3 } else { n };
            }
            proof {
                assert(starts_escape(s, i as int));
                assert(j == after_escape(s, i as int));
                lemma_skip_csi(s, i + 2);
                lemma_skip_osc(s, i + 2);
            }
            i = j;
        } else {
            push_char(&mut out, v[i]);
            proof {
                assert(!starts_escape(s, i as int));
                assert(strip_from(s, i as int) == seq![s[i as int]] + strip_from(s, i + 1));
                assert(out@ + strip_from(s, i + 1) =~= before + strip_from(s, i as int));
            }
            i += 1;
        }
    }
    assert(out@ + strip_from(v@, n as int) =~= out@);
    out
}

/// Share of the first 4096 bytes: binary when any byte is NUL, or when more
/// than 8% are control bytes other than `\n`, `\r`, `\t`.
pub open spec fn is_control(b: u8) -> bool {
    b != 0 && b < 32 && b != 10 && b != 13 && b != 9
}

pub open spec fn count_bytes(s: Seq<u8>, f: spec_fn(u8) -> bool) -> nat
    decreases s.len(),
{
    if s.len() == 0 {
        0
    } else {
        count_bytes(s.drop_last(), f) + if f(s.last()) {
            1nat
        } else {
            0nat
        }
    }
}

pub open spec fn binary_spec(bytes: Seq<u8>) -> bool {
    let sample = bytes.take(if bytes.len() < 4096 { bytes.len() as int } else { 4096 });
    bytes.len() > 0 && (count_bytes(sample, |b: u8| b == 0) > 0 || 25 * count_bytes(
        sample,
        |b: u8| is_control(b),
    ) > 2 * sample.len())
}

/// Does the byte slice look like binary data rather than text?
///
/// The threshold `control / sample > 0.08` is evaluated exactly as
/// `25·control > 2·sample` (over at most 4096 bytes the two agree).
pub fn is_binary_data(bytes: &[u8]) -> (b: bool)
    ensures
        b == binary_spec(bytes@),
{
    if bytes.len() == 0 {
        return false;
    }
    let n: usize = if bytes.len() < 4096 { bytes.len() } else { 4096 };
    let ghost sample = bytes@.take(n as int);
    let mut nulls: usize = 0;
    let mut controls: usize = 0;
    let mut i: usize = 0;
    while i < n
        invariant
            n <= bytes@.len(),
            n <= 4096,
            sample == bytes@.take(n as int),
            i <= n,
            nulls == count_bytes(sample.take(i as int), |b: u8| b == 0),
            controls == count_bytes(sample.take(i as int), |b: u8| is_control(b)),
            nulls <= i,
            controls <= i,
        decreases n - i,
    {
        let b = bytes[i];
        proof {
            assert(sample.take(i + 1).drop_last() =~= sample.take(i as int));
            assert(sample.take(i + 1).last() == b);
        }
        if b == 0 {
            nulls += 1;
        } else if b < 32 && b != 10 && b != 13 && b != 9 {
            controls += 1;
        }
        i += 1;
    }
    assert(sample.take(n as int) =~= sample);
    if nulls > 0 {
        return true;
    }
    25 * controls > 2 * n
}

/// Cleans ANSI sequences from tool output, or replaces binary output with a
/// one-line placeholder giving its size.
pub fn sanitize_tool_output(output: String) -> (r: String)
    ensures
        r@ == if binary_spec(vstd::utf8::encode_utf8(output@)) {
            "[Binary data omitted: "@ + decimal(vstd::utf8::encode_utf8(output@).len() as usize as nat)
                + " bytes]"@
        } else {
            strip_spec(output@)
        },
{
    let bytes = output.as_str().as_bytes();
    if is_binary_data(bytes) {
        let mut s = string_of("[Binary data omitted: ");
        push_decimal(&mut s, bytes.len() as u64);
        push_str(&mut s, " bytes]");
        return s;
    }
    strip_ansi_escapes(output.as_str())
}

} // verus!
