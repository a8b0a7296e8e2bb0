//! Character and string primitives shared by the whole library, each stated
//! over `Seq<char>` so that contracts elsewhere can speak of text exactly.
use vstd::prelude::*;
use vstd::string::StringExecFns;

verus! {

// ---------------------------------------------------------------------------
// Character classes
// ---------------------------------------------------------------------------

/// Unicode `White_Space` property (the set `char::is_whitespace` tests).
pub open spec fn is_ws(c: char) -> bool {
    let u = c as u32;
    (0x09 <= u && u <= 0x0D) || u == 0x20 || u == 0x85 || u == 0xA0 || u == 0x1680
        || (0x2000 <= u && u <= 0x200A) || u == 0x2028 || u == 0x2029 || u == 0x202F
        || u == 0x205F || u == 0x3000
}

pub fn is_whitespace_char(c: char) -> (b: bool)
    ensures
        b == is_ws(c),
{
    let u = c as u32;
    (0x09 <= u && u <= 0x0D) || u == 0x20 || u == 0x85 || u == 0xA0 || u == 0x1680
        || (0x2000 <= u && u <= 0x200A) || u == 0x2028 || u == 0x2029 || u == 0x202F
        || u == 0x205F || u == 0x3000
}

/// ASCII punctuation: `!"#$%&'()*+,-./:;<=>?@[\]^_`{|}~`.
pub open spec fn is_ascii_punct(c: char) -> bool {
    let u = c as u32;
    (0x21 <= u && u <= 0x2F) || (0x3A <= u && u <= 0x40) || (0x5B <= u && u <= 0x60) || (0x7B
        <= u && u <= 0x7E)
}

pub fn is_ascii_punct_char(c: char) -> (b: bool)
    ensures
        b == is_ascii_punct(c),
{
    let u = c as u32;
    (0x21 <= u && u <= 0x2F) || (0x3A <= u && u <= 0x40) || (0x5B <= u && u <= 0x60) || (0x7B
        <= u && u <= 0x7E)
}

pub open spec fn is_ascii_alpha(c: char) -> bool {
    ('a' <= c && c <= 'z') || ('A' <= c && c <= 'Z')
}

pub open spec fn is_ascii_digit(c: char) -> bool {
    '0' <= c && c <= '9'
}

/// ASCII lowercase mapping (`char::to_ascii_lowercase`).
pub open spec fn ascii_lower(c: char) -> char {
    if 'A' <= c && c <= 'Z' {
        ((c as u32) + 32) as char
    } else {
        c
    }
}

pub fn ascii_lower_char(c: char) -> (r: char)
    ensures
        r == ascii_lower(c),
{
    if 'A' <= c && c <= 'Z' {
        let u: u32 = (c as u32) + 32;
        assert(0x61 <= u <= 0x7A);
        char_from_ascii_code(u)
    } else {
        c
    }
}

fn char_from_ascii_code(u: u32) -> (c: char)
    requires
        u < 0x80,
    ensures
        c == u as char,
        c as u32 == u,
{
    (u as u8) as char
}

/// ASCII case-insensitive equality (`str::eq_ignore_ascii_case`).
pub open spec fn eq_ignore_ascii_case(a: Seq<char>, b: Seq<char>) -> bool {
    a.len() == b.len() && forall|i: int| 0 <= i < a.len() ==> ascii_lower(#[trigger] a[i]) == ascii_lower(b[i])
}

pub fn eq_ignore_ascii_case_exec(a: &str, b: &str) -> (r: bool)
    ensures
        r == eq_ignore_ascii_case(a@, b@),
{
    let av = chars_of(a);
    let bv = chars_of(b);
    if av.len() != bv.len() {
        return false;
    }
    let mut i: usize = 0;
    while i < av.len()
        invariant
            av@ == a@,
            bv@ == b@,
            av.len() == bv.len(),
            i <= av.len(),
            forall|j: int| 0 <= j < i ==> ascii_lower(#[trigger] a@[j]) == ascii_lower(b@[j]),
        decreases av.len() - i,
    {
        if ascii_lower_char(av[i]) != ascii_lower_char(bv[i]) {
            return false;
        }
        i += 1;
    }
    true
}

// ---------------------------------------------------------------------------
// Building strings
// ---------------------------------------------------------------------------

/// Appends one character to a `String` (`String::push`).
#[verifier::external_body]
pub(crate) fn push_char(s: &mut String, c: char)
    ensures
        final(s)@ == old(s)@.push(c),
{
    s.push(c);
}

/// Removes the last character of a `String`, if any (`String::pop`).
#[verifier::external_body]
pub(crate) fn pop_char(s: &mut String)
    ensures
        final(s)@ == (if old(s)@.len() > 0 {
            old(s)@.drop_last()
        } else {
            old(s)@
        }),
{
    s.pop();
}

/// Appends a string slice (`String::push_str`).
pub fn push_str(s: &mut String, t: &str)
    ensures
        final(s)@ == old(s)@ + t@,
{
    s.append(t);
}

/// Unicode lower-casing of a text, as `str::to_lowercase` computes it.
pub uninterp spec fn lowercase(s: Seq<char>) -> Seq<char>;

/// `str::to_lowercase`: the full Unicode lower-case mapping of `s`. The
/// contract claims only that the result is a function of `s`.
#[verifier::external_body]
pub(crate) fn to_lowercase(s: &str) -> (r: String)
    ensures
        r@ == lowercase(s@),
{
    s.to_lowercase()
}

/// The characters of `s`, in order.
pub fn chars_of(s: &str) -> (v: Vec<char>)
    ensures
        v@ == s@,
{
    let mut v: Vec<char> = Vec::new();
    for c in it: s.chars()
        invariant
            v@ == it.seq().take(it.index() as int),
    {
        v.push(c);
    }
    v
}

/// A `String` holding the characters `v[from..to]`.
pub fn string_from_chars(v: &Vec<char>, from: usize, to: usize) -> (s: String)
    requires
        from <= to <= v.len(),
    ensures
        s@ == v@.subrange(from as int, to as int),
{
    let mut s = String::new();
    let mut i = from;
    while i < to
        invariant
            from <= i <= to <= v.len(),
            s@ == v@.subrange(from as int, i as int),
        decreases to - i,
    {
        push_char(&mut s, v[i]);
        assert(v@.subrange(from as int, i + 1) == v@.subrange(from as int, i as int).push(v@[i as int]));
        i += 1;
    }
    s
}

/// A `String` holding exactly the characters of `v`.
pub fn string_of_chars(v: &Vec<char>) -> (s: String)
    ensures
        s@ == v@,
{
    let s = string_from_chars(v, 0, v.len());
    assert(v@.subrange(0, v.len() as int) =~= v@);
    s
}

/// Whether the characters of `v` spell `lit`.
pub fn chars_are(v: &Vec<char>, lit: &str) -> (r: bool)
    ensures
        r == (v@ == lit@),
{
    let l = chars_of(lit);
    seq_eq(v, &l)
}

/// Whether the characters of `v` begin with `lit`.
pub fn chars_start_with(v: &Vec<char>, lit: &str) -> (r: bool)
    ensures
        r == starts_with(v@, lit@),
{
    let l = chars_of(lit);
    starts_with_exec(v, &l)
}

pub fn string_of(t: &str) -> (s: String)
    ensures
        s@ == t@,
{
    let mut s = String::new();
    push_str(&mut s, t);
    assert(s@ == Seq::<char>::empty() + t@);
    assert(Seq::<char>::empty() + t@ =~= t@);
    s
}

pub fn copy_string(t: &String) -> (s: String)
    ensures
        s@ == t@,
{
    t.clone()
}

// ---------------------------------------------------------------------------
// Equality, prefixes, containment
// ---------------------------------------------------------------------------

pub fn str_eq(a: &str, b: &str) -> (r: bool)
    ensures
        r == (a@ == b@),
{
    let av = chars_of(a);
    let bv = chars_of(b);
    seq_eq(&av, &bv)
}

pub fn seq_eq(a: &Vec<char>, b: &Vec<char>) -> (r: bool)
    ensures
        r == (a@ == b@),
{
    if a.len() != b.len() {
        return false;
    }
    let mut i: usize = 0;
    while i < a.len()
        invariant
            a.len() == b.len(),
            i <= a.len(),
            forall|j: int| 0 <= j < i ==> a@[j] == b@[j],
        decreases a.len() - i,
    {
        if a[i] != b[i] {
            return false;
        }
        i += 1;
    }
    assert(a@ =~= b@);
    true
}

pub open spec fn starts_with(s: Seq<char>, p: Seq<char>) -> bool {
    p.len() <= s.len() && s.subrange(0, p.len() as int) == p
}

pub open spec fn ends_with(s: Seq<char>, p: Seq<char>) -> bool {
    p.len() <= s.len() && s.subrange(s.len() - p.len(), s.len() as int) == p
}

/// Does `p` occur in `s` at position `at`?
pub open spec fn occurs_at(s: Seq<char>, p: Seq<char>, at: int) -> bool {
    0 <= at && at + p.len() <= s.len() && s.subrange(at, at + p.len()) == p
}

pub open spec fn contains(s: Seq<char>, p: Seq<char>) -> bool {
    exists|at: int| occurs_at(s, p, at)
}

/// Does `p` occur in `v` at position `at`?
pub fn occurs_at_exec(v: &Vec<char>, p: &Vec<char>, at: usize) -> (r: bool)
    ensures
        r == occurs_at(v@, p@, at as int),
{
    if at > v.len() || p.len() > v.len() - at {
        return false;
    }
    let mut j: usize = 0;
    while j < p.len()
        invariant
            at + p.len() <= v.len(),
            j <= p.len(),
            forall|k: int| 0 <= k < j ==> v@[at + k] == p@[k],
        decreases p.len() - j,
    {
        if v[at + j] != p[j] {
            assert(v@.subrange(at as int, at + p.len())[j as int] != p@[j as int]);
            return false;
        }
        j += 1;
    }
    assert(v@.subrange(at as int, at + p.len()) =~= p@);
    true
}

pub fn starts_with_exec(v: &Vec<char>, p: &Vec<char>) -> (r: bool)
    ensures
        r == starts_with(v@, p@),
{
    occurs_at_exec(v, p, 0)
}

/// First position at which `p` occurs in `v` at or after `from`.
pub fn find_from(v: &Vec<char>, p: &Vec<char>, from: usize) -> (r: Option<usize>)
    ensures
        match r {
            Some(at) => from <= at && occurs_at(v@, p@, at as int) && forall|k: int|
                from <= k < at ==> !occurs_at(v@, p@, k),
            None => forall|k: int| from <= k ==> !occurs_at(v@, p@, k),
        },
{
    let mut i = from;
    if i > v.len() {
        return None;
    }
    while i < v.len()
        invariant
            from <= i <= v.len(),
            forall|k: int| from <= k < i ==> !occurs_at(v@, p@, k),
        decreases v.len() - i,
    {
        if occurs_at_exec(v, p, i) {
            return Some(i);
        }
        i += 1;
    }
    if occurs_at_exec(v, p, i) {
        return Some(i);
    }
    None
}

pub fn contains_exec(v: &Vec<char>, p: &Vec<char>) -> (r: bool)
    ensures
        r == contains(v@, p@),
{
    match find_from(v, p, 0) {
        Some(_) => true,
        None => {
            assert(!contains(v@, p@));
            false
        },
    }
}

pub fn str_contains(s: &str, p: &str) -> (r: bool)
    ensures
        r == contains(s@, p@),
{
    let sv = chars_of(s);
    let pv = chars_of(p);
    contains_exec(&sv, &pv)
}

// ---------------------------------------------------------------------------
// Trimming
// ---------------------------------------------------------------------------

/// Number of leading characters of `s` satisfying whitespace.
pub open spec fn leading_ws(s: Seq<char>) -> nat
    decreases s.len(),
{
    if s.len() > 0 && is_ws(s[0]) {
        1 + leading_ws(s.drop_first())
    } else {
        0
    }
}

/// Number of trailing whitespace characters of `s`.
pub open spec fn trailing_ws(s: Seq<char>) -> nat
    decreases s.len(),
{
    if s.len() > 0 && is_ws(s.last()) {
        1 + trailing_ws(s.drop_last())
    } else {
        0
    }
}

/// `str::trim_start`.
pub open spec fn trim_start(s: Seq<char>) -> Seq<char> {
    s.subrange(leading_ws(s) as int, s.len() as int)
}

/// `str::trim_end`.
pub open spec fn trim_end(s: Seq<char>) -> Seq<char> {
    s.subrange(0, s.len() - trailing_ws(s))
}

/// `str::trim`.
pub open spec fn trim(s: Seq<char>) -> Seq<char> {
    trim_end(trim_start(s))
}

/// Characterizes `leading_ws` by its defining property.
pub proof fn lemma_leading_ws_unique(s: Seq<char>, n: int)
    requires
        0 <= n <= s.len(),
        forall|i: int| 0 <= i < n ==> is_ws(#[trigger] s[i]),
        n < s.len() ==> !is_ws(s[n]),
    ensures
        leading_ws(s) == n,
    decreases s.len(),
{
    if n > 0 {
        assert(is_ws(s[0]));
        assert forall|i: int| 0 <= i < n - 1 implies is_ws(#[trigger] s.drop_first()[i]) by {
            assert(s.drop_first()[i] == s[i + 1]);
        }
        if n - 1 < s.drop_first().len() {
            assert(s.drop_first()[n - 1] == s[n]);
        }
        lemma_leading_ws_unique(s.drop_first(), n - 1);
    }
}

pub proof fn lemma_trailing_ws_unique(s: Seq<char>, n: int)
    requires
        0 <= n <= s.len(),
        forall|i: int| s.len() - n <= i < s.len() ==> is_ws(#[trigger] s[i]),
        n < s.len() ==> !is_ws(s[s.len() - n - 1]),
    ensures
        trailing_ws(s) == n,
    decreases s.len(),
{
    if n > 0 {
        assert(is_ws(s[s.len() - 1]));
        assert forall|i: int| s.drop_last().len() - (n - 1) <= i < s.drop_last().len() implies is_ws(
            #[trigger] s.drop_last()[i],
        ) by {
            assert(s.drop_last()[i] == s[i]);
        }
        if n - 1 < s.drop_last().len() {
            assert(s.drop_last()[s.drop_last().len() - (n - 1) - 1] == s[s.len() - n - 1]);
        }
        lemma_trailing_ws_unique(s.drop_last(), n - 1);
    }
}

/// Bounds `[start, end)` of `trim(v)` inside `v`.
pub fn trim_bounds(v: &Vec<char>) -> (r: (usize, usize))
    ensures
        r.0 <= r.1 <= v.len(),
        v@.subrange(r.0 as int, r.1 as int) == trim(v@),
        r.0 == leading_ws(v@),
{
    let mut start: usize = 0;
    while start < v.len() && is_whitespace_char(v[start])
        invariant
            start <= v.len(),
            forall|i: int| 0 <= i < start ==> is_ws(#[trigger] v@[i]),
        decreases v.len() - start,
    {
        start += 1;
    }
    proof {
        lemma_leading_ws_unique(v@, start as int);
    }
    let mut end: usize = v.len();
    while end > start && is_whitespace_char(v[end - 1])
        invariant
            start <= end <= v.len(),
            forall|i: int| end <= i < v.len() ==> is_ws(#[trigger] v@[i]),
        decreases end,
    {
        end -= 1;
    }
    proof {
        let t = v@.subrange(start as int, v.len() as int);
        let n = v.len() - end;
        assert forall|i: int| t.len() - n <= i < t.len() implies is_ws(#[trigger] t[i]) by {
            assert(t[i] == v@[start + i]);
        }
        if n < t.len() {
            assert(t[t.len() - n - 1] == v@[end - 1]);
        }
        lemma_trailing_ws_unique(t, n);
        assert(trim(v@) =~= v@.subrange(start as int, end as int));
    }
    (start, end)
}

/// `str::trim` returning an owned string.
pub fn trim_string(s: &str) -> (r: String)
    ensures
        r@ == trim(s@),
{
    let v = chars_of(s);
    let (a, b) = trim_bounds(&v);
    string_from_chars(&v, a, b)
}

// ---------------------------------------------------------------------------
// Decimal numbers
// ---------------------------------------------------------------------------

pub open spec fn digit_char(d: nat) -> char {
    ((d % 10) + 48) as char
}

/// Decimal rendering of `n` (`usize::to_string`).
pub open spec fn decimal(n: nat) -> Seq<char>
    decreases n,
{
    if n < 10 {
        seq![digit_char(n)]
    } else {
        decimal(n / 10).push(digit_char(n % 10))
    }
}

fn digit_to_char(d: u64) -> (c: char)
    requires
        d < 10,
    ensures
        c == digit_char(d as nat),
{
    let code: u8 = (d as u8) + 48u8;
    code as char
}

/// Appends the decimal rendering of `n` to `s`.
pub fn push_decimal(s: &mut String, n: u64)
    ensures
        final(s)@ == old(s)@ + decimal(n as nat),
    decreases n,
{
    if n < 10 {
        push_char(s, digit_to_char(n));
        assert(decimal(n as nat) == seq![digit_char(n as nat)]);
    } else {
        push_decimal(s, n / 10);
        push_char(s, digit_to_char(n % 10));
    }
}

/// Appends the decimal rendering of a 128-bit `n` to `s`.
pub fn push_decimal_wide(s: &mut String, n: u128)
    ensures
        final(s)@ == old(s)@ + decimal(n as nat),
    decreases n,
{
    if n < 10 {
        push_char(s, digit_to_char(n as u64));
        assert(decimal(n as nat) == seq![digit_char(n as nat)]);
    } else {
        push_decimal_wide(s, n / 10);
        push_char(s, digit_to_char((n % 10) as u64));
    }
}

/// Value of a string of ASCII digits.
pub open spec fn digits_value(s: Seq<char>) -> nat
    decreases s.len(),
{
    if s.len() == 0 {
        0
    } else {
        digits_value(s.drop_last()) * 10 + ((s.last() as u32) - 48) as nat
    }
}

pub open spec fn all_digits(s: Seq<char>) -> bool {
    forall|i: int| 0 <= i < s.len() ==> is_ascii_digit(#[trigger] s[i])
}

/// What `str::parse` into an unsigned integer type whose largest value is
/// `max` accepts: an optional `+` then one or more ASCII digits whose value
/// is at most `max`.
pub open spec fn parse_uint_spec(s: Seq<char>, max: nat) -> Option<nat> {
    let body = if s.len() > 0 && s[0] == '+' { s.drop_first() } else { s };
    if body.len() > 0 && all_digits(body) && digits_value(body) <= max {
        Some(digits_value(body))
    } else {
        None
    }
}

/// What `str::parse::<usize>` accepts.
pub open spec fn parse_usize_spec(s: Seq<char>) -> Option<nat> {
    parse_uint_spec(s, usize::MAX as nat)
}

pub proof fn lemma_digits_value_monotone(s: Seq<char>, k: int)
    requires
        0 <= k <= s.len(),
        all_digits(s),
    ensures
        digits_value(s.subrange(0, k)) <= digits_value(s),
    decreases s.len() - k,
{
    if k < s.len() {
        lemma_digits_value_monotone(s, k + 1);
        assert(s.subrange(0, k + 1).drop_last() =~= s.subrange(0, k));
    } else {
        assert(s.subrange(0, k) =~= s);
    }
}

/// `str::parse::<u64>`.
pub fn parse_u64(s: &str) -> (r: Option<u64>)
    ensures
        match r {
            Some(n) => parse_uint_spec(s@, u64::MAX as nat) == Some(n as nat),
            None => parse_uint_spec(s@, u64::MAX as nat) is None,
        },
{
    let v = chars_of(s);
    let start: usize = if v.len() > 0 && v[0] == '+' { 1 } else { 0 };
    let ghost body = if s@.len() > 0 && s@[0] == '+' { s@.drop_first() } else { s@ };
    proof {
        assert(body =~= v@.subrange(start as int, v.len() as int));
    }
    if start >= v.len() {
        return None;
    }
    let mut acc: u64 = 0;
    let mut i = start;
    while i < v.len()
        invariant
            start <= i <= v.len(),
            v@ == s@,
            body == (if s@.len() > 0 && s@[0] == '+' { s@.drop_first() } else { s@ }),
            body == v@.subrange(start as int, v.len() as int),
            all_digits(v@.subrange(start as int, i as int)),
            acc as nat == digits_value(v@.subrange(start as int, i as int)),
        decreases v.len() - i,
    {
        let c = v[i];
        if !('0' <= c && c <= '9') {
            proof {
                assert(body[i - start] == c);
            }
            return None;
        }
        let d: u64 = ((c as u32) - 48) as u64;
        proof {
            assert(v@.subrange(start as int, i + 1).drop_last() =~= v@.subrange(start as int, i as int));
        }
        if acc > (u64::MAX - d) / 10 {
            proof {
                assert(v@.subrange(start as int, i + 1).last() == c);
                let prefix = v@.subrange(start as int, i + 1);
                assert(digits_value(prefix) == acc * 10 + d);
                assert(digits_value(prefix) > u64::MAX) by (nonlinear_arith)
                    requires
                        acc > (u64::MAX - d) / 10,
                        digits_value(prefix) == acc * 10 + d,
                        d <= 9,
                ;
                if all_digits(body) {
                    assert(prefix =~= body.subrange(0, i + 1 - start));
                    lemma_digits_value_monotone(body, i + 1 - start);
                }
            }
            return None;
        }
        acc = acc * 10 + d;
        i += 1;
    }
    Some(acc)
}

/// `str::parse::<usize>`.
pub fn parse_usize(s: &str) -> (r: Option<usize>)
    ensures
        match r {
            Some(n) => parse_usize_spec(s@) == Some(n as nat),
            None => parse_usize_spec(s@) is None,
        },
{
    match parse_u64(s) {
        Some(n) => {
            if n <= usize::MAX as u64 {
                Some(n as usize)
            } else {
                None
            }
        },
        None => None,
    }
}

// ---------------------------------------------------------------------------
// Ordering of strings (code-point lexicographic, as `str`'s `Ord` on UTF-8)
// ---------------------------------------------------------------------------

pub open spec fn lex_lt(a: Seq<char>, b: Seq<char>) -> bool
    decreases a.len(),
{
    if a.len() == 0 {
        b.len() > 0
    } else if b.len() == 0 {
        false
    } else if a[0] < b[0] {
        true
    } else if a[0] == b[0] {
        lex_lt(a.drop_first(), b.drop_first())
    } else {
        false
    }
}

pub proof fn lemma_lex_irreflexive(a: Seq<char>)
    ensures
        !lex_lt(a, a),
    decreases a.len(),
{
    if a.len() > 0 {
        lemma_lex_irreflexive(a.drop_first());
    }
}

pub proof fn lemma_lex_transitive(a: Seq<char>, b: Seq<char>, c: Seq<char>)
    requires
        lex_lt(a, b),
        lex_lt(b, c),
    ensures
        lex_lt(a, c),
    decreases a.len(),
{
    if a.len() > 0 && b.len() > 0 && c.len() > 0 && a[0] == b[0] && b[0] == c[0] {
        lemma_lex_transitive(a.drop_first(), b.drop_first(), c.drop_first());
    }
}

pub proof fn lemma_lex_total(a: Seq<char>, b: Seq<char>)
    ensures
        a == b || lex_lt(a, b) || lex_lt(b, a),
    decreases a.len(),
{
    if a.len() > 0 && b.len() > 0 && a[0] == b[0] {
        lemma_lex_total(a.drop_first(), b.drop_first());
        if a.drop_first() == b.drop_first() {
            assert(a =~= seq![a[0]] + a.drop_first());
            assert(b =~= seq![b[0]] + b.drop_first());
        }
    } else if a.len() == 0 && b.len() == 0 {
        assert(a =~= b);
    }
}

/// `a < b` in code-point lexicographic order.
pub fn lex_less(a: &Vec<char>, b: &Vec<char>) -> (r: bool)
    ensures
        r == lex_lt(a@, b@),
{
    let mut i: usize = 0;
    assert(a@.skip(0) =~= a@);
    assert(b@.skip(0) =~= b@);
    while i < a.len() && i < b.len() && a[i] == b[i]
        invariant
            i <= a.len(),
            i <= b.len(),
            a@.take(i as int) == b@.take(i as int),
            lex_lt(a@, b@) == lex_lt(a@.skip(i as int), b@.skip(i as int)),
        decreases a.len() - i,
    {
        proof {
            assert(a@.skip(i as int).drop_first() =~= a@.skip(i + 1));
            assert(b@.skip(i as int).drop_first() =~= b@.skip(i + 1));
            assert(a@.take(i + 1) =~= a@.take(i as int).push(a@[i as int]));
            assert(b@.take(i + 1) =~= b@.take(i as int).push(b@[i as int]));
        }
        i += 1;
    }
    proof {
        assert(a@.skip(i as int).len() == a.len() - i);
        if i < a.len() {
            assert(a@.skip(i as int)[0] == a@[i as int]);
        }
        if i < b.len() {
            assert(b@.skip(i as int)[0] == b@[i as int]);
        }
    }
    if i == a.len() {
        i < b.len()
    } else if i == b.len() {
        false
    } else {
        a[i] < b[i]
    }
}

/// Strictly increasing: sorted and free of repeats.
pub open spec fn strictly_sorted(s: Seq<Seq<char>>) -> bool {
    forall|i: int, j: int| 0 <= i < j < s.len() ==> lex_lt(#[trigger] s[i], #[trigger] s[j])
}

pub open spec fn views(v: Seq<String>) -> Seq<Seq<char>> {
    v.map_values(|s: String| s@)
}

/// Inserts `x` into a strictly sorted list unless it is already present.
pub fn insert_sorted(v: &mut Vec<String>, x: String)
    requires
        strictly_sorted(views(old(v)@)),
    ensures
        strictly_sorted(views(final(v)@)),
        views(final(v)@).to_set() == views(old(v)@).to_set().insert(x@),
{
    let xv = chars_of(x.as_str());
    let mut p: usize = 0;
    while p < v.len() && lex_less(&chars_of(v[p].as_str()), &xv)
        invariant
            p <= v.len(),
            xv@ == x@,
            forall|k: int| 0 <= k < p ==> lex_lt(#[trigger] views(v@)[k], x@),
        decreases v.len() - p,
    {
        p += 1;
    }
    let ghost old_views = views(v@);
    if p < v.len() {
        let pv = chars_of(v[p].as_str());
        if seq_eq(&pv, &xv) {
            proof {
                assert(old_views[p as int] == x@);
                assert(old_views.to_set().insert(x@) =~= old_views.to_set());
            }
            return;
        }
        proof {
            lemma_lex_total(old_views[p as int], x@);
        }
    }
    v.insert(p, x);
    proof {
        let nv = views(v@);
        assert(nv =~= old_views.insert(p as int, x@));
        assert forall|i: int, j: int| 0 <= i < j < nv.len() implies lex_lt(#[trigger] nv[i], #[trigger] nv[j]) by {
            if j == p {
                assert(nv[i] == old_views[i]);
            } else if i == p {
                assert(nv[j] == old_views[j - 1]);
                if j - 1 > p {
                    assert(lex_lt(old_views[p as int], old_views[j - 1]));
                    lemma_lex_transitive(x@, old_views[p as int], old_views[j - 1]);
                }
            } else if i < p && j < p {
                assert(nv[i] == old_views[i] && nv[j] == old_views[j]);
            } else if i < p && j > p {
                assert(nv[i] == old_views[i] && nv[j] == old_views[j - 1]);
            } else {
                assert(nv[i] == old_views[i - 1] && nv[j] == old_views[j - 1]);
            }
        }
        assert forall|y: Seq<char>| nv.to_set().contains(y) <==> old_views.to_set().insert(x@).contains(y) by {
            if nv.to_set().contains(y) {
                let k = choose|k: int| 0 <= k < nv.len() && nv[k] == y;
                if k < p {
                    assert(old_views[k] == y);
                } else if k > p {
                    assert(old_views[k - 1] == y);
                }
            }
            if old_views.to_set().contains(y) {
                let k = choose|k: int| 0 <= k < old_views.len() && old_views[k] == y;
                if k < p {
                    assert(nv[k] == y);
                } else {
                    assert(nv[k + 1] == y);
                }
            }
            if y == x@ {
                assert(nv[p as int] == y);
            }
        }
        assert(nv.to_set() =~= old_views.to_set().insert(x@));
    }
}


// ---------------------------------------------------------------------------
// Stripping character classes, splitting into runs, joining
// ---------------------------------------------------------------------------

/// Small character classes that callers strip from the ends of words.
#[derive(Clone, Copy, PartialEq, Eq, Debug)]
pub enum CharClass {
    /// `"` and `'`.
    Quote,
    /// `;` and `,`.
    Trailer,
    /// `/`.
    Slash,
    /// `\n`.
    Newline,
    /// Quotes and brackets around a generated title: `"`, `'`, `《`, `》`,
    /// `【`, `】` and backquote.
    TitleQuote,
}

pub open spec fn in_class(c: char, k: CharClass) -> bool {
    match k {
        CharClass::Quote => c == '"' || c == '\'',
        CharClass::Trailer => c == ';' || c == ',',
        CharClass::Slash => c == '/',
        CharClass::Newline => c == '\n',
        CharClass::TitleQuote => c == '"' || c == '\'' || c == '《' || c == '》' || c == '【' || c == '】' || c == '`',
    }
}

pub fn in_class_exec(c: char, k: CharClass) -> (r: bool)
    ensures
        r == in_class(c, k),
{
    match k {
        CharClass::Quote => c == '"' || c == '\'',
        CharClass::Trailer => c == ';' || c == ',',
        CharClass::Slash => c == '/',
        CharClass::Newline => c == '\n',
        CharClass::TitleQuote => c == '"' || c == '\'' || c == '《' || c == '》' || c == '【' || c == '】' || c == '`',
    }
}

/// `s` without its leading characters of class `k` (`trim_start_matches`).
pub open spec fn strip_front(s: Seq<char>, k: CharClass) -> Seq<char>
    decreases s.len(),
{
    if s.len() > 0 && in_class(s[0], k) {
        strip_front(s.drop_first(), k)
    } else {
        s
    }
}

/// `s` without its trailing characters of class `k` (`trim_end_matches`).
pub open spec fn strip_back(s: Seq<char>, k: CharClass) -> Seq<char>
    decreases s.len(),
{
    if s.len() > 0 && in_class(s.last(), k) {
        strip_back(s.drop_last(), k)
    } else {
        s
    }
}

/// `s` without characters of class `k` at either end (`trim_matches`).
pub open spec fn strip_both(s: Seq<char>, k: CharClass) -> Seq<char> {
    strip_back(strip_front(s, k), k)
}

proof fn lemma_strip_front(s: Seq<char>, k: CharClass, n: int)
    requires
        0 <= n <= s.len(),
        forall|j: int| 0 <= j < n ==> in_class(#[trigger] s[j], k),
        n < s.len() ==> !in_class(s[n], k),
    ensures
        strip_front(s, k) == s.subrange(n, s.len() as int),
    decreases n,
{
    if n == 0 {
        assert(s.subrange(0, s.len() as int) =~= s);
    } else {
        assert(in_class(s[0], k));
        let t = s.drop_first();
        assert forall|j: int| 0 <= j < n - 1 implies in_class(#[trigger] t[j], k) by {
            assert(t[j] == s[j + 1]);
        }
        if n - 1 < t.len() {
            assert(t[n - 1] == s[n]);
        }
        lemma_strip_front(t, k, n - 1);
        assert(t.subrange(n - 1, t.len() as int) =~= s.subrange(n, s.len() as int));
    }
}

proof fn lemma_strip_back(s: Seq<char>, k: CharClass, m: int)
    requires
        0 <= m <= s.len(),
        forall|j: int| m <= j < s.len() ==> in_class(#[trigger] s[j], k),
        m > 0 ==> !in_class(s[m - 1], k),
    ensures
        strip_back(s, k) == s.subrange(0, m),
    decreases s.len() - m,
{
    if m == s.len() {
        assert(s.subrange(0, m) =~= s);
    } else {
        assert(in_class(s.last(), k));
        let t = s.drop_last();
        assert forall|j: int| m <= j < t.len() implies in_class(#[trigger] t[j], k) by {
            assert(t[j] == s[j]);
        }
        if m > 0 {
            assert(t[m - 1] == s[m - 1]);
        }
        lemma_strip_back(t, k, m);
        assert(t.subrange(0, m) =~= s.subrange(0, m));
    }
}

/// Bounds of `strip_front(v[from..to])` and then `strip_back` of that.
fn strip_bounds(v: &Vec<char>, from: usize, to: usize, front: bool, k: CharClass) -> (r: (usize, usize))
    requires
        from <= to <= v.len(),
    ensures
        from <= r.0 <= r.1 <= to,
        front ==> v@.subrange(r.0 as int, r.1 as int) == strip_both(v@.subrange(from as int, to as int), k),
        !front ==> r.0 == from && v@.subrange(r.0 as int, r.1 as int) == strip_back(v@.subrange(from as int, to as int), k),
{
    let ghost s = v@.subrange(from as int, to as int);
    let mut a = from;
    if front {
        while a < to && in_class_exec(v[a], k)
            invariant
                from <= a <= to <= v.len(),
                s == v@.subrange(from as int, to as int),
                forall|j: int| from <= j < a ==> in_class(#[trigger] v@[j], k),
            decreases to - a,
        {
            a += 1;
        }
        proof {
            assert forall|j: int| 0 <= j < a - from implies in_class(#[trigger] s[j], k) by {
                assert(s[j] == v@[from + j]);
            }
            if a < to {
                assert(s[a - from] == v@[a as int]);
            }
            lemma_strip_front(s, k, a - from);
        }
    }
    let ghost t = v@.subrange(a as int, to as int);
    proof {
        if front {
            assert(t =~= s.subrange(a - from, s.len() as int));
        } else {
            assert(t =~= s);
        }
    }
    let mut b = to;
    while b > a && in_class_exec(v[b - 1], k)
        invariant
            from <= a <= b <= to <= v.len(),
            t == v@.subrange(a as int, to as int),
            forall|j: int| b <= j < to ==> in_class(#[trigger] v@[j], k),
        decreases b,
    {
        b -= 1;
    }
    proof {
        assert forall|j: int| b - a <= j < t.len() implies in_class(#[trigger] t[j], k) by {
            assert(t[j] == v@[a + j]);
        }
        if b > a {
            assert(t[b - a - 1] == v@[b - 1]);
        }
        lemma_strip_back(t, k, b - a);
        assert(t.subrange(0, b - a) =~= v@.subrange(a as int, b as int));
    }
    (a, b)
}

/// `strip_back(v, k)`.
pub fn strip_back_exec(v: &Vec<char>, k: CharClass) -> (r: Vec<char>)
    ensures
        r@ == strip_back(v@, k),
{
    let (a, b) = strip_bounds(v, 0, v.len(), false, k);
    proof {
        assert(v@.subrange(0, v.len() as int) =~= v@);
    }
    let mut r: Vec<char> = Vec::new();
    let mut i = a;
    while i < b
        invariant
            a <= i <= b <= v.len(),
            r@ == v@.subrange(a as int, i as int),
        decreases b - i,
    {
        r.push(v[i]);
        assert(v@.subrange(a as int, i + 1) =~= v@.subrange(a as int, i as int).push(v@[i as int]));
        i += 1;
    }
    r
}

/// `strip_front(v, k)`.
pub fn strip_front_exec(v: &Vec<char>, k: CharClass) -> (r: Vec<char>)
    ensures
        r@ == strip_front(v@, k),
{
    let mut a: usize = 0;
    while a < v.len() && in_class_exec(v[a], k)
        invariant
            a <= v.len(),
            forall|j: int| 0 <= j < a ==> in_class(#[trigger] v@[j], k),
        decreases v.len() - a,
    {
        a += 1;
    }
    proof {
        lemma_strip_front(v@, k, a as int);
    }
    let mut r: Vec<char> = Vec::new();
    let mut i = a;
    while i < v.len()
        invariant
            a <= i <= v.len(),
            r@ == v@.subrange(a as int, i as int),
        decreases v.len() - i,
    {
        r.push(v[i]);
        assert(v@.subrange(a as int, i + 1) =~= v@.subrange(a as int, i as int).push(v@[i as int]));
        i += 1;
    }
    r
}

/// `strip_both(v, k)`.
pub fn strip_both_exec(v: &Vec<char>, k: CharClass) -> (r: Vec<char>)
    ensures
        r@ == strip_both(v@, k),
{
    let (a, b) = strip_bounds(v, 0, v.len(), true, k);
    proof {
        assert(v@.subrange(0, v.len() as int) =~= v@);
    }
    let mut r: Vec<char> = Vec::new();
    let mut i = a;
    while i < b
        invariant
            a <= i <= b <= v.len(),
            r@ == v@.subrange(a as int, i as int),
        decreases b - i,
    {
        r.push(v[i]);
        assert(v@.subrange(a as int, i + 1) =~= v@.subrange(a as int, i as int).push(v@[i as int]));
        i += 1;
    }
    r
}

/// Separators between runs: `/` for path components, Unicode whitespace for
/// words.
pub open spec fn is_sep(c: char, slash: bool) -> bool {
    if slash {
        c == '/'
    } else {
        is_ws(c)
    }
}

/// Completed runs and the run in progress after reading `s`.
pub open spec fn split_state(s: Seq<char>, slash: bool) -> (Seq<Seq<char>>, Seq<char>)
    decreases s.len(),
{
    if s.len() == 0 {
        (Seq::empty(), Seq::empty())
    } else {
        let (done, cur) = split_state(s.drop_last(), slash);
        if is_sep(s.last(), slash) {
            if cur.len() > 0 {
                (done.push(cur), Seq::empty())
            } else {
                (done, Seq::empty())
            }
        } else {
            (done, cur.push(s.last()))
        }
    }
}

/// The maximal non-empty runs of non-separator characters of `s`, in order
/// (`split_whitespace`, or the components of a `/`-separated path).
pub open spec fn runs(s: Seq<char>, slash: bool) -> Seq<Seq<char>> {
    let (done, cur) = split_state(s, slash);
    if cur.len() > 0 {
        done.push(cur)
    } else {
        done
    }
}

pub open spec fn char_views(v: Seq<Vec<char>>) -> Seq<Seq<char>> {
    v.map_values(|w: Vec<char>| w@)
}

/// `runs(v, slash)`, each run as its own vector.
pub fn split_runs(v: &Vec<char>, slash: bool) -> (r: Vec<Vec<char>>)
    ensures
        char_views(r@) == runs(v@, slash),
{
    let mut done: Vec<Vec<char>> = Vec::new();
    let mut cur: Vec<char> = Vec::new();
    let mut i: usize = 0;
    while i < v.len()
        invariant
            i <= v.len(),
            (char_views(done@), cur@) == split_state(v@.subrange(0, i as int), slash),
        decreases v.len() - i,
    {
        let c = v[i];
        let sep = if slash { c == '/' } else { is_whitespace_char(c) };
        proof {
            assert(v@.subrange(0, i + 1).drop_last() =~= v@.subrange(0, i as int));
            assert(v@.subrange(0, i + 1).last() == c);
        }
        if sep {
            if cur.len() > 0 {
                let w = cur;
                cur = Vec::new();
                let ghost before = char_views(done@);
                done.push(w);
                proof {
                    assert(char_views(done@) =~= before.push(w@));
                    assert(cur@ =~= Seq::<char>::empty());
                }
            } else {
                proof {
                    assert(cur@ =~= Seq::<char>::empty());
                }
            }
        } else {
            cur.push(c);
        }
        i += 1;
    }
    proof {
        assert(v@.subrange(0, v.len() as int) =~= v@);
    }
    if cur.len() > 0 {
        let ghost before = char_views(done@);
        let ghost w = cur@;
        done.push(cur);
        proof {
            assert(char_views(done@) =~= before.push(w));
        }
    }
    done
}

/// `parts` separated by `sep` (`join`).
pub open spec fn join(parts: Seq<Seq<char>>, sep: Seq<char>) -> Seq<char>
    decreases parts.len(),
{
    if parts.len() == 0 {
        Seq::empty()
    } else if parts.len() == 1 {
        parts[0]
    } else {
        join(parts.drop_last(), sep) + sep + parts.last()
    }
}

pub fn join_strings(parts: &Vec<String>, sep: &str) -> (r: String)
    ensures
        r@ == join(views(parts@), sep@),
{
    let mut r = String::new();
    let mut i: usize = 0;
    while i < parts.len()
        invariant
            i <= parts.len(),
            r@ == join(views(parts@).subrange(0, i as int), sep@),
        decreases parts.len() - i,
    {
        let ghost pre = views(parts@).subrange(0, i as int);
        if i > 0 {
            push_str(&mut r, sep);
        }
        push_str(&mut r, parts[i].as_str());
        proof {
            let next = views(parts@).subrange(0, i + 1);
            assert(next.drop_last() =~= pre);
            assert(next.last() == parts@[i as int]@);
            if i == 0 {
                assert(r@ =~= next[0]);
            }
        }
        i += 1;
    }
    proof {
        assert(views(parts@).subrange(0, parts.len() as int) =~= views(parts@));
    }
    r
}


// ---------------------------------------------------------------------------
// Lines (`str::lines`)
// ---------------------------------------------------------------------------

/// Index of the first `\n` at or after `i`, or `s.len()` when there is none.
pub open spec fn line_end(s: Seq<char>, i: int) -> int
    decreases s.len() - i,
{
    if i < 0 || i >= s.len() {
        s.len() as int
    } else if s[i] == '\n' {
        i
    } else {
        line_end(s, i + 1)
    }
}

/// A line without the `\r` of a `\r\n` ending.
pub open spec fn strip_cr(l: Seq<char>) -> Seq<char> {
    if l.len() > 0 && l.last() == '\r' {
        l.drop_last()
    } else {
        l
    }
}

/// The lines of `s` as `str::lines` yields them: split after each `\n`, the
/// `\n` (and a `\r` before it) removed; no empty line after a final `\n`.
pub open spec fn lines(s: Seq<char>) -> Seq<Seq<char>>
    decreases s.len(),
{
    if s.len() == 0 {
        Seq::empty()
    } else {
        let k = line_end(s, 0);
        if 0 <= k < s.len() {
            seq![strip_cr(s.subrange(0, k))] + lines(s.subrange(k + 1, s.len() as int))
        } else {
            seq![s]
        }
    }
}

/// The first line of `s`, or empty text when `s` has none.
pub open spec fn first_line(s: Seq<char>) -> Seq<char> {
    if lines(s).len() > 0 {
        lines(s)[0]
    } else {
        Seq::empty()
    }
}

proof fn lemma_line_end(s: Seq<char>, i: int, k: int)
    requires
        0 <= i <= k <= s.len(),
        forall|j: int| i <= j < k ==> s[j] != '\n',
        k < s.len() ==> s[k] == '\n',
    ensures
        line_end(s, i) == k,
    decreases k - i,
{
    if i < k {
        lemma_line_end(s, i + 1, k);
    }
}

/// End of the line starting at `from` in `v`: the index of the next `\n`,
/// or `v.len()`.
pub fn scan_line_end(v: &Vec<char>, from: usize) -> (k: usize)
    requires
        from <= v.len(),
    ensures
        from <= k <= v.len(),
        line_end(v@.subrange(from as int, v.len() as int), 0) == k - from,
{
    let mut k = from;
    while k < v.len() && v[k] != '\n'
        invariant
            from <= k <= v.len(),
            forall|j: int| from <= j < k ==> v@[j] != '\n',
        decreases v.len() - k,
    {
        k += 1;
    }
    proof {
        let t = v@.subrange(from as int, v.len() as int);
        assert forall|j: int| 0 <= j < k - from implies t[j] != '\n' by {
            assert(t[j] == v@[from + j]);
        }
        if k < v.len() {
            assert(t[k - from] == v@[k as int]);
        }
        lemma_line_end(t, 0, k - from);
    }
    k
}

/// `strip_cr(v[a..b])` as a `String`.
fn line_text(v: &Vec<char>, a: usize, b: usize) -> (r: String)
    requires
        a <= b <= v.len(),
    ensures
        r@ == strip_cr(v@.subrange(a as int, b as int)),
{
    if b > a && v[b - 1] == '\r' {
        let r = string_from_chars(v, a, b - 1);
        assert(v@.subrange(a as int, b as int).drop_last() =~= v@.subrange(a as int, b - 1));
        r
    } else {
        string_from_chars(v, a, b)
    }
}

/// The first `max` lines of `s` (`s.lines().take(max)`).
pub fn lines_upto(s: &str, max: usize) -> (r: Vec<String>)
    ensures
        views(r@) == lines(s@).take(if max as int <= lines(s@).len() { max as int } else { lines(s@).len() as int }),
{
    let v = chars_of(s);
    let mut out: Vec<String> = Vec::new();
    let mut pos: usize = 0;
    let mut done = false;
    assert(v@.subrange(0, v.len() as int) =~= v@);
    assert(views(out@) + lines(v@) =~= lines(v@));
    while !done && out.len() < max && pos < v.len()
        invariant
            v@ == s@,
            pos <= v.len(),
            out.len() <= max,
            !done ==> lines(s@) == views(out@) + lines(v@.subrange(pos as int, v.len() as int)),
            done ==> lines(s@) == views(out@),
        decreases v.len() - pos + (if done { 0int } else { 1int }),
    {
        let ghost rest = v@.subrange(pos as int, v.len() as int);
        let k = scan_line_end(&v, pos);
        let ghost before = views(out@);
        proof {
            assert(rest.subrange(0, k - pos) =~= v@.subrange(pos as int, k as int));
        }
        if k < v.len() {
            let line = line_text(&v, pos, k);
            out.push(line);
            proof {
                assert(views(out@) =~= before.push(line@));
                assert(rest.subrange(k - pos + 1, rest.len() as int) =~= v@.subrange(k + 1, v.len() as int));
                assert(seq![line@] + lines(v@.subrange(k + 1, v.len() as int)) == lines(rest));
                assert(before + lines(rest) =~= views(out@) + lines(v@.subrange(k + 1, v.len() as int)));
            }
            pos = k + 1;
        } else {
            let line = string_from_chars(&v, pos, k);
            out.push(line);
            proof {
                assert(views(out@) =~= before.push(line@));
                assert(rest =~= v@.subrange(pos as int, k as int));
                assert(lines(rest) == seq![rest]);
                assert(before + lines(rest) =~= views(out@));
            }
            done = true;
        }
    }
    proof {
        let total = lines(s@);
        if !done && pos >= v.len() {
            assert(v@.subrange(pos as int, v.len() as int).len() == 0);
            assert(views(out@) + Seq::<Seq<char>>::empty() =~= views(out@));
        }
        if !done {
            assert(total.take(views(out@).len() as int) =~= views(out@));
        } else {
            assert(total.take(total.len() as int) =~= total);
        }
    }
    out
}

proof fn lemma_lines_len(s: Seq<char>)
    ensures
        lines(s).len() <= s.len(),
    decreases s.len(),
{
    if s.len() > 0 {
        let k = line_end(s, 0);
        if 0 <= k < s.len() {
            lemma_lines_len(s.subrange(k + 1, s.len() as int));
        }
    }
}

/// All lines of `s` (`s.lines()`).
pub fn all_lines(s: &str) -> (r: Vec<String>)
    ensures
        views(r@) == lines(s@),
{
    let n = chars_of(s).len();
    proof {
        lemma_lines_len(s@);
    }
    let r = lines_upto(s, n);
    assert(lines(s@).take(lines(s@).len() as int) =~= lines(s@));
    r
}

/// The first line of `s` (`s.lines().next().unwrap_or("")`).
pub fn first_line_of(s: &str) -> (r: String)
    ensures
        r@ == first_line(s@),
{
    let ls = lines_upto(s, 1);
    assert(views(ls@).len() == ls@.len());
    if ls.len() > 0 {
        assert(views(ls@)[0] == ls@[0]@);
        assert(lines(s@).len() >= 1);
        assert(lines(s@).take(1)[0] == lines(s@)[0]);
        copy_string(&ls[0])
    } else {
        assert(lines(s@).len() == 0);
        let r = String::new();
        assert(r@ =~= Seq::<char>::empty());
        r
    }
}


// ---------------------------------------------------------------------------
// Splitting after spaces (`split_inclusive(' ')`)
// ---------------------------------------------------------------------------

/// Index of the first space at or after `i`, or `s.len()`.
pub open spec fn space_at(s: Seq<char>, i: int) -> int
    decreases s.len() - i,
{
    if i < 0 || i >= s.len() {
        s.len() as int
    } else if s[i] == ' ' {
        i
    } else {
        space_at(s, i + 1)
    }
}

/// The pieces of `s` each ending just after a space (the last piece may
/// end without one); no empty piece.
pub open spec fn space_pieces(s: Seq<char>) -> Seq<Seq<char>>
    decreases s.len(),
{
    if s.len() == 0 {
        Seq::empty()
    } else {
        let k = space_at(s, 0);
        if 0 <= k < s.len() {
            seq![s.subrange(0, k + 1)] + space_pieces(s.subrange(k + 1, s.len() as int))
        } else {
            seq![s]
        }
    }
}

proof fn lemma_space_at(s: Seq<char>, i: int, k: int)
    requires
        0 <= i <= k <= s.len(),
        forall|j: int| i <= j < k ==> s[j] != ' ',
        k < s.len() ==> s[k] == ' ',
    ensures
        space_at(s, i) == k,
    decreases k - i,
{
    if i < k {
        lemma_space_at(s, i + 1, k);
    }
}

/// `s.split_inclusive(' ')`, each piece owned.
pub fn split_after_spaces(s: &str) -> (r: Vec<String>)
    ensures
        views(r@) == space_pieces(s@),
{
    let v = chars_of(s);
    let mut out: Vec<String> = Vec::new();
    let mut pos: usize = 0;
    assert(v@.subrange(0, v.len() as int) =~= v@);
    assert(views(out@) + space_pieces(v@) =~= space_pieces(v@));
    while pos < v.len()
        invariant
            v@ == s@,
            pos <= v.len(),
            space_pieces(s@) == views(out@) + space_pieces(v@.subrange(pos as int, v.len() as int)),
        decreases v.len() - pos,
    {
        let ghost rest = v@.subrange(pos as int, v.len() as int);
        let mut k = pos;
        while k < v.len() && v[k] != ' '
            invariant
                pos <= k <= v.len(),
                forall|j: int| pos <= j < k ==> v@[j] != ' ',
            decreases v.len() - k,
        {
            k += 1;
        }
        proof {
            assert forall|j: int| 0 <= j < k - pos implies rest[j] != ' ' by {
                assert(rest[j] == v@[pos + j]);
            }
            if k < v.len() {
                assert(rest[k - pos] == v@[k as int]);
            }
            lemma_space_at(rest, 0, k - pos);
        }
        let end = if k < v.len() { k + 1 } else { k };
        let piece = string_from_chars(&v, pos, end);
        let ghost before = views(out@);
        out.push(piece);
        proof {
            assert(views(out@) =~= before.push(piece@));
            if k < v.len() {
                assert(rest.subrange(0, k - pos + 1) =~= piece@);
                assert(rest.subrange(k - pos + 1, rest.len() as int) =~= v@.subrange(end as int, v.len() as int));
                assert(before + space_pieces(rest) =~= views(out@) + space_pieces(v@.subrange(end as int, v.len() as int)));
            } else {
                assert(rest =~= piece@);
                assert(v@.subrange(end as int, v.len() as int).len() == 0);
                assert(before + space_pieces(rest) =~= views(out@) + space_pieces(v@.subrange(end as int, v.len() as int)));
            }
        }
        pos = end;
    }
    proof {
        assert(v@.subrange(pos as int, v.len() as int).len() == 0);
        assert(views(out@) + Seq::<Seq<char>>::empty() =~= views(out@));
    }
    out
}

} // verus!
