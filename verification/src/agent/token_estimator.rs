//! Allocation-free token estimate for mixed Latin / CJK text.
use crate::text::{is_ascii_punct, is_ascii_punct_char, is_whitespace_char, is_ws};
use vstd::prelude::*;

verus! {

/// CJK Unified Ideographs (and extension A), Hiragana, Katakana, Hangul.
pub open spec fn is_cjk(c: char) -> bool {
    let u = c as u32;
    (0x4E00 <= u && u <= 0x9FFF) || (0x3400 <= u && u <= 0x4DBF) || (0x3040 <= u && u <= 0x30FF)
        || (0xAC00 <= u && u <= 0xD7AF)
}

/// ASCII punctuation plus CJK symbols/punctuation and fullwidth forms.
pub open spec fn is_token_punct(c: char) -> bool {
    let u = c as u32;
    is_ascii_punct(c) || (0x3000 <= u && u <= 0x303F) || (0xFF00 <= u && u <= 0xFFEF)
}

/// Each character falls in exactly one class: CJK, else whitespace, else
/// punctuation, else other.
pub open spec fn class_of(c: char) -> int {
    if is_cjk(c) {
        0
    } else if is_ws(c) {
        1
    } else if is_token_punct(c) {
        2
    } else {
        3
    }
}

/// How many characters of `s` are in class `k`.
pub open spec fn count_class(s: Seq<char>, k: int) -> nat
    decreases s.len(),
{
    if s.len() == 0 {
        0
    } else {
        count_class(s.drop_last(), k) + if class_of(s.last()) == k {
            1nat
        } else {
            0nat
        }
    }
}

pub open spec fn ceil_div(n: nat, d: nat) -> nat
    recommends
        d > 0,
{
    ((n + d - 1) as nat) / d
}

/// The token estimate of `s`:
/// `ceil(0.8·cjk) + ceil((non_cjk − ⌊ws/2⌋)/3.7) + ceil(0.2·punct)`, at least 1,
/// and 0 for the empty text.
pub open spec fn estimate_tokens(s: Seq<char>) -> nat {
    if s.len() == 0 {
        0
    } else {
        let cjk = count_class(s, 0);
        let ws = count_class(s, 1);
        let punct = count_class(s, 2);
        let ascii = (s.len() - cjk) as nat;
        let effective = (ascii - ws / 2) as nat;
        let total = ceil_div(cjk * 8, 10) + ceil_div(effective * 10, 37) + ceil_div(punct * 2, 10);
        if total >= 1 {
            total
        } else {
            1
        }
    }
}

pub proof fn lemma_count_bounds(s: Seq<char>)
    ensures
        count_class(s, 0) + count_class(s, 1) + count_class(s, 2) + count_class(s, 3) == s.len(),
    decreases s.len(),
{
    if s.len() > 0 {
        lemma_count_bounds(s.drop_last());
    }
}

fn char_class(c: char) -> (k: u8)
    ensures
        k as int == class_of(c),
{
    let u = c as u32;
    if (0x4E00 <= u && u <= 0x9FFF) || (0x3400 <= u && u <= 0x4DBF) || (0x3040 <= u && u <= 0x30FF)
        || (0xAC00 <= u && u <= 0xD7AF) {
        0
    } else if is_whitespace_char(c) {
        1
    } else if is_ascii_punct_char(c) || (0x3000 <= u && u <= 0x303F) || (0xFF00 <= u && u
        <= 0xFFEF) {
        2
    } else {
        3
    }
}

/// Estimates the number of model tokens in `text`.
pub fn estimate_token_count(text: &str) -> (n: usize)
    requires
        text@.len() <= usize::MAX / 2,
    ensures
        n == estimate_tokens(text@),
{
    let mut cjk: usize = 0;
    let mut ws: usize = 0;
    let mut punct: usize = 0;
    let mut total: usize = 0;
    for ch in it: text.chars()
        invariant
            it.seq() == text@,
            text@.len() <= usize::MAX / 2,
            total == it.index(),
            total <= text@.len(),
            cjk == count_class(text@.take(total as int), 0),
            ws == count_class(text@.take(total as int), 1),
            punct == count_class(text@.take(total as int), 2),
            cjk + ws + punct <= total,
    {
        proof {
            assert(text@.take(total + 1).drop_last() =~= text@.take(total as int));
            assert(text@.take(total + 1).last() == ch);
            lemma_count_bounds(text@.take(total as int));
        }
        let k = char_class(ch);
        if k == 0 {
            cjk += 1;
        } else if k == 1 {
            ws += 1;
        } else if k == 2 {
            punct += 1;
        }
        total += 1;
    }
    assert(text@.take(total as int) =~= text@);
    if total == 0 {
        return 0;
    }
    let ascii: u128 = (total - cjk) as u128;
    let effective: u128 = ascii - (ws / 2) as u128;
    let cjk_tokens: u128 = ((cjk as u128) * 8 + 9) / 10;
    let ascii_tokens: u128 = (effective * 10 + 36) / 37;
    let punct_tokens: u128 = ((punct as u128) * 2 + 9) / 10;
    let sum: u128 = cjk_tokens + ascii_tokens + punct_tokens;
    assert(sum <= 2 * total) by (nonlinear_arith)
        requires
            cjk_tokens == ((cjk as u128) * 8 + 9) / 10,
            ascii_tokens == (effective * 10 + 36) / 37,
            punct_tokens == ((punct as u128) * 2 + 9) / 10,
            sum == cjk_tokens + ascii_tokens + punct_tokens,
            effective <= ascii,
            ascii + cjk == total,
            punct <= total,
            total >= 1,
    ;
    if sum >= 1 {
        sum as usize
    } else {
        1
    }
}

} // verus!
