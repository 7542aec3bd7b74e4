//! Verified text utilities.
//!
//! Stored event dates are canonical ISO-8601 strings, so chronological
//! comparison is plain lexicographic string comparison; this module
//! supplies that order together with substring search (the title
//! filter) and whitespace-separated word search (HTML class matching).

use vstd::prelude::*;
use vstd::string::StrSliceExecFns;

verus! {

/// Lexicographic order on character sequences, by code point.
pub open spec fn lex_le(a: Seq<char>, b: Seq<char>) -> bool
    decreases a.len(),
{
    if a.len() == 0 {
        true
    } else if b.len() == 0 {
        false
    } else if (a[0] as u32) < (b[0] as u32) {
        true
    } else if (b[0] as u32) < (a[0] as u32) {
        false
    } else {
        lex_le(a.skip(1), b.skip(1))
    }
}

pub proof fn lemma_lex_le_refl(a: Seq<char>)
    ensures
        lex_le(a, a),
    decreases a.len(),
{
    if a.len() > 0 {
        lemma_lex_le_refl(a.skip(1));
    }
}

pub proof fn lemma_lex_le_total(a: Seq<char>, b: Seq<char>)
    ensures
        lex_le(a, b) || lex_le(b, a),
    decreases a.len(),
{
    if a.len() == 0 {
    } else if b.len() == 0 {
    } else if (a[0] as u32) < (b[0] as u32) {
    } else if (b[0] as u32) < (a[0] as u32) {
    } else {
        lemma_lex_le_total(a.skip(1), b.skip(1));
    }
}

pub proof fn lemma_lex_le_trans(a: Seq<char>, b: Seq<char>, c: Seq<char>)
    requires
        lex_le(a, b),
        lex_le(b, c),
    ensures
        lex_le(a, c),
    decreases a.len(),
{
    if a.len() == 0 {
    } else {
        assert(b.len() > 0);
        assert(c.len() > 0);
        let x = a[0] as u32;
        let y = b[0] as u32;
        let z = c[0] as u32;
        if x < y {
            assert(!(z < y));
            assert(x < z);
        } else {
            assert(x == y);
            if y < z {
            } else {
                assert(y == z);
                lemma_lex_le_trans(a.skip(1), b.skip(1), c.skip(1));
            }
        }
    }
}

/// Dropping one more leading character from both sides keeps `lex_le`
/// unchanged while the current characters agree.
proof fn lemma_lex_le_skip(a: Seq<char>, b: Seq<char>, i: int)
    requires
        0 <= i < a.len(),
        0 <= i < b.len(),
        (a[i] as u32) == (b[i] as u32),
    ensures
        lex_le(a.skip(i), b.skip(i)) == lex_le(a.skip(i + 1), b.skip(i + 1)),
{
    assert(a.skip(i)[0] == a[i]);
    assert(b.skip(i)[0] == b[i]);
    assert(a.skip(i).skip(1) =~= a.skip(i + 1));
    assert(b.skip(i).skip(1) =~= b.skip(i + 1));
}

/// Compare two strings in the lexicographic (code point) order.
pub fn str_le(a: &str, b: &str) -> (r: bool)
    ensures
        r == lex_le(a@, b@),
{
    let a_len = a.unicode_len();
    let b_len = b.unicode_len();
    let mut i: usize = 0;
    proof {
        assert(a@.skip(0) =~= a@);
        assert(b@.skip(0) =~= b@);
    }
    loop
        invariant
            0 <= i <= a_len,
            0 <= i <= b_len,
            a_len == a@.len(),
            b_len == b@.len(),
            lex_le(a@, b@) == lex_le(a@.skip(i as int), b@.skip(i as int)),
        decreases a_len - i,
    {
        if i == a_len {
            assert(a@.skip(i as int).len() == 0);
            return true;
        }
        if i == b_len {
            assert(b@.skip(i as int).len() == 0);
            assert(a@.skip(i as int).len() > 0);
            return false;
        }
        let ca = a.get_char(i);
        let cb = b.get_char(i);
        if (ca as u32) < (cb as u32) {
            assert(a@.skip(i as int)[0] == a@[i as int]);
            assert(b@.skip(i as int)[0] == b@[i as int]);
            return true;
        }
        if (cb as u32) < (ca as u32) {
            assert(a@.skip(i as int)[0] == a@[i as int]);
            assert(b@.skip(i as int)[0] == b@[i as int]);
            return false;
        }
        proof {
            lemma_lex_le_skip(a@, b@, i as int);
        }
        i = i + 1;
    }
}

/// Whether the characters of `a` and `b` agree.
pub fn str_eq(a: &str, b: &str) -> (r: bool)
    ensures
        r == (a@ == b@),
{
    let a_len = a.unicode_len();
    let b_len = b.unicode_len();
    if a_len != b_len {
        return false;
    }
    let mut i: usize = 0;
    while i < a_len
        invariant
            0 <= i <= a_len,
            a_len == a@.len(),
            a_len == b@.len(),
            forall|j: int| 0 <= j < i ==> a@[j] == b@[j],
        decreases a_len - i,
    {
        if a.get_char(i) != b.get_char(i) {
            return false;
        }
        i = i + 1;
    }
    proof {
        assert(a@ =~= b@);
    }
    true
}

/// `p` occurs in `t` starting at position `i`.
pub open spec fn occurs_at(t: Seq<char>, p: Seq<char>, i: int) -> bool {
    0 <= i && i + p.len() <= t.len() && t.subrange(i, i + p.len()) == p
}

/// `p` occurs somewhere in `t` as a contiguous run.
pub open spec fn contains_seq(t: Seq<char>, p: Seq<char>) -> bool {
    exists|i: int| occurs_at(t, p, i)
}

/// Whether `pat` occurs in `text` starting at position `i`.
fn match_at(text: &str, pat: &str, i: usize, t_len: usize, p_len: usize) -> (r: bool)
    requires
        i + p_len <= t_len,
        t_len == text@.len(),
        p_len == pat@.len(),
    ensures
        r == occurs_at(text@, pat@, i as int),
{
    let mut j: usize = 0;
    while j < p_len
        invariant
            0 <= j <= p_len,
            i + p_len <= t_len,
            t_len == text@.len(),
            p_len == pat@.len(),
            forall|m: int| 0 <= m < j ==> text@[i + m] == pat@[m],
        decreases p_len - j,
    {
        let ct = text.get_char(i + j);
        let cp = pat.get_char(j);
        if ct != cp {
            proof {
                if occurs_at(text@, pat@, i as int) {
                    assert(text@.subrange(i as int, i + p_len)[j as int] == pat@[j as int]);
                }
            }
            return false;
        }
        j = j + 1;
    }
    proof {
        assert(text@.subrange(i as int, i + p_len) =~= pat@);
    }
    true
}

/// Whether `pat` occurs in `text` as a contiguous substring.
pub fn contains_sub(text: &str, pat: &str) -> (r: bool)
    ensures
        r == contains_seq(text@, pat@),
{
    let t_len = text.unicode_len();
    let p_len = pat.unicode_len();
    if p_len == 0 {
        proof {
            assert(text@.subrange(0, 0) =~= pat@);
            assert(occurs_at(text@, pat@, 0));
        }
        return true;
    }
    if p_len > t_len {
        assert(forall|i: int| !occurs_at(text@, pat@, i));
        return false;
    }
    let mut i: usize = 0;
    while i <= t_len - p_len
        invariant
            0 <= i <= t_len - p_len + 1,
            0 < p_len <= t_len,
            t_len == text@.len(),
            p_len == pat@.len(),
            forall|k: int| 0 <= k < i ==> !occurs_at(text@, pat@, k),
        decreases t_len - p_len + 1 - i,
    {
        if match_at(text, pat, i, t_len, p_len) {
            return true;
        }
        i = i + 1;
    }
    assert(forall|k: int| !occurs_at(text@, pat@, k));
    false
}

/// The whitespace characters that separate words in an HTML `class`
/// attribute value.
pub open spec fn is_space(c: char) -> bool {
    c == ' ' || c == '\t' || c == '\n' || c == '\r' || c == '\x0c'
}

fn space_char(c: char) -> (r: bool)
    ensures
        r == is_space(c),
{
    c == ' ' || c == '\t' || c == '\n' || c == '\r' || c == '\x0c'
}

/// `w` occurs in `s` at position `i` bounded by whitespace or the ends
/// of `s`.
pub open spec fn word_at(s: Seq<char>, w: Seq<char>, i: int) -> bool {
    &&& occurs_at(s, w, i)
    &&& (i == 0 || is_space(s[i - 1]))
    &&& (i + w.len() == s.len() || is_space(s[i + w.len()]))
}

/// `w` is one of the whitespace-separated words of `s`. For a nonempty
/// `w` without whitespace this is exactly membership in the
/// whitespace-split word list of `s`.
pub open spec fn has_word(s: Seq<char>, w: Seq<char>) -> bool {
    w.len() > 0 && exists|i: int| word_at(s, w, i)
}

/// Whether `word` is one of the whitespace-separated words of `s`.
pub fn contains_word(s: &str, word: &str) -> (r: bool)
    ensures
        r == has_word(s@, word@),
{
    let s_len = s.unicode_len();
    let w_len = word.unicode_len();
    if w_len == 0 {
        return false;
    }
    if w_len > s_len {
        assert(forall|i: int| !occurs_at(s@, word@, i));
        return false;
    }
    let mut i: usize = 0;
    while i <= s_len - w_len
        invariant
            0 <= i <= s_len - w_len + 1,
            0 < w_len <= s_len,
            s_len == s@.len(),
            w_len == word@.len(),
            forall|k: int| 0 <= k < i ==> !word_at(s@, word@, k),
        decreases s_len - w_len + 1 - i,
    {
        let left_ok = i == 0 || space_char(s.get_char(i - 1));
        let right_ok = i + w_len == s_len || space_char(s.get_char(i + w_len));
        if left_ok && right_ok {
            if match_at(s, word, i, s_len, w_len) {
                assert(word_at(s@, word@, i as int));
                return true;
            }
        }
        i = i + 1;
    }
    assert(forall|k: int| !word_at(s@, word@, k));
    false
}

} // verus!
