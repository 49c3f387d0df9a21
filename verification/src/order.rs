//! Lexicographic ordering of strings by code point (optionally folding
//! ASCII upper case to lower case first), and a functional insertion
//! sort used to pin down the exact output of the sorting passes.

use vstd::prelude::*;

verus! {

/// The code point a character sorts under. With `fold` set, ASCII
/// upper-case letters sort as their lower-case counterparts.
pub open spec fn key_code(c: char, fold: bool) -> u32 {
    if fold && 65 <= c as u32 && c as u32 <= 90 {
        (c as u32 + 32) as u32
    } else {
        c as u32
    }
}

/// Lexicographic "less or equal" of `a` and `b`, decided from position
/// `i` on, under the code points of [`key_code`]. A proper prefix sorts
/// before every extension of it.
pub open spec fn lex_le_from(a: Seq<char>, b: Seq<char>, fold: bool, i: int) -> bool
    decreases a.len() - i,
{
    if i >= a.len() {
        true
    } else if i >= b.len() {
        false
    } else if key_code(a[i], fold) == key_code(b[i], fold) {
        lex_le_from(a, b, fold, i + 1)
    } else {
        key_code(a[i], fold) < key_code(b[i], fold)
    }
}

/// Lexicographic "less or equal" on whole strings.
pub open spec fn lex_le(a: Seq<char>, b: Seq<char>, fold: bool) -> bool {
    lex_le_from(a, b, fold, 0)
}

/// Decides [`lex_le`] on two string slices.
pub fn lex_le_str(a: &str, b: &str, fold: bool) -> (r: bool)
    ensures
        r == lex_le(a@, b@, fold),
{
    let alen: usize = a.unicode_len();
    let blen: usize = b.unicode_len();
    let mut i: usize = 0;
    while i < alen && i < blen
        invariant
            alen == a@.len(),
            blen == b@.len(),
            0 <= i <= alen,
            i <= blen,
            lex_le(a@, b@, fold) == lex_le_from(a@, b@, fold, i as int),
        decreases alen - i,
    {
        let ca: char = a.get_char(i);
        let cb: char = b.get_char(i);
        let code_a: u32 = ca as u32;
        let code_b: u32 = cb as u32;
        let ka: u32 = if fold && 65 <= code_a && code_a <= 90 {
            code_a + 32
        } else {
            code_a
        };
        let kb: u32 = if fold && 65 <= code_b && code_b <= 90 {
            code_b + 32
        } else {
            code_b
        };
        if ka != kb {
            return ka < kb;
        }
        i = i + 1;
    }
    i >= alen
}

/// Decides equality of two string slices, in the sense of their
/// character sequences.
pub fn str_eq(a: &str, b: &str) -> (r: bool)
    ensures
        r == (a@ == b@),
{
    let alen: usize = a.unicode_len();
    let blen: usize = b.unicode_len();
    if alen != blen {
        return false;
    }
    let mut i: usize = 0;
    while i < alen
        invariant
            alen == a@.len(),
            blen == b@.len(),
            alen == blen,
            0 <= i <= alen,
            forall|m: int| 0 <= m < i ==> a@[m] == b@[m],
        decreases alen - i,
    {
        if a.get_char(i) != b.get_char(i) {
            return false;
        }
        i = i + 1;
    }
    proof {
        assert(a@ =~= b@);
    }
    true
}

/// Strict lexicographic order on plain strings.
pub open spec fn lex_lt(a: Seq<char>, b: Seq<char>) -> bool {
    lex_le(a, b, false) && a != b
}

/// From any position, one of the two directions holds.
proof fn lemma_lex_le_from_total(a: Seq<char>, b: Seq<char>, fold: bool, i: int)
    requires
        0 <= i,
    ensures
        lex_le_from(a, b, fold, i) || lex_le_from(b, a, fold, i),
    decreases a.len() - i,
{
    if i < a.len() && i < b.len() && key_code(a[i], fold) == key_code(b[i], fold) {
        lemma_lex_le_from_total(a, b, fold, i + 1);
    }
}

/// The order is total.
pub proof fn lemma_lex_le_total(a: Seq<char>, b: Seq<char>, fold: bool)
    ensures
        lex_le(a, b, fold) || lex_le(b, a, fold),
{
    lemma_lex_le_from_total(a, b, fold, 0);
}

/// Without case folding, both directions at once force equality of
/// the tails.
proof fn lemma_lex_le_from_antisym(a: Seq<char>, b: Seq<char>, i: int)
    requires
        0 <= i <= a.len(),
        i <= b.len(),
        lex_le_from(a, b, false, i),
        lex_le_from(b, a, false, i),
    ensures
        a.len() == b.len(),
        forall|m: int| i <= m < a.len() ==> a[m] == b[m],
    decreases a.len() - i,
{
    if i >= a.len() {
        assert(i >= b.len());
    } else {
        assert(i < b.len());
        assert(key_code(a[i], false) == key_code(b[i], false));
        assert(a[i] as u32 == b[i] as u32);
        vstd::utf8::char_u32_cast(a[i], a[i] as u32);
        vstd::utf8::char_u32_cast(b[i], b[i] as u32);
        assert(a[i] == b[i]);
        lemma_lex_le_from_antisym(a, b, i + 1);
    }
}

/// Without case folding, the order is antisymmetric.
pub proof fn lemma_lex_le_antisym(a: Seq<char>, b: Seq<char>)
    requires
        lex_le(a, b, false),
        lex_le(b, a, false),
    ensures
        a == b,
{
    lemma_lex_le_from_antisym(a, b, 0);
    assert(a =~= b);
}

/// From any position, the order composes.
proof fn lemma_lex_le_from_trans(a: Seq<char>, b: Seq<char>, c: Seq<char>, fold: bool, i: int)
    requires
        0 <= i,
        lex_le_from(a, b, fold, i),
        lex_le_from(b, c, fold, i),
    ensures
        lex_le_from(a, c, fold, i),
    decreases a.len() - i,
{
    if i < a.len() {
        assert(i < b.len());
        assert(i < c.len());
        let ka = key_code(a[i], fold);
        let kb = key_code(b[i], fold);
        let kc = key_code(c[i], fold);
        if ka == kb && kb == kc {
            lemma_lex_le_from_trans(a, b, c, fold, i + 1);
        }
    }
}

/// The order is transitive.
pub proof fn lemma_lex_le_trans(a: Seq<char>, b: Seq<char>, c: Seq<char>, fold: bool)
    requires
        lex_le(a, b, fold),
        lex_le(b, c, fold),
    ensures
        lex_le(a, c, fold),
{
    lemma_lex_le_from_trans(a, b, c, fold, 0);
}

/// The strict order is transitive.
pub proof fn lemma_lex_lt_trans(a: Seq<char>, b: Seq<char>, c: Seq<char>)
    requires
        lex_lt(a, b),
        lex_lt(b, c),
    ensures
        lex_lt(a, c),
{
    lemma_lex_le_trans(a, b, c, false);
    if a == c {
        lemma_lex_le_antisym(a, b);
    }
}

/// Decides the strict lexicographic order on two string slices.
pub fn lex_lt_str(a: &str, b: &str) -> (r: bool)
    ensures
        r == lex_lt(a@, b@),
{
    lex_le_str(a, b, false) && !str_eq(a, b)
}

/// Inserts `x` into `s` behind every element that sorts "less or equal"
/// to it under `leq`, so repeated insertion is a stable sort.
pub open spec fn spec_insert_by<T>(s: Seq<T>, x: T, leq: spec_fn(T, T) -> bool) -> Seq<T>
    decreases s.len(),
{
    if s.len() == 0 {
        seq![x]
    } else if leq(s.last(), x) {
        s.push(x)
    } else {
        spec_insert_by(s.drop_last(), x, leq).push(s.last())
    }
}

/// Stable insertion sort of `s` under `leq`: the functional description
/// of what the executable sorting passes return.
pub open spec fn spec_sort_by<T>(s: Seq<T>, leq: spec_fn(T, T) -> bool) -> Seq<T>
    decreases s.len(),
{
    if s.len() == 0 {
        Seq::empty()
    } else {
        spec_insert_by(spec_sort_by(s.drop_last(), leq), s.last(), leq)
    }
}

/// An insertion position found by scanning from the back lands `x`
/// exactly where [`spec_insert_by`] puts it.
pub proof fn lemma_insert_by_position<T>(s: Seq<T>, x: T, leq: spec_fn(T, T) -> bool, j: int)
    requires
        0 <= j <= s.len(),
        forall|m: int| j <= m < s.len() ==> !leq(#[trigger] s[m], x),
        j > 0 ==> leq(s[j - 1], x),
    ensures
        spec_insert_by(s, x, leq) == s.insert(j, x),
    decreases s.len(),
{
    if s.len() == 0 {
        assert(spec_insert_by(s, x, leq) =~= s.insert(0, x));
    } else if leq(s.last(), x) {
        assert(j == s.len());
        assert(spec_insert_by(s, x, leq) =~= s.insert(j, x));
    } else {
        assert(j < s.len());
        lemma_insert_by_position(s.drop_last(), x, leq, j);
        assert(spec_insert_by(s.drop_last(), x, leq).push(s.last()) =~= s.insert(j, x));
    }
}

} // verus!
