//! Three-way comparison in specifications, and the lexicographic extension of
//! a total order from elements to sequences.

use std::cmp::Ordering;
use vstd::prelude::*;
use vstd::string::StrSliceExecFns;

verus! {

/// The comparison that swaps its two arguments.
pub open spec fn flip(o: Ordering) -> Ordering {
    match o {
        Ordering::Less => Ordering::Greater,
        Ordering::Equal => Ordering::Equal,
        Ordering::Greater => Ordering::Less,
    }
}

/// Three-way comparison of two mathematical integers.
pub open spec fn int_cmp(a: int, b: int) -> Ordering {
    if a < b {
        Ordering::Less
    } else if a == b {
        Ordering::Equal
    } else {
        Ordering::Greater
    }
}

/// Characters compare by code point.
pub open spec fn char_cmp(a: char, b: char) -> Ordering {
    int_cmp(a as int, b as int)
}

/// `c` is a strict total order given as a three-way comparison.
pub open spec fn is_total_order<T>(c: spec_fn(T, T) -> Ordering) -> bool {
    &&& forall|x: T, y: T| (#[trigger] c(x, y) == Ordering::Equal) == (x == y)
    &&& forall|x: T, y: T| #[trigger] c(y, x) == flip(c(x, y))
    &&& forall|x: T, y: T, z: T|
        #[trigger] c(x, y) == Ordering::Less && #[trigger] c(y, z) == Ordering::Less ==> c(x, z)
            == Ordering::Less
}

/// Lexicographic comparison: the first differing element decides, and a
/// proper prefix comes first.
pub open spec fn lex_cmp<T>(a: Seq<T>, b: Seq<T>, c: spec_fn(T, T) -> Ordering) -> Ordering
    decreases a.len(),
{
    if a.len() == 0 {
        if b.len() == 0 {
            Ordering::Equal
        } else {
            Ordering::Less
        }
    } else if b.len() == 0 {
        Ordering::Greater
    } else if c(a[0], b[0]) != Ordering::Equal {
        c(a[0], b[0])
    } else {
        lex_cmp(a.drop_first(), b.drop_first(), c)
    }
}

/// Lexicographic comparison of character sequences, as strings compare.
pub open spec fn str_cmp(a: Seq<char>, b: Seq<char>) -> Ordering {
    lex_cmp(a, b, |x: char, y: char| char_cmp(x, y))
}

pub proof fn lemma_char_cmp_total()
    ensures
        is_total_order(|x: char, y: char| char_cmp(x, y)),
{
    assert forall|x: char, y: char|
        (char_cmp(x, y) == Ordering::Equal) == (x == y) by {
        if x as int == y as int {
            assert(x as u32 == y as u32);
        }
    }
}

pub proof fn lemma_lex_equal<T>(a: Seq<T>, b: Seq<T>, c: spec_fn(T, T) -> Ordering)
    requires
        is_total_order(c),
    ensures
        (lex_cmp(a, b, c) == Ordering::Equal) == (a == b),
    decreases a.len(),
{
    if a.len() > 0 && b.len() > 0 && c(a[0], b[0]) == Ordering::Equal {
        lemma_lex_equal(a.drop_first(), b.drop_first(), c);
        if a.drop_first() == b.drop_first() {
            assert(a =~= seq![a[0]] + a.drop_first());
            assert(b =~= seq![b[0]] + b.drop_first());
        }
    }
    if a.len() == 0 && b.len() == 0 {
        assert(a =~= b);
    }
    if a == b && a.len() > 0 {
        assert(c(a[0], b[0]) == Ordering::Equal);
    }
}

pub proof fn lemma_lex_flip<T>(a: Seq<T>, b: Seq<T>, c: spec_fn(T, T) -> Ordering)
    requires
        is_total_order(c),
    ensures
        lex_cmp(b, a, c) == flip(lex_cmp(a, b, c)),
    decreases a.len(),
{
    if a.len() > 0 && b.len() > 0 {
        assert(c(b[0], a[0]) == flip(c(a[0], b[0])));
        if c(a[0], b[0]) == Ordering::Equal {
            lemma_lex_flip(a.drop_first(), b.drop_first(), c);
        }
    }
}

pub proof fn lemma_lex_trans<T>(a: Seq<T>, b: Seq<T>, d: Seq<T>, c: spec_fn(T, T) -> Ordering)
    requires
        is_total_order(c),
        lex_cmp(a, b, c) == Ordering::Less,
        lex_cmp(b, d, c) == Ordering::Less,
    ensures
        lex_cmp(a, d, c) == Ordering::Less,
    decreases a.len(),
{
    if a.len() > 0 {
        let x = a[0];
        let y = b[0];
        let z = d[0];
        if c(x, y) == Ordering::Equal && c(y, z) == Ordering::Equal {
            assert(x == y && y == z);
            lemma_lex_trans(a.drop_first(), b.drop_first(), d.drop_first(), c);
        } else if c(x, y) == Ordering::Equal {
            assert(x == y);
        } else if c(y, z) == Ordering::Equal {
            assert(y == z);
        } else {
            assert(c(x, y) == Ordering::Less && c(y, z) == Ordering::Less);
        }
    }
}

/// String comparison says `Equal` exactly of equal strings.
pub proof fn lemma_str_cmp_equal(a: Seq<char>, b: Seq<char>)
    ensures
        (str_cmp(a, b) == Ordering::Equal) == (a == b),
{
    lemma_char_cmp_total();
    lemma_lex_equal(a, b, |x: char, y: char| char_cmp(x, y));
}

/// Swapping the strings flips their comparison.
pub proof fn lemma_str_cmp_flip(a: Seq<char>, b: Seq<char>)
    ensures
        str_cmp(b, a) == flip(str_cmp(a, b)),
{
    lemma_char_cmp_total();
    lemma_lex_flip(a, b, |x: char, y: char| char_cmp(x, y));
}

/// String comparison is transitive.
pub proof fn lemma_str_cmp_trans(a: Seq<char>, b: Seq<char>, d: Seq<char>)
    requires
        str_cmp(a, b) == Ordering::Less,
        str_cmp(b, d) == Ordering::Less,
    ensures
        str_cmp(a, d) == Ordering::Less,
{
    lemma_char_cmp_total();
    lemma_lex_trans(a, b, d, |x: char, y: char| char_cmp(x, y));
}

/// Three-way comparison of two strings, character by character.
pub fn compare_str(a: &str, b: &str) -> (r: Ordering)
    ensures
        r == str_cmp(a@, b@),
{
    let n = a.unicode_len();
    let m = b.unicode_len();
    let mut i: usize = 0;
    assert(a@.skip(0) =~= a@);
    assert(b@.skip(0) =~= b@);
    while i < n && i < m
        invariant
            n == a@.len(),
            m == b@.len(),
            i <= n,
            i <= m,
            str_cmp(a@, b@) == str_cmp(a@.skip(i as int), b@.skip(i as int)),
        decreases n - i,
    {
        let x = a.get_char(i);
        let y = b.get_char(i);
        assert(a@.skip(i as int)[0] == x);
        assert(b@.skip(i as int)[0] == y);
        if x < y {
            return Ordering::Less;
        } else if x > y {
            return Ordering::Greater;
        }
        assert(a@.skip(i as int).drop_first() =~= a@.skip(i + 1));
        assert(b@.skip(i as int).drop_first() =~= b@.skip(i + 1));
        i = i + 1;
    }
    if i < n {
        Ordering::Greater
    } else if i < m {
        Ordering::Less
    } else {
        Ordering::Equal
    }
}

/// Three-way comparison of two integers.
pub fn compare_u16(a: u16, b: u16) -> (r: Ordering)
    ensures
        r == int_cmp(a as int, b as int),
{
    if a < b {
        Ordering::Less
    } else if a == b {
        Ordering::Equal
    } else {
        Ordering::Greater
    }
}

} // verus!
