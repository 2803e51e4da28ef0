//! The order of texts by their characters.

use vstd::prelude::*;

verus! {

/// Whether `a` comes before `b` or is equal to it: the first characters that
/// differ decide, and a text comes after each text that it starts with.
pub open spec fn text_le(a: Seq<char>, b: Seq<char>) -> bool
    decreases a.len(),
{
    if a.len() == 0 {
        true
    } else if b.len() == 0 {
        false
    } else if a[0] != b[0] {
        a[0] < b[0]
    } else {
        text_le(a.drop_first(), b.drop_first())
    }
}

/// Every text comes before itself or is equal to itself.
pub proof fn law_text_le_reflexive(a: Seq<char>)
    ensures
        text_le(a, a),
    decreases a.len(),
{
    if a.len() > 0 {
        law_text_le_reflexive(a.drop_first());
    }
}

/// Of two texts one comes before the other, or they are equal.
pub proof fn law_text_le_total(a: Seq<char>, b: Seq<char>)
    ensures
        text_le(a, b) || text_le(b, a),
    decreases a.len(),
{
    if a.len() > 0 && b.len() > 0 && a[0] == b[0] {
        law_text_le_total(a.drop_first(), b.drop_first());
    }
}

/// What comes before a text comes before all that comes after that text.
pub proof fn law_text_le_transitive(a: Seq<char>, b: Seq<char>, c: Seq<char>)
    requires
        text_le(a, b),
        text_le(b, c),
    ensures
        text_le(a, c),
    decreases a.len(),
{
    if a.len() > 0 && b.len() > 0 && c.len() > 0 && a[0] == b[0] && b[0] == c[0] {
        law_text_le_transitive(a.drop_first(), b.drop_first(), c.drop_first());
    }
}

/// Two texts that each come before the other, or are equal to it, are equal.
pub proof fn law_text_le_antisymmetric(a: Seq<char>, b: Seq<char>)
    requires
        text_le(a, b),
        text_le(b, a),
    ensures
        a == b,
    decreases a.len(),
{
    if a.len() == 0 || b.len() == 0 {
        assert(a =~= b);
    } else {
        law_text_le_antisymmetric(a.drop_first(), b.drop_first());
        assert(a =~= seq![a[0]] + a.drop_first());
        assert(b =~= seq![b[0]] + b.drop_first());
    }
}

/// Whether `a` comes before `b` or is equal to it.
pub fn at_most(a: &[char], b: &[char]) -> (r: bool)
    ensures
        r == text_le(a@, b@),
{
    let mut i: usize = 0;
    assert(a@.skip(0) =~= a@);
    assert(b@.skip(0) =~= b@);
    while i < a.len() && i < b.len() && a[i] == b[i]
        invariant
            i <= a@.len(),
            i <= b@.len(),
            text_le(a@, b@) == text_le(a@.skip(i as int), b@.skip(i as int)),
        decreases a@.len() - i,
    {
        assert(a@.skip(i as int).drop_first() =~= a@.skip(i + 1));
        assert(b@.skip(i as int).drop_first() =~= b@.skip(i + 1));
        i = i + 1;
    }
    if i == a.len() {
        true
    } else if i == b.len() {
        false
    } else {
        a[i] < b[i]
    }
}

/// Behind a common start the first characters that differ decide, by their code
/// points, whatever follows them.
pub proof fn law_first_difference_decides(
    start: Seq<char>,
    c: char,
    d: char,
    x: Seq<char>,
    y: Seq<char>,
)
    requires
        (c as u32) < (d as u32),
    ensures
        text_le(start.push(c) + x, start.push(d) + y),
        !text_le(start.push(d) + y, start.push(c) + x),
    decreases start.len(),
{
    let a = start.push(c) + x;
    let b = start.push(d) + y;
    if start.len() == 0 {
        assert(a[0] == c && b[0] == d);
    } else {
        let rest = start.drop_first();
        law_first_difference_decides(rest, c, d, x, y);
        assert(a.drop_first() =~= rest.push(c) + x);
        assert(b.drop_first() =~= rest.push(d) + y);
        assert(a[0] == start[0] && b[0] == start[0]);
    }
}

/// A text comes before each longer text that it is the start of.
pub proof fn law_start_comes_first(start: Seq<char>, rest: Seq<char>)
    ensures
        text_le(start, start + rest),
        rest.len() > 0 ==> !text_le(start + rest, start),
    decreases start.len(),
{
    if start.len() > 0 {
        law_start_comes_first(start.drop_first(), rest);
        assert((start + rest).drop_first() =~= start.drop_first() + rest);
    }
}

/// Different characters have different code points.
pub proof fn lemma_code_points(c: char, d: char)
    ensures
        c == d <==> c as u32 == d as u32,
{
}

} // verus!
