//! Dictionary order, of lists of numbers and of texts.

use vstd::prelude::*;

use crate::text::Characters;

verus! {

/// A list of numbers comes at or before another one in dictionary order.
pub open spec fn in_order(a: Seq<nat>, b: Seq<nat>) -> bool
    decreases a.len(),
{
    if a.len() == 0 {
        true
    } else if b.len() == 0 {
        false
    } else if a[0] != b[0] {
        a[0] < b[0]
    } else {
        in_order(a.skip(1), b.skip(1))
    }
}

/// A text as the code points of its characters.
pub open spec fn text_numbers(text: Seq<char>) -> Seq<nat> {
    text.map_values(|c: char| c as nat)
}

/// A text comes at or before another one: the first character that differs decides, by its code
/// point, and a text comes before every longer one that begins with it.
pub open spec fn text_at_most(a: Seq<char>, b: Seq<char>) -> bool {
    in_order(text_numbers(a), text_numbers(b))
}

/// A text comes before another one.
pub open spec fn text_before(a: Seq<char>, b: Seq<char>) -> bool {
    text_at_most(a, b) && a != b
}

pub(crate) proof fn lemma_in_order_is_total(a: Seq<nat>, b: Seq<nat>)
    ensures
        in_order(a, b) || in_order(b, a),
    decreases a.len(),
{
    if a.len() > 0 && b.len() > 0 {
        lemma_in_order_is_total(a.skip(1), b.skip(1));
    }
}

pub(crate) proof fn lemma_in_order_is_antisymmetric(a: Seq<nat>, b: Seq<nat>)
    requires
        in_order(a, b),
        in_order(b, a),
    ensures
        a == b,
    decreases a.len(),
{
    if a.len() == 0 || b.len() == 0 {
        assert(a =~= b);
    } else {
        lemma_in_order_is_antisymmetric(a.skip(1), b.skip(1));
        assert(a =~= seq![a[0]] + a.skip(1));
        assert(b =~= seq![b[0]] + b.skip(1));
    }
}

pub(crate) proof fn lemma_in_order_is_transitive(a: Seq<nat>, b: Seq<nat>, c: Seq<nat>)
    requires
        in_order(a, b),
        in_order(b, c),
    ensures
        in_order(a, c),
    decreases a.len(),
{
    if a.len() > 0 && a[0] == b[0] && b[0] == c[0] {
        lemma_in_order_is_transitive(a.skip(1), b.skip(1), c.skip(1));
    }
}

proof fn lemma_character_from_number(a: char, b: char)
    requires
        a as nat == b as nat,
    ensures
        a == b,
{
}

pub(crate) proof fn lemma_text_from_numbers(a: Seq<char>, b: Seq<char>)
    requires
        text_numbers(a) == text_numbers(b),
    ensures
        a == b,
{
    assert(text_numbers(a).len() == a.len() && text_numbers(b).len() == b.len());
    assert forall|i: int| 0 <= i < a.len() implies a[i] == b[i] by {
        assert(text_numbers(a)[i] == a[i] as nat && text_numbers(b)[i] == b[i] as nat);
        lemma_character_from_number(a[i], b[i]);
    }
    assert(a =~= b);
}

/// Of two texts that differ exactly one comes before the other.
pub proof fn law_texts_are_fully_ordered(a: Seq<char>, b: Seq<char>)
    requires
        a != b,
    ensures
        text_before(a, b) <==> !text_before(b, a),
{
    lemma_in_order_is_total(text_numbers(a), text_numbers(b));
    if text_at_most(a, b) && text_at_most(b, a) {
        lemma_in_order_is_antisymmetric(text_numbers(a), text_numbers(b));
        lemma_text_from_numbers(a, b);
    }
}

/// The order of texts is transitive.
pub proof fn law_the_order_of_texts_is_transitive(a: Seq<char>, b: Seq<char>, c: Seq<char>)
    requires
        text_before(a, b),
        text_before(b, c),
    ensures
        text_before(a, c),
{
    lemma_in_order_is_transitive(text_numbers(a), text_numbers(b), text_numbers(c));
    if a == c {
        law_texts_are_fully_ordered(a, b);
    }
}

/// Whether one character has a smaller code point than another.
fn CharacterBefore(a: char, b: char) -> (bBefore: bool)
    ensures
        bBefore == ((a as nat) < (b as nat)),
{
    (a as u32) < (b as u32)
}

/// Whether one text comes at or before another one.
pub(crate) fn TextAtMost(strA: &str, strB: &str) -> (bAtMost: bool)
    ensures
        bAtMost == text_at_most(strA@, strB@),
{
    let vecA = Characters(strA);
    let vecB = Characters(strB);
    let ghost a = text_numbers(vecA@);
    let ghost b = text_numbers(vecB@);
    let mut uAt: usize = 0;
    assert(a.skip(0) =~= a && b.skip(0) =~= b);
    while uAt < vecA.len() && uAt < vecB.len()
        invariant
            uAt <= vecA@.len(),
            uAt <= vecB@.len(),
            vecA@ == strA@,
            vecB@ == strB@,
            a == text_numbers(vecA@),
            b == text_numbers(vecB@),
            in_order(a, b) == in_order(a.skip(uAt as int), b.skip(uAt as int)),
        decreases vecA@.len() - uAt,
    {
        assert(a.skip(uAt as int)[0] == vecA@[uAt as int] as nat);
        assert(b.skip(uAt as int)[0] == vecB@[uAt as int] as nat);
        if CharacterBefore(vecA[uAt], vecB[uAt]) {
            return true;
        }
        if CharacterBefore(vecB[uAt], vecA[uAt]) {
            return false;
        }
        assert(a.skip(uAt as int).skip(1) =~= a.skip(uAt + 1));
        assert(b.skip(uAt as int).skip(1) =~= b.skip(uAt + 1));
        uAt += 1;
    }
    uAt == vecA.len()
}

} // verus!
