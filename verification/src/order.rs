//! The order in which texts sort, character by character, and why texts of
//! digits of one length sort like the numbers they stand for.

use crate::decimal::{all_digits, digit_value, digits_value, is_digit};
use vstd::prelude::*;

verus! {

/// Whether `a` and `b` agree before place `at` and `a` has the smaller
/// character there.
pub open spec fn first_difference(a: Seq<char>, b: Seq<char>, at: int) -> bool {
    &&& 0 <= at < a.len()
    &&& at < b.len()
    &&& a.subrange(0, at) == b.subrange(0, at)
    &&& a[at] < b[at]
}

/// Whether `a` is the beginning of `b`, and shorter.
pub open spec fn proper_prefix(a: Seq<char>, b: Seq<char>) -> bool {
    a.len() < b.len() && b.subrange(0, a.len() as int) == a
}

/// Whether `a` sorts before `b`: it is a beginning of `b`, or has the
/// smaller character where the two first differ.
pub open spec fn sorts_before(a: Seq<char>, b: Seq<char>) -> bool {
    proper_prefix(a, b) || exists|at: int| first_difference(a, b, at)
}

/// Of two texts at most one sorts before the other, and no text sorts
/// before itself.
pub proof fn lemma_sorts_before_one_way(a: Seq<char>, b: Seq<char>)
    requires
        sorts_before(a, b),
    ensures
        a != b,
        !sorts_before(b, a),
{
    if proper_prefix(a, b) {
        assert forall|at: int| !first_difference(b, a, at) by {
            if 0 <= at < a.len() {
                assert(b.subrange(0, a.len() as int)[at] == b[at]);
            }
        }
    } else {
        let at = choose|at: int| first_difference(a, b, at);
        if proper_prefix(b, a) {
            assert(a.subrange(0, b.len() as int)[at] == a[at]);
        }
        assert forall|other: int| !first_difference(b, a, other) by {
            if first_difference(b, a, other) {
                if other < at {
                    assert(a.subrange(0, at)[other] == a[other]);
                    assert(b.subrange(0, at)[other] == b[other]);
                } else if other > at {
                    assert(a.subrange(0, other)[at] == a[at]);
                    assert(b.subrange(0, other)[at] == b[at]);
                }
            }
        }
    }
}

/// Two texts of digits of one length that stand for the same number are the
/// same text.
pub proof fn lemma_digits_value_injective(a: Seq<char>, b: Seq<char>)
    requires
        a.len() == b.len(),
        all_digits(a),
        all_digits(b),
        digits_value(a) == digits_value(b),
    ensures
        a == b,
    decreases a.len(),
{
    if a.len() > 0 {
        assert(is_digit(a.last()) && is_digit(b.last()));
        assert(digit_value(a.last()) == digit_value(b.last()));
        lemma_digits_value_injective(a.drop_last(), b.drop_last());
        assert(a =~= a.drop_last().push(a.last()));
        assert(b =~= b.drop_last().push(b.last()));
    } else {
        assert(a =~= b);
    }
}

/// Two texts of digits of one length differ first where the text of the
/// smaller number has the smaller digit.
pub proof fn lemma_digits_differ(a: Seq<char>, b: Seq<char>) -> (at: int)
    requires
        a.len() == b.len(),
        all_digits(a),
        all_digits(b),
        digits_value(a) < digits_value(b),
    ensures
        first_difference(a, b, at),
    decreases a.len(),
{
    assert(a.len() > 0);
    let a_front = a.drop_last();
    let b_front = b.drop_last();
    assert(is_digit(a.last()) && is_digit(b.last()));
    if digits_value(a_front) < digits_value(b_front) {
        let at = lemma_digits_differ(a_front, b_front);
        assert(a.subrange(0, at) =~= a_front.subrange(0, at));
        assert(b.subrange(0, at) =~= b_front.subrange(0, at));
        at
    } else {
        lemma_digits_value_injective(a_front, b_front);
        let at = a.len() - 1;
        assert(a.subrange(0, at) =~= a_front);
        assert(b.subrange(0, at) =~= b_front);
        at
    }
}

/// A first difference stays one when both texts get the same beginning and
/// any endings.
pub proof fn lemma_first_difference_within(
    head: Seq<char>,
    a: Seq<char>,
    a_tail: Seq<char>,
    b: Seq<char>,
    b_tail: Seq<char>,
    at: int,
)
    requires
        first_difference(a, b, at),
    ensures
        first_difference(head + a + a_tail, head + b + b_tail, head.len() + at),
{
    let left = head + a + a_tail;
    let right = head + b + b_tail;
    let place = head.len() + at;
    assert(left.subrange(0, place) =~= head + a.subrange(0, at));
    assert(right.subrange(0, place) =~= head + b.subrange(0, at));
}

} // verus!
