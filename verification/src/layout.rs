//! The text of an identifier: machine identifier, timestamp and counter,
//! joined by hyphens.

use crate::decimal::{
    all_digits, decimal, digits_value, is_digit, lemma_decimal_injective, lemma_decimal_len,
    lemma_decimal_reads_back, lemma_zero_padded_injective, lemma_zero_padded_reads_back, pow10,
    zero_padded,
};
use crate::order::{lemma_digits_differ, lemma_first_difference_within, sorts_before};
use vstd::prelude::*;

verus! {

/// The least number of characters that the counter takes in an identifier.
pub const COUNTER_WIDTH: usize = 4;

/// The character between the fields of an identifier.
pub open spec fn separator() -> Seq<char> {
    seq!['-']
}

/// The counter field: decimal, zero-padded to at least [`COUNTER_WIDTH`]
/// characters.
pub open spec fn counter_text(counter: nat) -> Seq<char> {
    zero_padded(counter, COUNTER_WIDTH as nat)
}

/// The identifier made of a machine identifier, a timestamp in milliseconds
/// and a counter: the machine identifier as it is, the timestamp in decimal
/// without padding, and the counter field, with a hyphen between each two.
pub open spec fn id_text(machine_id: Seq<char>, timestamp: nat, counter: nat) -> Seq<char> {
    machine_id + separator() + decimal(timestamp) + separator() + counter_text(counter)
}

/// Whether `id` has the shape `<machine_id>-<digits>-<digits>`: after the
/// machine identifier and a hyphen come one or more digits, another hyphen,
/// and at least [`COUNTER_WIDTH`] digits, exactly that many where they stand
/// for a number below ten thousand.
pub open spec fn has_id_shape(id: Seq<char>, machine_id: Seq<char>) -> bool {
    exists|timestamp: Seq<char>, counter: Seq<char>|
        {
            &&& id == machine_id + separator() + timestamp + separator() + counter
            &&& timestamp.len() >= 1
            &&& all_digits(timestamp)
            &&& counter.len() >= COUNTER_WIDTH
            &&& all_digits(counter)
            &&& digits_value(counter) < 10000 ==> counter.len() == COUNTER_WIDTH
        }
}

/// The counter field holds digits only and stands for the counter. It has
/// four characters for every counter below ten thousand, and is the plain
/// decimal text, longer and not cut, from ten thousand on.
pub proof fn lemma_counter_text(counter: nat)
    ensures
        all_digits(counter_text(counter)),
        digits_value(counter_text(counter)) == counter,
        counter_text(counter).len() >= COUNTER_WIDTH,
        counter < 10000 ==> counter_text(counter).len() == COUNTER_WIDTH,
        counter >= 10000 ==> counter_text(counter) == decimal(counter),
{
    lemma_zero_padded_reads_back(counter, COUNTER_WIDTH as nat);
    lemma_decimal_len(counter, 4);
    assert(pow10(4) == 10000) by {
        reveal_with_fuel(pow10, 5);
    }
}

/// Every identifier has the shape `<machine_id>-<digits>-<digits>`, whatever
/// it was made from.
pub proof fn lemma_id_shape(machine_id: Seq<char>, timestamp: nat, counter: nat)
    ensures
        has_id_shape(id_text(machine_id, timestamp, counter), machine_id),
{
    lemma_decimal_reads_back(timestamp);
    lemma_counter_text(counter);
    let ts = decimal(timestamp);
    let ct = counter_text(counter);
    assert(id_text(machine_id, timestamp, counter) == machine_id + separator() + ts + separator()
        + ct);
}

/// An identifier begins with the machine identifier, as it was given, and a
/// hyphen follows it.
pub proof fn lemma_id_begins_with_machine_id(machine_id: Seq<char>, timestamp: nat, counter: nat)
    ensures
        id_text(machine_id, timestamp, counter).len() > machine_id.len(),
        id_text(machine_id, timestamp, counter).subrange(0, machine_id.len() as int)
            == machine_id,
        id_text(machine_id, timestamp, counter)[machine_id.len() as int] == '-',
{
    let id = id_text(machine_id, timestamp, counter);
    assert(id.subrange(0, machine_id.len() as int) =~= machine_id);
}

/// What follows the machine identifier and its hyphen in an identifier.
spec fn fields(timestamp: nat, counter: nat) -> Seq<char> {
    decimal(timestamp) + separator() + counter_text(counter)
}

/// The timestamp field ends at the first hyphen: the fields of two
/// identifiers are the same text only if the timestamps are the same number.
proof fn lemma_fields_timestamp(t1: nat, c1: nat, t2: nat, c2: nat)
    requires
        fields(t1, c1) == fields(t2, c2),
    ensures
        decimal(t1).len() == decimal(t2).len(),
{
    lemma_decimal_reads_back(t1);
    lemma_decimal_reads_back(t2);
    let a = decimal(t1);
    let b = decimal(t2);
    if a.len() < b.len() {
        assert(fields(t1, c1)[a.len() as int] == '-');
        assert(fields(t2, c2)[a.len() as int] == b[a.len() as int]);
        assert(is_digit(b[a.len() as int]));
    } else if b.len() < a.len() {
        assert(fields(t2, c2)[b.len() as int] == '-');
        assert(fields(t1, c1)[b.len() as int] == a[b.len() as int]);
        assert(is_digit(a[b.len() as int]));
    }
}

/// With one machine identifier, two identifiers are the same text only if
/// they were made from the same timestamp and the same counter.
pub proof fn lemma_id_text_injective(
    machine_id: Seq<char>,
    t1: nat,
    c1: nat,
    t2: nat,
    c2: nat,
)
    requires
        id_text(machine_id, t1, c1) == id_text(machine_id, t2, c2),
    ensures
        t1 == t2,
        c1 == c2,
{
    let head = machine_id + separator();
    let id1 = id_text(machine_id, t1, c1);
    let id2 = id_text(machine_id, t2, c2);
    assert(id1 =~= head + fields(t1, c1));
    assert(id2 =~= head + fields(t2, c2));
    assert(fields(t1, c1) =~= id1.subrange(head.len() as int, id1.len() as int));
    assert(fields(t2, c2) =~= id2.subrange(head.len() as int, id2.len() as int));
    lemma_fields_timestamp(t1, c1, t2, c2);
    let a = decimal(t1);
    let b = decimal(t2);
    let f1 = fields(t1, c1);
    let f2 = fields(t2, c2);
    assert(a =~= f1.subrange(0, a.len() as int));
    assert(b =~= f2.subrange(0, b.len() as int));
    lemma_decimal_injective(t1, t2);
    assert(counter_text(c1) =~= f1.subrange(a.len() as int + 1, f1.len() as int));
    assert(counter_text(c2) =~= f2.subrange(b.len() as int + 1, f2.len() as int));
    lemma_zero_padded_injective(c1, COUNTER_WIDTH as nat, c2, COUNTER_WIDTH as nat);
}

/// Identifiers of one machine sort in the order of timestamp first, counter
/// second, as long as the field that decides has the same length in both:
/// the timestamp field where the timestamps differ, the counter field where
/// they do not.
pub proof fn lemma_ids_sort_by_fields(
    machine_id: Seq<char>,
    t1: nat,
    c1: nat,
    t2: nat,
    c2: nat,
)
    requires
        t1 < t2 || (t1 == t2 && c1 < c2),
        t1 < t2 ==> decimal(t1).len() == decimal(t2).len(),
        t1 == t2 ==> counter_text(c1).len() == counter_text(c2).len(),
    ensures
        sorts_before(id_text(machine_id, t1, c1), id_text(machine_id, t2, c2)),
{
    lemma_decimal_reads_back(t1);
    lemma_decimal_reads_back(t2);
    lemma_counter_text(c1);
    lemma_counter_text(c2);
    let id1 = id_text(machine_id, t1, c1);
    let id2 = id_text(machine_id, t2, c2);
    if t1 < t2 {
        let head = machine_id + separator();
        let at = lemma_digits_differ(decimal(t1), decimal(t2));
        lemma_first_difference_within(
            head,
            decimal(t1),
            separator() + counter_text(c1),
            decimal(t2),
            separator() + counter_text(c2),
            at,
        );
        assert(id1 =~= head + decimal(t1) + (separator() + counter_text(c1)));
        assert(id2 =~= head + decimal(t2) + (separator() + counter_text(c2)));
    } else {
        let head = machine_id + separator() + decimal(t1) + separator();
        let at = lemma_digits_differ(counter_text(c1), counter_text(c2));
        lemma_first_difference_within(
            head,
            counter_text(c1),
            Seq::empty(),
            counter_text(c2),
            Seq::empty(),
            at,
        );
        assert(id1 =~= head + counter_text(c1) + Seq::empty());
        assert(id2 =~= head + counter_text(c2) + Seq::empty());
    }
}

} // verus!
