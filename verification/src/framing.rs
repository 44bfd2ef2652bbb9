//! The request frame written out, and that the decoder reads back what was
//! written.

use crate::command::PING;
use crate::wire::{
    bulk_string, bulk_string_array, bulk_strings, bulk_wire, decimal_digits, decimal_value,
    digits_end, is_digit, length_field, line_break, ARRAY_SIGIL, BULK_SIGIL, CR, INLINE_PING, LF,
    ZERO,
};
use vstd::prelude::*;

verus! {

/// The wire form of bulk strings in a row.
pub open spec fn bulk_strings_wire(elements: Seq<Seq<u8>>) -> Seq<u8>
    decreases elements.len(),
{
    if elements.len() == 0 {
        Seq::empty()
    } else {
        bulk_wire(Some(elements[0])) + bulk_strings_wire(
            elements.subrange(1, elements.len() as int),
        )
    }
}

/// The wire form of an array of bulk strings: `*`, the number of elements in
/// decimal, a line break, and the elements as bulk strings.
pub open spec fn array_wire(elements: Seq<Seq<u8>>) -> Seq<u8> {
    seq![ARRAY_SIGIL] + decimal_digits(elements.len()) + line_break() + bulk_strings_wire(
        elements,
    )
}

/// Whether the bytes `part` stand in `s` from index `pos` on.
pub open spec fn stands_at(s: Seq<u8>, pos: int, part: Seq<u8>) -> bool {
    0 <= pos && pos + part.len() <= s.len() && s.subrange(pos, pos + part.len()) == part
}

proof fn lemma_stands_at_bytes(s: Seq<u8>, pos: int, part: Seq<u8>)
    requires
        stands_at(s, pos, part),
    ensures
        forall|k: int| 0 <= k < part.len() ==> s[pos + k] == #[trigger] part[k],
{
    assert forall|k: int| 0 <= k < part.len() implies s[pos + k] == #[trigger] part[k] by {
        assert(s.subrange(pos, pos + part.len())[k] == s[pos + k]);
    }
}

proof fn lemma_stands_at_split(s: Seq<u8>, pos: int, head: Seq<u8>, tail: Seq<u8>)
    requires
        stands_at(s, pos, head + tail),
    ensures
        stands_at(s, pos, head),
        stands_at(s, pos + head.len(), tail),
{
    lemma_stands_at_bytes(s, pos, head + tail);
    assert forall|k: int| 0 <= k < head.len() implies s.subrange(pos, pos + head.len())[k]
        == head[k] by {
        assert((head + tail)[k] == head[k]);
    }
    assert(s.subrange(pos, pos + head.len()) =~= head);
    assert forall|k: int| 0 <= k < tail.len() implies s.subrange(
        pos + head.len(),
        pos + head.len() + tail.len(),
    )[k] == tail[k] by {
        assert((head + tail)[head.len() + k] == tail[k]);
    }
    assert(s.subrange(pos + head.len(), pos + head.len() + tail.len()) =~= tail);
}

/// The decimal writing of a number is one digit or more, all of them digits,
/// and writes that number.
pub proof fn lemma_decimal_digits_write_the_number(n: nat)
    ensures
        decimal_digits(n).len() >= 1,
        forall|i: int|
            0 <= i < decimal_digits(n).len() ==> is_digit(#[trigger] decimal_digits(n)[i]),
        decimal_value(decimal_digits(n)) == n,
    decreases n,
{
    let digits = decimal_digits(n);
    if n < 10 {
        assert(digits.drop_last() =~= Seq::<u8>::empty());
        assert(decimal_value(digits.drop_last()) == 0);
    } else {
        lemma_decimal_digits_write_the_number(n / 10);
        assert(digits.drop_last() =~= decimal_digits(n / 10));
        assert(digits.last() == (ZERO + n % 10) as u8);
        assert forall|i: int| 0 <= i < digits.len() implies is_digit(#[trigger] digits[i]) by {
            if i < digits.len() - 1 {
                assert(digits[i] == decimal_digits(n / 10)[i]);
            }
        }
    }
}

proof fn lemma_digits_end_of_run(s: Seq<u8>, pos: int, end: int)
    requires
        0 <= pos <= end <= s.len(),
        forall|i: int| pos <= i < end ==> is_digit(#[trigger] s[i]),
        end == s.len() || !is_digit(s[end]),
    ensures
        digits_end(s, pos) == end,
    decreases end - pos,
{
    if pos < end {
        lemma_digits_end_of_run(s, pos + 1, end);
    }
}

/// A length field that was written is read back: its number, and the index
/// behind it.
pub proof fn lemma_length_field_round_trip(s: Seq<u8>, pos: int, sigil: u8, n: nat)
    requires
        stands_at(s, pos, seq![sigil] + decimal_digits(n) + line_break()),
    ensures
        length_field(s, pos, sigil) == Some((n, pos + decimal_digits(n).len() + 3)),
{
    let digits = decimal_digits(n);
    let field = seq![sigil] + digits + line_break();
    let first = pos + 1;
    let end = first + digits.len();
    lemma_decimal_digits_write_the_number(n);
    lemma_stands_at_bytes(s, pos, field);
    assert(field.len() == digits.len() + 3);
    assert(s[pos] == sigil) by {
        assert(field[0] == sigil);
    }
    assert forall|i: int| first <= i < end implies is_digit(#[trigger] s[i]) by {
        assert(field[i - pos] == digits[i - first]);
    }
    assert(s[end] == CR) by {
        assert(field[end - pos] == CR);
    }
    assert(s[end + 1] == LF) by {
        assert(field[end + 1 - pos] == LF);
    }
    lemma_digits_end_of_run(s, first, end);
    assert forall|k: int| 0 <= k < digits.len() implies s.subrange(first, end)[k] == digits[k] by {
        assert(field[k + 1] == digits[k]);
    }
    assert(s.subrange(first, end) =~= digits);
}

/// A bulk string that was written is read back: its bytes, and the index
/// behind it.
pub proof fn lemma_bulk_string_round_trip(s: Seq<u8>, pos: int, bytes: Seq<u8>)
    requires
        stands_at(s, pos, bulk_wire(Some(bytes))),
    ensures
        bulk_string(s, pos) == Some((bytes, pos + bulk_wire(Some(bytes)).len())),
{
    let field = seq![BULK_SIGIL] + decimal_digits(bytes.len()) + line_break();
    let whole = bulk_wire(Some(bytes));
    assert(whole =~= field + (bytes + line_break()));
    lemma_stands_at_split(s, pos, field, bytes + line_break());
    lemma_length_field_round_trip(s, pos, BULK_SIGIL, bytes.len());
    let start = pos + field.len();
    lemma_stands_at_split(s, start, bytes, line_break());
    lemma_stands_at_bytes(s, start + bytes.len(), line_break());
    assert(s[start + bytes.len()] == CR) by {
        assert(line_break()[0] == CR);
    }
    assert(s[start + bytes.len() + 1] == LF) by {
        assert(line_break()[1] == LF);
    }
}

/// Bulk strings that were written in a row are read back, each as it was and
/// in their order.
pub proof fn lemma_bulk_strings_round_trip(s: Seq<u8>, pos: int, elements: Seq<Seq<u8>>)
    requires
        stands_at(s, pos, bulk_strings_wire(elements)),
    ensures
        bulk_strings(s, pos, elements.len()) == Some(elements),
    decreases elements.len(),
{
    if elements.len() == 0 {
        assert(elements =~= Seq::<Seq<u8>>::empty());
    } else {
        let head = bulk_wire(Some(elements[0]));
        let others = elements.subrange(1, elements.len() as int);
        lemma_stands_at_split(s, pos, head, bulk_strings_wire(others));
        lemma_bulk_string_round_trip(s, pos, elements[0]);
        lemma_bulk_strings_round_trip(s, pos + head.len(), others);
        assert(seq![elements[0]] + others =~= elements);
    }
}

/// An array that was written is decoded to the elements that it was written
/// from, whatever bytes follow it: the decoder accepts every well-formed
/// frame and reads it as meant.
pub proof fn lemma_array_round_trip(elements: Seq<Seq<u8>>, rest: Seq<u8>)
    ensures
        bulk_string_array(array_wire(elements) + rest) == Some(elements),
{
    let field = seq![ARRAY_SIGIL] + decimal_digits(elements.len()) + line_break();
    let s = array_wire(elements) + rest;
    assert(s.subrange(0, array_wire(elements).len() as int) =~= array_wire(elements));
    lemma_stands_at_split(s, 0, field, bulk_strings_wire(elements));
    lemma_length_field_round_trip(s, 0, ARRAY_SIGIL, elements.len());
    lemma_bulk_strings_round_trip(s, field.len() as int, elements);
}

/// The inline `PING` is the array that holds `PING` and nothing else.
pub proof fn lemma_inline_ping_is_array_of_ping()
    ensures
        INLINE_PING@ == array_wire(seq![PING@]),
        bulk_string_array(INLINE_PING@) == Some(seq![PING@]),
{
    let elements = seq![PING@];
    assert(elements.subrange(1, 1) =~= Seq::<Seq<u8>>::empty());
    assert(bulk_strings_wire(elements) =~= bulk_wire(Some(PING@))) by {
        reveal_with_fuel(bulk_strings_wire, 2);
    }
    assert(INLINE_PING@ =~= array_wire(elements));
    lemma_array_round_trip(elements, Seq::empty());
    assert(array_wire(elements) + Seq::<u8>::empty() =~= array_wire(elements));
}

} // verus!
