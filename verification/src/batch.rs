//! Query text for inserting many rows with one statement.
//!
//! A batch insert names every value of every row by a numbered parameter:
//! ` ($1, $2), ($3, $4)` for two rows of two values. The text is built as
//! bytes, all of them ASCII.

use vstd::prelude::*;

verus! {

pub const SPACE: u8 = 32;

pub const DOLLAR: u8 = 36;

pub const OPEN: u8 = 40;

pub const CLOSE: u8 = 41;

pub const COMMA: u8 = 44;

pub const ZERO: u8 = 48;

/// The decimal digits of `n`, most significant first, without leading
/// zeros.
pub open spec fn decimal(n: nat) -> Seq<u8>
    decreases n,
{
    if n < 10 {
        seq![(ZERO + n) as u8]
    } else {
        decimal(n / 10).push((ZERO + n % 10) as u8)
    }
}

/// The value group of row `row`, rows counted from zero: ` ($a, $b)` with
/// `a` and `b` the numbers of the row's two parameters.
pub open spec fn value_group(row: nat) -> Seq<u8> {
    seq![SPACE, OPEN, DOLLAR] + decimal(2 * row + 1) + seq![COMMA, SPACE, DOLLAR] + decimal(
        2 * row + 2,
    ) + seq![CLOSE]
}

/// What stands before the value group of row `row`: nothing before the
/// first, a comma before every other.
pub open spec fn separator(row: nat) -> Seq<u8> {
    if row == 0 {
        Seq::empty()
    } else {
        seq![COMMA]
    }
}

/// The value groups of `rows` rows, separated by commas.
pub open spec fn value_groups(rows: nat) -> Seq<u8>
    decreases rows,
{
    if rows == 0 {
        Seq::empty()
    } else {
        let row = (rows - 1) as nat;
        value_groups(row) + separator(row) + value_group(row)
    }
}

/// Whether every byte of `text` is an ASCII character.
pub open spec fn is_ascii(text: Seq<u8>) -> bool {
    forall|at: int| 0 <= at < text.len() ==> #[trigger] text[at] < 128
}

/// How often `byte` occurs in `text`.
pub open spec fn occurrences(text: Seq<u8>, byte: u8) -> nat
    decreases text.len(),
{
    if text.len() == 0 {
        0
    } else if text.last() == byte {
        occurrences(text.drop_last(), byte) + 1
    } else {
        occurrences(text.drop_last(), byte)
    }
}

/// Appends the decimal digits of `n` to `out`.
fn push_decimal(out: &mut Vec<u8>, n: u128)
    ensures
        final(out)@ == old(out)@ + decimal(n as nat),
    decreases n,
{
    if n >= 10 {
        push_decimal(out, n / 10);
    }
    let digit: u8 = (n % 10) as u8;
    out.push(ZERO + digit);
    proof {
        assert(final(out)@ =~= old(out)@ + decimal(n as nat));
    }
}

/// Appends the value groups of `rows` rows to `out`.
pub fn push_value_groups(out: &mut Vec<u8>, rows: usize)
    ensures
        final(out)@ == old(out)@ + value_groups(rows as nat),
{
    let mut row: usize = 0;
    while row < rows
        invariant
            row <= rows,
            out@ == old(out)@ + value_groups(row as nat),
        decreases rows - row,
    {
        let ghost before = out@;
        if row > 0 {
            out.push(COMMA);
        }
        out.push(SPACE);
        out.push(OPEN);
        out.push(DOLLAR);
        let first: u128 = 2 * (row as u128) + 1;
        push_decimal(out, first);
        out.push(COMMA);
        out.push(SPACE);
        out.push(DOLLAR);
        push_decimal(out, first + 1);
        out.push(CLOSE);
        proof {
            let added = separator(row as nat) + value_group(row as nat);
            assert(out@ =~= before + added);
            assert(before + added =~= old(out)@ + value_groups((row + 1) as nat));
        }
        row += 1;
    }
}

/// A decimal number is ASCII text.
pub proof fn lemma_decimal_is_ascii(n: nat)
    ensures
        is_ascii(decimal(n)),
    decreases n,
{
    if n >= 10 {
        lemma_decimal_is_ascii(n / 10);
    }
}

/// The value groups of any number of rows are ASCII text, so they are
/// valid UTF-8 as they stand.
pub proof fn lemma_value_groups_are_ascii(rows: nat)
    ensures
        is_ascii(value_groups(rows)),
    decreases rows,
{
    if rows > 0 {
        let row = (rows - 1) as nat;
        lemma_value_groups_are_ascii(row);
        lemma_decimal_is_ascii(2 * row + 1);
        lemma_decimal_is_ascii(2 * row + 2);
    }
}

/// Counting in a text with one more byte at its end.
pub proof fn lemma_occurrences_push(text: Seq<u8>, last: u8, byte: u8)
    ensures
        occurrences(text.push(last), byte) == occurrences(text, byte) + if last == byte {
            1nat
        } else {
            0nat
        },
{
    assert(text.push(last).drop_last() =~= text);
}

/// Counting in two texts put together is counting in each.
pub proof fn lemma_occurrences_concat(left: Seq<u8>, right: Seq<u8>, byte: u8)
    ensures
        occurrences(left + right, byte) == occurrences(left, byte) + occurrences(right, byte),
    decreases right.len(),
{
    if right.len() == 0 {
        assert(left + right =~= left);
    } else {
        lemma_occurrences_concat(left, right.drop_last(), byte);
        assert((left + right).drop_last() =~= left + right.drop_last());
    }
}

/// A decimal number holds digits only.
pub proof fn lemma_decimal_has_only_digits(n: nat, byte: u8)
    requires
        byte < ZERO || byte > ZERO + 9,
    ensures
        occurrences(decimal(n), byte) == 0,
    decreases n,
{
    if n < 10 {
        assert(decimal(n) =~= Seq::<u8>::empty().push((ZERO + n) as u8));
        lemma_occurrences_push(Seq::<u8>::empty(), (ZERO + n) as u8, byte);
    } else {
        lemma_decimal_has_only_digits(n / 10, byte);
        lemma_occurrences_push(decimal(n / 10), (ZERO + n % 10) as u8, byte);
    }
}

/// One value group opens one bracket and names two parameters.
pub proof fn lemma_value_group_counts(row: nat)
    ensures
        occurrences(value_group(row), OPEN) == 1,
        occurrences(value_group(row), CLOSE) == 1,
        occurrences(value_group(row), DOLLAR) == 2,
{
    let nothing = Seq::<u8>::empty();
    let head = seq![SPACE, OPEN, DOLLAR];
    let middle = seq![COMMA, SPACE, DOLLAR];
    let tail = seq![CLOSE];
    let first = decimal(2 * row + 1);
    let second = decimal(2 * row + 2);
    assert(head =~= nothing.push(SPACE).push(OPEN).push(DOLLAR));
    assert(middle =~= nothing.push(COMMA).push(SPACE).push(DOLLAR));
    assert(tail =~= nothing.push(CLOSE));
    assert forall|byte: u8| byte == OPEN || byte == CLOSE || byte == DOLLAR implies occurrences(
        value_group(row),
        byte,
    ) == if byte == DOLLAR {
        2nat
    } else {
        1nat
    } by {
        lemma_occurrences_push(nothing, SPACE, byte);
        lemma_occurrences_push(nothing.push(SPACE), OPEN, byte);
        lemma_occurrences_push(nothing.push(SPACE).push(OPEN), DOLLAR, byte);
        lemma_occurrences_push(nothing, COMMA, byte);
        lemma_occurrences_push(nothing.push(COMMA), SPACE, byte);
        lemma_occurrences_push(nothing.push(COMMA).push(SPACE), DOLLAR, byte);
        lemma_occurrences_push(nothing, CLOSE, byte);
        lemma_decimal_has_only_digits(2 * row + 1, byte);
        lemma_decimal_has_only_digits(2 * row + 2, byte);
        lemma_occurrences_concat(head, first, byte);
        lemma_occurrences_concat(head + first, middle, byte);
        lemma_occurrences_concat(head + first + middle, second, byte);
        lemma_occurrences_concat(head + first + middle + second, tail, byte);
    }
}

/// The text for `rows` rows holds `rows` value groups and names twice as
/// many parameters.
pub proof fn lemma_value_groups_counts(rows: nat)
    ensures
        occurrences(value_groups(rows), OPEN) == rows,
        occurrences(value_groups(rows), CLOSE) == rows,
        occurrences(value_groups(rows), DOLLAR) == 2 * rows,
    decreases rows,
{
    if rows > 0 {
        let row = (rows - 1) as nat;
        let nothing = Seq::<u8>::empty();
        lemma_value_groups_counts(row);
        lemma_value_group_counts(row);
        assert(seq![COMMA] =~= nothing.push(COMMA));
        assert forall|byte: u8| byte == OPEN || byte == CLOSE || byte == DOLLAR implies occurrences(
            value_groups(rows),
            byte,
        ) == occurrences(value_groups(row), byte) + occurrences(value_group(row), byte) by {
            lemma_occurrences_push(nothing, COMMA, byte);
            lemma_occurrences_concat(value_groups(row), separator(row), byte);
            lemma_occurrences_concat(value_groups(row) + separator(row), value_group(row), byte);
        }
    }
}

} // verus!
