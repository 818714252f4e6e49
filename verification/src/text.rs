//! Decimal text: one number, and a run of numbers joined by commas.

use vstd::prelude::*;

verus! {

/// The character that separates two numbers.
pub open spec fn separator() -> char {
    ','
}

/// The character of the decimal digit `d`.
pub open spec fn digit(d: nat) -> char
    recommends
        d < 10,
{
    seq!['0', '1', '2', '3', '4', '5', '6', '7', '8', '9'][d as int]
}

/// `n` in decimal, most significant digit first, without leading zeros.
pub open spec fn decimal(n: nat) -> Seq<char>
    decreases n,
{
    if n < 10 {
        seq![digit(n)]
    } else {
        decimal(n / 10).push(digit(n % 10))
    }
}

/// The numbers of `values` in decimal, in order, with one separator between
/// each two neighbours and none at either end.
pub open spec fn joined(values: Seq<u32>) -> Seq<char>
    decreases values.len(),
{
    if values.len() == 0 {
        Seq::empty()
    } else if values.len() == 1 {
        decimal(values[0] as nat)
    } else {
        joined(values.drop_last()).push(separator()) + decimal(values.last() as nat)
    }
}

/// How often `c` occurs in `text`.
pub open spec fn occurrences(text: Seq<char>, c: char) -> nat
    decreases text.len(),
{
    if text.len() == 0 {
        0
    } else {
        occurrences(text.drop_last(), c) + if text.last() == c {
            1nat
        } else {
            0nat
        }
    }
}

/// The text of one digit.
fn digit_text(d: u32) -> (text: &'static str)
    requires
        d < 10,
    ensures
        text@ == seq![digit(d as nat)],
{
    proof {
        reveal_strlit("0");
        reveal_strlit("1");
        reveal_strlit("2");
        reveal_strlit("3");
        reveal_strlit("4");
        reveal_strlit("5");
        reveal_strlit("6");
        reveal_strlit("7");
        reveal_strlit("8");
        reveal_strlit("9");
    }
    let text = if d == 0 {
        "0"
    } else if d == 1 {
        "1"
    } else if d == 2 {
        "2"
    } else if d == 3 {
        "3"
    } else if d == 4 {
        "4"
    } else if d == 5 {
        "5"
    } else if d == 6 {
        "6"
    } else if d == 7 {
        "7"
    } else if d == 8 {
        "8"
    } else {
        "9"
    };
    assert(text@ =~= seq![digit(d as nat)]);
    text
}

/// Appends `n` in decimal to `text`.
pub fn append_decimal(text: &mut String, n: u32)
    ensures
        final(text)@ == old(text)@ + decimal(n as nat),
    decreases n,
{
    if n >= 10 {
        append_decimal(text, n / 10);
    }
    text.append(digit_text(n % 10));
    assert(text@ =~= old(text)@ + decimal(n as nat));
}

/// The numbers of `values` in decimal, joined by commas: the empty text for
/// no numbers, and no comma before the first or after the last.
pub fn join_decimal(values: &[u32]) -> (text: String)
    ensures
        text@ == joined(values@),
{
    let mut text = String::new();
    let mut i: usize = 0;
    while i < values.len()
        invariant
            i <= values.len(),
            text@ == joined(values@.take(i as int)),
        decreases values.len() - i,
    {
        if i > 0 {
            proof {
                reveal_strlit(",");
            }
            text.append(",");
        }
        append_decimal(&mut text, values[i]);
        proof {
            let before = values@.take(i as int);
            let after = values@.take(i + 1);
            assert(after.drop_last() =~= before);
            assert(after.last() == values[i as int]);
            if i > 0 {
                assert(text@ =~= joined(before).push(separator()) + decimal(
                    values[i as int] as nat,
                ));
            } else {
                assert(text@ =~= decimal(values[i as int] as nat));
            }
        }
        i += 1;
    }
    assert(values@.take(i as int) =~= values@);
    text
}

/// Whether `c` is one of the ten digits.
pub open spec fn is_digit(c: char) -> bool {
    c == '0' || c == '1' || c == '2' || c == '3' || c == '4' || c == '5' || c == '6' || c == '7'
        || c == '8' || c == '9'
}

/// A number in decimal is digits only, at least one, and starts with a
/// zero only if it is zero.
pub proof fn lemma_decimal_is_digits(n: nat)
    ensures
        decimal(n).len() >= 1,
        forall|i: int| 0 <= i < decimal(n).len() ==> is_digit(#[trigger] decimal(n)[i]),
        n > 0 ==> decimal(n)[0] != '0',
    decreases n,
{
    let last = n % 10;
    assert(is_digit(digit(last)) && (last > 0 ==> digit(last) != '0')) by {
        assert(last == 0 || last == 1 || last == 2 || last == 3 || last == 4 || last == 5 || last
            == 6 || last == 7 || last == 8 || last == 9);
    }
    if n >= 10 {
        lemma_decimal_is_digits(n / 10);
    }
}

/// A number in decimal has no separator in it.
pub proof fn lemma_decimal_has_no_separator(n: nat)
    ensures
        occurrences(decimal(n), separator()) == 0,
    decreases n,
{
    lemma_decimal_is_digits(n);
    assert(decimal(n).last() != separator());
    if n >= 10 {
        lemma_decimal_has_no_separator(n / 10);
        assert(decimal(n).drop_last() =~= decimal(n / 10));
    } else {
        assert(decimal(n).drop_last() =~= Seq::<char>::empty());
        assert(occurrences(Seq::<char>::empty(), separator()) == 0);
    }
}

/// Occurrences add up over a concatenation.
pub proof fn lemma_occurrences_of_concat(left: Seq<char>, right: Seq<char>, c: char)
    ensures
        occurrences(left + right, c) == occurrences(left, c) + occurrences(right, c),
    decreases right.len(),
{
    if right.len() == 0 {
        assert(left + right =~= left);
    } else {
        lemma_occurrences_of_concat(left, right.drop_last(), c);
        assert((left + right).drop_last() =~= left + right.drop_last());
    }
}

/// Joined text holds one separator less than it holds numbers, so that its
/// fields are as many as the numbers; for no numbers it is empty.
pub proof fn lemma_joined_separators(values: Seq<u32>)
    ensures
        values.len() == 0 ==> joined(values) == Seq::<char>::empty(),
        values.len() >= 1 ==> occurrences(joined(values), separator()) == values.len() - 1,
        values.len() >= 1 ==> joined(values).len() >= 1,
    decreases values.len(),
{
    if values.len() == 1 {
        lemma_decimal_is_digits(values[0] as nat);
        lemma_decimal_has_no_separator(values[0] as nat);
    } else if values.len() >= 2 {
        let head = joined(values.drop_last());
        let tail = decimal(values.last() as nat);
        lemma_joined_separators(values.drop_last());
        lemma_decimal_is_digits(values.last() as nat);
        lemma_decimal_has_no_separator(values.last() as nat);
        lemma_occurrences_of_concat(head.push(separator()), tail, separator());
        assert(head.push(separator()).drop_last() =~= head);
    }
}

/// Joined text is digits and separators only, and begins and ends with a
/// digit: no separator leads or trails.
pub proof fn lemma_joined_shape(values: Seq<u32>)
    requires
        values.len() >= 1,
    ensures
        joined(values).len() >= 1,
        is_digit(joined(values).first()),
        is_digit(joined(values).last()),
        forall|i: int|
            0 <= i < joined(values).len() ==> is_digit(#[trigger] joined(values)[i])
                || joined(values)[i] == separator(),
    decreases values.len(),
{
    lemma_decimal_is_digits(values.last() as nat);
    if values.len() >= 2 {
        lemma_joined_shape(values.drop_last());
    }
}

} // verus!
