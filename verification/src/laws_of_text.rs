//! What joining, searching and reading numbers mean.
use crate::text;
use vstd::prelude::*;

verus! {

/// A text occurs in another exactly where the other is something, the text, and something.
pub proof fn law_occurrence(part: Seq<char>, whole: Seq<char>)
    ensures
        text::occurs_in(part, whole) <==> exists|before: Seq<char>, after: Seq<char>|
            whole == #[trigger] (before + part + after),
{
    if text::occurs_in(part, whole) {
        let i = choose|i: int|
            0 <= i <= whole.len() - part.len() && #[trigger] whole.subrange(i, i + part.len())
                == part;
        let before = whole.take(i);
        let after = whole.skip(i + part.len());
        assert(whole =~= before + whole.subrange(i, i + part.len()) + after);
    }
    if exists|before: Seq<char>, after: Seq<char>| whole == #[trigger] (before + part + after) {
        let (before, after) = choose|before: Seq<char>, after: Seq<char>|
            whole == #[trigger] (before + part + after);
        let i = before.len() as int;
        assert(whole.subrange(i, i + part.len()) =~= part);
    }
}

/// Joining nothing gives nothing, joining one text gives that text, and one more text is written
/// behind the others and a separator, however many there are.
pub proof fn law_joining_one_more(
    parts: Seq<Seq<char>>,
    last: Seq<char>,
    separator: Seq<char>,
)
    ensures
        text::joined(Seq::empty(), separator) == Seq::<char>::empty(),
        text::joined(seq![last], separator) == last,
        parts.len() > 0 ==> text::joined(parts.push(last), separator) == text::joined(
            parts,
            separator,
        ) + separator + last,
{
    assert(parts.push(last).drop_last() =~= parts);
}

/// Joining can be done in two halves.
pub proof fn law_joining_in_halves(
    first: Seq<Seq<char>>,
    second: Seq<Seq<char>>,
    separator: Seq<char>,
)
    requires
        first.len() > 0,
        second.len() > 0,
    ensures
        text::joined(first + second, separator) == text::joined(first, separator) + separator
            + text::joined(second, separator),
    decreases second.len(),
{
    let last = second.last();
    let init = second.drop_last();
    law_joining_one_more(first + init, last, separator);
    assert((first + init).push(last) =~= first + second);
    if init.len() == 0 {
        assert(first + init =~= first);
        assert(second =~= seq![last]);
        law_joining_one_more(first, last, separator);
    } else {
        law_joining_in_halves(first, init, separator);
        law_joining_one_more(init, last, separator);
        assert(init.push(last) =~= second);
        let a = text::joined(first, separator);
        let b = text::joined(init, separator);
        assert((a + separator + b) + separator + last =~= a + separator + (b + separator + last));
    }
}

/// The texts of strings are those of the strings, one for one.
pub proof fn law_texts(strings: Seq<String>)
    ensures
        text::texts(strings).len() == strings.len(),
        forall|i: int| 0 <= i < strings.len() ==> #[trigger] text::texts(strings)[i] == strings[i]@,
{
}

/// A text denotes an integer exactly where it is made of decimal digits, one or more, with at
/// most one sign in front of them.
pub proof fn law_integers_are_signed_digits(s: Seq<char>)
    ensures
        text::integer_value(s) is Some <==> {
            let first: int = if s.len() > 0 && (s[0] == '+' || s[0] == '-') {
                1
            } else {
                0
            };
            &&& s.len() > first
            &&& forall|i: int| first <= i < s.len() ==> '0' <= #[trigger] s[i] <= '9'
        },
{
    if s.len() > 0 && (s[0] == '+' || s[0] == '-') {
        let digits = s.skip(1);
        if forall|i: int| 1 <= i < s.len() ==> '0' <= #[trigger] s[i] <= '9' {
            assert forall|i: int| 0 <= i < digits.len() implies '0' <= #[trigger] digits[i]
                <= '9' by {
                assert(digits[i] == s[i + 1]);
            }
        }
        if text::is_decimal(digits) {
            assert forall|i: int| 1 <= i < s.len() implies '0' <= #[trigger] s[i] <= '9' by {
                assert(s[i] == digits[i - 1]);
            }
        }
    }
}

/// A single digit denotes its number, and one more digit behind a number makes it ten times as
/// large and adds the digit, away from zero.
pub proof fn law_one_more_digit(s: Seq<char>, digit: char)
    requires
        '0' <= digit <= '9',
    ensures
        text::integer_value(seq![digit]) == Some(digit as int - 48),
        text::integer_value(s) matches Some(value) ==> text::integer_value(s.push(digit)) == Some(
            if s[0] == '-' {
                10 * value - (digit as int - 48)
            } else {
                10 * value + (digit as int - 48)
            },
        ),
{
    let one = seq![digit];
    assert(one.drop_last() =~= Seq::empty());
    assert(text::decimal_value(one.drop_last()) == 0);
    assert(text::is_decimal(one));
    if text::integer_value(s) is Some {
        let more = s.push(digit);
        law_integers_are_signed_digits(s);
        assert(more[0] == s[0]);
        if s[0] == '+' || s[0] == '-' {
            assert(more.skip(1) =~= s.skip(1).push(digit));
            assert(more.skip(1).drop_last() =~= s.skip(1));
            assert(text::is_decimal(more.skip(1)));
        } else {
            assert(more.drop_last() =~= s);
            assert(text::is_decimal(more));
        }
    }
}

/// A sign in front of digits that have none keeps the number or negates it.
pub proof fn law_signs(s: Seq<char>)
    requires
        s.len() > 0,
        s[0] != '+',
        s[0] != '-',
    ensures
        text::integer_value(seq!['+'] + s) == text::integer_value(s),
        text::integer_value(seq!['-'] + s) == match text::integer_value(s) {
            Some(value) => Some(-value),
            None => None,
        },
{
    assert((seq!['+'] + s).skip(1) =~= s);
    assert((seq!['-'] + s).skip(1) =~= s);
}

} // verus!
