//! Text that the library compares, searches, joins and reads numbers from.
use vstd::prelude::*;
use vstd::string::StringExecFns;

verus! {

/// Whether `part` occurs in `whole` as a run of consecutive characters.
pub open spec fn occurs_in(part: Seq<char>, whole: Seq<char>) -> bool {
    exists|i: int|
        0 <= i <= whole.len() - part.len() && #[trigger] whole.subrange(i, i + part.len()) == part
}

/// The texts of `parts` one after the other, with `separator` between neighbours.
pub open spec fn joined(parts: Seq<Seq<char>>, separator: Seq<char>) -> Seq<char>
    decreases parts.len(),
{
    if parts.len() == 0 {
        Seq::empty()
    } else if parts.len() == 1 {
        parts[0]
    } else {
        joined(parts.drop_last(), separator) + separator + parts.last()
    }
}

/// The texts that `strings` hold.
pub open spec fn texts(strings: Seq<String>) -> Seq<Seq<char>> {
    strings.map_values(|s: String| s@)
}

/// Whether `s` is a non-empty run of the ten decimal digits.
pub open spec fn is_decimal(s: Seq<char>) -> bool {
    &&& s.len() > 0
    &&& forall|i: int| 0 <= i < s.len() ==> '0' <= #[trigger] s[i] <= '9'
}

/// The number that the decimal digits in `s` denote.
pub open spec fn decimal_value(s: Seq<char>) -> int
    decreases s.len(),
{
    if s.len() == 0 {
        0
    } else {
        10 * decimal_value(s.drop_last()) + (s.last() as int - '0' as int)
    }
}

/// The integer that `s` denotes: decimal digits, with at most one sign in front of them.
pub open spec fn integer_value(s: Seq<char>) -> Option<int> {
    if s.len() > 0 && s[0] == '-' {
        if is_decimal(s.skip(1)) {
            Some(-decimal_value(s.skip(1)))
        } else {
            None
        }
    } else {
        let digits = if s.len() > 0 && s[0] == '+' {
            s.skip(1)
        } else {
            s
        };
        if is_decimal(digits) {
            Some(decimal_value(digits))
        } else {
            None
        }
    }
}

/// The words in which std says why a text is no `i32`.
pub uninterp spec fn i32_refusal(s: Seq<char>) -> Seq<char>;

/// The words in which std says why a text is no `i64`.
pub uninterp spec fn i64_refusal(s: Seq<char>) -> Seq<char>;

/// Reads an `i32` with `<i32 as std::str::FromStr>::from_str`, by way of `str::parse`.
///
/// Trusted: the call succeeds exactly on decimal digits with at most one sign in front whose
/// value an `i32` can hold, and gives that value. On any other text it gives an error, whose
/// words depend on the text alone and are called [`i32_refusal`].
#[verifier::external_body]
pub(crate) fn read_i32(text: &str) -> (number: Result<i32, String>)
    ensures
        match number {
            Ok(value) => integer_value(text@) == Some(value as int),
            Err(reason) => {
                &&& reason@ == i32_refusal(text@)
                &&& integer_value(text@) matches Some(value) ==> value < i32::MIN || value
                    > i32::MAX
            },
        },
{
    text.parse::<i32>().map_err(|e| e.to_string())
}

/// Reads an `i64` with `<i64 as std::str::FromStr>::from_str`, by way of `str::parse`.
///
/// Trusted: the call succeeds exactly on decimal digits with at most one sign in front whose
/// value an `i64` can hold, and gives that value. On any other text it gives an error, whose
/// words depend on the text alone and are called [`i64_refusal`].
#[verifier::external_body]
pub(crate) fn read_i64(text: &str) -> (number: Result<i64, String>)
    ensures
        match number {
            Ok(value) => integer_value(text@) == Some(value as int),
            Err(reason) => {
                &&& reason@ == i64_refusal(text@)
                &&& integer_value(text@) matches Some(value) ==> value < i64::MIN || value
                    > i64::MAX
            },
        },
{
    text.parse::<i64>().map_err(|e| e.to_string())
}

/// Searches a text with `str::contains`.
///
/// Trusted: the answer is whether `part` occurs in `whole`.
#[verifier::external_body]
pub(crate) fn contains(whole: &str, part: &str) -> (found: bool)
    ensures
        found == occurs_in(part@, whole@),
{
    whole.contains(part)
}

/// Why bytes are not UTF-8; the library does not look into it.
#[verifier::external_type_specification]
#[verifier::external_body]
pub struct ExUtf8Error(core::str::Utf8Error);

/// `std::str::from_utf8`.
///
/// Trusted: it succeeds exactly on well-formed UTF-8, and gives the text that the bytes encode.
pub assume_specification[ core::str::from_utf8 ](v: &[u8]) -> (decoded: Result<
    &str,
    core::str::Utf8Error,
>)
    ensures
        decoded is Ok <==> vstd::utf8::valid_utf8(v@),
        decoded matches Ok(s) ==> s@ == vstd::utf8::decode_utf8(v@),
;

/// Whether two texts are the same.
pub(crate) fn same_text(a: &str, b: &str) -> (same: bool)
    ensures
        same == (a@ == b@),
{
    let x = a.as_bytes();
    let y = b.as_bytes();
    proof {
        vstd::utf8::encode_utf8_decode_utf8(a@);
        vstd::utf8::encode_utf8_decode_utf8(b@);
    }
    if x.len() != y.len() {
        return false;
    }
    let mut i: usize = 0;
    while i < x.len()
        invariant
            i <= x@.len(),
            x@.len() == y@.len(),
            x@ == vstd::utf8::encode_utf8(a@),
            y@ == vstd::utf8::encode_utf8(b@),
            forall|j: int| 0 <= j < i ==> x@[j] == y@[j],
        decreases x@.len() - i,
    {
        if x[i] != y[i] {
            return false;
        }
        i += 1;
    }
    assert(x@ =~= y@);
    true
}

/// Joins `parts` with `separator` between neighbours.
pub(crate) fn join(parts: &Vec<String>, separator: &str) -> (text: String)
    ensures
        text@ == joined(texts(parts@), separator@),
{
    let mut text = String::new();
    let ghost all = texts(parts@);
    let mut i: usize = 0;
    while i < parts.len()
        invariant
            i <= parts@.len(),
            all == texts(parts@),
            text@ == joined(all.take(i as int), separator@),
        decreases parts@.len() - i,
    {
        proof {
            assert(all.take(i + 1).drop_last() =~= all.take(i as int));
            assert(all.take(i + 1).last() == parts@[i as int]@);
        }
        if i > 0 {
            text.append(separator);
            text.append(parts[i].as_str());
        } else {
            text.append(parts[i].as_str());
            assert(text@ =~= parts@[0]@);
        }
        i += 1;
    }
    assert(all.take(all.len() as int) =~= all);
    text
}

} // verus!
