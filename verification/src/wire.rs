//! Reading bytes from the front: each reader gives what it read and the bytes behind it.
use crate::wal_event::copy_bytes;
use vstd::prelude::*;
use vstd::slice::slice_subrange;

verus! {

/// What a reader gives: a value and the bytes behind it, or nothing where the bytes do not hold
/// such a value.
pub type Read<T> = Option<(T, Seq<u8>)>;

/// How many bytes stand before the first zero byte, or in all if there is none.
pub open spec fn zero_free_len(bytes: Seq<u8>) -> int
    decreases bytes.len(),
{
    if bytes.len() == 0 || bytes[0] == 0 {
        0
    } else {
        1 + zero_free_len(bytes.skip(1))
    }
}

/// The number of bytes before the first zero byte is the one length at which the bytes before
/// it are not zero and a zero byte or the end follows.
pub proof fn lemma_zero_free_len(bytes: Seq<u8>, n: int)
    requires
        0 <= n <= bytes.len(),
        forall|i: int| 0 <= i < n ==> bytes[i] != 0,
        n == bytes.len() || bytes[n] == 0,
    ensures
        zero_free_len(bytes) == n,
    decreases bytes.len(),
{
    if n > 0 {
        let rest = bytes.skip(1);
        assert forall|i: int| 0 <= i < n - 1 implies rest[i] != 0 by {
            assert(rest[i] == bytes[i + 1]);
        }
        lemma_zero_free_len(rest, n - 1);
    }
}

/// What the number of bytes before the first zero byte says of the bytes.
pub proof fn lemma_zero_free_len_spelled_out(bytes: Seq<u8>)
    ensures
        0 <= zero_free_len(bytes) <= bytes.len(),
        forall|i: int| 0 <= i < zero_free_len(bytes) ==> bytes[i] != 0,
        zero_free_len(bytes) < bytes.len() ==> bytes[zero_free_len(bytes)] == 0,
    decreases bytes.len(),
{
    if bytes.len() > 0 && bytes[0] != 0 {
        let rest = bytes.skip(1);
        lemma_zero_free_len_spelled_out(rest);
        assert forall|i: int| 0 <= i < zero_free_len(bytes) implies bytes[i] != 0 by {
            if i > 0 {
                assert(bytes[i] == rest[i - 1]);
            }
        }
    }
}

/// Counts the bytes before the first zero byte.
pub(crate) fn find_zero(bytes: &[u8]) -> (n: usize)
    ensures
        n == zero_free_len(bytes@),
        n <= bytes@.len(),
        n < bytes@.len() ==> bytes@[n as int] == 0,
{
    let mut n: usize = 0;
    while n < bytes.len() && bytes[n] != 0
        invariant
            n <= bytes@.len(),
            forall|i: int| 0 <= i < n ==> bytes@[i] != 0,
        decreases bytes@.len() - n,
    {
        n += 1;
    }
    proof {
        lemma_zero_free_len(bytes@, n as int);
    }
    n
}

/// The bytes behind the first `n`.
pub(crate) fn skip_bytes(bytes: &[u8], n: usize) -> (rest: &[u8])
    requires
        n <= bytes@.len(),
    ensures
        rest@ == bytes@.skip(n as int),
{
    let rest = slice_subrange(bytes, n, bytes.len());
    assert(rest@ =~= bytes@.skip(n as int));
    rest
}

/// The first `n` bytes.
pub(crate) fn take_bytes(bytes: &[u8], n: usize) -> (first: &[u8])
    requires
        n <= bytes@.len(),
    ensures
        first@ == bytes@.take(n as int),
{
    let first = slice_subrange(bytes, 0, n);
    assert(first@ =~= bytes@.take(n as int));
    first
}

/// Reads one byte.
pub open spec fn byte(bytes: Seq<u8>) -> Read<u8> {
    if bytes.len() < 1 {
        None
    } else {
        Some((bytes[0], bytes.skip(1)))
    }
}

/// Reads two bytes as a number, the higher byte first.
pub open spec fn short(bytes: Seq<u8>) -> Read<u16> {
    if bytes.len() < 2 {
        None
    } else {
        Some(((bytes[0] * 0x100 + bytes[1]) as u16, bytes.skip(2)))
    }
}

/// Reads four bytes as a number, the highest byte first.
pub open spec fn long(bytes: Seq<u8>) -> Read<u32> {
    if bytes.len() < 4 {
        None
    } else {
        Some(
            (
                (bytes[0] * 0x100_0000 + bytes[1] * 0x1_0000 + bytes[2] * 0x100 + bytes[3]) as u32,
                bytes.skip(4),
            ),
        )
    }
}

/// The signed number that has the two's complement `n`.
pub open spec fn signed(n: u32) -> i32 {
    if n < 0x8000_0000 {
        n as i32
    } else {
        (n - 0x1_0000_0000) as i32
    }
}

/// Reads UTF-8 text up to a zero byte, and the zero byte.
pub open spec fn name(bytes: Seq<u8>) -> Read<Seq<char>> {
    let end = zero_free_len(bytes);
    if end < bytes.len() && vstd::utf8::valid_utf8(bytes.take(end)) {
        Some((vstd::utf8::decode_utf8(bytes.take(end)), bytes.skip(end + 1)))
    } else {
        None
    }
}

/// Reads `count` bytes as they are.
pub open spec fn block(bytes: Seq<u8>, count: int) -> Read<Seq<u8>> {
    if bytes.len() < count {
        None
    } else {
        Some((bytes.take(count), bytes.skip(count)))
    }
}

/// Reads `count` values, one behind the other.
pub open spec fn repeated<T>(
    reader: spec_fn(Seq<u8>) -> Read<T>,
    count: nat,
    bytes: Seq<u8>,
) -> Read<Seq<T>>
    decreases count,
{
    if count == 0 {
        Some((Seq::empty(), bytes))
    } else {
        match reader(bytes) {
            Some((first, rest)) => preceded(
                seq![first],
                repeated(reader, (count - 1) as nat, rest),
            ),
            None => None,
        }
    }
}

/// What `read` gives, with the values `front` before it.
pub open spec fn preceded<T>(front: Seq<T>, read: Read<Seq<T>>) -> Read<Seq<T>> {
    match read {
        Some((back, rest)) => Some((front + back, rest)),
        None => None,
    }
}

/// Nothing in front changes nothing.
pub proof fn lemma_preceded_by_nothing<T>(read: Read<Seq<T>>)
    ensures
        preceded(Seq::empty(), read) == read,
{
    if let Some((back, _)) = read {
        assert(Seq::empty() + back =~= back);
    }
}

/// Values in front of values in front are values in front.
pub proof fn lemma_preceded_twice<T>(a: Seq<T>, b: Seq<T>, read: Read<Seq<T>>)
    ensures
        preceded(a, preceded(b, read)) == preceded(a + b, read),
{
    if let Some((back, _)) = read {
        assert(a + (b + back) =~= (a + b) + back);
    }
}

/// Reads one byte; see [`byte`].
pub(crate) fn read_byte(bytes: &[u8]) -> (read: Option<(u8, &[u8])>)
    ensures
        match read {
            Some((value, rest)) => byte(bytes@) == Some((value, rest@)),
            None => byte(bytes@) is None,
        },
{
    if bytes.len() < 1 {
        None
    } else {
        Some((bytes[0], skip_bytes(bytes, 1)))
    }
}

/// Reads a number of two bytes; see [`short`].
pub(crate) fn read_short(bytes: &[u8]) -> (read: Option<(u16, &[u8])>)
    ensures
        match read {
            Some((value, rest)) => short(bytes@) == Some((value, rest@)),
            None => short(bytes@) is None,
        },
{
    if bytes.len() < 2 {
        None
    } else {
        let value: u16 = bytes[0] as u16 * 0x100 + bytes[1] as u16;
        Some((value, skip_bytes(bytes, 2)))
    }
}

/// Reads a number of four bytes; see [`long`].
pub(crate) fn read_long(bytes: &[u8]) -> (read: Option<(u32, &[u8])>)
    ensures
        match read {
            Some((value, rest)) => long(bytes@) == Some((value, rest@)),
            None => long(bytes@) is None,
        },
{
    if bytes.len() < 4 {
        None
    } else {
        let value: u32 = bytes[0] as u32 * 0x100_0000 + bytes[1] as u32 * 0x1_0000
            + bytes[2] as u32 * 0x100 + bytes[3] as u32;
        Some((value, skip_bytes(bytes, 4)))
    }
}

/// The signed number that has the two's complement `n`.
pub(crate) fn to_signed(n: u32) -> (value: i32)
    ensures
        value == signed(n),
{
    if n < 0x8000_0000 {
        n as i32
    } else {
        -((0xffff_ffff - n) as i32) - 1
    }
}

/// Reads a name; see [`name`].
pub(crate) fn read_name(bytes: &[u8]) -> (read: Option<(String, &[u8])>)
    ensures
        match read {
            Some((value, rest)) => name(bytes@) == Some((value@, rest@)),
            None => name(bytes@) is None,
        },
{
    let end = find_zero(bytes);
    if end < bytes.len() {
        match core::str::from_utf8(take_bytes(bytes, end)) {
            Ok(value) => Some((value.to_owned(), skip_bytes(bytes, end + 1))),
            Err(_) => None,
        }
    } else {
        None
    }
}

/// Reads `count` bytes as they are.
pub(crate) fn read_block(bytes: &[u8], count: u32) -> (read: Option<(Vec<u8>, &[u8])>)
    ensures
        match read {
            Some((value, rest)) => block(bytes@, count as int) == Some((value@, rest@)),
            None => block(bytes@, count as int) is None,
        },
{
    let count: usize = count as usize;
    if bytes.len() < count {
        None
    } else {
        Some((copy_bytes(take_bytes(bytes, count)), skip_bytes(bytes, count)))
    }
}

} // verus!
