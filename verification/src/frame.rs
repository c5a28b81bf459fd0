//! Frames of the replication stream.
//!
//! A frame starts with a byte for its kind. `w` announces a part of the log: the positions where
//! it starts and where the log ends and the server's clock, eight bytes each, and then the bytes
//! of the log. Any other frame, such as a keepalive, carries nothing for a handler.
use bytes::{Buf, Bytes};
use vstd::prelude::*;

verus! {

/// A byte buffer of the `bytes` crate.
#[verifier::external_type_specification]
#[verifier::external_body]
pub struct ExBytes(bytes::Bytes);

/// The bytes that a buffer holds from its current position on.
pub uninterp spec fn content(buffer: bytes::Bytes) -> Seq<u8>;

/// `Bytes::is_empty`.
///
/// Trusted: the answer is whether the buffer holds no byte.
#[verifier::external_body]
fn is_empty(buffer: &Bytes) -> (answer: bool)
    ensures
        answer == (content(*buffer).len() == 0),
{
    buffer.is_empty()
}

/// `<Bytes as Clone>::clone`.
///
/// Trusted: the copy holds the same bytes, and has a position of its own.
#[verifier::external_body]
fn copy(buffer: &Bytes) -> (duplicate: Bytes)
    ensures
        content(duplicate) == content(*buffer),
{
    buffer.clone()
}

/// `<Bytes as Buf>::get_u8`, which panics on an empty buffer.
///
/// Trusted: it gives the first byte and moves the position behind it.
#[verifier::external_body]
fn get_u8(buffer: &mut Bytes) -> (first: u8)
    requires
        content(*old(buffer)).len() > 0,
    ensures
        first == content(*old(buffer))[0],
        content(*final(buffer)) == content(*old(buffer)).skip(1),
{
    buffer.get_u8()
}

/// `<Bytes as Buf>::remaining`.
///
/// Trusted: it gives the number of bytes that the buffer holds.
#[verifier::external_body]
fn remaining(buffer: &Bytes) -> (count: usize)
    ensures
        count == content(*buffer).len(),
{
    buffer.remaining()
}

/// `<Bytes as Buf>::advance`, which panics where the buffer holds fewer bytes than `count`.
///
/// Trusted: it moves the position behind the first `count` bytes.
#[verifier::external_body]
fn advance(buffer: &mut Bytes, count: usize)
    requires
        count <= content(*old(buffer)).len(),
    ensures
        content(*final(buffer)) == content(*old(buffer)).skip(count as int),
{
    buffer.advance(count)
}

/// `<Bytes as Deref>::deref`.
///
/// Trusted: the slice is made of the bytes that the buffer holds.
#[verifier::external_body]
pub(crate) fn as_slice(buffer: &Bytes) -> (slice: &[u8])
    ensures
        slice@ == content(*buffer),
{
    &buffer[..]
}

/// `w`: a part of the log follows.
pub const XLOG_DATA: u8 = 0x77;

/// The number of bytes between the kind of a `w` frame and the bytes of the log.
pub const XLOG_HEADER_LEN: usize = 24;

/// The bytes of the log in a frame; nothing where the frame is of another kind or too short.
pub open spec fn log_bytes(frame: Seq<u8>) -> Option<Seq<u8>> {
    if frame.len() >= 1 + XLOG_HEADER_LEN && frame[0] == XLOG_DATA {
        Some(frame.skip(1 + XLOG_HEADER_LEN as int))
    } else {
        None
    }
}

/// Takes the bytes of the log out of a frame.
pub fn take_log_bytes(frame: &Bytes) -> (log: Option<Bytes>)
    ensures
        match log {
            Some(buffer) => log_bytes(content(*frame)) == Some(content(buffer)),
            None => log_bytes(content(*frame)) is None,
        },
{
    if is_empty(frame) {
        return None;
    }
    let mut buffer = copy(frame);
    let kind = get_u8(&mut buffer);
    if kind == XLOG_DATA {
        if remaining(&buffer) < XLOG_HEADER_LEN {
            return None;
        }
        advance(&mut buffer, XLOG_HEADER_LEN);
        assert(content(*frame).skip(1).skip(XLOG_HEADER_LEN as int) =~= content(*frame).skip(
            1 + XLOG_HEADER_LEN as int,
        ));
        Some(buffer)
    } else {
        None
    }
}

} // verus!
