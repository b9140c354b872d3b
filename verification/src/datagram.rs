//! Datagram payloads and the size ceiling applied to them.
//!
//! The relay never looks into a payload. The only thing it does to one is to
//! keep at most a fixed number of leading bytes: a datagram longer than the
//! ceiling is cut silently, everything else passes through untouched.

use vstd::prelude::*;

verus! {

/// The ceiling used when nothing else is configured, in bytes.
pub const MAX_DATAGRAM_SIZE: usize = 4096;

/// The bytes of `bytes` that survive a ceiling of `limit` bytes: all of them
/// when they fit, otherwise the first `limit`.
pub open spec fn clipped(bytes: Seq<u8>, limit: nat) -> Seq<u8> {
    if bytes.len() <= limit {
        bytes
    } else {
        bytes.take(limit as int)
    }
}

/// The number of bytes that survive a ceiling of `limit` bytes.
pub open spec fn clipped_len(len: nat, limit: nat) -> nat {
    if len <= limit {
        len
    } else {
        limit
    }
}

/// Clipping keeps a prefix: the length is the smaller of the two bounds and
/// every kept byte sits where it sat before.
pub proof fn lemma_clipped_is_prefix(bytes: Seq<u8>, limit: nat)
    ensures
        clipped(bytes, limit).len() == clipped_len(bytes.len(), limit),
        clipped(bytes, limit).is_prefix_of(bytes),
        bytes.len() > limit ==> clipped(bytes, limit).len() == limit,
        bytes.len() <= limit ==> clipped(bytes, limit) == bytes,
{
}

/// Clipping twice with the same ceiling changes nothing more.
pub proof fn lemma_clipped_idempotent(bytes: Seq<u8>, limit: nat)
    ensures
        clipped(clipped(bytes, limit), limit) == clipped(bytes, limit),
{
}

/// Cuts `bytes` down to at most `limit` bytes, keeping the front.
pub fn clip(bytes: Vec<u8>, limit: usize) -> (kept: Vec<u8>)
    ensures
        kept@ == clipped(bytes@, limit as nat),
        kept@.len() == clipped_len(bytes@.len(), limit as nat),
{
    let mut kept = bytes;
    if kept.len() > limit {
        kept.truncate(limit);
    }
    kept
}

/// Copies out of a receive buffer the datagram that a socket read left in
/// it: the first `amount` bytes of `buffer`, cut at `limit`.
///
/// A read never reports more bytes than the buffer holds; should `amount`
/// exceed the buffer all the same, the whole buffer is taken.
pub fn copy_received(buffer: &[u8], amount: usize, limit: usize) -> (datagram: Vec<u8>)
    ensures
        datagram@ == clipped(
            buffer@.take(clipped_len(amount as nat, buffer@.len()) as int),
            limit as nat,
        ),
{
    let mut count: usize = amount;
    if count > buffer.len() {
        count = buffer.len();
    }
    if count > limit {
        count = limit;
    }
    let mut datagram: Vec<u8> = Vec::with_capacity(count);
    let mut index: usize = 0;
    while index < count
        invariant
            index <= count <= buffer@.len(),
            datagram@ == buffer@.take(index as int),
        decreases count - index,
    {
        datagram.push(buffer[index]);
        index += 1;
    }
    datagram
}

} // verus!
