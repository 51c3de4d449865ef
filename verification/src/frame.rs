//! Frames of the USB dongle's SMBus bridge, and the sizes of its replies.
//!
//! A block read is two bridge transactions: a header naming the register and
//! the length, then a fetch whose reply carries one byte more than asked for
//! (the bridge's own framing), of which only the asked-for bytes are kept.
//! A block write is one transaction answered by a one-byte acknowledgement.

use vstd::prelude::*;

verus! {

/// The command code of every bridge transaction.
pub const BRIDGE_COMMAND: usize = 0;

/// The smaller of two integers.
pub open spec fn min(a: int, b: int) -> int {
    if a <= b { a } else { b }
}

/// The first `n` elements of `s`, or all of `s` when it is shorter.
pub open spec fn prefix<T>(s: Seq<T>, n: int) -> Seq<T> {
    s.take(min(n, s.len() as int))
}

pub open spec fn spec_block_read_header(len: u8, reg: u8) -> Seq<u8> {
    seq![0x13u8, 0x03u8, 0x06u8, 0x01u8, 0x07u8, len, reg]
}

pub open spec fn spec_block_read_fetch(len: u8) -> Seq<u8> {
    seq![0x08u8, 0x07u8, len]
}

pub open spec fn spec_block_write_frame(reg: u8, data: Seq<u8>) -> Seq<u8> {
    seq![0x13u8, 0x01u8, 0x04u8, ((data.len() + 1) % 256) as u8, reg] + data
}

/// The header transaction of a block read of `len` bytes from `reg`.
pub fn block_read_header(len: u8, reg: u8) -> (frame: Vec<u8>)
    ensures
        frame@ == spec_block_read_header(len, reg),
{
    let frame: Vec<u8> = vec![0x13, 0x03, 0x06, 0x01, 0x07, len, reg];
    assert(frame@ =~= spec_block_read_header(len, reg));
    frame
}

/// The fetch transaction of a block read of `len` bytes.
pub fn block_read_fetch(len: u8) -> (frame: Vec<u8>)
    ensures
        frame@ == spec_block_read_fetch(len),
{
    let frame: Vec<u8> = vec![0x08, 0x07, len];
    assert(frame@ =~= spec_block_read_fetch(len));
    frame
}

/// How many decoded bytes the fetch of a `len`-byte block read is answered with.
pub fn block_read_reply_len(len: u8) -> (n: usize)
    ensures
        n == len + 1,
{
    len as usize + 1
}

/// The payload of a block read: the first `len` bytes of the fetch reply.
pub fn block_read_payload(reply: Vec<u8>, len: u8) -> (payload: Vec<u8>)
    ensures
        payload@ == prefix(reply@, len as int),
{
    let mut payload = reply;
    payload.truncate(len as usize);
    assert(payload@ =~= prefix(reply@, len as int));
    payload
}

/// The single transaction of a block write of `data` to `reg`; the length byte
/// counts the register byte too and wraps at 256, as a byte does.
pub fn block_write_frame(reg: u8, data: &[u8]) -> (frame: Vec<u8>)
    requires
        data@.len() < usize::MAX,
    ensures
        frame@ == spec_block_write_frame(reg, data@),
{
    let count: usize = data.len() + 1;
    let mut frame: Vec<u8> = Vec::new();
    frame.push(0x13);
    frame.push(0x01);
    frame.push(0x04);
    frame.push((count % 256) as u8);
    frame.push(reg);
    let mut i: usize = 0;
    while i < data.len()
        invariant
            0 <= i <= data@.len(),
            count == data@.len() + 1,
            frame@ == seq![0x13u8, 0x01u8, 0x04u8, ((data@.len() + 1) % 256) as u8, reg]
                + data@.take(i as int),
        decreases data@.len() - i,
    {
        frame.push(data[i]);
        i += 1;
        assert(data@.take(i as int) =~= data@.take(i - 1).push(data@[i - 1]));
    }
    assert(data@.take(data@.len() as int) =~= data@);
    frame
}

/// How many bytes to read off the wire for a reply of `expected` decoded bytes:
/// one header byte and two encoded bytes per decoded byte.
pub fn wire_reply_len(expected: usize) -> (n: usize)
    requires
        2 * expected + 1 <= usize::MAX,
    ensures
        n == 2 * expected + 1,
{
    expected * 2 + 1
}

/// A decoded reply cut to the number of bytes the transaction expects.
pub fn finish_reply(decoded: Vec<u8>, expected: usize) -> (reply: Vec<u8>)
    ensures
        reply@ == prefix(decoded@, expected as int),
{
    let mut reply = decoded;
    reply.truncate(expected);
    assert(reply@ =~= prefix(decoded@, expected as int));
    reply
}

/// The size of the buffer that replies are read into.
pub const READ_BUFFER_LEN: usize = 256;

/// How many bytes to ask the device for next while collecting `expected`
/// bytes of which `received` have arrived: what is missing, at most a buffer.
pub fn next_read_len(expected: usize, received: usize) -> (n: usize)
    requires
        received < expected,
    ensures
        n == min(expected - received, READ_BUFFER_LEN as int),
        0 < n <= READ_BUFFER_LEN,
{
    let missing = expected - received;
    if missing < READ_BUFFER_LEN { missing } else { READ_BUFFER_LEN }
}

/// What the last read from the device gave.
#[derive(Clone, Copy, Debug, PartialEq, Eq)]
pub enum LastRead {
    /// No read made yet.
    Start,
    /// A read returned this many bytes.
    Got(usize),
    /// A read failed (a timeout or any other error).
    Failed,
}

/// Whether to read again while collecting `expected` bytes of which
/// `received` have arrived: not once enough are in, nor after a read that
/// returned nothing or failed.
pub fn keep_reading(expected: usize, received: usize, last: LastRead) -> (b: bool)
    ensures
        b == (received < expected && match last {
            LastRead::Start => true,
            LastRead::Got(n) => n > 0,
            LastRead::Failed => false,
        }),
{
    if received >= expected {
        return false;
    }
    match last {
        LastRead::Start => true,
        LastRead::Got(n) => n > 0,
        LastRead::Failed => false,
    }
}

} // verus!
