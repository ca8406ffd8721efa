//! File synchronisation over the rsync algorithm: message framing, the wire
//! messages, the server-side request handling and the client-side session.

#![allow(deprecated)]

use vstd::prelude::*;

pub mod not_rsync_pb;
pub mod rsync;
pub mod file_store;
pub mod servicer;
pub mod sync;
pub mod remote;
pub mod client;

verus! {

/// Largest value a 32-bit length header can carry, plus one.
pub open spec fn header_modulus() -> nat {
    0x1_0000_0000
}

/// The four bytes of `n`, most significant first.
pub open spec fn be_bytes(n: u32) -> Seq<u8> {
    seq![
        (n / 0x100_0000) as u8,
        ((n / 0x1_0000) % 0x100) as u8,
        ((n / 0x100) % 0x100) as u8,
        (n % 0x100) as u8,
    ]
}

/// The number whose big-endian encoding is the first four bytes of `b`.
pub open spec fn be_value(b: Seq<u8>) -> int
    recommends
        b.len() >= 4,
{
    b[0] * 0x100_0000 + b[1] * 0x1_0000 + b[2] * 0x100 + b[3]
}

/// The length header that precedes `message` on the wire: its length taken
/// modulo 2^32, as four big-endian bytes.
pub open spec fn len_header(message: Seq<u8>) -> Seq<u8> {
    be_bytes((message.len() % header_modulus()) as u32)
}

/// Decoding the four big-endian bytes of a number gives the number back.
pub proof fn lemma_be_roundtrip(n: u32)
    ensures
        be_bytes(n).len() == 4,
        be_value(be_bytes(n)) == n,
{
    assert(n == (n / 0x100_0000) * 0x100_0000 + ((n / 0x1_0000) % 0x100) * 0x1_0000 + ((n
        / 0x100) % 0x100) * 0x100 + n % 0x100) by (bit_vector);
    assert(n / 0x100_0000 < 0x100) by (bit_vector);
}

/// The header of every message shorter than 2^32 bytes is four bytes that
/// read, most significant first, as its exact length.
pub proof fn lemma_len_header_exact(message: Seq<u8>)
    requires
        message.len() < 0x1_0000_0000,
    ensures
        len_header(message).len() == 4,
        len_header(message)[0] * 0x100_0000 + len_header(message)[1] * 0x1_0000
            + len_header(message)[2] * 0x100 + len_header(message)[3] == message.len(),
{
    let n = (message.len() % header_modulus()) as u32;
    lemma_be_roundtrip(n);
}

/// Errors of reading a framed message.
#[derive(Debug, PartialEq, Eq, Structural)]
pub enum FrameError {
    /// The input ended before the bytes that were asked for.
    UnexpectedEof,
}

/// A source of bytes that is read from the front, as a byte slice is read.
pub struct ByteReader {
    bytes: Vec<u8>,
    pos: usize,
}

impl View for ByteReader {
    type V = Seq<u8>;

    /// The bytes that have not been read yet.
    closed spec fn view(&self) -> Seq<u8> {
        self.bytes@.skip(self.pos as int)
    }
}

impl ByteReader {
    #[verifier::type_invariant]
    spec fn inv(self) -> bool {
        self.pos <= self.bytes.len()
    }

    /// A reader over `bytes`, positioned at the first one.
    pub fn new(bytes: Vec<u8>) -> (r: ByteReader)
        ensures
            r@ == bytes@,
    {
        let r = ByteReader { bytes, pos: 0 };
        assert(r.bytes@.skip(0) =~= r.bytes@);
        r
    }

    /// How many bytes are left to read.
    pub fn remaining_len(&self) -> (n: usize)
        ensures
            n == self@.len(),
    {
        proof {
            use_type_invariant(self);
        }
        self.bytes.len() - self.pos
    }

    /// Takes the next `n` bytes, or fails and drains the reader where fewer
    /// are left.
    fn take_bytes(&mut self, n: usize) -> (res: Result<Vec<u8>, FrameError>)
        ensures
            old(self)@.len() >= n ==> res == Ok::<Vec<u8>, FrameError>(res->Ok_0)
                && res->Ok_0@ == old(self)@.take(n as int) && final(self)@ == old(self)@.skip(
                n as int,
            ),
            old(self)@.len() < n ==> res == Err::<Vec<u8>, FrameError>(FrameError::UnexpectedEof)
                && final(self)@ == Seq::<u8>::empty(),
    {
        proof {
            use_type_invariant(&*self);
        }
        let avail = self.bytes.len() - self.pos;
        if avail < n {
            self.pos = self.bytes.len();
            proof {
                assert(self@ =~= Seq::<u8>::empty());
            }
            return Err(FrameError::UnexpectedEof);
        }
        let ghost start = self@;
        let mut out: Vec<u8> = Vec::with_capacity(n);
        let mut i: usize = 0;
        while i < n
            invariant
                i <= n,
                self.pos + n <= self.bytes.len(),
                start == self.bytes@.skip(self.pos as int),
                out@ == start.take(i as int),
            decreases n - i,
        {
            out.push(self.bytes[self.pos + i]);
            i = i + 1;
            assert(out@ =~= start.take(i as int));
        }
        self.pos = self.pos + n;
        assert(self@ =~= start.skip(n as int));
        Ok(out)
    }
}

/// Reads the four-byte big-endian length header that precedes each message.
pub fn read_message_len_header(buf: &mut ByteReader) -> (res: Result<u32, FrameError>)
    ensures
        old(buf)@.len() >= 4 ==> res == Ok::<u32, FrameError>(be_value(old(buf)@) as u32)
            && final(buf)@ == old(buf)@.skip(4),
        old(buf)@.len() < 4 ==> res == Err::<u32, FrameError>(FrameError::UnexpectedEof)
            && final(buf)@ == Seq::<u8>::empty(),
{
    let bytes = buf.take_bytes(4)?;
    let b0 = bytes[0] as u32;
    let b1 = bytes[1] as u32;
    let b2 = bytes[2] as u32;
    let b3 = bytes[3] as u32;
    let request_len: u32 = b0 * 0x100_0000 + b1 * 0x1_0000 + b2 * 0x100 + b3;
    Ok(request_len)
}

/// Reads a message body of `message_len` bytes.
pub fn read_message(buf: &mut ByteReader, message_len: usize) -> (res: Result<Vec<u8>, FrameError>)
    ensures
        old(buf)@.len() >= message_len ==> res is Ok && res->Ok_0@ == old(buf)@.take(
            message_len as int,
        ) && final(buf)@ == old(buf)@.skip(message_len as int),
        old(buf)@.len() < message_len ==> res == Err::<Vec<u8>, FrameError>(
            FrameError::UnexpectedEof,
        ) && final(buf)@ == Seq::<u8>::empty(),
{
    buf.take_bytes(message_len)
}

/// Appends the length header of `message`: its length, cut to 32 bits, in
/// four big-endian bytes. For a message shorter than 2^32 bytes those bytes
/// read back as its exact length.
pub fn write_message_len(buf: &mut Vec<u8>, message: &Vec<u8>) -> (res: Result<(), FrameError>)
    ensures
        res is Ok,
        final(buf)@ == old(buf)@ + len_header(message@),
        final(buf)@.len() == old(buf)@.len() + 4,
        final(buf)@.take(old(buf)@.len() as int) == old(buf)@,
        message@.len() < 0x1_0000_0000 ==> be_value(final(buf)@.skip(old(buf)@.len() as int))
            == message@.len(),
{
    let len64 = message.len() as u64;
    let n: u32 = (len64 % 0x1_0000_0000u64) as u32;
    assert(n == message@.len() % header_modulus());
    buf.push((n / 0x100_0000) as u8);
    buf.push(((n / 0x1_0000) % 0x100) as u8);
    buf.push(((n / 0x100) % 0x100) as u8);
    buf.push((n % 0x100) as u8);
    assert(final(buf)@ =~= old(buf)@ + len_header(message@));
    proof {
        lemma_be_roundtrip(n);
        let tail = final(buf)@.skip(old(buf)@.len() as int);
        assert(tail =~= len_header(message@));
        assert(final(buf)@.take(old(buf)@.len() as int) =~= old(buf)@);
        if message@.len() < 0x1_0000_0000 {
            lemma_len_header_exact(message@);
        }
    }
    Ok(())
}

/// Appends the message body.
pub fn write_message(buf: &mut Vec<u8>, message: Vec<u8>) -> (res: Result<(), FrameError>)
    ensures
        res is Ok,
        final(buf)@ == old(buf)@ + message@,
{
    let mut i: usize = 0;
    while i < message.len()
        invariant
            i <= message.len(),
            buf@ == old(buf)@ + message@.take(i as int),
        decreases message.len() - i,
    {
        buf.push(message[i]);
        i = i + 1;
        assert(buf@ =~= old(buf)@ + message@.take(i as int));
    }
    assert(message@.take(message@.len() as int) =~= message@);
    Ok(())
}

/// A framed message read back: the header written for a message of at most
/// 2^32 - 1 bytes decodes to its length, and reading that many bytes after it
/// gives the message back and leaves whatever followed it.
pub proof fn lemma_frame_roundtrip(message: Seq<u8>, rest: Seq<u8>)
    requires
        message.len() < 0x1_0000_0000,
    ensures
        ({
            let wire = len_header(message) + message + rest;
            &&& wire.len() >= 4
            &&& be_value(wire) == message.len()
            &&& wire.skip(4).len() >= message.len()
            &&& wire.skip(4).take(message.len() as int) == message
            &&& wire.skip(4).skip(message.len() as int) == rest
        }),
{
    let n = (message.len() % header_modulus()) as u32;
    lemma_be_roundtrip(n);
    let wire = len_header(message) + message + rest;
    assert(wire.skip(4) =~= message + rest);
    assert((message + rest).take(message.len() as int) =~= message);
    assert((message + rest).skip(message.len() as int) =~= rest);
    assert(wire[0] == be_bytes(n)[0]);
    assert(wire[1] == be_bytes(n)[1]);
    assert(wire[2] == be_bytes(n)[2]);
    assert(wire[3] == be_bytes(n)[3]);
}

} // verus!
