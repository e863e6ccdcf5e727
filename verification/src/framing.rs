//! Length-prefixed frames: a message travels as its length, four bytes in
//! big-endian order, followed by the encoded message itself.

use vstd::prelude::*;
use crate::constants::CLIENT_MSG_BUFFER_SIZE;

verus! {

/// The four big-endian bytes of `v`: most significant first.
pub open spec fn be_bytes(v: u32) -> Seq<u8> {
    seq![(v >> 24u32) as u8, (v >> 16u32) as u8, (v >> 8u32) as u8, v as u8]
}

/// The number that four big-endian bytes stand for.
pub open spec fn be_value(b0: u8, b1: u8, b2: u8, b3: u8) -> u32 {
    ((b0 as u32) << 24u32) | ((b1 as u32) << 16u32) | ((b2 as u32) << 8u32) | (b3 as u32)
}

/// A frame: the length prefix followed by the content.
pub open spec fn frame(length: u32, content: Seq<u8>) -> Seq<u8> {
    be_bytes(length) + content
}

/// Big-endian encoding of a `u32`.
pub fn u32_to_be_bytes(v: u32) -> (r: [u8; 4])
    ensures
        r@ == be_bytes(v),
{
    let r = [(v >> 24) as u8, (v >> 16) as u8, (v >> 8) as u8, v as u8];
    assert(r@ =~= be_bytes(v));
    r
}

/// Big-endian decoding of four bytes into a `u32`.
pub fn u32_from_be_bytes(b0: u8, b1: u8, b2: u8, b3: u8) -> (r: u32)
    ensures
        r == be_value(b0, b1, b2, b3),
{
    ((b0 as u32) << 24) | ((b1 as u32) << 16) | ((b2 as u32) << 8) | (b3 as u32)
}

/// Decoding the big-endian bytes of `v` gives `v` back.
pub proof fn lemma_be_roundtrip(v: u32)
    ensures
        be_value(be_bytes(v)[0], be_bytes(v)[1], be_bytes(v)[2], be_bytes(v)[3]) == v,
{
    assert((((v >> 24u32) as u8 as u32) << 24u32) | (((v >> 16u32) as u8 as u32) << 16u32)
        | (((v >> 8u32) as u8 as u32) << 8u32) | (v as u8 as u32) == v) by (bit_vector);
}

/// The value of four bytes as a number: each byte weighted by its place.
pub proof fn lemma_be_value_arith(b0: u8, b1: u8, b2: u8, b3: u8)
    ensures
        be_value(b0, b1, b2, b3) == b0 * 0x100_0000 + b1 * 0x1_0000 + b2 * 0x100 + b3,
{
    assert(((b0 as u32) << 24u32) | ((b1 as u32) << 16u32) | ((b2 as u32) << 8u32) | (b3 as u32)
        == (b0 as u32) * 0x100_0000u32 + (b1 as u32) * 0x1_0000u32 + (b2 as u32) * 0x100u32 + (b3 as u32))
        by (bit_vector);
}

/// A frame could not be built.
#[derive(Debug, Clone, Copy, PartialEq, Eq, Structural)]
pub enum FrameError {
    /// The frame would not fit in the receiving client's buffer.
    ExceedsBuffer,
}

/// The length that goes in front of encoded content: its length, cut to 32 bits.
pub fn encoded_length(content: &Vec<u8>) -> (r: u32)
    ensures
        r == content@.len() as u32,
{
    content.len() as u32
}

/// Puts the length prefix in front of encoded content, unless the frame
/// would not fit in a client's receive buffer.
pub fn frame_encoded(length: u32, content: Vec<u8>) -> (r: Result<Vec<u8>, FrameError>)
    ensures
        r is Err <==> length + 4 > CLIENT_MSG_BUFFER_SIZE,
        r is Err ==> r == Err::<Vec<u8>, FrameError>(FrameError::ExceedsBuffer),
        r matches Ok(bytes) ==> bytes@ == frame(length, content@),
{
    if length as u64 + 4 > CLIENT_MSG_BUFFER_SIZE as u64 {
        return Err(FrameError::ExceedsBuffer);
    }
    let prefix = u32_to_be_bytes(length);
    let mut bytes: Vec<u8> = Vec::new();
    bytes.push(prefix[0]);
    bytes.push(prefix[1]);
    bytes.push(prefix[2]);
    bytes.push(prefix[3]);
    let n = content.len();
    for i in 0..n
        invariant
            n == content@.len(),
            bytes@ == be_bytes(length) + content@.take(i as int),
    {
        bytes.push(content[i]);
        assert(content@.take(i + 1) == content@.take(i as int).push(content@[i as int]));
    }
    assert(content@.take(n as int) == content@);
    Ok(bytes)
}

/// The length that the first four bytes of a receive buffer announce.
pub open spec fn announced_length(buffer: Seq<u8>) -> u32 {
    be_value(buffer[0], buffer[1], buffer[2], buffer[3])
}

/// What a client takes from its receive buffer as the encoded message: the
/// announced number of bytes after the prefix, or all of them if fewer are there.
pub open spec fn buffered_content(buffer: Seq<u8>) -> Seq<u8> {
    let available = buffer.len() - 4;
    let wanted = announced_length(buffer) as int;
    buffer.subrange(4, 4 + if wanted < available { wanted } else { available })
}

/// Reads the length prefix at the start of a receive buffer and returns the
/// content that follows it.
pub fn content_from_buffer(buffer: &[u8]) -> (r: Vec<u8>)
    requires
        buffer@.len() >= 4,
    ensures
        r@ == buffered_content(buffer@),
{
    let wanted = u32_from_be_bytes(buffer[0], buffer[1], buffer[2], buffer[3]) as usize;
    let len = buffer.len();
    let available = len - 4;
    let n = if wanted < available { wanted } else { available };
    let mut r: Vec<u8> = Vec::new();
    for i in 0..n
        invariant
            n <= available,
            available == len - 4,
            len == buffer@.len(),
            r@ == buffer@.subrange(4, 4 + i),
    {
        r.push(buffer[4 + i]);
        assert(buffer@.subrange(4, 4 + i + 1) == buffer@.subrange(4, 4 + i).push(buffer@[4 + i]));
    }
    r
}

/// A receive buffer that starts with a frame gives back that frame's
/// content, whatever follows the frame in the buffer.
pub proof fn lemma_buffer_roundtrip(content: Seq<u8>, rest: Seq<u8>)
    requires
        content.len() <= u32::MAX,
    ensures
        buffered_content(frame(content.len() as u32, content) + rest) == content,
{
    let buffer = frame(content.len() as u32, content) + rest;
    lemma_be_roundtrip(content.len() as u32);
    assert(buffer[0] == be_bytes(content.len() as u32)[0]);
    assert(buffer[1] == be_bytes(content.len() as u32)[1]);
    assert(buffer[2] == be_bytes(content.len() as u32)[2]);
    assert(buffer[3] == be_bytes(content.len() as u32)[3]);
    assert(buffer.subrange(4, 4 + content.len() as int) =~= content);
}

/// What a frame reader has taken in so far.
pub struct ReaderState {
    /// The bytes of the length prefix read so far (at most four).
    pub len_bytes: Seq<u8>,
    /// The announced content length, once the first content byte has come;
    /// zero before that.
    pub content_len: nat,
    /// The content bytes read so far.
    pub content: Seq<u8>,
}

/// A frame reader before its first byte.
pub open spec fn initial_state() -> ReaderState {
    ReaderState { len_bytes: Seq::empty(), content_len: 0, content: Seq::empty() }
}

/// One byte taken in: the new state, and whether the frame is complete.
///
/// The first four bytes are the prefix. The announced length is read when
/// the first content byte arrives; while it reads as zero, every further byte
/// starts the content anew. Once it is known, bytes are added until the
/// content holds at least one byte less than announced; the next byte
/// completes the frame.
pub open spec fn feed(s: ReaderState, byte: u8) -> (ReaderState, bool) {
    if s.len_bytes.len() < 4 {
        (ReaderState { len_bytes: s.len_bytes.push(byte), ..s }, false)
    } else if s.content_len == 0 {
        (
            ReaderState {
                content_len: be_value(s.len_bytes[0], s.len_bytes[1], s.len_bytes[2], s.len_bytes[3])
                    as nat,
                content: seq![byte],
                ..s
            },
            false,
        )
    } else if s.content.len() + 1 < s.content_len {
        (ReaderState { content: s.content.push(byte), ..s }, false)
    } else {
        (ReaderState { content: s.content.push(byte), ..s }, true)
    }
}

/// The state after taking in `bytes` one by one from the start.
pub open spec fn run(bytes: Seq<u8>) -> ReaderState
    decreases bytes.len(),
{
    if bytes.len() == 0 {
        initial_state()
    } else {
        feed(run(bytes.drop_last()), bytes.last()).0
    }
}

/// Whether the last of `bytes` completes a frame when they are taken in one by one.
pub open spec fn completes_at_last(bytes: Seq<u8>) -> bool {
    bytes.len() > 0 && feed(run(bytes.drop_last()), bytes.last()).1
}

/// Reassembles one frame from a stream that delivers it byte by byte.
pub struct FrameReader {
    len_bytes: Vec<u8>,
    content_len: usize,
    content: Vec<u8>,
}

impl View for FrameReader {
    type V = ReaderState;

    closed spec fn view(&self) -> ReaderState {
        ReaderState {
            len_bytes: self.len_bytes@,
            content_len: self.content_len as nat,
            content: self.content@,
        }
    }
}

impl FrameReader {
    /// The reader's fields agree with one another.
    pub closed spec fn wf(&self) -> bool {
        &&& self.len_bytes@.len() <= 4
        &&& self.content_len <= u32::MAX
        &&& self.content_len > 0 ==> self.len_bytes@.len() == 4
    }

    /// A reader that has taken in nothing.
    pub fn new() -> (r: Self)
        ensures
            r.wf(),
            r@ == initial_state(),
    {
        FrameReader { len_bytes: Vec::new(), content_len: 0, content: Vec::new() }
    }

    /// Takes in the next byte of the stream; `true` means the frame is complete.
    pub fn push_byte(&mut self, byte: u8) -> (done: bool)
        requires
            old(self).wf(),
        ensures
            final(self).wf(),
            (final(self)@, done) == feed(old(self)@, byte),
    {
        if self.len_bytes.len() < 4 {
            self.len_bytes.push(byte);
            false
        } else if self.content_len == 0 {
            let announced = u32_from_be_bytes(
                self.len_bytes[0],
                self.len_bytes[1],
                self.len_bytes[2],
                self.len_bytes[3],
            );
            self.content_len = announced as usize;
            self.content = Vec::new();
            self.content.push(byte);
            assert(self.content@ =~= seq![byte]);
            false
        } else if self.content.len() < self.content_len - 1 {
            self.content.push(byte);
            false
        } else {
            self.content.push(byte);
            true
        }
    }

    /// The content read so far.
    pub fn content(&self) -> (r: &Vec<u8>)
        ensures
            r@ == self@.content,
    {
        &self.content
    }

    /// Gives up the reader for the content it has read.
    pub fn into_content(self) -> (r: Vec<u8>)
        ensures
            r@ == self@.content,
    {
        self.content
    }
}

/// The state after `k` bytes of a frame whose content has at least one byte.
proof fn lemma_run_frame_prefix(content: Seq<u8>, k: int)
    requires
        1 <= content.len() <= u32::MAX,
        0 <= k <= content.len() + 4,
    ensures
        ({
            let bytes = frame(content.len() as u32, content);
            let s = run(bytes.take(k));
            &&& k <= 4 ==> s == ReaderState {
                len_bytes: bytes.take(k),
                content_len: 0,
                content: Seq::empty(),
            }
            &&& k > 4 ==> s == ReaderState {
                len_bytes: be_bytes(content.len() as u32),
                content_len: content.len(),
                content: content.take(k - 4),
            }
            &&& 0 < k ==> (completes_at_last(bytes.take(k)) <==> k == content.len() + 4
                && content.len() >= 2)
        }),
    decreases k,
{
    let bytes = frame(content.len() as u32, content);
    if k == 0 {
        assert(bytes.take(0) =~= Seq::<u8>::empty());
    } else {
        lemma_run_frame_prefix(content, k - 1);
        let prev = run(bytes.take(k - 1));
        assert(bytes.take(k).drop_last() =~= bytes.take(k - 1));
        assert(bytes.take(k).last() == bytes[k - 1]);
        assert(run(bytes.take(k)) == feed(prev, bytes[k - 1]).0);
        assert(completes_at_last(bytes.take(k)) == feed(prev, bytes[k - 1]).1);
        if k <= 4 {
            assert(bytes.take(k - 1).push(bytes[k - 1]) =~= bytes.take(k));
        } else if k == 5 {
            assert(bytes.take(4) =~= be_bytes(content.len() as u32));
            lemma_be_roundtrip(content.len() as u32);
            assert(bytes[4] == content[0]);
            assert(seq![bytes[4]] =~= content.take(1));
        } else {
            assert(bytes[k - 1] == content[k - 5]);
            assert(content.take(k - 5).push(bytes[k - 1]) =~= content.take(k - 4));
        }
    }
}

/// Taking in a frame whose content has two bytes or more completes at the
/// frame's last byte and not before, with exactly that content.
pub proof fn lemma_reader_reassembles(content: Seq<u8>)
    requires
        2 <= content.len() <= u32::MAX,
    ensures
        forall|k: int|
            0 < k < content.len() + 4 ==> !#[trigger] completes_at_last(
                frame(content.len() as u32, content).take(k),
            ),
        completes_at_last(frame(content.len() as u32, content)),
        run(frame(content.len() as u32, content)).content == content,
{
    let bytes = frame(content.len() as u32, content);
    assert forall|k: int| 0 < k < content.len() + 4 implies !#[trigger] completes_at_last(
        bytes.take(k),
    ) by {
        lemma_run_frame_prefix(content, k);
    }
    lemma_run_frame_prefix(content, content.len() + 4int);
    assert(bytes.take(content.len() + 4int) =~= bytes);
    assert(content.take(content.len() as int) =~= content);
}

} // verus!
