//! Length-prefixed framing of messages on a byte stream.
//!
//! A frame is the payload's length as a little-endian `u32`, followed by the
//! payload itself. The socket handling lives outside the library; it hands
//! the bytes it reads to a [`ReceiveBuffer`] and writes the bytes that
//! [`encode_frame`] produces.

use vstd::prelude::*;

verus! {

/// `std::io::Error`, carried through the library as an opaque value.
#[verifier::external_type_specification]
#[verifier::external_body]
pub struct ExIoError(std::io::Error);

/// Failure to bind the listening socket.
#[derive(Debug)]
pub enum BindError {
    Io(std::io::Error),
}

/// Failure to accept an incoming connection.
#[derive(Debug)]
pub enum AcceptError {
    Io(std::io::Error),
}

/// Failure to connect to a listener.
#[derive(Debug)]
pub enum ConnectError {
    Io(std::io::Error),
}

/// `wincode::WriteError`, carried through the library as an opaque value.
#[verifier::external_type_specification]
#[verifier::external_body]
pub struct ExWriteError(wincode::WriteError);

/// `wincode::ReadError`, carried through the library as an opaque value.
#[verifier::external_type_specification]
#[verifier::external_body]
pub struct ExReadError(wincode::ReadError);

/// Failure to send a message.
#[derive(Debug)]
pub enum SendError {
    SerializeFailed(wincode::WriteError),
    Io(std::io::Error),
}

/// Failure to receive a message.
#[derive(Debug)]
pub enum ReceiveError {
    Io(std::io::Error),
    DeserializeFailed(wincode::ReadError),
}

/// What one non-blocking read from the stream gave.
#[derive(Debug)]
pub enum ReadOutcome {
    /// The bytes that were read; empty when the peer has closed its side.
    Data(Vec<u8>),
    /// Nothing was available without blocking.
    WouldBlock,
    /// The read failed.
    Failed(std::io::Error),
}

/// What a receive attempt asks of its caller next.
#[derive(Debug)]
pub enum ReceiveStep {
    /// No complete message is available yet.
    Pending,
    /// The receive failed.
    Failed(ReceiveError),
    /// A complete frame arrived; its payload is to be decoded. The frame
    /// stays buffered until [`ReceiveBuffer::consume_frame`] is called.
    Decode(Vec<u8>),
}

/// Number of bytes that one receive attempt reads from the stream at most.
pub const READ_CHUNK_LEN: usize = 2401;

/// Largest payload length that a frame header can hold.
pub open spec fn max_frame_len() -> nat {
    0x1_0000_0000
}

/// The value of four bytes read as a little-endian unsigned integer.
pub open spec fn le_u32_value(b: Seq<u8>) -> nat
    recommends
        b.len() == 4,
{
    (b[0] + 256 * b[1] + 65536 * b[2] + 16777216 * b[3]) as nat
}

/// The four little-endian bytes of `n` taken modulo 2^32.
pub open spec fn le_u32_bytes(n: nat) -> Seq<u8> {
    let m: nat = n % max_frame_len();
    seq![
        (m % 256) as u8,
        ((m / 256) % 256) as u8,
        ((m / 65536) % 256) as u8,
        ((m / 16777216) % 256) as u8,
    ]
}

/// The frame that carries `payload`: its header holds the payload length
/// modulo 2^32, then the payload follows.
pub open spec fn encoded_frame(payload: Seq<u8>) -> Seq<u8> {
    le_u32_bytes(payload.len()) + payload
}

/// The payload of the frame at the front of `buf`, if the whole frame has
/// arrived.
pub open spec fn frame_at_front(buf: Seq<u8>) -> Option<Seq<u8>> {
    if buf.len() < 4 {
        None
    } else {
        let n: nat = le_u32_value(buf.subrange(0, 4));
        if buf.len() - 4 < n {
            None
        } else {
            Some(buf.subrange(4, 4 + n as int))
        }
    }
}

/// Number of bytes that the frame at the front of `buf` occupies.
pub open spec fn frame_at_front_len(buf: Seq<u8>) -> nat
    recommends
        frame_at_front(buf) is Some,
{
    4 + le_u32_value(buf.subrange(0, 4))
}

/// Reading back the four little-endian bytes of a number below 2^32 gives
/// that number.
proof fn lemma_le_u32_roundtrip(n: nat)
    requires
        n < max_frame_len(),
    ensures
        le_u32_value(le_u32_bytes(n)) == n,
        le_u32_bytes(n).len() == 4,
{
    assert(n % max_frame_len() == n) by (nonlinear_arith)
        requires n < 0x1_0000_0000nat;
    let h3: nat = n / 16777216;
    let r3: nat = n % 16777216;
    let h2: nat = r3 / 65536;
    let r2: nat = r3 % 65536;
    let h1: nat = r2 / 256;
    let h0: nat = r2 % 256;
    assert(n == h0 + 256 * h1 + 65536 * h2 + 16777216 * h3 && h3 < 256) by (nonlinear_arith)
        requires
            n < 0x1_0000_0000nat,
            h3 == n / 16777216,
            r3 == n % 16777216,
            h2 == r3 / 65536,
            r2 == r3 % 65536,
            h1 == r2 / 256,
            h0 == r2 % 256,
    ;
    assert((n / 256) % 256 == h1 && (n / 65536) % 256 == h2 && (n / 16777216) % 256 == h3
        && n % 256 == h0) by (nonlinear_arith)
        requires
            n == h0 + 256 * h1 + 65536 * h2 + 16777216 * h3,
            h0 < 256,
            h1 < 256,
            h2 < 256,
            h3 < 256,
    ;
}

/// The length that a frame header announces is its four bytes read as a
/// little-endian number: the first byte counts ones, the second 256s, the
/// third 65536s and the fourth 16777216s.
pub proof fn lemma_header_value(buf: Seq<u8>)
    requires
        buf.len() >= 4,
    ensures
        le_u32_value(buf.subrange(0, 4)) == buf[0] + 256 * buf[1] + 65536 * buf[2] + 16777216
            * buf[3],
        frame_at_front(buf) is Some <==> buf.len() - 4 >= buf[0] + 256 * buf[1] + 65536 * buf[2]
            + 16777216 * buf[3],
        frame_at_front(buf) is Some ==> frame_at_front(buf) == Some(
            buf.subrange(4, 4 + buf[0] + 256 * buf[1] + 65536 * buf[2] + 16777216 * buf[3]),
        ),
{
    let h = buf.subrange(0, 4);
    assert(h[0] == buf[0] && h[1] == buf[1] && h[2] == buf[2] && h[3] == buf[3]);
}

/// The header of the frame sent for a payload shorter than 2^32 bytes is the
/// payload length in little-endian order, byte by byte, and reading the
/// header back as a little-endian number gives that length.
pub proof fn lemma_frame_header_little_endian(payload: Seq<u8>)
    requires
        payload.len() < max_frame_len(),
    ensures
        encoded_frame(payload)[0] == (payload.len() % 256) as u8,
        encoded_frame(payload)[1] == ((payload.len() / 256) % 256) as u8,
        encoded_frame(payload)[2] == ((payload.len() / 65536) % 256) as u8,
        encoded_frame(payload)[3] == ((payload.len() / 16777216) % 256) as u8,
        encoded_frame(payload)[0] + 256 * encoded_frame(payload)[1] + 65536 * encoded_frame(
            payload,
        )[2] + 16777216 * encoded_frame(payload)[3] == payload.len(),
        encoded_frame(payload).subrange(4, payload.len() + 4int) == payload,
{
    let n = payload.len();
    assert(n % max_frame_len() == n) by (nonlinear_arith)
        requires n < 0x1_0000_0000nat;
    lemma_le_u32_roundtrip(n);
    let f = encoded_frame(payload);
    assert(f.subrange(0, 4) == le_u32_bytes(n));
    lemma_header_value(f);
    assert(f.subrange(4, n + 4int) == payload);
}

/// Builds the frame that carries `payload`: the payload length as a
/// little-endian `u32`, then the payload. A length of 2^32 or more is
/// written modulo 2^32, as a cast to `u32` does.
pub fn encode_frame(payload: &[u8]) -> (frame: Vec<u8>)
    requires
        payload@.len() + 4 <= usize::MAX,
    ensures
        frame@ == encoded_frame(payload@),
        frame@.len() == payload@.len() + 4,
        frame@[0] == ((payload@.len() % 0x1_0000_0000) % 256) as u8,
        frame@[1] == (((payload@.len() % 0x1_0000_0000) / 256) % 256) as u8,
        frame@[2] == (((payload@.len() % 0x1_0000_0000) / 65536) % 256) as u8,
        frame@[3] == (((payload@.len() % 0x1_0000_0000) / 16777216) % 256) as u8,
        frame@.subrange(4, frame@.len() as int) == payload@,
{
    let len: u64 = payload.len() as u64;
    let m: u64 = len % 0x1_0000_0000;
    let mut frame: Vec<u8> = Vec::with_capacity(payload.len() + 4);
    frame.push((m % 256) as u8);
    frame.push(((m / 256) % 256) as u8);
    frame.push(((m / 65536) % 256) as u8);
    frame.push(((m / 16777216) % 256) as u8);
    assert(frame@ == le_u32_bytes(payload@.len()));
    let mut i: usize = 0;
    while i < payload.len()
        invariant
            i <= payload@.len(),
            frame@ == le_u32_bytes(payload@.len()) + payload@.subrange(0, i as int),
        decreases payload@.len() - i,
    {
        frame.push(payload[i]);
        i = i + 1;
        assert(payload@.subrange(0, i as int) == payload@.subrange(0, i - 1) + seq![payload@[i - 1]]);
    }
    assert(payload@.subrange(0, i as int) == payload@);
    frame
}

/// A frame written for a payload that fits a frame header is read back as
/// exactly that payload, whatever bytes follow it, and consuming it leaves
/// exactly the bytes that followed.
pub proof fn lemma_frame_roundtrip(payload: Seq<u8>, rest: Seq<u8>)
    requires
        payload.len() < max_frame_len(),
    ensures
        frame_at_front(encoded_frame(payload) + rest) == Some(payload),
        frame_at_front_len(encoded_frame(payload) + rest) == payload.len() + 4,
        (encoded_frame(payload) + rest).subrange(
            frame_at_front_len(encoded_frame(payload) + rest) as int,
            (encoded_frame(payload) + rest).len() as int,
        ) == rest,
{
    lemma_le_u32_roundtrip(payload.len());
    let buf = encoded_frame(payload) + rest;
    assert(buf.subrange(0, 4) == le_u32_bytes(payload.len()));
    assert(buf.subrange(4, 4 + payload.len() as int) == payload);
    assert(buf.subrange(4 + payload.len() as int, buf.len() as int) == rest);
}

/// No payload is delivered before its whole frame has arrived: a strict
/// prefix of a frame holds no complete frame.
pub proof fn lemma_partial_frame_pending(payload: Seq<u8>, k: int)
    requires
        payload.len() < max_frame_len(),
        0 <= k < encoded_frame(payload).len(),
    ensures
        frame_at_front(encoded_frame(payload).subrange(0, k)) is None,
{
    lemma_le_u32_roundtrip(payload.len());
    let buf = encoded_frame(payload).subrange(0, k);
    if k >= 4 {
        assert(buf.subrange(0, 4) == le_u32_bytes(payload.len()));
    }
}

/// The buffer after one receive attempt: `read` is what the read gave, and
/// `delivered` says whether the payload at the front was decoded (and its
/// frame dropped), as [`ReceiveBuffer::receive_step`] followed by
/// [`ReceiveBuffer::finish_decode`] leave it.
pub open spec fn buffer_after_attempt(before: Seq<u8>, read: Seq<u8>, delivered: bool) -> Seq<u8> {
    let grown = before + read;
    if delivered && frame_at_front(grown) is Some {
        grown.subrange(frame_at_front_len(grown) as int, grown.len() as int)
    } else {
        grown
    }
}

/// One receive attempt that reads at most [`READ_CHUNK_LEN`] bytes grows
/// the buffer by at most that many bytes, and when it drops bytes it drops
/// exactly one whole frame (its 4-byte header and its payload) from the
/// front, after which the bytes that followed the frame remain.
pub proof fn lemma_receive_attempt_bounds(before: Seq<u8>, read: Seq<u8>, delivered: bool)
    requires
        read.len() <= READ_CHUNK_LEN,
    ensures
        buffer_after_attempt(before, read, delivered).len() <= before.len() + READ_CHUNK_LEN,
        buffer_after_attempt(before, read, delivered) == before + read || ({
            let grown = before + read;
            &&& frame_at_front(grown) matches Some(p)
            &&& frame_at_front_len(grown) == 4 + p.len()
            &&& grown == grown.subrange(0, 4 + p.len() as int) + buffer_after_attempt(before, read, delivered)
        }),
{
    let grown = before + read;
    if delivered && frame_at_front(grown) is Some {
        let k = frame_at_front_len(grown) as int;
        assert(grown == grown.subrange(0, k) + grown.subrange(k, grown.len() as int));
    }
}

/// The bytes received on a connection that have not yet been delivered as
/// messages.
pub struct ReceiveBuffer {
    bytes: Vec<u8>,
}

impl View for ReceiveBuffer {
    type V = Seq<u8>;

    closed spec fn view(&self) -> Seq<u8> {
        self.bytes@
    }
}

impl ReceiveBuffer {
    /// An empty buffer.
    pub fn new() -> (buf: ReceiveBuffer)
        ensures
            buf@ == Seq::<u8>::empty(),
    {
        ReceiveBuffer { bytes: Vec::new() }
    }

    /// Appends bytes read from the stream.
    pub fn extend(&mut self, data: &[u8])
        ensures
            final(self)@ == old(self)@ + data@,
    {
        let mut i: usize = 0;
        while i < data.len()
            invariant
                i <= data@.len(),
                self@ == old(self)@ + data@.subrange(0, i as int),
            decreases data@.len() - i,
        {
            self.bytes.push(data[i]);
            i = i + 1;
            assert(data@.subrange(0, i as int) == data@.subrange(0, i - 1) + seq![data@[i - 1]]);
        }
        assert(data@.subrange(0, i as int) == data@);
    }

    /// Whether a complete frame is buffered.
    pub fn has_frame(&self) -> (r: bool)
        ensures
            r == frame_at_front(self@) is Some,
            r <==> self@.len() >= 4 && self@.len() - 4 >= self@[0] + 256 * self@[1] + 65536
                * self@[2] + 16777216 * self@[3],
    {
        proof {
            if self@.len() >= 4 {
                lemma_header_value(self@);
            }
        }
        self.frame_len().is_some()
    }

    /// The total length of the frame at the front, if it has fully arrived.
    fn frame_len(&self) -> (r: Option<usize>)
        ensures
            r is Some <==> frame_at_front(self@) is Some,
            r matches Some(n) ==> n == frame_at_front_len(self@) && n <= self@.len(),
    {
        let len: usize = self.bytes.len();
        if len < 4 {
            return None;
        }
        let b0: u64 = self.bytes[0] as u64;
        let b1: u64 = self.bytes[1] as u64;
        let b2: u64 = self.bytes[2] as u64;
        let b3: u64 = self.bytes[3] as u64;
        proof {
            assert(self@.subrange(0, 4)[0] == self@[0]);
            assert(self@.subrange(0, 4)[1] == self@[1]);
            assert(self@.subrange(0, 4)[2] == self@[2]);
            assert(self@.subrange(0, 4)[3] == self@[3]);
        }
        let n: u64 = b0 + b1 * 256 + b2 * 65536 + b3 * 16777216;
        if ((len - 4) as u64) < n {
            None
        } else {
            Some(4 + n as usize)
        }
    }

    /// A copy of the payload of the frame at the front, if it has fully
    /// arrived. The buffer is left as it is.
    pub fn next_frame(&self) -> (r: Option<Vec<u8>>)
        ensures
            r is Some <==> frame_at_front(self@) is Some,
            r matches Some(p) ==> frame_at_front(self@) == Some(p@),
            r is Some <==> self@.len() >= 4 && self@.len() - 4 >= self@[0] + 256 * self@[1]
                + 65536 * self@[2] + 16777216 * self@[3],
            r matches Some(p) ==> p@ == self@.subrange(
                4,
                4 + self@[0] + 256 * self@[1] + 65536 * self@[2] + 16777216 * self@[3],
            ),
    {
        proof {
            if self@.len() >= 4 {
                lemma_header_value(self@);
            }
        }
        match self.frame_len() {
            None => None,
            Some(end) => {
                let mut payload: Vec<u8> = Vec::new();
                let mut i: usize = 4;
                while i < end
                    invariant
                        4 <= i <= end,
                        end <= self@.len(),
                        payload@ == self@.subrange(4, i as int),
                    decreases end - i,
                {
                    payload.push(self.bytes[i]);
                    i = i + 1;
                    assert(self@.subrange(4, i as int) == self@.subrange(4, i - 1) + seq![self@[i - 1]]);
                }
                Some(payload)
            },
        }
    }

    /// Drops the frame at the front, once its payload has been decoded.
    pub fn consume_frame(&mut self)
        requires
            frame_at_front(old(self)@) is Some,
        ensures
            final(self)@ == old(self)@.subrange(
                frame_at_front_len(old(self)@) as int,
                old(self)@.len() as int,
            ),
            final(self)@ == old(self)@.subrange(
                4 + old(self)@[0] + 256 * old(self)@[1] + 65536 * old(self)@[2] + 16777216 * old(
                    self,
                )@[3],
                old(self)@.len() as int,
            ),
    {
        proof {
            lemma_header_value(old(self)@);
        }
        let end: usize = match self.frame_len() {
            Some(n) => n,
            None => 0,
        };
        let rest = self.bytes.split_off(end);
        self.bytes = rest;
    }

    /// Ends a receive attempt once the payload that [`Self::receive_step`]
    /// handed out has been decoded. A decoded message is delivered and its
    /// frame dropped from the buffer; a decoding failure is reported and the
    /// frame stays buffered.
    pub fn finish_decode<R>(&mut self, decoded: Result<R, wincode::ReadError>) -> (r: Result<
        Option<R>,
        ReceiveError,
    >)
        ensures
            match decoded {
                Ok(v) => {
                    &&& r == Ok::<Option<R>, ReceiveError>(Some(v))
                    &&& frame_at_front(old(self)@) is Some ==> final(self)@ == old(self)@.subrange(
                        frame_at_front_len(old(self)@) as int,
                        old(self)@.len() as int,
                    )
                    &&& frame_at_front(old(self)@) is None ==> final(self)@ == old(self)@
                },
                Err(e) => {
                    &&& r == Err::<Option<R>, ReceiveError>(ReceiveError::DeserializeFailed(e))
                    &&& final(self)@ == old(self)@
                },
            },
    {
        match decoded {
            Ok(message) => {
                if self.has_frame() {
                    self.consume_frame();
                }
                Ok(Some(message))
            },
            Err(e) => Err(ReceiveError::DeserializeFailed(e)),
        }
    }

    /// One receive attempt: takes what a read of the stream gave and says
    /// whether a complete message is ready to be decoded.
    ///
    /// Read bytes are appended to the buffer (an empty read adds nothing).
    /// A read that would block yields [`ReceiveStep::Pending`] and a failed
    /// read [`ReceiveStep::Failed`], both without looking at the buffer.
    /// Otherwise the payload of the frame at the front is handed out for
    /// decoding if the whole frame has arrived, and `Pending` is returned if
    /// not.
    pub fn receive_step(&mut self, read: ReadOutcome) -> (step: ReceiveStep)
        ensures
            match read {
                ReadOutcome::Data(d) => {
                    &&& final(self)@ == old(self)@ + d@
                    &&& match frame_at_front(final(self)@) {
                        Some(p) => step matches ReceiveStep::Decode(q) && q@ == p,
                        None => step is Pending,
                    }
                },
                ReadOutcome::WouldBlock => final(self)@ == old(self)@ && step is Pending,
                ReadOutcome::Failed(e) => final(self)@ == old(self)@ && step == ReceiveStep::Failed(
                    ReceiveError::Io(e),
                ),
            },
    {
        match read {
            ReadOutcome::Data(d) => {
                self.extend(d.as_slice());
                match self.next_frame() {
                    Some(p) => ReceiveStep::Decode(p),
                    None => ReceiveStep::Pending,
                }
            },
            ReadOutcome::WouldBlock => ReceiveStep::Pending,
            ReadOutcome::Failed(e) => ReceiveStep::Failed(ReceiveError::Io(e)),
        }
    }
}

} // verus!
