//! Binary framing of messages between services.
//!
//! Every message on a connection is a frame: the session number, the call
//! index and the payload length, each an unsigned 64-bit integer in
//! big-endian order, followed by the payload bytes.  A receiver reads into a
//! buffer of `MAX_PAYLOAD` bytes; a frame announcing an empty payload ends
//! the connection.

use vstd::prelude::*;

verus! {

/// Length of a frame header: three big-endian 64-bit integers.
pub const HEADER_LEN: usize = 24;

/// Size of the receive buffer: the longest payload a receiver accepts.
pub const MAX_PAYLOAD: usize = 8192;

/// The eight bytes of `v` in big-endian order.
pub open spec fn be_bytes(v: u64) -> Seq<u8> {
    seq![
        (v >> 56u64) as u8,
        (v >> 48u64) as u8,
        (v >> 40u64) as u8,
        (v >> 32u64) as u8,
        (v >> 24u64) as u8,
        (v >> 16u64) as u8,
        (v >> 8u64) as u8,
        v as u8,
    ]
}

/// The unsigned integer whose big-endian bytes are `b[0..8]`.
pub open spec fn be_value(b: Seq<u8>) -> u64
    recommends
        b.len() == 8,
{
    ((b[0] as u64) << 56u64) | ((b[1] as u64) << 48u64) | ((b[2] as u64) << 40u64) | ((
    b[3] as u64) << 32u64) | ((b[4] as u64) << 24u64) | ((b[5] as u64) << 16u64) | ((
    b[6] as u64) << 8u64) | (b[7] as u64)
}

/// The bytes of the frame that carries `payload` for call `index` of `session`.
pub open spec fn frame_bytes(session: u64, index: u64, payload: Seq<u8>) -> Seq<u8> {
    be_bytes(session) + be_bytes(index) + be_bytes(payload.len() as u64) + payload
}

/// A decoded frame.
pub struct Frame {
    pub session: u64,
    pub index: u64,
    pub payload: Vec<u8>,
}

/// What a frame holds, for specifications.
pub struct FrameView {
    pub session: u64,
    pub index: u64,
    pub payload: Seq<u8>,
}

impl View for Frame {
    type V = FrameView;

    open spec fn view(&self) -> FrameView {
        FrameView { session: self.session, index: self.index, payload: self.payload@ }
    }
}

/// The outcome of decoding the bytes received so far on a connection.
pub enum Decoded {
    /// At least `needed` bytes are required before the next frame is known.
    Incomplete { needed: usize },
    /// The next frame announces an empty payload: the connection ends.
    Closed,
    /// The next frame announces a payload longer than the receive buffer.
    TooLong { len: u64 },
    /// A whole frame, which occupies the first `consumed` bytes.
    Complete { frame: Frame, consumed: usize },
}

/// What a decoding outcome holds, for specifications.
pub enum DecodedView {
    Incomplete { needed: nat },
    Closed,
    TooLong { len: u64 },
    Complete { frame: FrameView, consumed: nat },
}

impl View for Decoded {
    type V = DecodedView;

    open spec fn view(&self) -> DecodedView {
        match self {
            Decoded::Incomplete { needed } => DecodedView::Incomplete { needed: *needed as nat },
            Decoded::Closed => DecodedView::Closed,
            Decoded::TooLong { len } => DecodedView::TooLong { len: *len },
            Decoded::Complete { frame, consumed } => DecodedView::Complete {
                frame: frame@,
                consumed: *consumed as nat,
            },
        }
    }
}

/// The payload length announced by a header that starts `buf`.
pub open spec fn announced_len(buf: Seq<u8>) -> u64 {
    be_value(buf.subrange(16, 24))
}

/// How the bytes `buf` received so far on a connection decode.
pub open spec fn decode_spec(buf: Seq<u8>) -> DecodedView {
    if buf.len() < HEADER_LEN {
        DecodedView::Incomplete { needed: HEADER_LEN as nat }
    } else {
        let len = announced_len(buf);
        if len == 0 {
            DecodedView::Closed
        } else if len > MAX_PAYLOAD {
            DecodedView::TooLong { len }
        } else if buf.len() < HEADER_LEN + len {
            DecodedView::Incomplete { needed: (HEADER_LEN + len) as nat }
        } else {
            DecodedView::Complete {
                frame: FrameView {
                    session: be_value(buf.subrange(0, 8)),
                    index: be_value(buf.subrange(8, 16)),
                    payload: buf.subrange(HEADER_LEN as int, HEADER_LEN + len),
                },
                consumed: (HEADER_LEN + len) as nat,
            }
        }
    }
}

proof fn lemma_be_value_of_be_bytes(v: u64)
    ensures
        be_value(be_bytes(v)) == v,
{
    let b = be_bytes(v);
    let (b0, b1, b2, b3, b4, b5, b6, b7) = (b[0], b[1], b[2], b[3], b[4], b[5], b[6], b[7]);
    assert(b0 == (v >> 56u64) as u8 && b1 == (v >> 48u64) as u8 && b2 == (v >> 40u64) as u8
        && b3 == (v >> 32u64) as u8 && b4 == (v >> 24u64) as u8 && b5 == (v >> 16u64) as u8
        && b6 == (v >> 8u64) as u8 && b7 == v as u8);
    assert(((b0 as u64) << 56u64) | ((b1 as u64) << 48u64) | ((b2 as u64) << 40u64) | ((
    b3 as u64) << 32u64) | ((b4 as u64) << 24u64) | ((b5 as u64) << 16u64) | ((b6 as u64)
        << 8u64) | (b7 as u64) == v) by (bit_vector)
        requires
            b0 == (v >> 56u64) as u8,
            b1 == (v >> 48u64) as u8,
            b2 == (v >> 40u64) as u8,
            b3 == (v >> 32u64) as u8,
            b4 == (v >> 24u64) as u8,
            b5 == (v >> 16u64) as u8,
            b6 == (v >> 8u64) as u8,
            b7 == v as u8,
    ;
}

proof fn lemma_be_bytes_of_be_value(b: Seq<u8>)
    requires
        b.len() == 8,
    ensures
        be_bytes(be_value(b)) == b,
{
    let (b0, b1, b2, b3, b4, b5, b6, b7) = (b[0], b[1], b[2], b[3], b[4], b[5], b[6], b[7]);
    let v = be_value(b);
    assert(v == ((b0 as u64) << 56u64) | ((b1 as u64) << 48u64) | ((b2 as u64) << 40u64) | ((
    b3 as u64) << 32u64) | ((b4 as u64) << 24u64) | ((b5 as u64) << 16u64) | ((b6 as u64)
        << 8u64) | (b7 as u64));
    assert(b0 == (v >> 56u64) as u8 && b1 == (v >> 48u64) as u8 && b2 == (v >> 40u64) as u8
        && b3 == (v >> 32u64) as u8 && b4 == (v >> 24u64) as u8 && b5 == (v >> 16u64) as u8
        && b6 == (v >> 8u64) as u8 && b7 == v as u8) by (bit_vector)
        requires
            v == ((b0 as u64) << 56u64) | ((b1 as u64) << 48u64) | ((b2 as u64) << 40u64) | ((
            b3 as u64) << 32u64) | ((b4 as u64) << 24u64) | ((b5 as u64) << 16u64) | ((
            b6 as u64) << 8u64) | (b7 as u64),
    ;
    assert(be_bytes(v) =~= b);
}

/// Appends the big-endian bytes of `v` to `out`.
fn push_be_u64(out: &mut Vec<u8>, v: u64)
    ensures
        final(out)@ == old(out)@ + be_bytes(v),
{
    out.push((v >> 56u64) as u8);
    out.push((v >> 48u64) as u8);
    out.push((v >> 40u64) as u8);
    out.push((v >> 32u64) as u8);
    out.push((v >> 24u64) as u8);
    out.push((v >> 16u64) as u8);
    out.push((v >> 8u64) as u8);
    out.push(v as u8);
    assert(out@ =~= old(out)@ + be_bytes(v));
}

/// Reads the big-endian integer held by `buf[at..at + 8]`.
fn read_be_u64(buf: &[u8], at: usize) -> (v: u64)
    requires
        at + 8 <= buf@.len(),
    ensures
        v == be_value(buf@.subrange(at as int, at + 8)),
{
    let s = Ghost(buf@.subrange(at as int, at + 8));
    assert(s@[0] == buf@[at as int] && s@[1] == buf@[at + 1] && s@[2] == buf@[at + 2] && s@[3]
        == buf@[at + 3] && s@[4] == buf@[at + 4] && s@[5] == buf@[at + 5] && s@[6] == buf@[at
        + 6] && s@[7] == buf@[at + 7]);
    ((buf[at] as u64) << 56u64) | ((buf[at + 1] as u64) << 48u64) | ((buf[at + 2] as u64)
        << 40u64) | ((buf[at + 3] as u64) << 32u64) | ((buf[at + 4] as u64) << 24u64) | ((buf[at
        + 5] as u64) << 16u64) | ((buf[at + 6] as u64) << 8u64) | (buf[at + 7] as u64)
}

/// The bytes of the frame that carries `payload` for call `index` of
/// `session`: the header, then the payload.
pub fn encode_frame(session: u64, index: u64, payload: &[u8]) -> (out: Vec<u8>)
    ensures
        out@ == frame_bytes(session, index, payload@),
{
    let mut out: Vec<u8> = Vec::new();
    push_be_u64(&mut out, session);
    push_be_u64(&mut out, index);
    push_be_u64(&mut out, payload.len() as u64);
    let ghost head = out@;
    let mut i: usize = 0;
    while i < payload.len()
        invariant
            i <= payload@.len(),
            out@ == head + payload@.subrange(0, i as int),
        decreases payload@.len() - i,
    {
        out.push(payload[i]);
        i = i + 1;
        assert(out@ =~= head + payload@.subrange(0, i as int));
    }
    assert(payload@.subrange(0, payload@.len() as int) =~= payload@);
    out
}

/// Decodes the bytes `buf` received so far on a connection: whether more
/// bytes are needed, the connection ends, the next frame is too long for the
/// receive buffer, or a whole frame is there.
pub fn decode_frame(buf: &[u8]) -> (d: Decoded)
    ensures
        d@ == decode_spec(buf@),
{
    if buf.len() < HEADER_LEN {
        return Decoded::Incomplete { needed: HEADER_LEN };
    }
    let len = read_be_u64(buf, 16);
    if len == 0 {
        return Decoded::Closed;
    }
    if len > MAX_PAYLOAD as u64 {
        return Decoded::TooLong { len };
    }
    let total = HEADER_LEN + len as usize;
    if buf.len() < total {
        return Decoded::Incomplete { needed: total };
    }
    let session = read_be_u64(buf, 0);
    let index = read_be_u64(buf, 8);
    let mut payload: Vec<u8> = Vec::new();
    let mut i: usize = HEADER_LEN;
    while i < total
        invariant
            HEADER_LEN <= i <= total <= buf@.len(),
            payload@ == buf@.subrange(HEADER_LEN as int, i as int),
        decreases total - i,
    {
        payload.push(buf[i]);
        i = i + 1;
        assert(payload@ =~= buf@.subrange(HEADER_LEN as int, i as int));
    }
    Decoded::Complete { frame: Frame { session, index, payload }, consumed: total }
}

/// Law: a frame whose payload is neither empty nor longer than the receive
/// buffer decodes, from the start of any byte stream that begins with it, to
/// the session, index and payload it was encoded from, and occupies exactly
/// its encoded bytes.
pub proof fn lemma_decode_encode(session: u64, index: u64, payload: Seq<u8>, rest: Seq<u8>)
    requires
        0 < payload.len() <= MAX_PAYLOAD,
    ensures
        decode_spec(frame_bytes(session, index, payload) + rest) == (DecodedView::Complete {
            frame: FrameView { session, index, payload },
            consumed: (HEADER_LEN + payload.len()) as nat,
        }),
{
    let buf = frame_bytes(session, index, payload) + rest;
    assert(buf.subrange(0, 8) =~= be_bytes(session));
    assert(buf.subrange(8, 16) =~= be_bytes(index));
    assert(buf.subrange(16, 24) =~= be_bytes(payload.len() as u64));
    assert(buf.subrange(HEADER_LEN as int, HEADER_LEN + payload.len()) =~= payload);
    lemma_be_value_of_be_bytes(session);
    lemma_be_value_of_be_bytes(index);
    lemma_be_value_of_be_bytes(payload.len() as u64);
}

/// Law: any strict prefix of such a frame decodes as incomplete, so a
/// receiver never acts on part of a frame.
pub proof fn lemma_prefix_incomplete(session: u64, index: u64, payload: Seq<u8>, n: int)
    requires
        0 < payload.len() <= MAX_PAYLOAD,
        0 <= n < HEADER_LEN + payload.len(),
    ensures
        decode_spec(frame_bytes(session, index, payload).subrange(0, n)) is Incomplete,
{
    let full = frame_bytes(session, index, payload);
    let buf = full.subrange(0, n);
    if n >= HEADER_LEN {
        assert(buf.subrange(16, 24) =~= be_bytes(payload.len() as u64));
        lemma_be_value_of_be_bytes(payload.len() as u64);
    }
}

/// Law: re-encoding a decoded frame gives back exactly the bytes it was
/// decoded from.
pub proof fn lemma_encode_decode(buf: Seq<u8>)
    requires
        decode_spec(buf) is Complete,
    ensures
        ({
            let d = decode_spec(buf);
            frame_bytes(d->frame.session, d->frame.index, d->frame.payload) == buf.subrange(
                0,
                d->consumed as int,
            )
        }),
{
    let len = announced_len(buf);
    let total = HEADER_LEN + len;
    lemma_be_bytes_of_be_value(buf.subrange(0, 8));
    lemma_be_bytes_of_be_value(buf.subrange(8, 16));
    lemma_be_bytes_of_be_value(buf.subrange(16, 24));
    let payload = buf.subrange(HEADER_LEN as int, total);
    assert(payload.len() as u64 == len);
    assert(frame_bytes(be_value(buf.subrange(0, 8)), be_value(buf.subrange(8, 16)), payload)
        =~= buf.subrange(0, total));
}

} // verus!
