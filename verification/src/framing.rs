//! Length-prefixed framing of the byte stream between peers.
//!
//! Every frame is a two byte big-endian length followed by that many payload
//! bytes. The reader keeps the bytes it has received in a buffer and pulls
//! every complete frame off its front; what is left stays for the next read.

use vstd::prelude::*;

verus! {

/// Number of bytes of the length header in front of every frame.
pub const HEADER_LEN: usize = 2;

/// Size of the chunk that is read from a connection at a time.
pub const BUFFER_SIZE: usize = 512;

/// The payload length announced by the header at the front of `buf`.
pub open spec fn announced_len(buf: Seq<u8>) -> int
    recommends
        buf.len() >= 2,
{
    buf[0] as int * 256 + buf[1] as int
}

/// Whether a complete frame stands at the front of `buf`: more than the
/// header has arrived, and at least the announced payload after it.
pub open spec fn has_frame(buf: Seq<u8>) -> bool {
    &&& buf.len() > 2
    &&& buf.len() - 2 >= announced_len(buf)
}

/// The complete frames at the front of `buf`, in order, and the bytes left
/// after them.
pub open spec fn decode_frames(buf: Seq<u8>) -> (Seq<Seq<u8>>, Seq<u8>)
    decreases buf.len(),
{
    if has_frame(buf) {
        let n = announced_len(buf);
        let rest = decode_frames(buf.subrange(2 + n, buf.len() as int));
        (seq![buf.subrange(2, 2 + n)] + rest.0, rest.1)
    } else {
        (Seq::empty(), buf)
    }
}

/// The header written in front of a payload of `len` bytes: the length
/// taken modulo 2^16, big-endian.
pub open spec fn header_of(len: int) -> Seq<u8> {
    seq![((len % 65536) / 256) as u8, (len % 256) as u8]
}

/// The bytes that carry one payload.
pub open spec fn encode_frame_spec(payload: Seq<u8>) -> Seq<u8> {
    header_of(payload.len() as int) + payload
}

/// The bytes that carry a sequence of payloads, one frame after the other.
pub open spec fn encode_frames_spec(payloads: Seq<Seq<u8>>) -> Seq<u8>
    decreases payloads.len(),
{
    if payloads.len() == 0 {
        Seq::empty()
    } else {
        encode_frame_spec(payloads[0]) + encode_frames_spec(payloads.drop_first())
    }
}

/// Splits every complete frame off the front of `buf`.
///
/// Returns the payloads in order and the bytes that follow the last complete
/// frame.
pub fn split_frames(buf: &Vec<u8>) -> (res: (Vec<Vec<u8>>, Vec<u8>))
    ensures
        res.0@.map_values(|v: Vec<u8>| v@) == decode_frames(buf@).0,
        res.1@ == decode_frames(buf@).1,
{
    let mut frames: Vec<Vec<u8>> = Vec::new();
    let mut pos: usize = 0;
    let len = buf.len();
    assert(buf@.subrange(0, len as int) =~= buf@);
    assert(frames@.map_values(|v: Vec<u8>| v@) + decode_frames(buf@).0 =~= decode_frames(buf@).0);
    while len - pos > 2 && (len - pos - 2) >= (buf[pos] as usize) * 256 + (buf[pos + 1] as usize)
        invariant
            len == buf@.len(),
            pos <= len,
            decode_frames(buf@).0 == frames@.map_values(|v: Vec<u8>| v@) + decode_frames(
                buf@.subrange(pos as int, len as int),
            ).0,
            decode_frames(buf@).1 == decode_frames(buf@.subrange(pos as int, len as int)).1,
        decreases len - pos,
    {
        let ghost tail = buf@.subrange(pos as int, len as int);
        let n: usize = (buf[pos] as usize) * 256 + (buf[pos + 1] as usize);
        assert(announced_len(tail) == n);
        assert(has_frame(tail));
        let mut payload: Vec<u8> = Vec::new();
        let start = pos + 2;
        let end = pos + 2 + n;
        let mut i = start;
        while i < end
            invariant
                start <= i <= end,
                end <= len,
                len == buf@.len(),
                payload@ == buf@.subrange(start as int, i as int),
            decreases end - i,
        {
            payload.push(buf[i]);
            i = i + 1;
            assert(payload@ =~= buf@.subrange(start as int, i as int));
        }
        assert(tail.subrange(2, 2 + n as int) =~= payload@);
        assert(tail.subrange(2 + n as int, tail.len() as int) =~= buf@.subrange(
            end as int,
            len as int,
        ));
        let ghost before = frames@.map_values(|v: Vec<u8>| v@);
        frames.push(payload);
        assert(frames@.map_values(|v: Vec<u8>| v@) =~= before.push(payload@));
        assert(before.push(payload@) + decode_frames(buf@.subrange(end as int, len as int)).0
            =~= before + (seq![payload@] + decode_frames(
            buf@.subrange(end as int, len as int),
        ).0));
        pos = end;
    }
    let ghost tail = buf@.subrange(pos as int, len as int);
    assert(!has_frame(tail));
    let mut rest: Vec<u8> = Vec::new();
    let mut i = pos;
    while i < len
        invariant
            pos <= i <= len,
            len == buf@.len(),
            rest@ == buf@.subrange(pos as int, i as int),
        decreases len - i,
    {
        rest.push(buf[i]);
        i = i + 1;
        assert(rest@ =~= buf@.subrange(pos as int, i as int));
    }
    assert(frames@.map_values(|v: Vec<u8>| v@) + Seq::<Seq<u8>>::empty() =~= frames@.map_values(
        |v: Vec<u8>| v@,
    ));
    (frames, rest)
}

/// The frame that carries `payload`: its length, taken modulo 2^16 as the
/// two byte header holds it, big-endian, then the payload itself.
pub fn encode_frame(payload: &[u8]) -> (res: Vec<u8>)
    ensures
        res@ == encode_frame_spec(payload@),
{
    let n = payload.len();
    let size: usize = n % 65536;
    let mut res: Vec<u8> = Vec::new();
    res.push((size / 256) as u8);
    res.push((size % 256) as u8);
    let mut i: usize = 0;
    while i < n
        invariant
            n == payload@.len(),
            i <= n,
            res@ == header_of(n as int) + payload@.subrange(0, i as int),
        decreases n - i,
    {
        res.push(payload[i]);
        i = i + 1;
        assert(res@ =~= header_of(n as int) + payload@.subrange(0, i as int));
    }
    assert(payload@.subrange(0, n as int) =~= payload@);
    res
}

/// Decoding is indifferent to how the stream was cut into reads: decoding
/// `b1` and then the bytes it left followed by `b2` yields the same frames,
/// and leaves the same bytes, as decoding `b1 + b2` at once.
pub proof fn lemma_decode_append(b1: Seq<u8>, b2: Seq<u8>)
    ensures
        ({
            let first = decode_frames(b1);
            let second = decode_frames(first.1 + b2);
            decode_frames(b1 + b2) == (first.0 + second.0, second.1)
        }),
    decreases b1.len(),
{
    let first = decode_frames(b1);
    if has_frame(b1) {
        let n = announced_len(b1);
        let tail = b1.subrange(2 + n, b1.len() as int);
        let both = b1 + b2;
        assert(both[0] == b1[0] && both[1] == b1[1]);
        assert(has_frame(both));
        assert(both.subrange(2, 2 + n) =~= b1.subrange(2, 2 + n));
        assert(both.subrange(2 + n, both.len() as int) =~= tail + b2);
        lemma_decode_append(tail, b2);
        let second = decode_frames(first.1 + b2);
        assert(decode_frames(b1 + b2).0 =~= first.0 + second.0);
    } else {
        assert(first.0 + decode_frames(first.1 + b2).0 =~= decode_frames(first.1 + b2).0);
    }
}

/// A frame of at most 2^16 - 1 payload bytes is read back as exactly that
/// payload, provided anything at all follows its header.
pub proof fn lemma_decode_frame(payload: Seq<u8>, rest: Seq<u8>)
    requires
        payload.len() <= 65535,
        payload.len() + rest.len() > 0,
    ensures
        decode_frames(encode_frame_spec(payload) + rest) == (
            seq![payload] + decode_frames(rest).0,
            decode_frames(rest).1,
        ),
{
    let buf = encode_frame_spec(payload) + rest;
    let n = payload.len() as int;
    assert(buf[0] == ((n % 65536) / 256) as u8);
    assert(buf[1] == (n % 256) as u8);
    assert(n % 65536 == n);
    assert(announced_len(buf) == n);
    assert(buf.subrange(2, 2 + n) =~= payload);
    assert(buf.subrange(2 + n, buf.len() as int) =~= rest);
}

/// Writing a sequence of payloads, each of at most 2^16 - 1 bytes, as frames
/// and reading the bytes back yields exactly those payloads and leaves
/// nothing, unless the last payload is empty: a lone trailing header is not
/// taken for a frame.
pub proof fn lemma_decode_encode_frames(payloads: Seq<Seq<u8>>)
    requires
        forall|i: int| 0 <= i < payloads.len() ==> #[trigger] payloads[i].len() <= 65535,
        payloads.len() == 0 || payloads.last().len() > 0,
    ensures
        decode_frames(encode_frames_spec(payloads)) == (payloads, Seq::<u8>::empty()),
    decreases payloads.len(),
{
    if payloads.len() == 0 {
        assert(decode_frames(Seq::<u8>::empty()) == (Seq::<Seq<u8>>::empty(), Seq::<u8>::empty()));
    } else {
        let rest = payloads.drop_first();
        assert(forall|i: int| 0 <= i < rest.len() ==> #[trigger] rest[i] == payloads[i + 1]);
        if rest.len() > 0 {
            assert(rest.last() == payloads.last());
            lemma_encode_frames_len(rest);
        }
        lemma_decode_encode_frames(rest);
        lemma_decode_frame(payloads[0], encode_frames_spec(rest));
        assert(seq![payloads[0]] + rest =~= payloads);
    }
}

/// The frames of a non-empty sequence of payloads take at least a header.
pub proof fn lemma_encode_frames_len(payloads: Seq<Seq<u8>>)
    requires
        payloads.len() > 0,
    ensures
        encode_frames_spec(payloads).len() >= 2,
{
}

} // verus!
