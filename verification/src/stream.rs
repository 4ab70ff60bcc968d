//! Reassembly of frames from a byte stream that arrives in arbitrary
//! chunks, and the splitting of encoded frames into link-sized packets.

use vstd::prelude::*;
use crate::frame::{
    encodable, encode_spec, header_payload_len, header_session_id, lemma_type_code_roundtrip,
    type_code, type_of_code, Frame, FrameType, SpecFrame, HEADER_LEN,
};

verus! {

/// Largest packet payload of an RNS link.
pub const LINK_MDU: usize = 431;

/// Whether `b` starts with a complete frame (header and whole payload).
pub open spec fn starts_with_frame(b: Seq<u8>) -> bool {
    b.len() >= HEADER_LEN && b.len() >= HEADER_LEN + header_payload_len(b)
}

/// The number of bytes that the frame at the start of `b` occupies.
pub open spec fn leading_frame_len(b: Seq<u8>) -> nat {
    HEADER_LEN as nat + header_payload_len(b)
}

/// The frame at the start of `b`; `None` when its type code is unknown.
pub open spec fn leading_frame(b: Seq<u8>) -> Option<SpecFrame> {
    match type_of_code(b[0]) {
        Some(t) => Some(
            SpecFrame {
                frame_type: t,
                session_id: header_session_id(b),
                payload: b.subrange(HEADER_LEN as int, leading_frame_len(b) as int),
            },
        ),
        None => None,
    }
}

/// The frames that a stream holds, in order. Complete frames with an
/// unknown type code are skipped; an incomplete tail yields nothing.
pub open spec fn stream_frames(b: Seq<u8>) -> Seq<SpecFrame>
    decreases b.len(),
{
    if starts_with_frame(b) {
        let rest = stream_frames(b.skip(leading_frame_len(b) as int));
        match leading_frame(b) {
            Some(f) => seq![f] + rest,
            None => rest,
        }
    } else {
        Seq::empty()
    }
}

/// The incomplete tail of a stream, kept until more bytes arrive.
pub open spec fn stream_rest(b: Seq<u8>) -> Seq<u8>
    decreases b.len(),
{
    if starts_with_frame(b) {
        stream_rest(b.skip(leading_frame_len(b) as int))
    } else {
        b
    }
}

/// The views of a sequence of frames.
pub open spec fn frames_view(v: Seq<Frame>) -> Seq<SpecFrame> {
    v.map_values(|f: Frame| f@)
}

/// Appends `data` to the receive buffer `buf`, takes every complete frame
/// off its front and returns the frames of known type, in order; the
/// buffer keeps the incomplete tail.
pub fn reassemble(buf: &mut Vec<u8>, data: &[u8]) -> (frames: Vec<Frame>)
    ensures
        frames_view(frames@) == stream_frames(old(buf)@ + data@),
        final(buf)@ == stream_rest(old(buf)@ + data@),
{
    let ghost all = old(buf)@ + data@;
    let mut k: usize = 0;
    while k < data.len()
        invariant
            k <= data@.len(),
            buf@ =~= old(buf)@ + data@.subrange(0, k as int),
        decreases data@.len() - k,
    {
        buf.push(data[k]);
        k = k + 1;
    }
    assert(buf@ =~= all);
    let mut out: Vec<Frame> = Vec::new();
    let mut pos: usize = 0;
    let len = buf.len();
    assert(all.skip(0) =~= all);
    loop
        invariant
            buf@ == all,
            len == all.len(),
            pos <= len,
            stream_frames(all) == frames_view(out@) + stream_frames(all.skip(pos as int)),
            stream_rest(all) == stream_rest(all.skip(pos as int)),
        ensures
            !starts_with_frame(all.skip(pos as int)),
        decreases len - pos,
    {
        let ghost tail = all.skip(pos as int);
        let avail = len - pos;
        if avail < HEADER_LEN {
            assert(!starts_with_frame(tail));
            break;
        }
        let plen: usize = (buf[pos + 5] as usize) * 256 + (buf[pos + 6] as usize);
        assert(tail[5] == all[pos + 5] && tail[6] == all[pos + 6]);
        assert(plen == header_payload_len(tail));
        if avail - HEADER_LEN < plen {
            assert(!starts_with_frame(tail));
            break;
        }
        let total = HEADER_LEN + plen;
        assert(starts_with_frame(tail));
        assert(tail.skip(total as int) =~= all.skip((pos + total) as int));
        let ghost before = out@;
        match FrameType::from_u8(buf[pos]) {
            Some(t) => {
                let sid: u32 = ((buf[pos + 1] as u32) * 0x100_0000) + ((buf[pos + 2] as u32) * 0x1_0000)
                    + ((buf[pos + 3] as u32) * 0x100) + (buf[pos + 4] as u32);
                let payload = vstd::slice::slice_to_vec(
                    vstd::slice::slice_subrange(buf.as_slice(), pos + HEADER_LEN, pos + total),
                );
                assert(payload@ =~= tail.subrange(HEADER_LEN as int, total as int));
                assert(sid == header_session_id(tail));
                out.push(Frame { frame_type: t, session_id: sid, payload });
                assert(frames_view(out@) =~= frames_view(before) + seq![leading_frame(tail).unwrap()]);
            },
            None => {
                assert(leading_frame(tail) is None);
            },
        }
        pos = pos + total;
    }
    let rest = buf.split_off(pos);
    let ghost t = all.skip(pos as int);
    assert(stream_frames(t) =~= Seq::<SpecFrame>::empty());
    assert(stream_frames(all) =~= frames_view(out@));
    assert(stream_rest(t) == t);
    assert(rest@ =~= t);
    *buf = rest;
    out
}


/// Splitting a stream: the frames of `a + b` are the frames of `a` followed
/// by the frames of what `a` left incomplete followed by `b`; and both ways
/// leave the same incomplete tail.
pub proof fn lemma_stream_split(a: Seq<u8>, b: Seq<u8>)
    ensures
        stream_frames(a + b) == stream_frames(a) + stream_frames(stream_rest(a) + b),
        stream_rest(a + b) == stream_rest(stream_rest(a) + b),
    decreases a.len(),
{
    if starts_with_frame(a) {
        let n = leading_frame_len(a);
        let ab = a + b;
        assert(ab[5] == a[5] && ab[6] == a[6] && ab[0] == a[0]);
        assert(header_payload_len(ab) == header_payload_len(a));
        assert(starts_with_frame(ab));
        assert(ab.skip(n as int) =~= a.skip(n as int) + b);
        assert(ab.subrange(HEADER_LEN as int, n as int) =~= a.subrange(HEADER_LEN as int, n as int));
        assert(header_session_id(ab) == header_session_id(a));
        assert(leading_frame(ab) == leading_frame(a));
        lemma_stream_split(a.skip(n as int), b);
        match leading_frame(a) {
            Some(f) => {
                assert(stream_frames(ab) =~= seq![f] + stream_frames(a.skip(n as int) + b));
                assert(stream_frames(a) =~= seq![f] + stream_frames(a.skip(n as int)));
            },
            None => {},
        }
        assert(stream_frames(ab) =~= stream_frames(a) + stream_frames(stream_rest(a) + b));
    } else {
        assert(stream_frames(a) =~= Seq::<SpecFrame>::empty());
    }
}

/// The header fields of an encoded frame read back as the frame's fields.
proof fn lemma_header_fields(f: SpecFrame, rest: Seq<u8>)
    requires
        encodable(f),
    ensures
        header_payload_len(encode_spec(f) + rest) == f.payload.len(),
        header_session_id(encode_spec(f) + rest) == f.session_id,
        (encode_spec(f) + rest)[0] == type_code(f.frame_type),
{
    let b = encode_spec(f) + rest;
    let n = f.session_id;
    let l = f.payload.len();
    assert(b[1] == (n / 0x100_0000) as u8);
    assert(b[2] == ((n / 0x1_0000) % 0x100) as u8);
    assert(b[3] == ((n / 0x100) % 0x100) as u8);
    assert(b[4] == (n % 0x100) as u8);
    assert(b[5] == ((l / 0x100) % 0x100) as u8);
    assert(b[6] == (l % 0x100) as u8);
    assert((((n / 0x100_0000) as u8) as int) * 0x100_0000 + (((n / 0x1_0000) % 0x100) as u8) as int
        * 0x1_0000 + (((n / 0x100) % 0x100) as u8) as int * 0x100 + ((n % 0x100) as u8) as int
        == n) by (bit_vector);
    let l16 = l as u16;
    assert(((((l16 / 0x100) % 0x100) as u8) as int) * 0x100 + ((l16 % 0x100) as u8) as int == l16)
        by (bit_vector);
}

/// An encoded frame at the front of a stream is read back as that frame,
/// and reading continues right after it.
pub proof fn lemma_encoded_frame_parses(f: SpecFrame, rest: Seq<u8>)
    requires
        encodable(f),
    ensures
        stream_frames(encode_spec(f) + rest) == seq![f] + stream_frames(rest),
        stream_rest(encode_spec(f) + rest) == stream_rest(rest),
{
    let b = encode_spec(f) + rest;
    lemma_header_fields(f, rest);
    let n = leading_frame_len(b);
    assert(n == HEADER_LEN + f.payload.len());
    assert(starts_with_frame(b));
    assert(b.skip(n as int) =~= rest);
    assert(b.subrange(HEADER_LEN as int, n as int) =~= f.payload);
    lemma_type_code_roundtrip(f.frame_type);
    assert(leading_frame(b) == Some(f));
}


/// The concatenation of a sequence of chunks.
pub open spec fn concat_all(cs: Seq<Seq<u8>>) -> Seq<u8>
    decreases cs.len(),
{
    if cs.len() == 0 {
        Seq::empty()
    } else {
        cs[0] + concat_all(cs.drop_first())
    }
}

/// The packets into which `b` is cut: pieces of `m` bytes, the last one
/// possibly shorter; no packet for empty input.
pub open spec fn packets_spec(b: Seq<u8>, m: nat) -> Seq<Seq<u8>>
    decreases b.len(),
{
    if b.len() == 0 {
        Seq::empty()
    } else if m == 0 || b.len() <= m {
        seq![b]
    } else {
        seq![b.take(m as int)] + packets_spec(b.skip(m as int), m)
    }
}

/// The views of a sequence of packets.
pub open spec fn packets_view(v: Seq<Vec<u8>>) -> Seq<Seq<u8>> {
    v.map_values(|p: Vec<u8>| p@)
}

/// Cuts `bytes` into packets of at most `LINK_MDU` bytes, in order.
pub fn split_packets(bytes: &[u8]) -> (packets: Vec<Vec<u8>>)
    ensures
        packets_view(packets@) == packets_spec(bytes@, LINK_MDU as nat),
{
    let mut out: Vec<Vec<u8>> = Vec::new();
    let len = bytes.len();
    let mut pos: usize = 0;
    assert(bytes@.skip(0) =~= bytes@);
    while pos < len
        invariant
            pos <= len,
            len == bytes@.len(),
            packets_spec(bytes@, LINK_MDU as nat) =~= packets_view(out@) + packets_spec(
                bytes@.skip(pos as int),
                LINK_MDU as nat,
            ),
        decreases len - pos,
    {
        let ghost tail = bytes@.skip(pos as int);
        let ghost before = packets_view(out@);
        let end = if len - pos <= LINK_MDU { len } else { pos + LINK_MDU };
        let piece = vstd::slice::slice_to_vec(vstd::slice::slice_subrange(bytes, pos, end));
        if len - pos <= LINK_MDU {
            assert(piece@ =~= tail);
        } else {
            assert(piece@ =~= tail.take(LINK_MDU as int));
            assert(tail.skip(LINK_MDU as int) =~= bytes@.skip(end as int));
        }
        out.push(piece);
        assert(packets_view(out@) =~= before + seq![piece@]);
        pos = end;
    }
    assert(packets_spec(bytes@.skip(len as int), LINK_MDU as nat) =~= Seq::<Seq<u8>>::empty());
    out
}

/// Concatenation distributes over appending chunk lists.
pub proof fn lemma_concat_all_append(a: Seq<Seq<u8>>, b: Seq<Seq<u8>>)
    ensures
        concat_all(a + b) == concat_all(a) + concat_all(b),
    decreases a.len(),
{
    if a.len() == 0 {
        assert(a + b =~= b);
        assert(concat_all(a) + concat_all(b) =~= concat_all(b));
    } else {
        assert((a + b).drop_first() =~= a.drop_first() + b);
        lemma_concat_all_append(a.drop_first(), b);
        assert(concat_all(a + b) =~= concat_all(a) + concat_all(b));
    }
}

/// Cutting into packets loses and reorders nothing, and every packet holds
/// between one and `m` bytes.
pub proof fn lemma_packets_spec(b: Seq<u8>, m: nat)
    requires
        m > 0,
    ensures
        concat_all(packets_spec(b, m)) == b,
        forall|i: int|
            0 <= i < packets_spec(b, m).len() ==> 0 < #[trigger] packets_spec(b, m)[i].len() <= m,
    decreases b.len(),
{
    if b.len() == 0 {
        assert(concat_all(packets_spec(b, m)) =~= b);
    } else if b.len() <= m {
        let p = packets_spec(b, m);
        assert(p.drop_first() =~= Seq::<Seq<u8>>::empty());
        assert(concat_all(p.drop_first()) == Seq::<u8>::empty());
        assert(concat_all(p) =~= b);
    } else {
        lemma_packets_spec(b.skip(m as int), m);
        let p = packets_spec(b, m);
        assert(p.drop_first() =~= packets_spec(b.skip(m as int), m));
        assert(concat_all(p) =~= b);
        assert forall|i: int| 0 <= i < p.len() implies 0 < #[trigger] p[i].len() <= m by {
            if i > 0 {
                assert(p[i] == packets_spec(b.skip(m as int), m)[i - 1]);
            }
        }
    }
}

/// The frames delivered when the chunks `cs` arrive one after another at a
/// receive buffer holding `buf`.
pub open spec fn feed_frames(buf: Seq<u8>, cs: Seq<Seq<u8>>) -> Seq<SpecFrame>
    decreases cs.len(),
{
    if cs.len() == 0 {
        Seq::empty()
    } else {
        stream_frames(buf + cs[0]) + feed_frames(stream_rest(buf + cs[0]), cs.drop_first())
    }
}

/// The receive buffer after the chunks `cs` arrived at a buffer holding `buf`.
pub open spec fn feed_rest(buf: Seq<u8>, cs: Seq<Seq<u8>>) -> Seq<u8>
    decreases cs.len(),
{
    if cs.len() == 0 {
        buf
    } else {
        feed_rest(stream_rest(buf + cs[0]), cs.drop_first())
    }
}

/// What is left incomplete never starts with a complete frame.
pub proof fn lemma_rest_incomplete(b: Seq<u8>)
    ensures
        !starts_with_frame(stream_rest(b)),
    decreases b.len(),
{
    if starts_with_frame(b) {
        lemma_rest_incomplete(b.skip(leading_frame_len(b) as int));
    }
}

/// Reassembly does not depend on how the stream was cut: feeding the chunks
/// `cs` one by one to a receive buffer (which holds no complete frame)
/// delivers the same frames, and leaves the same tail, as feeding their
/// concatenation at once.
pub proof fn lemma_feed_chunks(buf: Seq<u8>, cs: Seq<Seq<u8>>)
    requires
        !starts_with_frame(buf),
    ensures
        feed_frames(buf, cs) == stream_frames(buf + concat_all(cs)),
        feed_rest(buf, cs) == stream_rest(buf + concat_all(cs)),
    decreases cs.len(),
{
    if cs.len() == 0 {
        assert(buf + concat_all(cs) =~= buf);
        assert(stream_frames(buf) =~= Seq::<SpecFrame>::empty());
    } else {
        let c = cs[0];
        let tail = concat_all(cs.drop_first());
        assert(buf + concat_all(cs) =~= (buf + c) + tail);
        lemma_stream_split(buf + c, tail);
        lemma_rest_incomplete(buf + c);
        lemma_feed_chunks(stream_rest(buf + c), cs.drop_first());
    }
}

/// The wire bytes of a sequence of frames sent one after another.
pub open spec fn encode_all(fs: Seq<SpecFrame>) -> Seq<u8>
    decreases fs.len(),
{
    if fs.len() == 0 {
        Seq::empty()
    } else {
        encode_spec(fs[0]) + encode_all(fs.drop_first())
    }
}

/// Frames sent one after another are read back, in order, with nothing left.
#[verifier::spinoff_prover]
#[verifier::rlimit(40)]
pub proof fn lemma_encode_all_parses(fs: Seq<SpecFrame>)
    requires
        forall|i: int| 0 <= i < fs.len() ==> encodable(#[trigger] fs[i]),
    ensures
        stream_frames(encode_all(fs)) == fs,
        stream_rest(encode_all(fs)) == Seq::<u8>::empty(),
    decreases fs.len(),
{
    if fs.len() == 0 {
        let e = Seq::<u8>::empty();
        assert(!starts_with_frame(e));
        assert(stream_frames(e) =~= fs);
    } else {
        let f0 = fs[0];
        let rest = fs.drop_first();
        assert forall|i: int| 0 <= i < rest.len() implies encodable(#[trigger] rest[i]) by {
            assert(rest[i] == fs[i + 1]);
        }
        lemma_encode_all_parses(rest);
        let r = encode_all(rest);
        assert(encode_all(fs) == encode_spec(f0) + r);
        lemma_encoded_frame_parses(f0, r);
        assert(seq![f0] + rest =~= fs);
    }
}

/// The packets that carry a sequence of frames sent one after another, each
/// frame encoded and cut into link packets on its own.
pub open spec fn send_packets(fs: Seq<SpecFrame>) -> Seq<Seq<u8>>
    decreases fs.len(),
{
    if fs.len() == 0 {
        Seq::empty()
    } else {
        packets_spec(encode_spec(fs[0]), LINK_MDU as nat) + send_packets(fs.drop_first())
    }
}

proof fn lemma_send_packets_concat(fs: Seq<SpecFrame>)
    ensures
        concat_all(send_packets(fs)) == encode_all(fs),
    decreases fs.len(),
{
    if fs.len() > 0 {
        lemma_send_packets_concat(fs.drop_first());
        lemma_concat_all_append(
            packets_spec(encode_spec(fs[0]), LINK_MDU as nat),
            send_packets(fs.drop_first()),
        );
        lemma_packets_spec(encode_spec(fs[0]), LINK_MDU as nat);
    }
}

/// Frames that are encoded, cut into link packets and sent in order are
/// reassembled by an empty receive buffer into exactly those frames, in
/// order, and the buffer ends empty: chunking on send and reassembly on
/// receive are transparent.
pub proof fn lemma_send_receive(fs: Seq<SpecFrame>)
    requires
        forall|i: int| 0 <= i < fs.len() ==> encodable(#[trigger] fs[i]),
    ensures
        feed_frames(Seq::empty(), send_packets(fs)) == fs,
        feed_rest(Seq::empty(), send_packets(fs)) == Seq::<u8>::empty(),
{
    let e = Seq::<u8>::empty();
    lemma_send_packets_concat(fs);
    lemma_feed_chunks(e, send_packets(fs));
    assert(e + concat_all(send_packets(fs)) =~= encode_all(fs));
    lemma_encode_all_parses(fs);
}

} // verus!
