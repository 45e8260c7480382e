//! The wire framing: every message travels as a four-byte big-endian length
//! followed by that many bytes of payload.
use crate::buffers::{
    be_u32, buffer_extend, buffer_freeze, buffer_len, buffer_peek_u32, buffer_put_u32,
    buffer_reserve, buffer_seq, buffer_split_to, bytes_empty, bytes_seq, lemma_be_u32_of_bytes,
    u32_be_bytes,
};
use crate::errors::CsError;
use bytes::{Bytes, BytesMut};
use vstd::prelude::*;

verus! {

/// The framing codec. It holds no state.
#[derive(Debug)]
pub struct CsCodeC;

/// One frame: the length announced in its header and its payload.
#[derive(Debug)]
pub struct CsExchange {
    pub len: u32,
    pub data: Bytes,
}

/// `n` reduced to its low 32 bits, as `n as u32` computes it.
pub open spec fn low32(n: nat) -> int {
    (n % 0x1_0000_0000) as int
}

/// Taking a length to 32 bits keeps lengths below 2^32 and wraps larger ones.
pub proof fn lemma_low32_wraps(n: nat)
    ensures
        0 <= low32(n) < 0x1_0000_0000,
        n < 0x1_0000_0000 ==> low32(n) == n,
        low32(n + 0x1_0000_0000) == low32(n),
{
}

/// The bytes that encode a frame with header `len` and payload `data`.
pub open spec fn frame_bytes(len: u32, data: Seq<u8>) -> Seq<u8> {
    u32_be_bytes(len) + data
}

/// A whole frame stands at the front of `s`: its header has arrived, and
/// the buffer length, taken to 32 bits as the decoder compares it, covers
/// the header and the payload that the header announces.
pub open spec fn frame_ready(s: Seq<u8>) -> bool {
    s.len() >= 4 && low32(s.len()) >= 4 + be_u32(s)
}

/// Decoding is defined where the header's `4 + len` does not overflow a `u32`.
pub open spec fn header_in_range(s: Seq<u8>) -> bool {
    s.len() >= 4 ==> be_u32(s) <= u32::MAX - 4
}

/// The payload of the frame at the front of `s`.
pub open spec fn frame_payload(s: Seq<u8>) -> Seq<u8> {
    s.subrange(4, 4 + be_u32(s))
}

/// What is left of `s` once the frame at its front is taken.
pub open spec fn after_frame(s: Seq<u8>) -> Seq<u8> {
    s.skip(4 + be_u32(s))
}

impl CsExchange {
    /// A frame carrying the encoded message held by `bm`; its header is the
    /// buffer length taken to 32 bits.
    pub fn from_encoded(bm: BytesMut) -> (r: CsExchange)
        ensures
            r.len == low32(buffer_seq(bm).len()),
            bytes_seq(r.data) == buffer_seq(bm),
    {
        let n = buffer_len(&bm);
        let len = n as u32;
        assert(len == (n as u64) % 0x1_0000_0000) by (bit_vector)
            requires
                len == n as u32,
        ;
        CsExchange { len, data: buffer_freeze(bm) }
    }
}

impl CsCodeC {
    /// Takes one frame from the front of `src` when the whole frame has
    /// arrived; otherwise leaves `src` as it is and returns `Ok(None)`.
    /// It never fails.
    pub fn decode(&mut self, src: &mut BytesMut) -> (r: Result<Option<CsExchange>, CsError>)
        requires
            header_in_range(buffer_seq(*old(src))),
        ensures
            !frame_ready(buffer_seq(*old(src))) ==> (r matches Ok(None) && buffer_seq(*final(src))
                == buffer_seq(*old(src))),
            frame_ready(buffer_seq(*old(src))) ==> (r matches Ok(Some(x)) && x.len == be_u32(
                buffer_seq(*old(src)),
            ) && bytes_seq(x.data) == frame_payload(buffer_seq(*old(src))) && buffer_seq(
                *final(src),
            ) == after_frame(buffer_seq(*old(src)))),
    {
        let ghost s = buffer_seq(*src);
        let n = buffer_len(src);
        if n < 4 {
            return Ok(None);
        }
        let len = buffer_peek_u32(src);
        let n32 = n as u32;
        assert(n32 == (n as u64) % 0x1_0000_0000 && n32 <= n) by (bit_vector)
            requires
                n32 == n as u32,
        ;
        if n32 < 4 + len {
            return Ok(None);
        }
        let _header = buffer_split_to(src, 4);
        let data = if len > 0 {
            buffer_freeze(buffer_split_to(src, len as usize))
        } else {
            bytes_empty()
        };
        proof {
            assert(s.skip(4).take(len as int) =~= frame_payload(s));
            assert(s.skip(4).skip(len as int) =~= after_frame(s));
            if len == 0 {
                assert(frame_payload(s) =~= Seq::<u8>::empty());
                assert(s.skip(4) =~= after_frame(s));
            }
        }
        Ok(Some(CsExchange { len, data }))
    }

    /// Appends the frame for `item` to `dst`: the header `item.len` and then
    /// the payload. It never fails.
    pub fn encode(&mut self, item: CsExchange, dst: &mut BytesMut) -> (r: Result<(), CsError>)
        requires
            item.len <= u32::MAX - 4,
            buffer_seq(*old(dst)).len() + 4 + item.len + bytes_seq(item.data).len() <= isize::MAX,
        ensures
            r is Ok,
            buffer_seq(*final(dst)) == buffer_seq(*old(dst)) + frame_bytes(
                item.len,
                bytes_seq(item.data),
            ),
    {
        let ghost s = buffer_seq(*dst);
        buffer_reserve(dst, (4 + item.len) as usize);
        buffer_put_u32(dst, item.len);
        buffer_extend(dst, item.data);
        assert(buffer_seq(*dst) =~= s + frame_bytes(item.len, bytes_seq(item.data)));
        Ok(())
    }
}

/// Decoding what encoding wrote gives back the frame: after any whole frame
/// whose header matches its payload, the decoder finds a ready frame with
/// that header and payload, and leaves exactly what followed it. The buffer
/// must stay within 32-bit lengths, as the decoder compares them so.
pub proof fn lemma_frame_roundtrip(len: u32, data: Seq<u8>, rest: Seq<u8>)
    requires
        data.len() == len,
        4 + len + rest.len() <= u32::MAX,
    ensures
        ({
            let s = frame_bytes(len, data) + rest;
            &&& header_in_range(s)
            &&& frame_ready(s)
            &&& be_u32(s) == len
            &&& frame_payload(s) == data
            &&& after_frame(s) == rest
        }),
{
    lemma_be_u32_of_bytes(len);
    let s = frame_bytes(len, data) + rest;
    let h = u32_be_bytes(len);
    assert(s[0] == h[0] && s[1] == h[1] && s[2] == h[2] && s[3] == h[3]);
    assert(be_u32(s) == be_u32(h));
    assert(frame_payload(s) =~= data);
    assert(after_frame(s) =~= rest);
}

/// A frame that has not fully arrived is never taken: every strict prefix of
/// an encoded frame leaves the decoder waiting.
pub proof fn lemma_partial_frame_waits(len: u32, data: Seq<u8>, k: nat)
    requires
        data.len() == len,
        4 + len <= u32::MAX,
        k < 4 + len,
    ensures
        !frame_ready(frame_bytes(len, data).take(k as int)),
{
    lemma_be_u32_of_bytes(len);
    let s = frame_bytes(len, data).take(k as int);
    if k >= 4 {
        let h = u32_be_bytes(len);
        assert(s[0] == h[0] && s[1] == h[1] && s[2] == h[2] && s[3] == h[3]);
        assert(be_u32(s) == len);
    }
}

} // verus!
