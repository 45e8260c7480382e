//! Byte buffers of the `bytes` crate, as the codec sees them.
//!
//! `Bytes` and `BytesMut` are opaque to Verus; each is given a name for the
//! sequence of bytes it holds, and every method that the library calls has a
//! wrapper whose contract states, over those names, what the `bytes` source
//! does.
use bytes::{Buf, BufMut, Bytes, BytesMut};
use vstd::prelude::*;

verus! {

/// Big-endian value of the first four bytes of `s`.
pub open spec fn be_u32(s: Seq<u8>) -> int
    recommends
        s.len() >= 4,
{
    s[0] as int * 0x100_0000 + s[1] as int * 0x1_0000 + s[2] as int * 0x100 + s[3] as int
}

/// The four big-endian bytes of `n`.
pub open spec fn u32_be_bytes(n: u32) -> Seq<u8> {
    seq![
        (n / 0x100_0000) as u8,
        ((n / 0x1_0000) % 0x100) as u8,
        ((n / 0x100) % 0x100) as u8,
        (n % 0x100) as u8,
    ]
}

/// Reading back the four big-endian bytes of `n` gives `n`.
pub proof fn lemma_be_u32_of_bytes(n: u32)
    ensures
        u32_be_bytes(n).len() == 4,
        be_u32(u32_be_bytes(n)) == n,
{
    let b = u32_be_bytes(n);
    let n0 = n / 0x100_0000;
    let n1 = (n / 0x1_0000) % 0x100;
    let n2 = (n / 0x100) % 0x100;
    let n3 = n % 0x100;
    assert(n0 < 0x100 && n1 < 0x100 && n2 < 0x100 && n3 < 0x100);
    assert(b[0] == n0 && b[1] == n1 && b[2] == n2 && b[3] == n3);
    assert(n0 * 0x100_0000 + n1 * 0x1_0000 + n2 * 0x100 + n3 == n) by (nonlinear_arith)
        requires
            n0 == n / 0x100_0000,
            n1 == (n / 0x1_0000) % 0x100,
            n2 == (n / 0x100) % 0x100,
            n3 == n % 0x100,
            n <= 0xffff_ffff,
    ;
}

#[verifier::external_type_specification]
#[verifier::external_body]
pub struct ExBytes(Bytes);

#[verifier::external_type_specification]
#[verifier::external_body]
pub struct ExBytesMut(BytesMut);

/// The bytes that a `bytes::Bytes` holds.
pub uninterp spec fn bytes_seq(b: Bytes) -> Seq<u8>;

/// The bytes that a `bytes::BytesMut` holds.
pub uninterp spec fn buffer_seq(b: BytesMut) -> Seq<u8>;

/// `BytesMut::len`: the number of bytes the buffer holds.
#[verifier::external_body]
pub(crate) fn buffer_len(b: &BytesMut) -> (n: usize)
    ensures
        n == buffer_seq(*b).len(),
{
    b.len()
}

/// `Buf::get_u32` on the buffer's first four bytes: their big-endian value.
/// The buffer itself is not consumed.
#[verifier::external_body]
pub(crate) fn buffer_peek_u32(b: &BytesMut) -> (n: u32)
    requires
        buffer_seq(*b).len() >= 4,
    ensures
        n == be_u32(buffer_seq(*b)),
{
    (&b[0..4]).get_u32()
}

/// `BytesMut::split_to`: the first `at` bytes move to the returned buffer and
/// `b` keeps the rest. It panics when `at` is past the end, which `requires`
/// leaves out.
#[verifier::external_body]
pub(crate) fn buffer_split_to(b: &mut BytesMut, at: usize) -> (head: BytesMut)
    requires
        at <= buffer_seq(*old(b)).len(),
    ensures
        buffer_seq(head) == buffer_seq(*old(b)).take(at as int),
        buffer_seq(*final(b)) == buffer_seq(*old(b)).skip(at as int),
{
    b.split_to(at)
}

/// `BytesMut::freeze`: the same bytes, as an immutable `Bytes`.
#[verifier::external_body]
pub(crate) fn buffer_freeze(b: BytesMut) -> (r: Bytes)
    ensures
        bytes_seq(r) == buffer_seq(b),
{
    b.freeze()
}

/// `Bytes::new`: an empty `Bytes`.
#[verifier::external_body]
pub(crate) fn bytes_empty() -> (r: Bytes)
    ensures
        bytes_seq(r) == Seq::<u8>::empty(),
{
    Bytes::new()
}

/// `BytesMut::reserve`: makes room for more bytes and leaves the content as it
/// was. It panics when the capacity would overflow, which `requires` leaves out.
#[verifier::external_body]
pub(crate) fn buffer_reserve(b: &mut BytesMut, additional: usize)
    requires
        buffer_seq(*old(b)).len() + additional <= isize::MAX,
    ensures
        buffer_seq(*final(b)) == buffer_seq(*old(b)),
{
    b.reserve(additional)
}

/// `BufMut::put_u32` on a `BytesMut`: appends the four big-endian bytes of `n`.
#[verifier::external_body]
pub(crate) fn buffer_put_u32(b: &mut BytesMut, n: u32)
    requires
        buffer_seq(*old(b)).len() + 4 <= isize::MAX,
    ensures
        buffer_seq(*final(b)) == buffer_seq(*old(b)) + u32_be_bytes(n),
{
    b.put_u32(n)
}

/// `Extend<u8>::extend` on a `BytesMut` with the bytes of a `Bytes`: appends
/// them in order.
#[verifier::external_body]
pub(crate) fn buffer_extend(b: &mut BytesMut, data: Bytes)
    requires
        buffer_seq(*old(b)).len() + bytes_seq(data).len() <= isize::MAX,
    ensures
        buffer_seq(*final(b)) == buffer_seq(*old(b)) + bytes_seq(data),
{
    b.extend(data)
}

/// `<[u8]>::to_vec` on the bytes of a `Bytes`: a vector with the same bytes.
#[verifier::external_body]
pub(crate) fn bytes_to_vec(b: &Bytes) -> (v: Vec<u8>)
    ensures
        v@ == bytes_seq(*b),
{
    b.to_vec()
}

} // verus!
