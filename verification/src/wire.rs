//! Big-endian integers and length-prefixed blocks, as the TLS presentation language writes them.

use vstd::prelude::*;

verus! {

/// The two low-order bytes of `n`, most significant first.
pub open spec fn be16(n: int) -> Seq<u8> {
    seq![(n / 256 % 256) as u8, (n % 256) as u8]
}

/// The three low-order bytes of `n`, most significant first.
pub open spec fn be24(n: int) -> Seq<u8> {
    seq![(n / 65536 % 256) as u8, (n / 256 % 256) as u8, (n % 256) as u8]
}

/// A block behind its 16-bit length. The length field holds the two low-order bytes of the
/// block's length, so it is the length itself for blocks of fewer than 65536 bytes.
pub open spec fn u16_prefixed(body: Seq<u8>) -> Seq<u8> {
    be16(body.len() as int) + body
}

/// The big-endian bytes of each element of `codes`, one after the other.
pub open spec fn be16_list(codes: Seq<u16>) -> Seq<u8> {
    Seq::new(2 * codes.len(), |i: int| be16(codes[i / 2] as int)[i % 2])
}

/// Appends `n` in big-endian byte order.
pub fn put_u16(buf: &mut Vec<u8>, n: u16)
    ensures
        final(buf)@ == old(buf)@ + be16(n as int),
{
    buf.push((n / 256) as u8);
    buf.push((n % 256) as u8);
}

/// Appends the bytes of `bytes`.
pub fn put_bytes(buf: &mut Vec<u8>, bytes: &[u8])
    ensures
        final(buf)@ == old(buf)@ + bytes@,
{
    buf.extend_from_slice(bytes);
}

/// Appends each element of `codes` in big-endian byte order.
pub fn put_u16_list(buf: &mut Vec<u8>, codes: &[u16])
    ensures
        final(buf)@ == old(buf)@ + be16_list(codes@),
{
    let mut i: usize = 0;
    while i < codes.len()
        invariant
            i <= codes@.len(),
            buf@ == old(buf)@ + be16_list(codes@.take(i as int)),
        decreases codes@.len() - i,
    {
        put_u16(buf, codes[i]);
        assert(be16_list(codes@.take(i + 1)) =~= be16_list(codes@.take(i as int)) + be16(
            codes@[i as int] as int,
        ));
        i = i + 1;
    }
    assert(codes@.take(i as int) =~= codes@);
}

/// Reserves a two-byte length field, lets `f` append a block behind it, and then writes the
/// block's length into the field. Where `f` fails, its error is returned and the buffer stays as
/// `f` left it, with a zero length field.
pub fn with_u16_length<E, F: FnOnce(&mut Vec<u8>) -> Result<(), E>>(
    buf: &mut Vec<u8>,
    f: F,
) -> (r: Result<(), E>)
    requires
        forall|b: &mut Vec<u8>| b@ == old(buf)@ + be16(0) ==> #[trigger] call_requires(f, (b,)),
        forall|b: &mut Vec<u8>, out: Result<(), E>| #[trigger]
            call_ensures(f, (b,), out) && b@ == old(buf)@ + be16(0) && out is Ok ==> b@.len()
                <= final(b)@.len(),
    ensures
        exists|b: &mut Vec<u8>|
            {
                &&& b@ == old(buf)@ + be16(0)
                &&& #[trigger] call_ensures(f, (b,), r)
                &&& r is Err ==> final(buf)@ == final(b)@
                &&& r is Ok ==> final(buf)@ == patched(
                    final(b)@,
                    old(buf)@.len() as int,
                    final(b)@.len() - old(buf)@.len() - 2,
                )
            },
{
    let off: usize = buf.len();
    put_u16(buf, 0);
    let ghost before = buf@;
    let out = f(buf);
    let ghost block = choose|b: &mut Vec<u8>| #[trigger]
        call_ensures(f, (b,), out) && b@ == before && final(b)@ == buf@;
    if out.is_ok() {
        let len: usize = buf.len() - off - 2;
        buf[off] = (len / 256 % 256) as u8;
        buf[off + 1] = (len % 256) as u8;
        assert(buf@ == patched(final(block)@, off as int, len as int));
    }
    assert(call_ensures(f, (block,), out));
    out
}

/// `bytes` with the two bytes at `off` replaced by the length field for `len`.
pub open spec fn patched(bytes: Seq<u8>, off: int, len: int) -> Seq<u8> {
    bytes.update(off, be16(len)[0]).update(off + 1, be16(len)[1])
}

} // verus!
