//! The byte encodings that the mint authorization message is built from.
use vstd::prelude::*;

verus! {

/// `n` as four little-endian bytes.
pub open spec fn le32(n: u32) -> Seq<u8> {
    seq![
        (n % 256) as u8,
        ((n / 256) % 256) as u8,
        ((n / 65536) % 256) as u8,
        (n / 16777216) as u8,
    ]
}

/// `n` as four big-endian bytes (an XDR unsigned int).
pub open spec fn be32(n: u32) -> Seq<u8> {
    seq![
        (n / 16777216) as u8,
        ((n / 65536) % 256) as u8,
        ((n / 256) % 256) as u8,
        (n % 256) as u8,
    ]
}

/// The XDR discriminant of `ScVal::String`.
pub const SCV_STRING: u32 = 14;

/// The number of zero bytes that pad an XDR opaque of `len` bytes to a
/// multiple of four.
pub open spec fn xdr_padding(len: nat) -> nat {
    ((4 - (len % 4)) % 4) as nat
}

/// The XDR encoding of `ScVal::String(s)`: the discriminant, the length, the
/// bytes, and zero padding to a multiple of four.
pub open spec fn string_xdr(s: Seq<u8>) -> Seq<u8> {
    be32(SCV_STRING) + be32(s.len() as u32) + s + Seq::new(xdr_padding(s.len()), |i: int| 0u8)
}

fn push_le32(out: &mut Vec<u8>, n: u32)
    ensures
        final(out)@ == old(out)@ + le32(n),
{
    out.push((n % 256) as u8);
    out.push(((n / 256) % 256) as u8);
    out.push(((n / 65536) % 256) as u8);
    out.push((n / 16777216) as u8);
    assert(final(out)@ =~= old(out)@ + le32(n));
}

fn push_be32(out: &mut Vec<u8>, n: u32)
    ensures
        final(out)@ == old(out)@ + be32(n),
{
    out.push((n / 16777216) as u8);
    out.push(((n / 65536) % 256) as u8);
    out.push(((n / 256) % 256) as u8);
    out.push((n % 256) as u8);
    assert(final(out)@ =~= old(out)@ + be32(n));
}

/// The four little-endian bytes of `n`.
pub fn le32_bytes(n: u32) -> (r: Vec<u8>)
    ensures
        r@ == le32(n),
{
    let mut out: Vec<u8> = Vec::new();
    push_le32(&mut out, n);
    assert(out@ =~= le32(n));
    out
}

/// The XDR encoding of the string value whose bytes are `s`.
pub fn encode_string_xdr(s: &[u8]) -> (r: Vec<u8>)
    requires
        s@.len() <= u32::MAX,
    ensures
        r@ == string_xdr(s@),
{
    let mut out: Vec<u8> = Vec::new();
    push_be32(&mut out, SCV_STRING);
    let n = s.len();
    push_be32(&mut out, n as u32);
    let ghost head = out@;
    let mut i: usize = 0;
    while i < n
        invariant
            n == s@.len(),
            i <= n,
            out@ =~= head + s@.subrange(0, i as int),
        decreases n - i,
    {
        out.push(s[i]);
        i = i + 1;
    }
    let pad: usize = (4 - n % 4) % 4;
    let ghost body = out@;
    let mut k: usize = 0;
    while k < pad
        invariant
            k <= pad,
            out@ =~= body + Seq::new(k as nat, |j: int| 0u8),
        decreases pad - k,
    {
        out.push(0u8);
        k = k + 1;
    }
    assert(s@.subrange(0, n as int) =~= s@);
    assert(out@ =~= string_xdr(s@));
    out
}

} // verus!
