//! Primitives of the wire format: base-128 varints and tagged fields.
//!
//! Every field of a message is a key (a varint holding `tag * 8 + wire_type`)
//! followed by the field's contents.  Wire type 0 is a varint value, wire
//! types 1 and 5 are 8 and 4 fixed bytes, and wire type 2 is a varint byte
//! length followed by that many bytes.  The spec functions here define both
//! directions byte for byte; the exec functions are proved against them.

use vstd::prelude::*;

verus! {

use vstd::arithmetic::div_mod::{
    lemma_fundamental_div_mod,
    lemma_div_is_ordered,
};
use vstd::arithmetic::mul::lemma_mul_inequality;

/// The little-endian base-128 encoding of `n`: each byte carries seven bits,
/// the high bit of a byte says that another byte follows.
pub open spec fn varint_bytes(n: u64) -> Seq<u8>
    decreases n,
{
    if n < 128 {
        seq![n as u8]
    } else {
        seq![(128 + n % 128) as u8] + varint_bytes(n / 128)
    }
}

/// Reads one varint from the front of `bytes`: the value and how many bytes
/// it took.  `None` when the bytes run out before a final byte, or when the
/// value would not fit in 64 bits.
pub open spec fn parse_varint(bytes: Seq<u8>) -> Option<(u64, int)>
    decreases bytes.len(),
{
    if bytes.len() == 0 {
        None
    } else if bytes[0] < 128 {
        Some((bytes[0] as u64, 1))
    } else {
        match parse_varint(bytes.drop_first()) {
            Some((v, k)) => {
                let low: int = bytes[0] - 128;
                if v <= (0xffff_ffff_ffff_ffff - low) / 128 {
                    Some(((128 * v + low) as u64, k + 1))
                } else {
                    None
                }
            },
            None => None,
        }
    }
}

/// Parsing inverts encoding: a varint at the front of any byte sequence is
/// read back exactly, consuming exactly its own bytes.
pub proof fn lemma_parse_varint_prefix(n: u64, rest: Seq<u8>)
    ensures
        parse_varint(varint_bytes(n) + rest) == Some((n, varint_bytes(n).len() as int)),
    decreases n,
{
    let whole = varint_bytes(n) + rest;
    if n < 128 {
        assert(whole[0] == n as u8);
    } else {
        let b0: u8 = (128 + n % 128) as u8;
        assert(whole[0] == b0);
        lemma_parse_varint_prefix(n / 128, rest);
        assert(whole.drop_first() =~= varint_bytes(n / 128) + rest);
        let v = (n / 128) as u64;
        let low: int = b0 - 128;
        assert(low == n % 128);
        lemma_fundamental_div_mod(n as int, 128);
        assert(128 * v + low == n);
        lemma_div_is_ordered(128 * v, 0xffff_ffff_ffff_ffff - low, 128);
        assert((128 * v) / 128 == v as int) by {
            lemma_fundamental_div_mod(128 * v, 128);
            assert(128 * v == 128 * ((128 * v) / 128) + (128 * v) % 128);
            assert((128 * v) % 128 == 0) by {
                vstd::arithmetic::div_mod::lemma_mod_multiples_basic(v as int, 128);
            }
        }
        assert(v <= (0xffff_ffff_ffff_ffff - low) / 128);
    }
}

/// Appends the varint encoding of `n` to `out`.
pub fn write_varint(out: &mut Vec<u8>, n: u64)
    ensures
        final(out)@ == old(out)@ + varint_bytes(n),
    decreases n,
{
    if n < 128 {
        out.push(n as u8);
        assert(final(out)@ =~= old(out)@ + varint_bytes(n));
    } else {
        let b: u8 = 128 + (n % 128) as u8;
        out.push(b);
        write_varint(out, n / 128);
        assert(final(out)@ =~= old(out)@ + varint_bytes(n));
    }
}

/// Reads one varint from `bytes` starting at `pos`; returns the value and
/// the position just past it.  Agrees with `parse_varint` on the suffix.
pub fn read_varint(bytes: &[u8], pos: usize) -> (r: Option<(u64, usize)>)
    requires
        pos <= bytes@.len(),
    ensures
        match r {
            Some(p) => {
                &&& pos < p.1 <= bytes@.len()
                &&& parse_varint(bytes@.skip(pos as int)) == Some((p.0, p.1 - pos))
            },
            None => parse_varint(bytes@.skip(pos as int)) is None,
        },
    decreases bytes@.len() - pos,
{
    let n = bytes.len();
    if pos >= n {
        assert(bytes@.skip(pos as int) =~= Seq::<u8>::empty());
        return None;
    }
    let b = *vstd::slice::slice_index_get(bytes, pos);
    let ghost suffix = bytes@.skip(pos as int);
    assert(suffix[0] == b);
    if b < 128 {
        Some((b as u64, pos + 1))
    } else {
        assert(suffix.drop_first() =~= bytes@.skip(pos as int + 1));
        match read_varint(bytes, pos + 1) {
            Some((v, end)) => {
                let low: u64 = (b - 128) as u64;
                if v <= (0xffff_ffff_ffff_ffffu64 - low) / 128 {
                    proof {
                        let q = (0xffff_ffff_ffff_ffff - low as int) / 128;
                        lemma_mul_inequality(v as int, q, 128);
                        lemma_fundamental_div_mod(0xffff_ffff_ffff_ffff - low as int, 128);
                        assert(v * 128 + low <= 0xffff_ffff_ffff_ffff);
                    }
                    Some((v * 128 + low, end))
                } else {
                    None
                }
            },
            None => None,
        }
    }
}

} // verus!
