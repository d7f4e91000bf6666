//! Fixed-width little-endian byte encoding of unsigned integers: the wire
//! primitive under the proof codec. Group elements travel as 4 bytes in the
//! compact form and as 8 bytes in the full form; scalars always as 8 bytes.

use vstd::prelude::*;
use vstd::arithmetic::div_mod::{
    lemma_div_denominator, lemma_fundamental_div_mod, lemma_mod_division_less_than_divisor,
    lemma_multiply_divide_lt, lemma_small_mod,
};

verus! {

/// The four little-endian bytes of a value below 2^32.
pub open spec fn le4_of(v: nat) -> Seq<u8> {
    seq![
        (v % 256) as u8,
        ((v / 256) % 256) as u8,
        ((v / 65536) % 256) as u8,
        ((v / 16777216) % 256) as u8,
    ]
}

/// The eight little-endian bytes of a value below 2^64.
pub open spec fn le8_of(v: nat) -> Seq<u8> {
    seq![
        (v % 256) as u8,
        ((v / 256) % 256) as u8,
        ((v / 65536) % 256) as u8,
        ((v / 16777216) % 256) as u8,
        ((v / 4294967296) % 256) as u8,
        ((v / 1099511627776) % 256) as u8,
        ((v / 281474976710656) % 256) as u8,
        ((v / 72057594037927936) % 256) as u8,
    ]
}

/// The value carried by four little-endian bytes.
pub open spec fn le4_value(s: Seq<u8>) -> int {
    s[0] + 256 * s[1] + 65536 * s[2] + 16777216 * s[3]
}

/// The value carried by eight little-endian bytes.
pub open spec fn le8_value(s: Seq<u8>) -> int {
    s[0] + 256 * s[1] + 65536 * s[2] + 16777216 * s[3] + 4294967296 * s[4]
        + 1099511627776 * s[5] + 281474976710656 * s[6] + 72057594037927936 * s[7]
}

/// Decoding the four-byte encoding of a value below 2^32 gives it back.
pub proof fn lemma_le4_round_trip(v: nat)
    requires
        v < 0x1_0000_0000,
    ensures
        le4_value(le4_of(v)) == v,
{
    lemma_fundamental_div_mod(v as int, 256);
    lemma_div_denominator(v as int, 256, 256);
    lemma_fundamental_div_mod(v as int / 256, 256);
    lemma_div_denominator(v as int, 65536, 256);
    lemma_fundamental_div_mod(v as int / 65536, 256);
    assert(v as int / 16777216 < 256) by {
        lemma_multiply_divide_lt(v as int, 16777216, 256);
    };
    lemma_small_mod((v / 16777216) as nat, 256);
    lemma_mod_division_less_than_divisor(v as int, 256);
    lemma_mod_division_less_than_divisor(v as int / 256, 256);
    lemma_mod_division_less_than_divisor(v as int / 65536, 256);
}

/// Decoding the eight-byte encoding of a value below 2^64 gives it back.
pub proof fn lemma_le8_round_trip(v: nat)
    requires
        v < 0x1_0000_0000_0000_0000,
    ensures
        le8_value(le8_of(v)) == v,
{
    lemma_fundamental_div_mod(v as int, 256);
    lemma_div_denominator(v as int, 256, 256);
    lemma_fundamental_div_mod(v as int / 256, 256);
    lemma_div_denominator(v as int, 65536, 256);
    lemma_fundamental_div_mod(v as int / 65536, 256);
    lemma_div_denominator(v as int, 16777216, 256);
    lemma_fundamental_div_mod(v as int / 16777216, 256);
    lemma_div_denominator(v as int, 4294967296, 256);
    lemma_fundamental_div_mod(v as int / 4294967296, 256);
    lemma_div_denominator(v as int, 1099511627776, 256);
    lemma_fundamental_div_mod(v as int / 1099511627776, 256);
    lemma_div_denominator(v as int, 281474976710656, 256);
    lemma_fundamental_div_mod(v as int / 281474976710656, 256);
    assert(v as int / 72057594037927936 < 256) by {
        lemma_multiply_divide_lt(v as int, 72057594037927936, 256);
    };
    lemma_small_mod((v / 72057594037927936) as nat, 256);
    lemma_mod_division_less_than_divisor(v as int, 256);
    lemma_mod_division_less_than_divisor(v as int / 256, 256);
    lemma_mod_division_less_than_divisor(v as int / 65536, 256);
    lemma_mod_division_less_than_divisor(v as int / 16777216, 256);
    lemma_mod_division_less_than_divisor(v as int / 4294967296, 256);
    lemma_mod_division_less_than_divisor(v as int / 1099511627776, 256);
    lemma_mod_division_less_than_divisor(v as int / 281474976710656, 256);
}

/// Appends the four little-endian bytes of `v` to `out`.
pub fn push_le4(out: &mut Vec<u8>, v: u64)
    requires
        v < 0x1_0000_0000,
    ensures
        final(out)@ == old(out)@ + le4_of(v as nat),
{
    out.push((v % 256) as u8);
    out.push(((v / 256) % 256) as u8);
    out.push(((v / 65536) % 256) as u8);
    out.push(((v / 16777216) % 256) as u8);
    proof {
        assert(out@ =~= old(out)@ + le4_of(v as nat));
    }
}

/// Appends the eight little-endian bytes of `v` to `out`.
pub fn push_le8(out: &mut Vec<u8>, v: u64)
    ensures
        final(out)@ == old(out)@ + le8_of(v as nat),
{
    out.push((v % 256) as u8);
    out.push(((v / 256) % 256) as u8);
    out.push(((v / 65536) % 256) as u8);
    out.push(((v / 16777216) % 256) as u8);
    out.push(((v / 4294967296) % 256) as u8);
    out.push(((v / 1099511627776) % 256) as u8);
    out.push(((v / 281474976710656) % 256) as u8);
    out.push(((v / 72057594037927936) % 256) as u8);
    proof {
        assert(out@ =~= old(out)@ + le8_of(v as nat));
    }
}

/// Reads the value of the four bytes of `b` starting at `off`.
pub fn read_le4(b: &Vec<u8>, off: usize) -> (r: u64)
    requires
        off + 4 <= b.len(),
    ensures
        r as int == le4_value(b@.subrange(off as int, off as int + 4)),
        r < 0x1_0000_0000,
{
    let r = b[off] as u64 + 256 * (b[off + 1] as u64) + 65536 * (b[off + 2] as u64)
        + 16777216 * (b[off + 3] as u64);
    proof {
        let s = b@.subrange(off as int, off as int + 4);
        assert(s[0] == b@[off as int] && s[1] == b@[off as int + 1] && s[2] == b@[off as int + 2]
            && s[3] == b@[off as int + 3]);
    }
    r
}

/// Reads the value of the eight bytes of `b` starting at `off`.
pub fn read_le8(b: &Vec<u8>, off: usize) -> (r: u64)
    requires
        off + 8 <= b.len(),
    ensures
        r as int == le8_value(b@.subrange(off as int, off as int + 8)),
{
    let r = b[off] as u64 + 256 * (b[off + 1] as u64) + 65536 * (b[off + 2] as u64)
        + 16777216 * (b[off + 3] as u64) + 4294967296 * (b[off + 4] as u64)
        + 1099511627776 * (b[off + 5] as u64) + 281474976710656 * (b[off + 6] as u64)
        + 72057594037927936 * (b[off + 7] as u64);
    proof {
        let s = b@.subrange(off as int, off as int + 8);
        assert(s[0] == b@[off as int] && s[1] == b@[off as int + 1] && s[2] == b@[off as int + 2]
            && s[3] == b@[off as int + 3] && s[4] == b@[off as int + 4]
            && s[5] == b@[off as int + 5] && s[6] == b@[off as int + 6]
            && s[7] == b@[off as int + 7]);
    }
    r
}

} // verus!
