//! Variable-length integers: groups of seven bits, least significant group
//! first, each byte but the last with its high bit set.

use vstd::prelude::*;
use vstd::arithmetic::power2::pow2;
use crate::error::EncodingError;
use crate::opaque::int_max;
use crate::opaque::int_min;
use crate::wire::arith::lemma_pow2_values;

verus! {

/// The unsigned LEB128 form of `v`: seven bits to a byte, least significant
/// first, the high bit set on every byte that another one follows.
pub open spec fn uleb128(v: nat) -> Seq<u8>
    decreases v,
{
    if v < 128 {
        seq![v as u8]
    } else {
        seq![(v % 128 + 128) as u8] + uleb128(v / 128)
    }
}

/// Whether `v` is done after the group that was split off it: what is left
/// is nothing but copies of the sign bit of that group.
pub open spec fn sleb_last(v: int) -> bool {
    -64 <= v < 64
}

/// The signed LEB128 form of `v`: seven bits to a byte, least significant
/// first, ending with the first group whose bit 6 already shows the sign of
/// all that is left.
pub open spec fn sleb128(v: int) -> Seq<u8>
    decreases
            (if v >= 0 {
                v
            } else {
                -v
            }),
{
    if sleb_last(v) {
        seq![(v % 128) as u8]
    } else {
        seq![(v % 128 + 128) as u8] + sleb128(v / 128)
    }
}

/// The zigzag code of `v`: non-negative numbers become even, negative ones odd.
pub open spec fn zigzag(v: int) -> nat {
    if v >= 0 {
        (2 * v) as nat
    } else {
        (-2 * v - 1) as nat
    }
}

/// The number whose zigzag code is `u`.
pub open spec fn unzigzag(u: nat) -> int {
    if u % 2 == 0 {
        (u / 2) as int
    } else {
        -(u / 2) - 1
    }
}

/// What scanning a variable-length integer off the front of some bytes gives.
pub struct Scan {
    /// The seven-bit groups put together, least significant first, with
    /// nothing cut off.
    pub raw: nat,
    /// How many bytes the integer takes.
    pub len: nat,
}

/// Scans a variable-length integer for a type of `bits` bits off `s`, from
/// byte `i` on, with the groups before it already summed up in `acc`. The
/// scan fails with `VarIntError` once the groups read reach `bits` bits with
/// no last byte seen, and with `UnexpectedEnd` where the bytes run out.
pub open spec fn leb_scan(s: Seq<u8>, bits: nat, i: nat, acc: nat) -> Result<Scan, EncodingError>
    decreases s.len() - i,
{
    if 7 * i >= bits {
        Err(EncodingError::VarIntError)
    } else if i >= s.len() {
        Err(EncodingError::UnexpectedEnd)
    } else {
        let sum = acc + (s[i as int] % 128) as nat * pow2(7 * i);
        if s[i as int] < 128 {
            Ok(Scan { raw: sum, len: i + 1 })
        } else {
            leb_scan(s, bits, i + 1, sum)
        }
    }
}

/// The unsigned value of a scan for a type of `bits` bits: the groups, cut
/// down to `bits` bits.
pub open spec fn uleb_value(scan: Scan, bits: nat) -> nat {
    scan.raw % pow2(bits)
}

/// The signed value of a scan for a type of `bits` bits, whose last byte was
/// `last`: where the groups are fewer bits than the type, bit 6 of the last
/// group is the sign and is extended; otherwise the groups are cut down to
/// `bits` bits and read as two's complement.
pub open spec fn sleb_value(scan: Scan, last: u8, bits: nat) -> int {
    if 7 * scan.len < bits {
        if last % 128 >= 64 {
            scan.raw - pow2(7 * scan.len)
        } else {
            scan.raw as int
        }
    } else {
        crate::wire::fixed::from_twos(scan.raw % pow2(bits), bits)
    }
}

/// The unsigned LEB128 form of `value`.
pub fn uleb128_encode(value: u128) -> (r: Vec<u8>)
    ensures
        r@ == uleb128(value as nat),
{
    let mut out: Vec<u8> = Vec::new();
    let mut rest: u128 = value;
    while rest >= 128
        invariant
            out@ + uleb128(rest as nat) == uleb128(value as nat),
        decreases rest,
    {
        let ghost before = out@;
        out.push((rest % 128 + 128) as u8);
        proof {
            assert(before + uleb128(rest as nat) =~= out@ + uleb128((rest / 128) as nat));
        }
        rest = rest / 128;
    }
    let ghost before = out@;
    out.push(rest as u8);
    assert(out@ =~= before + uleb128(rest as nat));
    out
}

/// The signed LEB128 form of `value`.
pub fn sleb128_encode(value: i128) -> (r: Vec<u8>)
    ensures
        r@ == sleb128(value as int),
{
    let mut out: Vec<u8> = Vec::new();
    let mut rest: i128 = value;
    while rest < -64 || rest >= 64
        invariant
            out@ + sleb128(rest as int) == sleb128(value as int),
        decreases
                (if rest >= 0 {
                    rest as int
                } else {
                    -rest
                }),
    {
        let ghost before = out@;
        let low = match rest.checked_rem_euclid(128) {
            Some(low) => low,
            None => 0,
        };
        let next = match rest.checked_div_euclid(128) {
            Some(next) => next,
            None => 0,
        };
        out.push((low + 128) as u8);
        proof {
            assert(before + sleb128(rest as int) =~= out@ + sleb128(next as int));
        }
        rest = next;
    }
    let ghost before = out@;
    let low = match rest.checked_rem_euclid(128) {
        Some(low) => low,
        None => 0,
    };
    out.push(low as u8);
    assert(out@ =~= before + sleb128(rest as int));
    out
}

/// The zigzag code of `value`.
pub fn zigzag_encode(value: i128) -> (r: u128)
    ensures
        r == zigzag(value as int),
{
    if value >= 0 {
        value as u128 * 2
    } else {
        (-(value + 1)) as u128 * 2 + 1
    }
}

/// The number whose zigzag code is `code`.
pub fn zigzag_decode(code: u128) -> (r: i128)
    ensures
        r == unzigzag(code as nat),
{
    if code % 2 == 0 {
        (code / 2) as i128
    } else {
        -((code / 2) as i128) - 1
    }
}

/// The zigzag code of a number of `bits` bits fits `bits` bits, and decodes
/// to the number.
pub proof fn lemma_zigzag_roundtrip(v: int, bits: nat)
    requires
        bits >= 1,
        int_min(true, bits) <= v <= int_max(true, bits),
    ensures
        zigzag(v) < pow2(bits),
        unzigzag(zigzag(v)) == v,
{
    vstd::arithmetic::power2::lemma_pow2_adds(1, (bits - 1) as nat);
    lemma_pow2_values();
}

} // verus!
