//! Fixed-width integers: all bytes of the value, least or most significant
//! byte first, and two's complement for signed values.

use vstd::prelude::*;
use vstd::arithmetic::power2::pow2;
use vstd::arithmetic::power2::lemma_pow2_adds;
use vstd::arithmetic::power2::lemma_pow2_pos;
use crate::settings::BitWidth;
use crate::settings::Endianness;
use crate::wire::arith::lemma_pow2_values;

verus! {

/// The `n` low bytes of `v`, least significant first.
pub open spec fn le_bytes(v: nat, n: nat) -> Seq<u8>
    decreases n,
{
    if n == 0 {
        Seq::empty()
    } else {
        seq![(v % 256) as u8] + le_bytes(v / 256, (n - 1) as nat)
    }
}

/// The number whose bytes, least significant first, are `s`.
pub open spec fn le_value(s: Seq<u8>) -> nat
    decreases s.len(),
{
    if s.len() == 0 {
        0
    } else {
        s[0] as nat + 256 * le_value(s.drop_first())
    }
}

/// The `n` low bytes of `v` in the given order.
pub open spec fn fixed_bytes(v: nat, n: nat, endianness: Endianness) -> Seq<u8> {
    match endianness {
        Endianness::LittleEndian => le_bytes(v, n),
        Endianness::BigEndian => le_bytes(v, n).reverse(),
    }
}

/// The number whose bytes in the given order are `s`.
pub open spec fn fixed_value(s: Seq<u8>, endianness: Endianness) -> nat {
    match endianness {
        Endianness::LittleEndian => le_value(s),
        Endianness::BigEndian => le_value(s.reverse()),
    }
}

/// The unsigned number with the bit pattern of `v` in two's complement of
/// `bits` bits.
pub open spec fn twos(v: int, bits: nat) -> nat {
    (v % (pow2(bits) as int)) as nat
}

/// The signed number with the bit pattern of `u` in two's complement of
/// `bits` bits.
pub open spec fn from_twos(u: nat, bits: nat) -> int {
    if u >= pow2((bits - 1) as nat) {
        u - pow2(bits)
    } else {
        u as int
    }
}

/// `le_bytes` gives as many bytes as were asked for.
pub proof fn lemma_le_bytes_len(v: nat, n: nat)
    ensures
        le_bytes(v, n).len() == n,
    decreases n,
{
    if n > 0 {
        lemma_le_bytes_len(v / 256, (n - 1) as nat);
    }
}

/// The value of `n` bytes is below `2^(8n)`.
pub proof fn lemma_le_value_bound(s: Seq<u8>)
    ensures
        le_value(s) < pow2(8 * s.len()),
    decreases s.len(),
{
    lemma_pow2_values();
    if s.len() > 0 {
        lemma_le_value_bound(s.drop_first());
        lemma_pow2_adds(8, 8 * (s.len() - 1) as nat);
    }
}

/// Reading back the bytes of a number that fits them gives the number.
pub proof fn lemma_le_roundtrip(v: nat, n: nat)
    requires
        v < pow2(8 * n),
    ensures
        le_value(le_bytes(v, n)) == v,
    decreases n,
{
    lemma_pow2_values();
    if n > 0 {
        let rest = le_bytes(v / 256, (n - 1) as nat);
        lemma_pow2_adds(8, 8 * (n - 1) as nat);
        lemma_le_roundtrip(v / 256, (n - 1) as nat);
        assert(le_bytes(v, n).drop_first() =~= rest);
    }
}

/// Writing out the value of some bytes gives the bytes.
pub proof fn lemma_le_bytes_of_value(s: Seq<u8>)
    ensures
        le_bytes(le_value(s), s.len()) == s,
    decreases s.len(),
{
    if s.len() > 0 {
        let tail = s.drop_first();
        lemma_le_bytes_of_value(tail);
        let v = le_value(s);
        assert(v % 256 == s[0] as nat && v / 256 == le_value(tail)) by {
            assert(v == s[0] as nat + 256 * le_value(tail));
        }
        assert(le_bytes(v, s.len()) =~= s);
    } else {
        assert(le_bytes(0, 0) =~= s);
    }
}

/// Reading back the fixed bytes of a number that fits them gives the number,
/// in either byte order.
pub proof fn lemma_fixed_roundtrip(v: nat, n: nat, endianness: Endianness)
    requires
        v < pow2(8 * n),
    ensures
        fixed_bytes(v, n, endianness).len() == n,
        fixed_value(fixed_bytes(v, n, endianness), endianness) == v,
{
    lemma_le_bytes_len(v, n);
    lemma_le_roundtrip(v, n);
    assert(le_bytes(v, n).reverse().reverse() =~= le_bytes(v, n));
}

/// Two's complement and back is the identity on the signed range.
pub proof fn lemma_twos_roundtrip(v: int, bits: nat)
    requires
        bits >= 1,
        -(pow2((bits - 1) as nat) as int) <= v < pow2((bits - 1) as nat),
    ensures
        twos(v, bits) < pow2(bits),
        from_twos(twos(v, bits), bits) == v,
        v >= 0 ==> twos(v, bits) == v,
        v < 0 ==> twos(v, bits) == v + pow2(bits),
{
    lemma_pow2_adds(1, (bits - 1) as nat);
    lemma_pow2_values();
    lemma_pow2_pos(bits);
    let m = pow2(bits) as int;
    if v >= 0 {
        vstd::arithmetic::div_mod::lemma_small_mod(v as nat, pow2(bits));
    } else {
        vstd::arithmetic::div_mod::lemma_small_mod((v + m) as nat, pow2(bits));
        vstd::arithmetic::div_mod::lemma_mod_add_multiples_vanish(v, m);
    }
}

/// Back from two's complement and forth is the identity below `2^bits`.
pub proof fn lemma_from_twos_roundtrip(u: nat, bits: nat)
    requires
        bits >= 1,
        u < pow2(bits),
    ensures
        -(pow2((bits - 1) as nat) as int) <= from_twos(u, bits) < pow2((bits - 1) as nat),
        twos(from_twos(u, bits), bits) == u,
{
    lemma_pow2_adds(1, (bits - 1) as nat);
    lemma_pow2_values();
    lemma_twos_roundtrip(from_twos(u, bits), bits);
}

/// The `n` low bytes of `value` in the given byte order.
pub fn fixed_encode(value: u128, n: usize, endianness: Endianness) -> (r: Vec<u8>)
    ensures
        r@ == fixed_bytes(value as nat, n as nat, endianness),
        r@.len() == n,
{
    let mut low_first: Vec<u8> = Vec::new();
    let mut rest: u128 = value;
    let mut i: usize = 0;
    while i < n
        invariant
            i <= n,
            low_first@.len() == i,
            low_first@ + le_bytes(rest as nat, (n - i) as nat) == le_bytes(value as nat, n as nat),
        decreases n - i,
    {
        let ghost before = low_first@;
        low_first.push((rest % 256) as u8);
        proof {
            let tail = le_bytes((rest / 256) as nat, (n - i - 1) as nat);
            assert(before + le_bytes(rest as nat, (n - i) as nat) =~= low_first@ + tail);
        }
        rest = rest / 256;
        i += 1;
    }
    assert(low_first@ =~= le_bytes(value as nat, n as nat));
    match endianness {
        Endianness::LittleEndian => low_first,
        Endianness::BigEndian => {
            let mut high_first: Vec<u8> = Vec::new();
            let mut k: usize = n;
            while k > 0
                invariant
                    k <= n,
                    low_first@.len() == n,
                    high_first@.len() == n - k,
                    forall|j: int| 0 <= j < n - k ==> high_first@[j] == low_first@[n - 1 - j],
                decreases k,
            {
                k -= 1;
                high_first.push(low_first[k]);
            }
            assert(high_first@ =~= low_first@.reverse());
            high_first
        },
    }
}

/// The number whose bytes in the given byte order are `bytes`.
pub fn fixed_decode(bytes: &[u8], endianness: Endianness) -> (r: u128)
    requires
        bytes@.len() <= 16,
    ensures
        r == fixed_value(bytes@, endianness),
{
    let n = bytes.len();
    let ghost s = match endianness {
        Endianness::LittleEndian => bytes@,
        Endianness::BigEndian => bytes@.reverse(),
    };
    let mut acc: u128 = 0;
    let mut k: usize = n;
    while k > 0
        invariant
            k <= n <= 16,
            n == bytes@.len(),
            s.len() == n,
            endianness == Endianness::LittleEndian ==> s == bytes@,
            endianness == Endianness::BigEndian ==> s == bytes@.reverse(),
            acc == le_value(s.skip(k as int)),
        decreases k,
    {
        k -= 1;
        let b: u8 = match endianness {
            Endianness::LittleEndian => bytes[k],
            Endianness::BigEndian => bytes[n - 1 - k],
        };
        proof {
            let tail = s.skip(k as int);
            assert(tail.drop_first() =~= s.skip(k + 1));
            assert(tail[0] == b);
            lemma_le_value_bound(s.skip(k + 1));
            lemma_pow2_values();
            crate::wire::arith::lemma_pow2_split(8 * (n - k - 1) as nat, 120);
            lemma_pow2_adds(120, 8);
        }
        acc = acc * 256 + b as u128;
    }
    assert(s.skip(0) =~= s);
    acc
}

/// The bit pattern of `value` in two's complement of the given width.
pub fn twos_encode(value: i128, width: BitWidth) -> (r: u128)
    requires
        crate::opaque::int_min(true, width.spec_bits()) <= value <= crate::opaque::int_max(
            true,
            width.spec_bits(),
        ),
    ensures
        r == twos(value as int, width.spec_bits()),
        r < pow2(width.spec_bits()),
{
    proof {
        lemma_pow2_values();
        lemma_twos_roundtrip(value as int, width.spec_bits());
    }
    if value >= 0 {
        value as u128
    } else {
        let top: u128 = match width {
            BitWidth::Bit8 => u8::MAX as u128,
            BitWidth::Bit16 => u16::MAX as u128,
            BitWidth::Bit32 => u32::MAX as u128,
            BitWidth::Bit64 => u64::MAX as u128,
            BitWidth::Bit128 => u128::MAX,
        };
        top - (-(value + 1)) as u128
    }
}

/// The signed number with the given bit pattern in two's complement of the
/// given width.
pub fn twos_decode(pattern: u128, width: BitWidth) -> (r: i128)
    requires
        pattern < pow2(width.spec_bits()),
    ensures
        r == from_twos(pattern as nat, width.spec_bits()),
        crate::opaque::int_min(true, width.spec_bits()) <= r <= crate::opaque::int_max(
            true,
            width.spec_bits(),
        ),
{
    proof {
        lemma_pow2_values();
        lemma_from_twos_roundtrip(pattern as nat, width.spec_bits());
    }
    let (half, least): (u128, i128) = match width {
        BitWidth::Bit8 => (0x80, i8::MIN as i128),
        BitWidth::Bit16 => (0x8000, i16::MIN as i128),
        BitWidth::Bit32 => (0x8000_0000, i32::MIN as i128),
        BitWidth::Bit64 => (0x8000_0000_0000_0000, i64::MIN as i128),
        BitWidth::Bit128 => (0x8000_0000_0000_0000_0000_0000_0000_0000, i128::MIN),
    };
    if pattern >= half {
        (pattern - half) as i128 + least
    } else {
        pattern as i128
    }
}

} // verus!
