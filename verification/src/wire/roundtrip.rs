//! Reading back what was written: the proofs, encoding by encoding.

use vstd::prelude::*;
use vstd::arithmetic::power2::pow2;
use vstd::arithmetic::power2::lemma_pow2_adds;
use vstd::arithmetic::power2::lemma_pow2_pos;
use crate::error::EncodingError;
use crate::opaque::int_max;
use crate::opaque::int_min;
use crate::wire::arith::lemma_pow2_split;
use crate::wire::arith::lemma_pow2_values;
use crate::wire::varint::leb_scan;
use crate::wire::varint::sleb128;
use crate::wire::varint::sleb_last;
use crate::wire::varint::uleb128;
use crate::wire::varint::Scan;

verus! {

/// Halving the exponent range: a number below `2^k` that is at least `2^7`
/// has `k > 7`, and its quotient by `2^7` is below `2^(k-7)`.
proof fn lemma_shift_down(v: nat, k: nat)
    requires
        v < pow2(k),
        v >= 128,
    ensures
        k > 7,
        v / 128 < pow2((k - 7) as nat),
{
    lemma_pow2_values();
    if k <= 7 {
        lemma_pow2_split(k, 7);
    }
    lemma_pow2_adds(7, (k - 7) as nat);
    lemma_pow2_pos((k - 7) as nat);
    let d = pow2((k - 7) as nat) as int;
    assert(v / 128 < d) by (nonlinear_arith)
        requires
            v < 128 * d,
            d > 0,
    ;
}

/// Scanning the unsigned LEB128 form of `v`, found at byte `i` of `s`, gives
/// `v` shifted up by the groups before it, whatever follows the form.
pub proof fn lemma_uleb_scan(s: Seq<u8>, bits: nat, i: nat, acc: nat, v: nat)
    requires
        7 * i < bits,
        v < pow2((bits - 7 * i) as nat),
        i + uleb128(v).len() <= s.len(),
        s.subrange(i as int, i as int + uleb128(v).len()) == uleb128(v),
    ensures
        leb_scan(s, bits, i, acc) == Ok::<Scan, EncodingError>(
            Scan { raw: acc + v * pow2(7 * i), len: i + uleb128(v).len() },
        ),
    decreases v,
{
    let form = uleb128(v);
    assert(s[i as int] == s.subrange(i as int, i as int + form.len())[0]);
    if v < 128 {
        assert(form[0] == v as u8);
    } else {
        let tail = uleb128(v / 128);
        assert(form =~= seq![(v % 128 + 128) as u8] + tail);
        assert(form[0] == (v % 128 + 128) as u8);
        lemma_shift_down(v, (bits - 7 * i) as nat);
        assert(s.subrange(i as int + 1, i as int + 1 + tail.len()) =~= tail) by {
            assert forall|j: int| 0 <= j < tail.len() implies s.subrange(
                i as int + 1,
                i as int + 1 + tail.len(),
            )[j] == tail[j] by {
                assert(s[i + 1 + j] == s.subrange(i as int, i as int + form.len())[j + 1]);
                assert(form[j + 1] == tail[j]);
            }
        }
        let sum = acc + (v % 128) * pow2(7 * i);
        lemma_uleb_scan(s, bits, i + 1, sum, v / 128);
        lemma_pow2_adds(7 * i, 7);
        lemma_pow2_values();
        let w = pow2(7 * i) as int;
        assert((v % 128) * w + (v / 128) * (w * 128) == v * w) by (nonlinear_arith)
            requires
                v == 128 * (v / 128) + v % 128,
        ;
    }
}

/// The signed range of `k` bits, cut by seven: a number in it that does not
/// fit seven bits has `k > 7`, and its quotient by `2^7` lies in the signed
/// range of `k - 7` bits.
proof fn lemma_signed_shift_down(v: int, k: nat)
    requires
        k >= 1,
        int_min(true, k) <= v <= int_max(true, k),
        !sleb_last(v),
    ensures
        k > 7,
        int_min(true, (k - 7) as nat) <= v / 128 <= int_max(true, (k - 7) as nat),
{
    lemma_pow2_values();
    if k <= 7 {
        lemma_pow2_split((k - 1) as nat, 6);
    }
    lemma_pow2_adds(7, (k - 8) as nat);
    lemma_pow2_pos((k - 8) as nat);
    let d = pow2((k - 8) as nat) as int;
    assert(-d <= v / 128 < d) by (nonlinear_arith)
        requires
            -(128 * d) <= v < 128 * d,
            d > 0,
    ;
}

/// The bytes of the signed LEB128 form of `v`: how many they are, that `v`
/// fits seven bits for each, and that bit 6 of the last shows the sign.
pub proof fn lemma_sleb128_shape(v: int)
    ensures
        sleb128(v).len() >= 1,
        -(pow2((7 * sleb128(v).len() - 1) as nat) as int) <= v < pow2(
            (7 * sleb128(v).len() - 1) as nat,
        ),
        sleb128(v).last() < 128,
        (sleb128(v).last() >= 64) == (v < 0),
    decreases
            (if v >= 0 {
                v
            } else {
                -v
            }),
{
    lemma_pow2_values();
    if sleb_last(v) {
        assert(sleb128(v).last() == (v % 128) as u8);
    } else {
        let tail = sleb128(v / 128);
        lemma_sleb128_shape(v / 128);
        let all = sleb128(v);
        assert(all =~= seq![(v % 128 + 128) as u8] + tail);
        assert(all.last() == tail.last());
        let m = tail.len();
        lemma_pow2_adds(7, (7 * m - 1) as nat);
        let d = pow2((7 * m - 1) as nat) as int;
        assert(-(128 * d) <= v < 128 * d) by (nonlinear_arith)
            requires
                -d <= v / 128 < d,
                v == 128 * (v / 128) + v % 128,
                0 <= v % 128 < 128,
        ;
    }
}

/// Scanning the signed LEB128 form of `v`, found at byte `i` of `s`, gives
/// the two's complement of `v` in seven bits for each byte of the form,
/// shifted up by the groups before it, whatever follows the form.
pub proof fn lemma_sleb_scan(s: Seq<u8>, bits: nat, i: nat, acc: nat, v: int)
    requires
        7 * i < bits,
        int_min(true, (bits - 7 * i) as nat) <= v <= int_max(true, (bits - 7 * i) as nat),
        i + sleb128(v).len() <= s.len(),
        s.subrange(i as int, i as int + sleb128(v).len()) == sleb128(v),
    ensures
        leb_scan(s, bits, i, acc) == Ok::<Scan, EncodingError>(
            Scan {
                raw: (acc + (v % (pow2(7 * sleb128(v).len()) as int)) * pow2(7 * i)) as nat,
                len: i + sleb128(v).len(),
            },
        ),
        0 <= v % (pow2(7 * sleb128(v).len()) as int),
    decreases
            (if v >= 0 {
                v
            } else {
                -v
            }),
{
    let form = sleb128(v);
    lemma_pow2_values();
    lemma_pow2_pos(7 * form.len());
    assert(s[i as int] == s.subrange(i as int, i as int + form.len())[0]);
    if sleb_last(v) {
        assert(form[0] == (v % 128) as u8);
        assert(form.len() == 1);
    } else {
        let tail = sleb128(v / 128);
        let m = tail.len();
        assert(form =~= seq![(v % 128 + 128) as u8] + tail);
        assert(form[0] == (v % 128 + 128) as u8);
        lemma_signed_shift_down(v, (bits - 7 * i) as nat);
        assert(s.subrange(i as int + 1, i as int + 1 + tail.len()) =~= tail) by {
            assert forall|j: int| 0 <= j < tail.len() implies s.subrange(
                i as int + 1,
                i as int + 1 + tail.len(),
            )[j] == tail[j] by {
                assert(s[i + 1 + j] == s.subrange(i as int, i as int + form.len())[j + 1]);
                assert(form[j + 1] == tail[j]);
            }
        }
        let sum = acc + (v % 128) as nat * pow2(7 * i);
        lemma_sleb_scan(s, bits, i + 1, sum, v / 128);
        lemma_pow2_adds(7 * i, 7);
        lemma_pow2_adds(7, 7 * m);
        lemma_pow2_pos(7 * m);
        let w = pow2(7 * i) as int;
        let d = pow2(7 * m) as int;
        let q = (v / 128) / d;
        let t = (v / 128) % d;
        vstd::arithmetic::div_mod::lemma_fundamental_div_mod(v / 128, d);
        vstd::arithmetic::div_mod::lemma_mod_bound(v / 128, d);
        let low = 128 * t + v % 128;
        assert(v == q * (128 * d) + low) by (nonlinear_arith)
            requires
                v == 128 * (v / 128) + v % 128,
                v / 128 == d * q + t,
                low == 128 * t + v % 128,
        ;
        assert(0 <= low < 128 * d) by (nonlinear_arith)
            requires
                0 <= t <= d - 1,
                0 <= v % 128 < 128,
                low == 128 * t + v % 128,
        ;
        vstd::arithmetic::div_mod::lemma_fundamental_div_mod_converse(v, 128 * d, q, low);
        assert((v % 128) * w + t * (w * 128) == low * w) by (nonlinear_arith)
            requires
                low == 128 * t + v % 128,
        ;
    }
}

} // verus!
