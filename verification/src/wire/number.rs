//! Integers of every width under every encoding: the bytes of a value, the
//! value of some bytes, and the functions that compute both.

use vstd::prelude::*;
use vstd::arithmetic::power2::pow2;
use vstd::arithmetic::power2::lemma_pow2_adds;
use vstd::arithmetic::power2::lemma_pow2_pos;
use crate::error::EncodingError;
use crate::io::Read;
use crate::opaque::int_max;
use crate::opaque::int_min;
use crate::settings::BitWidth;
use crate::settings::Endianness;
use crate::settings::NumEncoding;
use crate::wire::arith::lemma_pow2_split;
use crate::wire::arith::lemma_pow2_values;
use crate::wire::fixed::fixed_bytes;
use crate::wire::fixed::fixed_decode;
use crate::wire::fixed::fixed_encode;
use crate::wire::fixed::fixed_value;
use crate::wire::fixed::from_twos;
use crate::wire::fixed::twos;
use crate::wire::fixed::twos_decode;
use crate::wire::fixed::twos_encode;
use crate::wire::varint::leb_scan;
use crate::wire::varint::sleb128;
use crate::wire::varint::sleb128_encode;
use crate::wire::varint::sleb_value;
use crate::wire::varint::uleb128;
use crate::wire::varint::uleb128_encode;
use crate::wire::varint::uleb_value;
use crate::wire::varint::unzigzag;
use crate::wire::varint::zigzag;
use crate::wire::varint::zigzag_decode;
use crate::wire::varint::zigzag_encode;

verus! {

/// A value read off the front of some bytes, and how many bytes it took.
pub struct Parsed<V> {
    pub value: V,
    pub len: nat,
}

/// The same outcome with the value converted.
pub open spec fn remap<A, B>(p: Result<Parsed<A>, EncodingError>, f: spec_fn(A) -> B) -> Result<
    Parsed<B>,
    EncodingError,
> {
    match p {
        Ok(p) => Ok(Parsed { value: f(p.value), len: p.len }),
        Err(e) => Err(e),
    }
}

/// What a read did, against what the bytes of the stream stand for. A read
/// that succeeds gives a value which, seen through `view`, is the value that
/// the bytes stand for, and consumes just the bytes of that value. On a
/// reliable stream the read succeeds wherever the bytes stand for a value,
/// and fails with the very error of the bytes otherwise.
pub open spec fn reads<R: Read, X, V>(
    before: R,
    after: R,
    r: Result<X, EncodingError>,
    view: spec_fn(X) -> V,
    expect: Result<Parsed<V>, EncodingError>,
) -> bool {
    &&& after.reliable() == before.reliable()
    &&& r matches Ok(x) ==> (expect matches Ok(p) && p.value == view(x) && p.len
        <= before.remaining().len() && after.remaining() == before.remaining().skip(p.len as int))
    &&& before.reliable() ==> match expect {
        Ok(_) => r is Ok,
        Err(e) => r == Err::<X, EncodingError>(e),
    }
}

/// The bytes of the unsigned number `v` of the given width.
pub open spec fn unsigned_bytes(
    v: nat,
    width: BitWidth,
    num_encoding: NumEncoding,
    endianness: Endianness,
) -> Seq<u8> {
    match num_encoding {
        NumEncoding::Fixed => fixed_bytes(v, width.spec_bytes(), endianness),
        _ => uleb128(v),
    }
}

/// The bytes of the signed number `v` of the given width.
pub open spec fn signed_bytes(
    v: int,
    width: BitWidth,
    num_encoding: NumEncoding,
    endianness: Endianness,
) -> Seq<u8> {
    match num_encoding {
        NumEncoding::Fixed => fixed_bytes(
            twos(v, width.spec_bits()),
            width.spec_bytes(),
            endianness,
        ),
        NumEncoding::Leb128 => sleb128(v),
        NumEncoding::ProtobufWasteful => uleb128(twos(v, width.spec_bits())),
        NumEncoding::ProtobufZigzag => uleb128(zigzag(v)),
    }
}

/// The fixed-width number at the front of `s`.
pub open spec fn fixed_parse(s: Seq<u8>, width: BitWidth, endianness: Endianness) -> Result<
    Parsed<nat>,
    EncodingError,
> {
    if s.len() < width.spec_bytes() {
        Err(EncodingError::UnexpectedEnd)
    } else {
        Ok(
            Parsed {
                value: fixed_value(s.take(width.spec_bytes() as int), endianness),
                len: width.spec_bytes(),
            },
        )
    }
}

/// The variable-length unsigned number at the front of `s`.
pub open spec fn uleb_parse(s: Seq<u8>, width: BitWidth) -> Result<Parsed<nat>, EncodingError> {
    match leb_scan(s, width.spec_bits(), 0, 0) {
        Ok(scan) => Ok(Parsed { value: uleb_value(scan, width.spec_bits()), len: scan.len }),
        Err(e) => Err(e),
    }
}

/// The unsigned number of the given width at the front of `s`.
pub open spec fn unsigned_parse(
    s: Seq<u8>,
    width: BitWidth,
    num_encoding: NumEncoding,
    endianness: Endianness,
) -> Result<Parsed<nat>, EncodingError> {
    match num_encoding {
        NumEncoding::Fixed => fixed_parse(s, width, endianness),
        _ => uleb_parse(s, width),
    }
}

/// The signed number of the given width at the front of `s`.
pub open spec fn signed_parse(
    s: Seq<u8>,
    width: BitWidth,
    num_encoding: NumEncoding,
    endianness: Endianness,
) -> Result<Parsed<int>, EncodingError> {
    match num_encoding {
        NumEncoding::Fixed => remap(
            fixed_parse(s, width, endianness),
            |u: nat| from_twos(u, width.spec_bits()),
        ),
        NumEncoding::Leb128 => match leb_scan(s, width.spec_bits(), 0, 0) {
            Ok(scan) => Ok(
                Parsed {
                    value: sleb_value(scan, s[scan.len - 1], width.spec_bits()),
                    len: scan.len,
                },
            ),
            Err(e) => Err(e),
        },
        NumEncoding::ProtobufWasteful => remap(
            uleb_parse(s, width),
            |u: nat| from_twos(u, width.spec_bits()),
        ),
        NumEncoding::ProtobufZigzag => remap(uleb_parse(s, width), |u: nat| unzigzag(u)),
    }
}

/// The bytes of the unsigned number `value` of the given width.
pub fn encode_unsigned(
    value: u128,
    width: BitWidth,
    num_encoding: NumEncoding,
    endianness: Endianness,
) -> (r: Vec<u8>)
    ensures
        r@ == unsigned_bytes(value as nat, width, num_encoding, endianness),
{
    match num_encoding {
        NumEncoding::Fixed => fixed_encode(value, width.bytes(), endianness),
        _ => uleb128_encode(value),
    }
}

/// The bytes of the signed number `value` of the given width.
pub fn encode_signed(
    value: i128,
    width: BitWidth,
    num_encoding: NumEncoding,
    endianness: Endianness,
) -> (r: Vec<u8>)
    requires
        int_min(true, width.spec_bits()) <= value <= int_max(true, width.spec_bits()),
    ensures
        r@ == signed_bytes(value as int, width, num_encoding, endianness),
{
    match num_encoding {
        NumEncoding::Fixed => fixed_encode(twos_encode(value, width), width.bytes(), endianness),
        NumEncoding::Leb128 => sleb128_encode(value),
        NumEncoding::ProtobufWasteful => uleb128_encode(twos_encode(value, width)),
        NumEncoding::ProtobufZigzag => uleb128_encode(zigzag_encode(value)),
    }
}

/// Reads one byte.
pub fn read_one<R: Read>(stream: &mut R) -> (r: Result<u8, EncodingError>)
    ensures
        (*final(stream)).reliable() == (*old(stream)).reliable(),
        r matches Ok(b) ==> (*old(stream)).remaining().len() >= 1 && b == (*old(stream)).remaining()[0]
            && (*final(stream)).remaining() == (*old(stream)).remaining().skip(1),
        (*old(stream)).reliable() && (*old(stream)).remaining().len() >= 1 ==> r is Ok,
        (*old(stream)).reliable() && r is Err ==> r == Err::<u8, EncodingError>(
            EncodingError::UnexpectedEnd,
        ) && (*final(stream)).remaining() == (*old(stream)).remaining(),
{
    let mut buf = [0u8;1];
    match stream.read(&mut buf) {
        Ok(()) => {
            assert(buf@[0] == (*old(stream)).remaining().take(1)[0]);
            Ok(buf[0])
        },
        Err(e) => Err(e),
    }
}

/// Reads a fixed-width number.
pub fn read_fixed<R: Read>(stream: &mut R, width: BitWidth, endianness: Endianness) -> (r: Result<
    u128,
    EncodingError,
>)
    ensures
        reads(
            *old(stream),
            *final(stream),
            r,
            |v: u128| v as nat,
            fixed_parse((*old(stream)).remaining(), width, endianness),
        ),
        r matches Ok(v) ==> v < pow2(width.spec_bits()),
{
    let mut buf = [0u8;16];
    let n = width.bytes();
    let (part, _) = buf.split_at_mut(n);
    match stream.read(part) {
        Ok(()) => {
            let bytes = vstd::slice::slice_subrange(&buf, 0, n);
            assert(bytes@ =~= (*old(stream)).remaining().take(n as int));
            let v = fixed_decode(bytes, endianness);
            proof {
                crate::wire::fixed::lemma_le_value_bound(bytes@);
                crate::wire::fixed::lemma_le_value_bound(bytes@.reverse());
                lemma_pow2_values();
            }
            Ok(v)
        },
        Err(e) => Err(e),
    }
}

/// One step of a scan: adding the group `p` at bit `s` to the groups below
/// it, and cutting the sum down to `bits` bits, keeps the groups below as
/// they are and cuts only the new group.
pub proof fn lemma_leb_step(acc: nat, p: nat, s: nat, bits: nat)
    requires
        acc < pow2(s),
        s < bits,
        p < 128,
    ensures
        acc + p * pow2(s) < pow2(s + 7),
        bits - s >= 7 ==> (acc + p * pow2(s)) % pow2(bits) == acc + p * pow2(s),
        bits - s < 7 ==> (acc + p * pow2(s)) % pow2(bits) == acc + (p % pow2((bits - s) as nat))
            * pow2(s),
        (acc + p * pow2(s)) % pow2(bits) < pow2(bits),
{
    lemma_pow2_values();
    lemma_pow2_adds(s, 7);
    lemma_pow2_pos(s);
    lemma_pow2_pos(bits);
    let w = pow2(s) as int;
    let x = acc + p * pow2(s);
    assert(p * w <= 127 * w) by (nonlinear_arith)
        requires
            p <= 127,
            w > 0,
    ;
    vstd::arithmetic::div_mod::lemma_mod_bound(x as int, pow2(bits) as int);
    if bits - s >= 7 {
        lemma_pow2_split(s + 7, bits);
        vstd::arithmetic::div_mod::lemma_small_mod(x, pow2(bits));
    } else {
        let room = (bits - s) as nat;
        let d = pow2(room) as int;
        lemma_pow2_pos(room);
        lemma_pow2_adds(room, s);
        let q = p as int / d;
        let m = p as int % d;
        vstd::arithmetic::div_mod::lemma_fundamental_div_mod(p as int, d);
        vstd::arithmetic::div_mod::lemma_mod_bound(p as int, d);
        let low = acc + m * w;
        assert(p * w == q * (d * w) + m * w) by (nonlinear_arith)
            requires
                p == d * q + m,
        ;
        assert(m * w <= (d - 1) * w) by (nonlinear_arith)
            requires
                m <= d - 1,
                w > 0,
        ;
        assert((d - 1) * w == d * w - w) by (nonlinear_arith);
        assert(x == q * pow2(bits) + low);
        vstd::arithmetic::div_mod::lemma_fundamental_div_mod_converse(
            x as int,
            pow2(bits) as int,
            q,
            low,
        );
    }
}

/// A scan that starts below `2^(7i)` ends below `2^(7 len)` and covers at
/// least one byte within `s`.
pub proof fn lemma_leb_scan_bounds(s: Seq<u8>, bits: nat, i: nat, acc: nat)
    requires
        acc < pow2(7 * i),
    ensures
        leb_scan(s, bits, i, acc) matches Ok(scan) ==> i < scan.len <= s.len() && scan.raw < pow2(
            7 * scan.len,
        ) && 7 * (scan.len - 1) < bits && s[scan.len - 1] < 128,
    decreases s.len() - i,
{
    if 7 * i < bits && i < s.len() {
        lemma_leb_step(acc, (s[i as int] % 128) as nat, 7 * i, bits);
        if s[i as int] >= 128 {
            lemma_leb_scan_bounds(s, bits, i + 1, acc + (s[i as int] % 128) as nat * pow2(7 * i));
        }
    }
}

/// What an executable scan found.
pub struct Scanned {
    /// The groups, cut down to the width of the type.
    pub value: u128,
    /// Seven times the number of bytes.
    pub shift: usize,
    /// The last byte.
    pub last: u8,
    /// The weight of the last group: two to the power of `shift - 7`.
    pub weight: u128,
}

/// The power of two for an exponent below seven.
fn small_pow2(e: usize) -> (r: u128)
    requires
        e < 7,
    ensures
        r == pow2(e as nat),
        r >= 1,
{
    proof {
        lemma_pow2_values();
    }
    if e == 0 {
        1
    } else if e == 1 {
        2
    } else if e == 2 {
        4
    } else if e == 3 {
        8
    } else if e == 4 {
        16
    } else if e == 5 {
        32
    } else {
        64
    }
}

/// Scans a variable-length integer for a type of the given width off the
/// stream, byte by byte.
pub fn scan_leb<R: Read>(stream: &mut R, width: BitWidth) -> (r: Result<Scanned, EncodingError>)
    ensures
        (*final(stream)).reliable() == (*old(stream)).reliable(),
        r matches Ok(found) ==> (leb_scan((*old(stream)).remaining(), width.spec_bits(), 0, 0)
            matches Ok(scan) && found.value == scan.raw % pow2(width.spec_bits()) && found.shift
            == 7 * scan.len && 1 <= scan.len <= (*old(stream)).remaining().len() && found.last == (
        *old(stream)).remaining()[scan.len - 1] && found.weight == pow2((7 * (scan.len - 1)) as nat)
            && 7 * (scan.len - 1) < width.spec_bits() && scan.raw < pow2(7 * scan.len) && (
        *final(stream)).remaining() == (*old(stream)).remaining().skip(scan.len as int)),
        (*old(stream)).reliable() ==> match leb_scan(
            (*old(stream)).remaining(),
            width.spec_bits(),
            0,
            0,
        ) {
            Ok(_) => r is Ok,
            Err(e) => r == Err::<Scanned, EncodingError>(e),
        },
{
    let bits: usize = width.bits();
    let ghost s0 = (*old(stream)).remaining();
    let ghost mut i: nat = 0;
    let ghost mut acc: nat = 0;
    let mut value: u128 = 0;
    let mut shift: usize = 0;
    let mut weight: u128 = 1;
    proof {
        lemma_pow2_values();
        assert(s0.skip(0) =~= s0);
    }
    loop
        invariant
            bits == width.spec_bits(),
            s0 == (*old(stream)).remaining(),
            (*stream).reliable() == (*old(stream)).reliable(),
            shift == 7 * i,
            i <= s0.len(),
            shift < bits + 7,
            (*stream).remaining() == s0.skip(i as int),
            acc < pow2(7 * i),
            shift < bits ==> value == acc && weight == pow2(shift as nat),
            leb_scan(s0, bits as nat, 0, 0) == leb_scan(s0, bits as nat, i, acc),
        decreases bits + 7 - shift,
    {
        if shift >= bits {
            return Err(EncodingError::VarIntError);
        }
        let b = match read_one(stream) {
            Ok(b) => b,
            Err(e) => {
                return Err(e);
            },
        };
        let payload: u128 = (b % 128) as u128;
        let room: usize = bits - shift;
        let kept: u128 = if room >= 7 {
            payload
        } else {
            payload % small_pow2(room)
        };
        proof {
            assert(b == s0[i as int]);
            assert(s0.skip(i as int).skip(1) =~= s0.skip(i as int + 1));
            lemma_pow2_values();
            lemma_leb_step(acc, payload as nat, shift as nat, bits as nat);
            lemma_pow2_split(bits as nat, 128);
            assert(weight == pow2(shift as nat));
            assert(acc + kept * weight == (acc + payload as nat * pow2(shift as nat)) % pow2(
                bits as nat,
            ));
            assert(acc + kept * weight < 0x1_0000_0000_0000_0000_0000_0000_0000_0000);
            assert(0 <= kept * weight) by (nonlinear_arith)
                requires
                    kept >= 0,
                    weight >= 0,
            ;
        }
        value = value + kept * weight;
        let ghost sum = acc + payload as nat * pow2(shift as nat);
        if b < 128 {
            proof {
                lemma_leb_scan_bounds(s0, bits as nat, i, acc);
            }
            return Ok(Scanned { value, shift: shift + 7, last: b, weight });
        }
        shift = shift + 7;
        if shift < bits {
            proof {
                lemma_pow2_values();
                lemma_pow2_adds((shift - 7) as nat, 7);
                vstd::arithmetic::power2::lemma_pow2_strictly_increases(shift as nat, bits as nat);
                lemma_pow2_split(bits as nat, 128);
            }
            weight = weight * 128;
        }
        proof {
            i = i + 1;
            acc = sum;
        }
    }
}

/// Reads an unsigned number of the given width.
pub fn decode_unsigned<R: Read>(
    stream: &mut R,
    width: BitWidth,
    num_encoding: NumEncoding,
    endianness: Endianness,
) -> (r: Result<u128, EncodingError>)
    ensures
        reads(
            *old(stream),
            *final(stream),
            r,
            |v: u128| v as nat,
            unsigned_parse((*old(stream)).remaining(), width, num_encoding, endianness),
        ),
        r matches Ok(v) ==> v <= int_max(false, width.spec_bits()),
{
    proof {
        lemma_pow2_values();
    }
    match num_encoding {
        NumEncoding::Fixed => read_fixed(stream, width, endianness),
        _ => match scan_leb(stream, width) {
            Ok(found) => {
                proof {
                    lemma_pow2_pos(width.spec_bits());
                    vstd::arithmetic::div_mod::lemma_mod_bound(
                        leb_scan((*old(stream)).remaining(), width.spec_bits(), 0, 0)->Ok_0.raw as int,
                        pow2(width.spec_bits()) as int,
                    );
                }
                Ok(found.value)
            },
            Err(e) => Err(e),
        },
    }
}

/// Reads a signed number of the given width.
pub fn decode_signed<R: Read>(
    stream: &mut R,
    width: BitWidth,
    num_encoding: NumEncoding,
    endianness: Endianness,
) -> (r: Result<i128, EncodingError>)
    ensures
        reads(
            *old(stream),
            *final(stream),
            r,
            |v: i128| v as int,
            signed_parse((*old(stream)).remaining(), width, num_encoding, endianness),
        ),
        r matches Ok(v) ==> int_min(true, width.spec_bits()) <= v <= int_max(
            true,
            width.spec_bits(),
        ),
{
    proof {
        lemma_pow2_values();
    }
    let ghost s0 = (*old(stream)).remaining();
    let ghost bits = width.spec_bits();
    match num_encoding {
        NumEncoding::Fixed => match read_fixed(stream, width, endianness) {
            Ok(pattern) => Ok(twos_decode(pattern, width)),
            Err(e) => Err(e),
        },
        NumEncoding::Leb128 => match scan_leb(stream, width) {
            Ok(found) => {
                let ghost scan = leb_scan(s0, bits, 0, 0)->Ok_0;
                proof {
                    lemma_pow2_pos(bits);
                    vstd::arithmetic::div_mod::lemma_mod_bound(scan.raw as int, pow2(bits) as int);
                    crate::wire::fixed::lemma_from_twos_roundtrip(scan.raw % pow2(bits), bits);
                }
                if found.shift < width.bits() {
                    proof {
                        lemma_pow2_split(7 * scan.len, (bits - 1) as nat);
                        lemma_pow2_split(7 * scan.len, 126);
                        lemma_pow2_adds((7 * (scan.len - 1)) as nat, 7);
                        vstd::arithmetic::div_mod::lemma_small_mod(scan.raw, pow2(bits));
                        lemma_pow2_split(7 * scan.len, bits);
                    }
                    if found.last % 128 >= 64 {
                        Ok(found.value as i128 - (found.weight * 128) as i128)
                    } else {
                        Ok(found.value as i128)
                    }
                } else {
                    Ok(twos_decode(found.value, width))
                }
            },
            Err(e) => Err(e),
        },
        NumEncoding::ProtobufWasteful => match scan_leb(stream, width) {
            Ok(found) => {
                proof {
                    let scan = leb_scan(s0, bits, 0, 0)->Ok_0;
                    lemma_pow2_pos(bits);
                    vstd::arithmetic::div_mod::lemma_mod_bound(scan.raw as int, pow2(bits) as int);
                }
                Ok(twos_decode(found.value, width))
            },
            Err(e) => Err(e),
        },
        NumEncoding::ProtobufZigzag => match scan_leb(stream, width) {
            Ok(found) => {
                proof {
                    let scan = leb_scan(s0, bits, 0, 0)->Ok_0;
                    lemma_pow2_pos(bits);
                    vstd::arithmetic::div_mod::lemma_mod_bound(scan.raw as int, pow2(bits) as int);
                    lemma_pow2_adds(1, (bits - 1) as nat);
                }
                Ok(zigzag_decode(found.value))
            },
            Err(e) => Err(e),
        },
    }
}

} // verus!
