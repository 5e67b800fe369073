//! EBML primitives: big-endian integer bytes, variable-length integers
//! ("vints") for element sizes and track numbers, and tag-length-value
//! element framing. These are the building blocks of the WebM byte layout.

use vstd::prelude::*;
use vstd::arithmetic::power2::pow2;

verus! {

/// The values a vint can carry stay strictly below this bound, `2^56 - 1`
/// (the all-ones pattern of each width is reserved).
pub const VINT_LIMIT: u64 = 0x00FF_FFFF_FFFF_FFFF;

/// The `w`-byte big-endian encoding of `v`: byte `i` holds bits
/// `8*(w-1-i) .. 8*(w-i)` of `v`.
pub open spec fn be_bytes(v: u64, w: nat) -> Seq<u8> {
    Seq::new(w, |i: int| (((v as nat) / pow2((8 * (w - 1 - i)) as nat)) % 256) as u8)
}

/// The smallest width (in bytes, 1 to 8) whose vint encoding can carry `v`:
/// a `w`-byte vint carries values strictly below `2^(7*w) - 1`.
pub open spec fn vint_width(v: u64) -> nat {
    if v < 0x7F {
        1
    } else if v < 0x3FFF {
        2
    } else if v < 0x1F_FFFF {
        3
    } else if v < 0x0FFF_FFFF {
        4
    } else if v < 0x07_FFFF_FFFF {
        5
    } else if v < 0x03FF_FFFF_FFFF {
        6
    } else if v < 0x01_FFFF_FFFF_FFFF {
        7
    } else {
        8
    }
}

/// The minimal-width vint encoding of `v` (defined for `v < VINT_LIMIT`):
/// the marker bit at position `7*w` of the `w`-byte big-endian integer.
pub open spec fn vint_bytes(v: u64) -> Seq<u8> {
    be_bytes((v + pow2(7 * vint_width(v))) as u64, vint_width(v))
}

/// The smallest width (in bytes, 1 to 8) whose big-endian encoding carries
/// `v`; unsigned-integer element payloads use this width.
pub open spec fn uint_width(v: u64) -> nat {
    if v < 0x100 {
        1
    } else if v < 0x1_0000 {
        2
    } else if v < 0x100_0000 {
        3
    } else if v < 0x1_0000_0000 {
        4
    } else if v < 0x100_0000_0000 {
        5
    } else if v < 0x1_0000_0000_0000 {
        6
    } else if v < 0x100_0000_0000_0000 {
        7
    } else {
        8
    }
}

/// An EBML element: the element id (`idw` raw big-endian bytes), the payload
/// size as a vint, then the payload.
pub open spec fn elem_bytes(id: u64, idw: nat, payload: Seq<u8>) -> Seq<u8> {
    be_bytes(id, idw) + vint_bytes(payload.len() as u64) + payload
}

/// An EBML unsigned-integer element: `v` in its minimal big-endian width.
pub open spec fn uint_elem(id: u64, idw: nat, v: u64) -> Seq<u8> {
    elem_bytes(id, idw, be_bytes(v, uint_width(v)))
}

/// `2^e` as a `u64`, for `e < 64`.
pub fn pow2_u64(e: usize) -> (r: u64)
    requires
        e < 64,
    ensures
        r as nat == pow2(e as nat),
{
    proof {
        vstd::arithmetic::power2::lemma2_to64();
        vstd::arithmetic::power2::lemma2_to64_rest();
    }
    let mut r: u64 = 1;
    let mut i: usize = 0;
    while i < e
        invariant
            i <= e < 64,
            r as nat == pow2(i as nat),
        decreases e - i,
    {
        proof {
            vstd::arithmetic::power2::lemma_pow2_strictly_increases(i as nat + 1, 64);
            vstd::arithmetic::power2::lemma_pow2_unfold(i as nat + 1);
            vstd::arithmetic::power2::lemma2_to64();
            vstd::arithmetic::power2::lemma2_to64_rest();
        }
        r = r * 2;
        i = i + 1;
    }
    r
}

/// Appends the bytes of `src` to `out`.
pub fn push_bytes(out: &mut Vec<u8>, src: &[u8])
    ensures
        final(out)@ == old(out)@ + src@,
{
    let n: usize = src.len();
    let mut i: usize = 0;
    while i < n
        invariant
            i <= n == src@.len(),
            out@ == old(out)@ + src@.subrange(0, i as int),
        decreases n - i,
    {
        out.push(src[i]);
        proof {
            assert(src@.subrange(0, i + 1) =~= src@.subrange(0, i as int).push(src@[i as int]));
        }
        i = i + 1;
    }
    proof {
        assert(src@.subrange(0, n as int) =~= src@);
    }
}

/// Appends the `w`-byte big-endian encoding of `v` to `out`.
pub fn push_be_bytes(out: &mut Vec<u8>, v: u64, w: usize)
    requires
        1 <= w <= 8,
    ensures
        final(out)@ == old(out)@ + be_bytes(v, w as nat),
{
    let mut i: usize = 0;
    while i < w
        invariant
            i <= w <= 8,
            out@ == old(out)@ + be_bytes(v, w as nat).subrange(0, i as int),
        decreases w - i,
    {
        let sh: usize = 8 * (w - 1 - i);
        let p: u64 = pow2_u64(sh);
        proof {
            vstd::arithmetic::power2::lemma_pow2_pos(sh as nat);
        }
        let b: u8 = ((v / p) % 256) as u8;
        out.push(b);
        proof {
            assert(b == be_bytes(v, w as nat)[i as int]);
            assert(be_bytes(v, w as nat).subrange(0, i + 1) =~= be_bytes(v, w as nat).subrange(
                0,
                i as int,
            ).push(be_bytes(v, w as nat)[i as int]));
        }
        i = i + 1;
    }
    proof {
        assert(be_bytes(v, w as nat).subrange(0, w as int) =~= be_bytes(v, w as nat));
    }
}

/// The minimal vint width of `v`, computed.
pub fn vint_width_u64(v: u64) -> (w: usize)
    ensures
        w as nat == vint_width(v),
        1 <= w <= 8,
{
    if v < 0x7F {
        1
    } else if v < 0x3FFF {
        2
    } else if v < 0x1F_FFFF {
        3
    } else if v < 0x0FFF_FFFF {
        4
    } else if v < 0x07_FFFF_FFFF {
        5
    } else if v < 0x03FF_FFFF_FFFF {
        6
    } else if v < 0x01_FFFF_FFFF_FFFF {
        7
    } else {
        8
    }
}

/// The minimal unsigned-integer width of `v`, computed.
pub fn uint_width_u64(v: u64) -> (w: usize)
    ensures
        w as nat == uint_width(v),
        1 <= w <= 8,
{
    if v < 0x100 {
        1
    } else if v < 0x1_0000 {
        2
    } else if v < 0x100_0000 {
        3
    } else if v < 0x1_0000_0000 {
        4
    } else if v < 0x100_0000_0000 {
        5
    } else if v < 0x1_0000_0000_0000 {
        6
    } else if v < 0x100_0000_0000_0000 {
        7
    } else {
        8
    }
}

/// Appends the minimal-width vint encoding of `v` to `out`.
pub fn push_vint(out: &mut Vec<u8>, v: u64)
    requires
        v < VINT_LIMIT,
    ensures
        final(out)@ == old(out)@ + vint_bytes(v),
{
    let w: usize = vint_width_u64(v);
    let marker: u64 = pow2_u64(7 * w);
    proof {
        vstd::arithmetic::power2::lemma2_to64();
        vstd::arithmetic::power2::lemma2_to64_rest();
        vstd::arithmetic::power2::lemma_pow2_adds(7 * (w as nat), 1);
    }
    push_be_bytes(out, v + marker, w);
}

/// The number of binary digits of `n` (zero for zero).
pub open spec fn bit_len(n: u64) -> nat
    decreases n,
{
    if n == 0 {
        0
    } else {
        (1 + bit_len(n / 2)) as nat
    }
}

/// A positive number lies between the two powers of two its bit length names.
pub proof fn lemma_bit_len_bounds(n: u64)
    ensures
        n > 0 ==> pow2((bit_len(n) - 1) as nat) <= n < pow2(bit_len(n)),
        bit_len(n) <= 64,
    decreases n,
{
    vstd::arithmetic::power2::lemma2_to64();
    vstd::arithmetic::power2::lemma2_to64_rest();
    if n > 0 {
        lemma_bit_len_bounds(n / 2);
        if n / 2 == 0 {
            assert(pow2(0) == 1 && pow2(1) == 2);
        } else {
            vstd::arithmetic::power2::lemma_pow2_unfold(bit_len(n));
            vstd::arithmetic::power2::lemma_pow2_unfold((bit_len(n) - 1) as nat);
        }
        if bit_len(n) > 64 {
            vstd::arithmetic::power2::lemma_pow2_strictly_increases(64, bit_len(n));
            assert(n >= pow2((bit_len(n) - 1) as nat));
            vstd::arithmetic::power2::lemma_pow2_strictly_increases(63, (bit_len(n) - 1) as nat);
        }
    }
}

/// The IEEE 754 binary64 ("double") bit pattern whose value is `n` rounded to
/// the nearest representable number (ties to even). These are the payload
/// bytes of an EBML 8-byte float element carrying an integer quantity.
pub open spec fn f64_bits(n: u64) -> u64 {
    if n == 0 {
        0
    } else {
        let e = (bit_len(n) - 1) as nat;
        if e <= 52 {
            (((1023 + e) * pow2(52)) + (n * pow2((52 - e) as nat) - pow2(52))) as u64
        } else {
            let q = pow2((e - 52) as nat) as int;
            let m = n as int / q;
            let r = n as int % q;
            let m2 = if r > q / 2 || (r == q / 2 && m % 2 == 1) {
                m + 1
            } else {
                m
            };
            if m2 == pow2(53) {
                ((1023 + e + 1) * pow2(52)) as u64
            } else {
                (((1023 + e) * pow2(52)) + (m2 - pow2(52))) as u64
            }
        }
    }
}

/// The bit length of `n`, computed.
pub fn bit_len_u64(n: u64) -> (r: usize)
    ensures
        r as nat == bit_len(n),
        r <= 64,
{
    proof {
        lemma_bit_len_bounds(n);
    }
    let mut v: u64 = n;
    let mut r: usize = 0;
    while v > 0
        invariant
            r as nat + bit_len(v) == bit_len(n),
            r as nat <= bit_len(n) <= 64,
        decreases v,
    {
        v = v / 2;
        r = r + 1;
    }
    r
}

/// The IEEE 754 double bit pattern of `n`, computed.
pub fn f64_bits_u64(n: u64) -> (r: u64)
    ensures
        r == f64_bits(n),
{
    if n == 0 {
        return 0;
    }
    proof {
        lemma_bit_len_bounds(n);
        vstd::arithmetic::power2::lemma2_to64();
        vstd::arithmetic::power2::lemma2_to64_rest();
    }
    let e: usize = bit_len_u64(n) - 1;
    let p52: u64 = pow2_u64(52);
    if e <= 52 {
        let sh: u64 = pow2_u64(52 - e);
        proof {
            vstd::arithmetic::power2::lemma_pow2_adds((e + 1) as nat, (52 - e) as nat);
            vstd::arithmetic::power2::lemma_pow2_adds(e as nat, (52 - e) as nat);
            vstd::arithmetic::power2::lemma_pow2_pos((52 - e) as nat);
            vstd::arithmetic::mul::lemma_mul_inequality(
                pow2(e as nat) as int,
                n as int,
                pow2((52 - e) as nat) as int,
            );
            vstd::arithmetic::mul::lemma_mul_strict_inequality(
                n as int,
                pow2((e + 1) as nat) as int,
                pow2((52 - e) as nat) as int,
            );
        }
        let mant: u64 = n * sh - p52;
        (1023 + e as u64) * p52 + mant
    } else {
        let q: u64 = pow2_u64(e - 52);
        proof {
            vstd::arithmetic::power2::lemma_pow2_pos((e - 52) as nat);
            vstd::arithmetic::power2::lemma_pow2_adds(52, (e - 52) as nat);
            vstd::arithmetic::power2::lemma_pow2_adds(53, (e - 52) as nat);
            vstd::arithmetic::div_mod::lemma_div_multiples_vanish(
                pow2(52) as int,
                q as int,
            );
            vstd::arithmetic::div_mod::lemma_div_is_ordered(
                (pow2(52) * q) as int,
                n as int,
                q as int,
            );
            vstd::arithmetic::div_mod::lemma_multiply_divide_lt(
                n as int,
                q as int,
                pow2(53) as int,
            );
        }
        let m: u64 = n / q;
        let r: u64 = n % q;
        assert(pow2(52) <= m < pow2(53));
        let round_up: bool = r > q / 2 || (r == q / 2 && m % 2 == 1);
        let m2: u64 = if round_up {
            m + 1
        } else {
            m
        };
        if m2 == pow2_u64(53) {
            (1023 + e as u64 + 1) * p52
        } else {
            (1023 + e as u64) * p52 + (m2 - p52)
        }
    }
}

/// Appends a whole EBML element (id, size vint, payload) to `out`.
pub fn push_element(out: &mut Vec<u8>, id: u64, idw: usize, payload: &[u8])
    requires
        1 <= idw <= 8,
        payload@.len() < VINT_LIMIT,
    ensures
        final(out)@ == old(out)@ + elem_bytes(id, idw as nat, payload@),
{
    push_be_bytes(out, id, idw);
    push_vint(out, payload.len() as u64);
    push_bytes(out, payload);
}

/// Appends an EBML unsigned-integer element to `out`.
pub fn push_uint_element(out: &mut Vec<u8>, id: u64, idw: usize, v: u64)
    requires
        1 <= idw <= 8,
    ensures
        final(out)@ == old(out)@ + uint_elem(id, idw as nat, v),
{
    let mut tmp: Vec<u8> = Vec::new();
    let w: usize = uint_width_u64(v);
    push_be_bytes(&mut tmp, v, w);
    push_element(out, id, idw, tmp.as_slice());
}

} // verus!
