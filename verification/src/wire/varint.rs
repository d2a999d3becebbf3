//! Base-128 integers: seven bits per byte, least significant group first, the
//! high bit of a byte set when another byte follows.

use vstd::prelude::*;

verus! {

/// The longest encoding that is read: ten bytes hold 70 bits.
pub const MAX_VARINT_LEN: usize = 10;

/// 128 to the power `k`.
pub open spec fn pow128(k: nat) -> nat
    decreases k,
{
    if k == 0 {
        1
    } else {
        128 * pow128((k - 1) as nat)
    }
}

/// The shortest encoding of `v`.
pub open spec fn varint(v: nat) -> Seq<u8>
    decreases v,
{
    if v < 128 {
        seq![v as u8]
    } else {
        seq![(v % 128 + 128) as u8] + varint(v / 128)
    }
}

/// The value that the head of `bytes` encodes and how many bytes it takes,
/// for a head of any length; `None` when `bytes` ends before a final byte.
pub open spec fn parse_varint(bytes: Seq<u8>) -> Option<(nat, nat)>
    decreases bytes.len(),
{
    if bytes.len() == 0 {
        None
    } else if bytes[0] < 128 {
        Some((bytes[0] as nat, 1nat))
    } else {
        match parse_varint(bytes.drop_first()) {
            None => None,
            Some((rest, taken)) => Some((((bytes[0] - 128) + 128 * rest) as nat, taken + 1)),
        }
    }
}

/// The 64-bit value at the head of `bytes` and how many bytes it takes.
/// `None` when `bytes` ends too early, when the encoding is longer than ten
/// bytes, or when the value does not fit in 64 bits.
pub open spec fn decode_varint(bytes: Seq<u8>) -> Option<(u64, nat)> {
    match parse_varint(bytes) {
        Some((value, taken)) if taken <= MAX_VARINT_LEN && value <= u64::MAX => Some((value as u64, taken)),
        _ => None,
    }
}

/// The first powers of 128.
pub proof fn lemma_pow128_values()
    ensures
        pow128(0) == 1,
        pow128(1) == 0x80,
        pow128(2) == 0x4000,
        pow128(3) == 0x20_0000,
        pow128(4) == 0x1000_0000,
        pow128(5) == 0x8_0000_0000,
        pow128(6) == 0x400_0000_0000,
        pow128(7) == 0x2_0000_0000_0000,
        pow128(8) == 0x100_0000_0000_0000,
        pow128(9) == 0x8000_0000_0000_0000,
        pow128(10) == 0x40_0000_0000_0000_0000,
{
    reveal_with_fuel(pow128, 11);
}

/// An encoding is never empty, all its bytes but the last have the high bit
/// set, and a value below 128^k takes at most k bytes.
pub proof fn lemma_varint_shape(v: nat, k: nat)
    requires
        k >= 1,
        v < pow128(k),
    ensures
        1 <= varint(v).len() <= k,
        varint(v).last() < 128,
        forall|i: int| 0 <= i < varint(v).len() - 1 ==> #[trigger] varint(v)[i] >= 128,
    decreases v,
{
    if v >= 128 {
        if k == 1 {
            lemma_pow128_values();
        }
        let tail = varint(v / 128);
        lemma_varint_shape(v / 128, (k - 1) as nat);
        assert(varint(v) =~= seq![(v % 128 + 128) as u8] + tail);
        assert forall|i: int| 0 <= i < varint(v).len() - 1 implies #[trigger] varint(v)[i]
            >= 128 by {
            if i > 0 {
                assert(varint(v)[i] == tail[i - 1]);
            }
        }
    }
}

/// Reading what was written gives the value back, whatever follows it.
pub proof fn lemma_parse_varint_of_varint(v: nat, rest: Seq<u8>)
    ensures
        parse_varint(varint(v) + rest) == Some((v, varint(v).len())),
    decreases v,
{
    let bytes = varint(v) + rest;
    if v >= 128 {
        lemma_parse_varint_of_varint(v / 128, rest);
        assert(bytes.drop_first() =~= varint(v / 128) + rest);
        assert(bytes[0] == (v % 128 + 128) as u8);
    } else {
        assert(bytes[0] == v as u8);
    }
}

/// Reading a written 64-bit value gives it back, whatever follows it.
pub proof fn lemma_decode_varint_of_varint(v: u64, rest: Seq<u8>)
    ensures
        decode_varint(varint(v as nat) + rest) == Some((v, varint(v as nat).len())),
        varint(v as nat).len() <= 10,
{
    lemma_pow128_values();
    lemma_varint_shape(v as nat, 10);
    lemma_parse_varint_of_varint(v as nat, rest);
}

/// A reading takes at least one byte and no more than there are.
pub proof fn lemma_parse_varint_taken(bytes: Seq<u8>)
    ensures
        parse_varint(bytes) matches Some((value, taken)) ==> 1 <= taken <= bytes.len(),
    decreases bytes.len(),
{
    if bytes.len() > 0 && bytes[0] >= 128 {
        lemma_parse_varint_taken(bytes.drop_first());
    }
}

/// A reading whose first `k` bytes all announce a successor is the reading of
/// what follows them, scaled by 128^k, plus the low groups.
pub open spec fn low_groups(bytes: Seq<u8>, k: nat) -> nat
    decreases k,
{
    if k == 0 {
        0
    } else {
        (low_groups(bytes, (k - 1) as nat) + (bytes[k - 1] - 128) * pow128((k - 1) as nat)) as nat
    }
}

/// See `low_groups`.
pub proof fn lemma_parse_varint_skip(bytes: Seq<u8>, k: nat)
    requires
        k <= bytes.len(),
        forall|i: int| 0 <= i < k ==> #[trigger] bytes[i] >= 128,
    ensures
        parse_varint(bytes) == match parse_varint(bytes.skip(k as int)) {
            None => None::<(nat, nat)>,
            Some((rest, taken)) => Some((low_groups(bytes, k) + pow128(k) * rest, taken + k)),
        },
        low_groups(bytes, k) < pow128(k),
    decreases k,
{
    if k == 0 {
        assert(bytes.skip(0) =~= bytes);
        match parse_varint(bytes) {
            None => {},
            Some((rest, taken)) => {
                assert(pow128(0) * rest == rest) by (nonlinear_arith)
                    requires
                        pow128(0) == 1,
                ;
            },
        }
    } else {
        let j = (k - 1) as nat;
        lemma_parse_varint_skip(bytes, j);
        let tail = bytes.skip(j as int);
        assert(tail.len() > 0);
        assert(tail[0] == bytes[j as int]);
        assert(tail[0] >= 128);
        assert(tail.drop_first() =~= bytes.skip(k as int));
        let digit = (bytes[j as int] - 128) as nat;
        let scale = pow128(j);
        assert(pow128(k) == 128 * scale);
        assert(low_groups(bytes, k) == low_groups(bytes, j) + digit * scale);
        assert(digit * scale <= 127 * scale) by (nonlinear_arith)
            requires
                digit <= 127,
        ;
        match parse_varint(bytes.skip(k as int)) {
            None => {
                assert(parse_varint(tail) is None);
            },
            Some((rest, taken)) => {
                assert(parse_varint(tail) == Some(((digit + 128 * rest) as nat, taken + 1)));
                assert(scale * (digit + 128 * rest) == digit * scale + (128 * scale) * rest)
                    by (nonlinear_arith);
            },
        }
    }
}

/// Writes the shortest encoding of `v` at the end of `out`.
pub fn write_varint(out: &mut Vec<u8>, v: u64)
    ensures
        final(out)@ == old(out)@ + varint(v as nat),
{
    let mut rest: u64 = v;
    let ghost start = out@;
    while rest >= 128
        invariant
            start + varint(v as nat) == out@ + varint(rest as nat),
        decreases rest,
    {
        let ghost before = out@;
        out.push((rest % 128 + 128) as u8);
        proof {
            assert(before + varint(rest as nat) =~= out@ + varint((rest / 128) as nat));
        }
        rest = rest / 128;
    }
    let ghost before = out@;
    out.push(rest as u8);
    proof {
        assert(before + varint(rest as nat) =~= out@);
    }
}

/// Reads the 64-bit value that starts at `from`. Returns it with the index
/// just behind it.
pub fn read_varint(bytes: &[u8], from: usize) -> (read: Option<(u64, usize)>)
    requires
        from <= bytes@.len(),
    ensures
        match read {
            Some((value, next)) => decode_varint(bytes@.skip(from as int)) == Some(
                (value, (next - from) as nat),
            ) && from < next <= bytes@.len(),
            None => decode_varint(bytes@.skip(from as int)) is None,
        },
{
    let ghost tail = bytes@.skip(from as int);
    let end: usize = bytes.len();
    let mut value: u64 = 0;
    let mut scale: u64 = 1;
    let mut k: usize = 0;
    let mut at: usize = from;
    while k < 10
        invariant
            k <= 10,
            at == from + k,
            at <= end,
            end == bytes@.len(),
            tail == bytes@.skip(from as int),
            forall|i: int| 0 <= i < k ==> #[trigger] tail[i] >= 128,
            value == low_groups(tail, k as nat),
            k < 10 ==> scale == pow128(k as nat),
        decreases 10 - k,
    {
        let ghost rest = tail.skip(k as int);
        proof {
            lemma_pow128_values();
            lemma_parse_varint_skip(tail, k as nat);
            lemma_parse_varint_taken(rest);
            if k < 9 {
                lemma_pow128_monotonic(k as nat, 8);
            }
        }
        if at >= end {
            proof {
                assert(rest.len() == 0);
            }
            return None;
        }
        let byte: u8 = bytes[at];
        proof {
            assert(rest[0] == byte);
            assert(tail[k as int] == byte);
        }
        if byte < 128 {
            proof {
                assert(parse_varint(rest) == Some((byte as nat, 1nat)));
                assert(parse_varint(tail) == Some(
                    ((value + pow128(k as nat) * (byte as nat)) as nat, (1 + k) as nat),
                ));
                assert(pow128(k as nat) * (byte as nat) == (byte as u64) * scale)
                    by (nonlinear_arith)
                    requires
                        scale == pow128(k as nat),
                ;
            }
            if k == 9 && byte > 1 {
                proof {
                    assert((byte as u64) * scale >= 2 * scale) by (nonlinear_arith)
                        requires
                            byte >= 2,
                    ;
                }
                return None;
            }
            proof {
                if k == 9 {
                    assert((byte as u64) * scale <= scale) by (nonlinear_arith)
                        requires
                            byte <= 1,
                    ;
                } else {
                    assert((byte as u64) * scale <= 127 * scale) by (nonlinear_arith)
                        requires
                            byte <= 127,
                    ;
                }
            }
            let total: u64 = value + (byte as u64) * scale;
            return Some((total, at + 1));
        }
        proof {
            let digit = (byte - 128) as nat;
            assert(((byte - 128) as u64) * scale <= 127 * scale) by (nonlinear_arith)
                requires
                    byte >= 128,
                    byte <= 255,
            ;
            assert(((byte - 128) as u64) * scale == digit * pow128(k as nat)) by (nonlinear_arith)
                requires
                    scale == pow128(k as nat),
                    byte >= 128,
                    digit == byte - 128,
            ;
            assert(low_groups(tail, (k + 1) as nat) == low_groups(tail, k as nat) + digit * pow128(
                k as nat,
            ));
        }
        if k == 9 {
            proof {
                lemma_parse_varint_skip(tail, 10);
                lemma_parse_varint_taken(tail.skip(10));
            }
            return None;
        }
        value = value + ((byte - 128) as u64) * scale;
        scale = scale * 128;
        k += 1;
        at += 1;
    }
    proof {
        lemma_parse_varint_skip(tail, 10);
        lemma_parse_varint_taken(tail.skip(10));
    }
    None
}

/// Powers of 128 grow with the exponent.
pub proof fn lemma_pow128_monotonic(a: nat, b: nat)
    requires
        a <= b,
    ensures
        pow128(a) <= pow128(b),
        pow128(a) >= 1,
    decreases b,
{
    if a < b {
        lemma_pow128_monotonic(a, (b - 1) as nat);
    } else if a > 0 {
        lemma_pow128_monotonic((a - 1) as nat, (a - 1) as nat);
    }
}

} // verus!
