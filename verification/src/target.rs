//! Expansion of the header's compact difficulty-bits field into a full
//! 256-bit big-endian byte sequence, for display only.
//!
//! The compact form packs an exponent in the top byte and a 24-bit mantissa
//! below it. The mantissa's three bytes are placed so that its lowest byte
//! sits `exponent - 3` byte places above the least significant end of the
//! 256-bit value; for exponents below 3 the mantissa is shifted right
//! instead. A mantissa with its sign bit set (above `0x7FFFFF`) expands to
//! all zeros. Bytes that would fall beyond the 32-byte width are dropped.

use vstd::prelude::*;

verus! {

/// The top byte of the compact form: the exponent.
pub open spec fn compact_exponent(bits: u32) -> u32 {
    bits >> 24
}

/// The low 24 bits of the compact form: the mantissa.
pub open spec fn compact_mantissa(bits: u32) -> u32 {
    bits & 0x00FF_FFFF
}

/// The mantissa after the right shift applied for exponents below 3.
pub open spec fn shifted_mantissa(bits: u32) -> u32 {
    let e = compact_exponent(bits);
    let m = compact_mantissa(bits);
    if e == 0 {
        m >> 24
    } else if e == 1 {
        m >> 16
    } else if e == 2 {
        m >> 8
    } else {
        m
    }
}

/// The byte place (0 = least significant) where the shifted mantissa's
/// lowest byte sits.
pub open spec fn mantissa_place(bits: u32) -> int {
    if compact_exponent(bits) <= 3 {
        0
    } else {
        compact_exponent(bits) - 3
    }
}

/// The expanded target's byte at byte place `place` (0 = least significant).
pub open spec fn target_byte_at(bits: u32, place: int) -> u8 {
    let m = shifted_mantissa(bits);
    let base = mantissa_place(bits);
    if compact_mantissa(bits) > 0x007F_FFFF {
        0
    } else if place == base {
        (m & 0xFF) as u8
    } else if place == base + 1 {
        ((m >> 8) & 0xFF) as u8
    } else if place == base + 2 {
        ((m >> 16) & 0xFF) as u8
    } else {
        0
    }
}

/// The 32 bytes of the expanded target in big-endian order: index 0 is the
/// most significant byte (byte place 31).
pub open spec fn target_bytes(bits: u32) -> Seq<u8> {
    Seq::new(32, |i: int| target_byte_at(bits, 31 - i))
}

/// The value of a byte sequence read as a big-endian integer.
pub open spec fn be_value(bs: Seq<u8>) -> int
    decreases bs.len(),
{
    if bs.len() == 0 {
        0
    } else {
        be_value(bs.drop_last()) * 256 + bs.last()
    }
}

/// `256^k`.
pub open spec fn pow256(k: nat) -> int
    decreases k,
{
    if k == 0 {
        1
    } else {
        256 * pow256((k - 1) as nat)
    }
}

/// The `n` target bytes covering byte places `shift .. shift + n`, most
/// significant first.
pub open spec fn window_bytes(bits: u32, n: nat, shift: int) -> Seq<u8> {
    Seq::new(n, |i: int| target_byte_at(bits, shift + n - 1 - i))
}

proof fn lemma_shifted_mantissa_small(bits: u32)
    requires
        compact_mantissa(bits) <= 0x007F_FFFF,
    ensures
        shifted_mantissa(bits) <= 0x007F_FFFF,
{
    let man = compact_mantissa(bits);
    assert(man >> 24 <= man && man >> 16 <= man && man >> 8 <= man) by (bit_vector);
}

/// A window lying entirely above the mantissa's bytes holds value zero.
proof fn lemma_window_zero_above(bits: u32, n: nat, shift: int)
    requires
        compact_mantissa(bits) > 0x007F_FFFF || mantissa_place(bits) + 3 <= shift,
    ensures
        be_value(window_bytes(bits, n, shift)) == 0,
    decreases n,
{
    if n > 0 {
        let w = window_bytes(bits, n, shift);
        assert(w.drop_last() =~= window_bytes(bits, (n - 1) as nat, shift + 1));
        assert(w.last() == target_byte_at(bits, shift));
        lemma_window_zero_above(bits, (n - 1) as nat, shift + 1);
    }
}

/// A window lying entirely below the mantissa's bytes holds value zero.
proof fn lemma_window_zero_below(bits: u32, n: nat, shift: int)
    requires
        0 <= shift,
        shift + n <= mantissa_place(bits),
    ensures
        be_value(window_bytes(bits, n, shift)) == 0,
    decreases n,
{
    if n > 0 {
        let w = window_bytes(bits, n, shift);
        assert(w.drop_last() =~= window_bytes(bits, (n - 1) as nat, shift + 1));
        assert(w.last() == target_byte_at(bits, shift));
        lemma_window_zero_below(bits, (n - 1) as nat, shift + 1);
    }
}

/// A window starting two places above the mantissa's base holds its top
/// byte.
proof fn lemma_window_hi(bits: u32, n: nat, shift: int)
    requires
        compact_mantissa(bits) <= 0x007F_FFFF,
        shift == mantissa_place(bits) + 2,
        n >= 1,
    ensures
        be_value(window_bytes(bits, n, shift)) == shifted_mantissa(bits) >> 16,
{
    let m = shifted_mantissa(bits);
    let w = window_bytes(bits, n, shift);
    assert(w.drop_last() =~= window_bytes(bits, (n - 1) as nat, shift + 1));
    assert(w.last() == target_byte_at(bits, shift));
    lemma_window_zero_above(bits, (n - 1) as nat, shift + 1);
    lemma_shifted_mantissa_small(bits);
    assert(((m >> 16) & 0xFF) < 256) by (bit_vector);
    assert(m <= 0x007F_FFFF ==> (m >> 16) & 0xFF == m >> 16) by (bit_vector);
}

/// A window starting one place above the mantissa's base holds its two top
/// bytes.
proof fn lemma_window_mid(bits: u32, n: nat, shift: int)
    requires
        compact_mantissa(bits) <= 0x007F_FFFF,
        shift == mantissa_place(bits) + 1,
        n >= 2,
    ensures
        be_value(window_bytes(bits, n, shift)) == shifted_mantissa(bits) >> 8,
{
    let m = shifted_mantissa(bits);
    let w = window_bytes(bits, n, shift);
    assert(w.drop_last() =~= window_bytes(bits, (n - 1) as nat, shift + 1));
    assert(w.last() == target_byte_at(bits, shift));
    lemma_window_hi(bits, (n - 1) as nat, shift + 1);
    assert(((m >> 8) & 0xFF) < 256) by (bit_vector);
    assert(m >> 8 == (m >> 16) * 256 + ((m >> 8) & 0xFF)) by (bit_vector);
}

/// A window reaching from at or below the mantissa's base up past its top
/// byte holds the mantissa at place `base - shift`.
proof fn lemma_window_value(bits: u32, n: nat, shift: int)
    requires
        compact_mantissa(bits) <= 0x007F_FFFF,
        0 <= shift <= mantissa_place(bits),
        mantissa_place(bits) + 3 <= shift + n,
    ensures
        be_value(window_bytes(bits, n, shift)) == shifted_mantissa(bits) * pow256(
            (mantissa_place(bits) - shift) as nat,
        ),
    decreases n,
{
    let base = mantissa_place(bits);
    let m = shifted_mantissa(bits);
    let w = window_bytes(bits, n, shift);
    assert(w.drop_last() =~= window_bytes(bits, (n - 1) as nat, shift + 1));
    assert(w.last() == target_byte_at(bits, shift));
    if shift < base {
        lemma_window_value(bits, (n - 1) as nat, shift + 1);
        let k = (base - shift - 1) as nat;
        assert(pow256((base - shift) as nat) == 256 * pow256(k));
        assert((m * pow256(k)) * 256 == m * (256 * pow256(k))) by (nonlinear_arith);
    } else {
        lemma_window_mid(bits, (n - 1) as nat, shift + 1);
        assert((m & 0xFF) < 256) by (bit_vector);
        assert(m == (m >> 8) * 256 + (m & 0xFF)) by (bit_vector);
    }
}

/// For exponents that keep every mantissa byte inside the 32-byte width,
/// the expanded bytes read big-endian equal the shifted mantissa placed at
/// `256 ^ (exponent - 3)`.
pub proof fn lemma_target_value(bits: u32)
    requires
        compact_mantissa(bits) <= 0x007F_FFFF,
        mantissa_place(bits) + 3 <= 32,
    ensures
        be_value(target_bytes(bits)) == shifted_mantissa(bits) * pow256(
            mantissa_place(bits) as nat,
        ),
{
    assert(target_bytes(bits) =~= window_bytes(bits, 32, 0));
    lemma_window_value(bits, 32, 0);
}

/// With the mantissa's sign bit set, or the mantissa shifted entirely above
/// the 32-byte width, the expansion is zero.
pub proof fn lemma_target_value_zero(bits: u32)
    requires
        compact_mantissa(bits) > 0x007F_FFFF || mantissa_place(bits) >= 32,
    ensures
        be_value(target_bytes(bits)) == 0,
{
    assert(target_bytes(bits) =~= window_bytes(bits, 32, 0));
    if compact_mantissa(bits) > 0x007F_FFFF {
        lemma_window_zero_above(bits, 32, 0);
    } else {
        lemma_window_zero_below(bits, 32, 0);
    }
}

/// Expands the compact difficulty-bits field to its 32 big-endian bytes.
pub fn expand_target(bits: u32) -> (r: Vec<u8>)
    ensures
        r@ == target_bytes(bits),
        r@.len() == 32,
{
    let mut out: Vec<u8> = Vec::new();
    let mut i: usize = 0;
    while i < 32
        invariant
            out@.len() == i,
            0 <= i <= 32,
            forall|j: int| 0 <= j < i ==> out@[j] == 0u8,
        decreases 32 - i,
    {
        out.push(0u8);
        i = i + 1;
    }
    let e = bits >> 24;
    let man = bits & 0x00FF_FFFF;
    if man <= 0x007F_FFFF {
        let m: u32 = if e == 0 {
            man >> 24
        } else if e == 1 {
            man >> 16
        } else if e == 2 {
            man >> 8
        } else {
            man
        };
        let base: u32 = if e <= 3 {
            0
        } else {
            e - 3
        };
        if base < 32 {
            out.set((31 - base) as usize, (m & 0xFF) as u8);
        }
        if base + 1 < 32 {
            out.set((31 - (base + 1)) as usize, ((m >> 8) & 0xFF) as u8);
        }
        if base + 2 < 32 {
            out.set((31 - (base + 2)) as usize, ((m >> 16) & 0xFF) as u8);
        }
    }
    proof {
        assert(out@ =~= target_bytes(bits));
    }
    out
}

} // verus!
