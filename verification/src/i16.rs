//! Arithmetic on 16-bit signed integers that reports overflow, and their
//! byte order.

use vstd::prelude::*;

verus! {

/// The signed 16-bit value that `v` wraps around to.
pub open spec fn wrapped(v: int) -> int {
    (v + 32768) % 65536 - 32768
}

/// A value in range, given with `turns` whole turns of 65536 added, wraps
/// around to itself.
proof fn lemma_wrapped(v: int, turns: int)
    requires
        i16::MIN <= v <= i16::MAX,
    ensures
        wrapped(v + turns * 65536) == v,
{
    vstd::arithmetic::div_mod::lemma_fundamental_div_mod_converse(
        v + 32768 + turns * 65536,
        65536,
        turns,
        v + 32768,
    );
}

/// Brings `v` into the signed 16-bit range by whole turns of 65536.
fn wrap(v: i64) -> (r: i16)
    requires
        -0x1_0000_0000 <= v <= 0x1_0000_0000,
    ensures
        r == wrapped(v as int),
{
    let shifted: i64 = v + 32768 + 0x1_0000_0000;
    let low: i64 = shifted % 65536;
    let r: i64 = low - 32768;
    proof {
        let turns = shifted as int / 65536 - 65536;
        vstd::arithmetic::div_mod::lemma_fundamental_div_mod(shifted as int, 65536);
        assert(v as int == r as int + turns * 65536) by (nonlinear_arith)
            requires
                shifted == v + 32768 + 0x1_0000_0000,
                shifted == 65536 * (shifted as int / 65536) + low,
                r == low - 32768,
                turns == shifted as int / 65536 - 65536,
        ;
        lemma_wrapped(r as int, turns);
    }
    r as i16
}

/// `x + y` wrapped around to 16 bits, and whether the sum was out of range.
pub fn add_with_overflow(x: i16, y: i16) -> (r: (i16, bool))
    ensures
        r.0 == wrapped(x + y),
        r.1 == (x + y > i16::MAX || x + y < i16::MIN),
{
    let wide: i64 = x as i64 + y as i64;
    (wrap(wide), wide > 32767 || wide < -32768)
}

/// `x - y` wrapped around to 16 bits, and whether the difference was out of
/// range.
pub fn sub_with_overflow(x: i16, y: i16) -> (r: (i16, bool))
    ensures
        r.0 == wrapped(x - y),
        r.1 == (x - y > i16::MAX || x - y < i16::MIN),
{
    let wide: i64 = x as i64 - y as i64;
    (wrap(wide), wide > 32767 || wide < -32768)
}

/// `x * y` wrapped around to 16 bits, and whether the product was out of
/// range.
pub fn mul_with_overflow(x: i16, y: i16) -> (r: (i16, bool))
    ensures
        r.0 == wrapped(x * y),
        r.1 == (x * y > i16::MAX || x * y < i16::MIN),
{
    assert(-0x4000_0000 <= x * y <= 0x4000_0000) by (nonlinear_arith)
        requires
            -32768 <= x <= 32767,
            -32768 <= y <= 32767,
    ;
    let wide: i64 = x as i64 * y as i64;
    (wrap(wide), wide > 32767 || wide < -32768)
}

/// The 16-bit value with its two bytes exchanged.
pub open spec fn swapped_bytes(x: u16) -> u16 {
    ((x % 256) * 256 + x / 256) as u16
}

/// Exchanges the two bytes of `x`.
pub fn bswap(x: u16) -> (r: u16)
    ensures
        r == swapped_bytes(x),
        swapped_bytes(r) == x,
{
    (x % 256) * 256 + x / 256
}

/// `to_be` of std's `u16`: the value itself where the target stores the high
/// byte first, the value with its bytes exchanged where it stores the low
/// byte first.
#[verifier::external_body]
fn target_order(x: u16) -> (r: u16)
    ensures
        r == x || r == swapped_bytes(x),
{
    x.to_be()
}

/// Whether the target stores the high byte first.
fn high_byte_first() -> bool {
    target_order(1) == 1
}

/// The bit pattern of `x` as an unsigned value.
pub open spec fn bits(x: i16) -> u16 {
    if x < 0 {
        (x + 65536) as u16
    } else {
        x as u16
    }
}

/// The signed value with the bit pattern `x`.
pub open spec fn from_bits(x: u16) -> i16 {
    if x >= 32768 {
        (x - 65536) as i16
    } else {
        x as i16
    }
}

/// `x` with its two bytes exchanged.
pub open spec fn swapped(x: i16) -> i16 {
    from_bits(swapped_bytes(bits(x)))
}

/// Exchanges the two bytes of the signed value `x`.
fn swap_signed(x: i16) -> (r: i16)
    ensures
        r == swapped(x),
{
    let wide: i32 = x as i32;
    let u: u16 = if wide < 0 {
        (wide + 65536) as u16
    } else {
        wide as u16
    };
    let s: u16 = bswap(u);
    if s >= 32768 {
        (s as i32 - 65536) as i16
    } else {
        s as i16
    }
}

/// Converts `x` to high byte first on a target that stores the high byte
/// first or not, as `high_byte_first` says: only a target that stores the
/// low byte first has the bytes exchanged.
pub fn to_be_on(high_byte_first: bool, x: i16) -> (r: i16)
    ensures
        r == if high_byte_first {
            x
        } else {
            swapped(x)
        },
{
    if high_byte_first {
        x
    } else {
        swap_signed(x)
    }
}

/// Converts `x` to low byte first on a target that stores the high byte
/// first or not, as `high_byte_first` says: only a target that stores the
/// high byte first has the bytes exchanged.
pub fn to_le_on(high_byte_first: bool, x: i16) -> (r: i16)
    ensures
        r == if high_byte_first {
            swapped(x)
        } else {
            x
        },
{
    if high_byte_first {
        swap_signed(x)
    } else {
        x
    }
}

/// Converts `x` from the target's byte order to high byte first: `x` itself
/// or `x` with its bytes exchanged, as the target requires.
pub fn to_be(x: i16) -> (r: i16)
    ensures
        r == x || r == swapped(x),
{
    to_be_on(high_byte_first(), x)
}

/// Converts `x` from the target's byte order to low byte first: `x` itself
/// or `x` with its bytes exchanged, as the target requires.
pub fn to_le(x: i16) -> (r: i16)
    ensures
        r == x || r == swapped(x),
{
    to_le_on(high_byte_first(), x)
}

} // verus!
