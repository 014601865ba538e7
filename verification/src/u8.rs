//! Arithmetic on 8-bit unsigned integers that reports overflow.

use vstd::prelude::*;

verus! {

/// `x + y` reduced to 8 bits, and whether the sum was too large for them.
pub fn add_with_overflow(x: u8, y: u8) -> (r: (u8, bool))
    ensures
        r.0 == (x + y) % 256,
        r.1 == (x + y > u8::MAX),
{
    let wide: u16 = x as u16 + y as u16;
    ((wide % 256) as u8, wide > 255)
}

/// `x - y` reduced to 8 bits, and whether the difference was negative.
pub fn sub_with_overflow(x: u8, y: u8) -> (r: (u8, bool))
    ensures
        r.0 == (x - y) % 256,
        r.1 == (x - y < 0),
{
    if x >= y {
        (x - y, false)
    } else {
        let wide: u16 = 256 + x as u16 - y as u16;
        (wide as u8, true)
    }
}

/// `x * y` reduced to 8 bits, and whether the product was too large for
/// them.
pub fn mul_with_overflow(x: u8, y: u8) -> (r: (u8, bool))
    ensures
        r.0 == (x * y) % 256,
        r.1 == (x * y > u8::MAX),
{
    assert(x * y <= 255 * 255) by (nonlinear_arith)
        requires
            0 <= x <= 255,
            0 <= y <= 255,
    ;
    let wide: u16 = x as u16 * y as u16;
    ((wide % 256) as u8, wide > 255)
}

} // verus!
