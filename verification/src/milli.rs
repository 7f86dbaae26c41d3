//! Fixed-point numbers with three decimal places.
//!
//! The protocol carries a few fractional settings (corner roundness, the
//! annotation size factor). This crate models them exactly as thousandths,
//! which the wire format prints as a decimal number with three fractional
//! digits and reads back without loss.

use vstd::prelude::*;

verus! {

/// A non-negative fixed-point value counted in thousandths:
/// `Milli(1500)` is 1.5.
#[derive(Debug, Clone, Copy, PartialEq, Eq, Structural)]
pub struct Milli(pub u32);

impl Milli {
    /// The value in thousandths.
    pub fn thousandths(&self) -> (r: u32)
        ensures
            r == self.0,
    {
        self.0
    }
}

} // verus!
