//! Capability flags reported on the capabilities characteristic.

use vstd::prelude::*;

verus! {

/// Device can identify itself (e.g., blink LED).
pub const IDENTIFY: u8 = 0x01;

} // verus!
