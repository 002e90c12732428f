//! Characteristic UUIDs of the Improv WiFi service, as 128-bit values.

use vstd::prelude::*;

verus! {

/// Current State characteristic: reports the provisioning state.
pub const CURRENT_STATE: u128 = 0x00467768_6228_2272_4663_277478268001;

/// Error State characteristic: reports error conditions.
pub const ERROR_STATE: u128 = 0x00467768_6228_2272_4663_277478268002;

/// RPC Command characteristic: receives commands from the client.
pub const RPC_COMMAND: u128 = 0x00467768_6228_2272_4663_277478268003;

/// RPC Result characteristic: sends responses to the client.
pub const RPC_RESULT: u128 = 0x00467768_6228_2272_4663_277478268004;

/// Capabilities characteristic: reports supported features.
pub const CAPABILITIES: u128 = 0x00467768_6228_2272_4663_277478268005;

} // verus!
