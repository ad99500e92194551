//! Process-wide protocol constants and the plain value types that cross the
//! session boundary.

use vstd::prelude::*;

verus! {

/// Organization segment of every subprotocol token.
pub const PROTOCOL_ORGANIZATION: &'static str = "spacecoffee";

/// Project segment of every subprotocol token.
pub const PROTOCOL_PROJECT: &'static str = "blimp";

/// The protocol version this build speaks.
pub const PROTOCOL_VERSION: u16 = 1;

/// Values subscribed by the visualization software.
#[derive(Debug, Clone, Copy, PartialEq, Eq, Structural)]
pub struct VizInterest {
    pub motors: bool,
    pub servos: bool,
    pub sensors: bool,
}

impl VizInterest {
    /// A fresh interest set with every subscription switched off.
    pub fn new() -> (r: Self)
        ensures
            !r.motors,
            !r.servos,
            !r.sensors,
    {
        Self { motors: false, servos: false, sensors: false }
    }
}

} // verus!
