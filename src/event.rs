use vstd::prelude::*;

use crate::types::{Radio, RxMode};

verus! {

/// Events emitted by the library when commands succeed or the link changes.
///
/// These are library-generated state transitions (not device-originated data,
/// since OTRSP devices send no unsolicited messages).
#[derive(Debug, Clone, Copy, PartialEq, Eq, Structural)]
pub enum SwitchEvent {
    /// TX routing changed to the specified radio.
    TxChanged { radio: Radio },
    /// RX audio routing changed.
    RxChanged { radio: Radio, mode: RxMode },
    /// AUX output changed.
    AuxChanged { port: u8, value: u8 },
    /// Connected to the device.
    Connected,
    /// Disconnected from the device.
    Disconnected,
}

} // verus!
