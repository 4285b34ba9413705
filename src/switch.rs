use vstd::prelude::*;

verus! {

/// Information about a connected SO2R switch device.
pub struct SwitchInfo {
    /// Device name (from the `?NAME` query, or `Unknown`).
    pub name: String,
    /// Serial port path, if connected via serial.
    pub port: Option<String>,
}

/// Capabilities of the SO2R switch device.
#[derive(Debug, Clone, Copy, PartialEq, Eq, Structural)]
pub struct SwitchCapabilities {
    /// Whether the device supports stereo RX mode.
    pub stereo: bool,
    /// Whether the device supports reverse stereo RX mode.
    pub reverse_stereo: bool,
    /// Number of AUX ports (typically 2).
    pub aux_ports: u8,
}

} // verus!
