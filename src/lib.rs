//! Client for OTRSP, the plain-text command protocol of SO2R antenna and audio
//! switches: the command codec, the decisions of the task that owns the serial
//! link, and the values that describe a connected switch.

pub mod builder;
pub mod device;
pub mod error;
pub mod event;
pub mod link;
pub mod protocol;
pub mod switch;
pub mod text;
pub mod transport;
pub mod types;

pub use builder::OtrspBuilder;
pub use error::Error;
pub use event::SwitchEvent;
pub use switch::{SwitchCapabilities, SwitchInfo};
pub use transport::MockState;
pub use types::{Radio, RxMode};
