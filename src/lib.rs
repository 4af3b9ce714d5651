//! Bridges 16-pin I2C port expanders (PCA9555 and alike) to a publish/subscribe
//! bus: pin directions from a chip's options, pin-to-topic bindings, edge
//! detection for input pins, topic matching for output pins, and the shared
//! handle through which both workers of a chip reach its registers.

pub mod bridge;
pub mod cell;
pub mod listener;
pub mod mask;
pub mod msg;
pub mod pins;
pub mod poller;
pub mod util;
