//! The logic of a thermostat gateway. Its core is the serial sensor
//! protocol: message framing, authenticated encryption keyed by device
//! identifiers, payload parsing and the enrollment state machine of a port.
//! Beside it stand the settings of the application and the texts that its
//! database, weather and web parts are made of. Nothing here performs input
//! or output.

pub mod api;
pub mod codec;
pub mod crypto;
pub mod dbman;
pub mod device;
pub mod error;
pub mod format;
pub mod frame;
pub mod handshake;
pub mod machine;
pub mod message;
pub mod reading;
pub mod sensors;
pub mod settings;
pub mod text;
pub mod weather;
