//! Status lights for monitored services.
//!
//! The crate keeps, for each monitored unit, the colour that its light on an
//! RGBW strip should show, resolves unit states to colours through a
//! configuration, and serialises the lights into the frame that is written to
//! the strip's device.

pub mod color;
pub mod config;
pub mod led;
pub mod router;
pub mod state;
pub mod strip;
pub mod systemd;
pub mod table;
pub mod text;

pub use color::{Color, ColorFormatError};
pub use config::Config;
pub use led::{Led, LedCollection, LedError};
pub use state::ServiceState;
pub use strip::Strip;
pub use systemd::ServiceEvent;
