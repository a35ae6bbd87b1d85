//! Core logic of the AOOSTAR LCD tool suite: the shared-memory sensor
//! snapshot protocol, the `label: value` payload format, the launcher's
//! configuration and control decisions, and the LCD wire framing.
pub mod le_bytes;
pub mod stats;
pub mod slot;
pub mod text;
pub mod sensor_values;
pub mod payload;
pub mod launcher_config;
pub mod display;
pub mod power;
pub mod device;
pub mod paths;
pub mod process;
pub mod lcd;
pub mod panel;
pub mod shm;
pub mod tray;
pub mod logging;

