//! A hardware abstraction layer for thermal management: a canonical model of
//! discovered temperature sensors, fan-speed sensors and controllable outputs,
//! an index that makes them addressable by a stable identifier, and two
//! backends (a native sensor-library tree and a remote monitoring server).
pub mod model;
pub mod index;
pub mod identity;
pub mod linux;
pub mod windows;
pub mod state;
