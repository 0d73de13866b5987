//! Value marshalling between an embedded script engine and a host, with the
//! per-thread lifecycle of the engine instance.
//!
//! Engine numbers are doubles; the library holds them as their IEEE-754 bit
//! patterns (`u64`) and decides on those bits which host number they become.

pub mod number;
pub mod value;
pub mod marshal;
pub mod instance;
pub mod call;
