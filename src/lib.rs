//! Blocking master-mode I2C bus driver logic: bus timing configuration,
//! the framing of read/write operations into bus commands, and the
//! transaction engine that sequences those commands against the
//! controller's status flags under per-phase timeout budgets.
pub mod engine;
pub mod error;
pub mod frame;
pub mod timing;
