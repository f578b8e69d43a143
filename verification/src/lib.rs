//! Runtime substrate of a userspace TCP/IP stack: what protocol code needs
//! from the world around it, and nothing of the protocols themselves.
//!
//! - [`timer`]: a clock that moves only when told, and the queue of
//!   deadlines that hang on it; [`laws`] holds what is proved of it.
//! - [`runtime`]: the capability that protocol code programs against.
//! - [`test_helpers`]: the simulated backend, for tests that must run the
//!   same way every time.
//! - [`libos`]: the hardware backend, for a kernel-bypass network port.
//! - [`engine`]: the protocol stack's hold on its runtime.
//! - [`time`], [`addr`], [`options`], [`rng`], [`error`]: the values that
//!   pass between them.

pub mod addr;
pub mod engine;
pub mod error;
pub mod laws;
pub mod libos;
pub mod options;
pub mod rng;
pub mod runtime;
pub mod test_helpers;
pub mod time;
pub mod timer;
