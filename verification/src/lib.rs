//! Decision logic of the system-monitor companion process: the length-prefixed
//! wire framing, the host/companion session protocol, and the arithmetic and
//! selection rules behind the CPU, memory and GPU samples.

pub mod cpu;
pub mod frame;
pub mod gpu;
pub mod session;
pub mod text;
