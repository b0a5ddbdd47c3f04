//! Core of a small access-point firmware: a cooperative two-task scheduler,
//! the lifecycle of a network stack with a fixed socket-slot table, and a TCP
//! socket resource bounded by an idle timeout. Hardware bring-up (clocks,
//! radio, pins) stays outside; the model here is driven by a simulated clock
//! advanced one second at a time.

pub mod boot;
pub mod net;
pub mod sched;
pub mod socket;
