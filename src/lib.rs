//! Verified core of a capability-RPC bridge between a host and a sandboxed
//! guest over a pair of byte pipes: the guest's non-blocking stream adapters,
//! the round-robin pool of echo handlers, the pipelined stress harness with
//! its seeded shuffle, and the host's run as a state machine.
pub mod harness;
pub mod orchestrator;
pub mod pool;
pub mod shuffle;
pub mod stream;
