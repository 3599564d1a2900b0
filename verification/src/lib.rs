//! Coordination fabric for a multi-process network protocol scenario:
//! a shared-store rendezvous model (FIFO handoff queues and arrival
//! barriers), a deterministic identity generator, the role scripts'
//! decision logic as verified state machines, and interface-address
//! selection, all stated and proved over mathematical models.
pub mod identity;
pub mod net;
pub mod scenario;
pub mod store;
