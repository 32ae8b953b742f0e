//! A coroutine-based hardware-verification runtime.
//!
//! A digital-logic simulator drives a testbench through its callback
//! interface; this library multiplexes many test coroutines over that
//! single-threaded callback loop. Coroutines are explicit state machines
//! (the `Cort` trait) suspended on `Trigger`s: a timer, a signal edge, or
//! a phase of the simulation cycle. The callback multiplexer keeps at
//! most one simulator callback outstanding per event and fans a fired
//! callback out to every waiter; the executor drains its ready queue
//! until the testbench settles; named concurrent assertions arm on
//! triggers, sample signal histories and keep their accounting; the test
//! schedule runs declared tests back-to-back with a full teardown in
//! between. The backend itself stands behind the `SimIf` trait and is the
//! one unverified collaborator.

pub mod assertion;
pub mod executor;
pub mod index_map;
pub mod runtime;
pub mod signal;
pub mod sim_if;
pub mod testbench;
pub mod trigger;
pub mod utils;
pub mod value;
