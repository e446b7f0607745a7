//! Packet queues for accelerator work submission, and what a runtime
//! decides around the code that it generates for the accelerator.
//!
//! A producer writes fixed-size packets (kernel launches, agent calls and
//! barriers) into a power-of-two ring of slots and rings a doorbell signal;
//! a consumer drains the ring in submission order, signals completion and
//! hands each slot back to the producer. The modules `signal`, `header`,
//! `packet`, `wire`, `ring`, `queue` and `soft` hold the queue, and `laws`
//! what holds of every ring.
//!
//! Every value in this crate is exclusively owned by whoever drives it, so
//! each operation is a plain state transition with an exact contract. The
//! memory orderings that the protocol asks for are carried through the
//! interface so that an embedding that shares a queue between threads knows
//! which fence each step stands for.
//!
//! The other modules read the attributes of shader globals and roots
//! (`meta`, `spirv`, `attrs`, `closure`, `global_attrs`), choose the stubs
//! that replace what device code cannot call (`stubbing`), read the launch
//! requirements off a linked object (`codegen`), and decide what the worker
//! that generates code does next (`worker`). They work on plain values; the
//! embedding converts from and to the compiler's own.

pub mod attrs;
pub mod closure;
pub mod codegen;
pub mod global_attrs;
pub mod header;
pub mod kernel_id;
pub mod laws;
pub mod meta;
pub mod order;
pub mod packet;
pub mod queue;
pub mod ring;
pub mod signal;
pub mod soft;
pub mod spirv;
pub mod stubbing;
pub mod wire;
pub mod worker;
