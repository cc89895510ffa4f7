//! A verified multiplexing core for tunnelling many UDP flows over one
//! unreliable-datagram transport session.
//!
//! Each logical UDP conversation ("flow") is distinguished by a 16-bit id
//! prefixed to every tunnelled datagram.  This crate holds the parts with
//! real invariants: the datagram framing format, the flow-id allocator, the
//! server- and client-side registries, and the per-datagram decisions of the
//! pump loops.  Socket and transport I/O lives outside the library and hands
//! plain values in and out.

pub mod addr;
pub mod args;
pub mod assoc;
pub mod client;
pub mod frame;
pub mod id_gen;
pub mod laws;
pub mod server;
