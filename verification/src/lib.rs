//! Native-side proxy layer over a dynamic-value runtime.
//!
//! Native code manipulates values owned by a dynamic runtime only through
//! opaque integer handles.  This crate provides the owning proxy type
//! ([`value::Val`]) with its reference-counting lifetime protocol, argument
//! marshaling for calls across the boundary, a process-wide callback
//! registry, and coercions between native integer widths and the runtime's
//! wire representation.
//!
//! The runtime's own value table sits behind a fixed call surface.  Here that
//! surface is an explicit piece of state, [`runtime::Runtime`], threaded
//! through every operation, so that the ownership and dispatch protocol is
//! stated and proved over it.

pub mod coercion;
pub mod console;
pub mod laws;
pub mod registry;
pub mod runtime;
pub mod value;
