//! Calling-convention adapter for invoking exported functions of a sandboxed
//! guest module: host-side byte buffers are encoded into the guest's flat
//! 32-bit-integer argument list, and the guest's raw return value, together
//! with bounds-checked reads of its linear memory, is decoded back into a
//! host-side scalar and/or buffer result.

pub mod bytes;
pub mod cell;
pub mod decode;
pub mod encode;
pub mod error;
pub mod invoke;
pub mod memory;
