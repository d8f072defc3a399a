use vstd::prelude::*;

verus! {

/// The single error kind of the adapter: allocator exhaustion, out-of-bounds
/// guest-memory access during decoding, and guest traps surfaced by the
/// executor all come back as a runtime failure, untouched, to the caller.
#[derive(Clone, Copy, Debug, PartialEq, Eq, Structural)]
pub enum RuntimeError {
    Runtime,
}

} // verus!
