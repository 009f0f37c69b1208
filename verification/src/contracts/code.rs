//! Stable error codes.

use vstd::prelude::*;

verus! {

/// A delta for an archetype that was not in view.
pub const UNKNOWN_ARCHETYPE: u32 = 0x0001;

/// A column write behind the end of the column.
pub const OUT_OF_RANGE_ENTITY: u32 = 0x0002;

/// A payload that is not a whole number of elements.
pub const MISALIGNED_PAYLOAD: u32 = 0x0003;

/// Game logic panicked or ran out of instructions.
pub const GUEST_PANIC: u32 = 0x0004;

/// A delta over its byte or command budget.
pub const DELTA_BUDGET_EXCEEDED: u32 = 0x0005;

/// An entity despawned and spawned in the same tick.
pub const DUPLICATE_LIFECYCLE: u32 = 0x0006;

/// The numbers that the errors go by.
pub proof fn law_error_codes(code: u32)
    ensures
        code == UNKNOWN_ARCHETYPE <==> code == 1,
        code == OUT_OF_RANGE_ENTITY <==> code == 2,
        code == MISALIGNED_PAYLOAD <==> code == 3,
        code == GUEST_PANIC <==> code == 4,
        code == DELTA_BUDGET_EXCEEDED <==> code == 5,
        code == DUPLICATE_LIFECYCLE <==> code == 6,
{
}

} // verus!
