//! Small shared value types.

use vstd::prelude::*;

verus! {

/// Byte order used when a caller hands multi-byte values across the native
/// boundary.  `Default` leaves the choice to the platform.
#[derive(Debug, Copy, Clone, PartialEq, Eq, Structural, Hash)]
pub enum ByteOrder {
    Default,
    BigEndian,
    LittleEndian,
}

impl Default for ByteOrder {
    /// The platform's own choice of byte order.
    fn default() -> (r: Self)
        ensures
            r == ByteOrder::Default,
    {
        ByteOrder::Default
    }
}

} // verus!
