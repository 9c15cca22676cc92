//! Random identifiers, drawn by the `uuid` crate.

use vstd::prelude::*;

verus! {

/// A fresh random identifier from `uuid::Uuid::new_v4`, as its 128-bit
/// value (`as_u128`). The value is random; of every outcome the source shows
/// only that the version bits read 4 and the variant bits read 0b10. The call
/// panics where the operating system cannot supply random bytes.
#[verifier::external_body]
pub(crate) fn new_uuid() -> (r: u128)
    ensures
        (r >> 76u128) & 0xf == 4,
        (r >> 62u128) & 0x3 == 2,
{
    uuid::Uuid::new_v4().as_u128()
}

} // verus!
