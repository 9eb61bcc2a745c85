//! Virtual consoles.

use vstd::prelude::*;

verus! {

/// A number that no console has.
#[derive(Debug, Clone, Copy, PartialEq, Eq, Structural)]
pub enum VtError {
    Invalid(u32),
}

/// Consoles are numbered from 1 to 63.
pub fn check_vt(vt: u32) -> (r: Result<(), VtError>)
    ensures
        r == if 1 <= vt <= 63 {
            Ok::<(), VtError>(())
        } else {
            Err::<(), VtError>(VtError::Invalid(vt))
        },
{
    if vt == 0 || vt > 63 {
        Err(VtError::Invalid(vt))
    } else {
        Ok(())
    }
}

} // verus!
