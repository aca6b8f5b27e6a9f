//! Targets without a supported network tool have no interfaces to offer.

use vstd::prelude::*;

use crate::types::Interface;

verus! {

/// No interfaces on an unsupported target.
pub fn list_interfaces() -> (res: Vec<Interface>)
    ensures
        res@.len() == 0,
{
    Vec::new()
}

} // verus!
