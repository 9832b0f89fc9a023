//! Save version migration.
//!
//! The format is at version 1 and has no structural migration yet. Every
//! loaded save ends at the current version: an older one is brought up to
//! it, and one from a newer version keeps its data (unknown fields were
//! dropped when it was decoded) and is marked as the current version.

use vstd::prelude::*;

use crate::error::AppError;
use crate::save::schema::{Save, CURRENT_VERSION};

verus! {

/// Bring a loaded save to the current version. Never fails; every other
/// field is kept as it was.
pub fn migrate(save: &mut Save) -> (r: Result<(), AppError>)
    ensures
        r is Ok,
        final(save).version == CURRENT_VERSION,
        *final(save) == (Save { version: CURRENT_VERSION, ..*old(save) }),
{
    save.version = CURRENT_VERSION;
    Ok(())
}

} // verus!
