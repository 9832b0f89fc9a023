//! Names of the files around an atomic write.
//!
//! A save is written to `{path}.tmp` and renamed over `{path}`; before that
//! the current file is copied to `{path}.bak`; a file that cannot be read is
//! set aside as `{path}.corrupt-{suffix}`. The writes themselves are file
//! input/output and live with the program.

use vstd::prelude::*;

use crate::text::{join, join3};

verus! {

/// Suffix of the temporary file.
pub const TMP_SUFFIX: &'static str = ".tmp";

/// Suffix of the backup file.
pub const BAK_SUFFIX: &'static str = ".bak";

/// `{path}.tmp`.
pub fn tmp_path(path: &str) -> (r: String)
    ensures
        r@ == path@ + ".tmp"@,
{
    join(path, TMP_SUFFIX)
}

/// `{path}.bak`.
pub fn bak_path(path: &str) -> (r: String)
    ensures
        r@ == path@ + ".bak"@,
{
    join(path, BAK_SUFFIX)
}

/// `{path}.corrupt-{suffix}`.
pub fn corrupt_path(path: &str, suffix: &str) -> (r: String)
    ensures
        r@ == path@ + ".corrupt-"@ + suffix@,
{
    join3(path, ".corrupt-", suffix)
}

} // verus!
