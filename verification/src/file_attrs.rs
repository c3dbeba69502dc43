//! What a name tells of a file.

use vstd::prelude::*;

verus! {

/// Whether `p` names a hidden file: it does where it begins with a dot.
pub fn hidden(p: &[u8]) -> (yes: bool)
    ensures
        yes == (p@.len() > 0 && p@[0] == 46u8),
{
    p.len() > 0 && p[0] == 46u8
}

} // verus!
