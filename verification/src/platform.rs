//! Checks on the addresses that OpenGL loaders hand back.

use vstd::prelude::*;

verus! {

/// Whether an address returned by `wglGetProcAddress` names a function: the
/// loader reports failure with null, with 1, 2 or 3, and with all bits set.
pub fn is_wgl_ptr_valid(addr: usize) -> (r: bool)
    ensures
        r == (addr != 0 && addr > 3 && addr != usize::MAX),
{
    addr != 0 && addr > 3 && addr != usize::MAX
}

} // verus!
