//! Guest sandbox runtime core: the call-marshalling envelope, the function
//! dispatch table, the script-engine lifecycle state machine, and the
//! fake-OS shim that stands in for kernel services inside the guest.
//!
//! The isolation substrate and the script engine itself are opaque
//! collaborators: the library decides, they act.  Every decision the guest
//! makes (which operation a call names, whether a compile is needed, what a
//! failed run reports) lives here and is verified; the foreign calls that
//! carry those decisions out live outside the library.

pub mod controller;
pub mod dispatch;
pub mod engine;
pub mod envelope;
pub mod error;
pub mod shim;

use vstd::prelude::*;

verus! {

/// Compare two byte slices for equality of contents.
pub fn bytes_eq(a: &[u8], b: &[u8]) -> (r: bool)
    ensures
        r <==> a@ == b@,
{
    if a.len() != b.len() {
        assert(a@.len() != b@.len());
        return false;
    }
    let mut i: usize = 0;
    while i < a.len()
        invariant
            i <= a.len(),
            a.len() == b.len(),
            forall|j: int| 0 <= j < i ==> a@[j] == b@[j],
        decreases a.len() - i,
    {
        if a[i] != b[i] {
            return false;
        }
        i += 1;
    }
    proof {
        assert(a@ =~= b@);
    }
    true
}

} // verus!
