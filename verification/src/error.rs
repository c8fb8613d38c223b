//! The guest-side error taxonomy.
//!
//! Every failure a dispatched call can produce is one of a closed set of
//! variants, so contracts can say exactly which error an input yields.
//! The human-readable text the wire protocol carries is rendered from the
//! variant by [`GuestError::message`].

use vstd::prelude::*;

verus! {

/// A failure produced on the guest side of the call boundary.
#[derive(Clone, Debug, PartialEq, Eq)]
pub enum GuestError {
    /// The dispatched call named an operation with no registered entry.
    /// Carries the requested name verbatim.
    FunctionNotFound(Vec<u8>),
    /// The parameters of a call did not match the registered signature
    /// (wrong count or wrong type tags).
    InvalidParameters,
    /// `Exec` was requested while no script has been compiled.
    NotInitialized,
    /// Engine setup or script compilation failed; carries the engine's
    /// descriptive message.
    CompileFailed(Vec<u8>),
    /// A fresh executable form could not be instantiated from the stored
    /// compiled representation.
    InstantiateFailed,
    /// The script ran but failed, or did not yield a 32-bit integer.
    ExecutionFailed,
}

impl GuestError {
    /// The wire error code: function-not-found is distinguished from every
    /// other guest-side failure, which all share one code.
    pub open spec fn is_not_found(self) -> bool {
        self is FunctionNotFound
    }

    /// Render the descriptive message this error carries, as UTF-8 bytes.
    pub fn message(&self) -> (m: Vec<u8>)
        ensures
            m@ == self.message_spec(),
    {
        match self {
            GuestError::FunctionNotFound(name) => name.clone(),
            GuestError::InvalidParameters => text_to_bytes("Invalid parameters passed to Eval"),
            GuestError::NotInitialized => text_to_bytes("Engine not initialized. Call Init first."),
            GuestError::CompileFailed(msg) => msg.clone(),
            GuestError::InstantiateFailed => text_to_bytes(
                "Failed to instantiate script from stencil",
            ),
            GuestError::ExecutionFailed => text_to_bytes("Script execution failed"),
        }
    }

    /// What [`GuestError::message`] returns, per variant.
    pub open spec fn message_spec(self) -> Seq<u8> {
        match self {
            GuestError::FunctionNotFound(name) => name@,
            GuestError::InvalidParameters => "Invalid parameters passed to Eval"@.map_values(
                |c: char| c as u8,
            ),
            GuestError::NotInitialized => "Engine not initialized. Call Init first."@.map_values(
                |c: char| c as u8,
            ),
            GuestError::CompileFailed(msg) => msg@,
            GuestError::InstantiateFailed => "Failed to instantiate script from stencil"@.map_values(
                |c: char| c as u8,
            ),
            GuestError::ExecutionFailed => "Script execution failed"@.map_values(|c: char| c as u8),
        }
    }
}

/// Turn an ASCII string literal into its bytes.
pub fn text_to_bytes(s: &str) -> (r: Vec<u8>)
    ensures
        r@ == s@.map_values(|c: char| c as u8),
{
    let mut r: Vec<u8> = Vec::new();
    let n = s.unicode_len();
    let mut i: usize = 0;
    while i < n
        invariant
            i <= n,
            n == s@.len(),
            r@ =~= s@.subrange(0, i as int).map_values(|c: char| c as u8),
        decreases n - i,
    {
        let c = s.get_char(i);
        r.push(c as u8);
        proof {
            assert(s@.subrange(0, i + 1 as int) =~= s@.subrange(0, i as int).push(s@[i as int]));
            assert(r@ =~= s@.subrange(0, i + 1 as int).map_values(|c: char| c as u8));
        }
        i += 1;
    }
    proof {
        assert(s@.subrange(0, s@.len() as int) =~= s@);
    }
    r
}

} // verus!
