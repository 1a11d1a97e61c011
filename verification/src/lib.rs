//! The mechanism layer of an OCI-compatible container runtime: assembling an
//! isolated root filesystem for a container's init process (escape-proof
//! mount-destination resolution, propagation configuration, the bind-mount
//! and pivot sequence, read-only enforcement) and delivering OS signals to a
//! container selected through persisted state.
//!
//! Filesystem paths are handled as byte strings and component sequences; the
//! callers at the process boundary convert to and from their path types.

pub mod errors;
pub mod kill;
pub mod paths;
pub mod rootfs;
pub mod signals;

use vstd::prelude::*;

verus! {

/// Byte-string equality.
pub fn bytes_eq(a: &[u8], b: &[u8]) -> (r: bool)
    ensures
        r == (a@ == b@),
{
    if a.len() != b.len() {
        proof {
            if a@ == b@ {
                assert(a@.len() == b@.len());
            }
        }
        return false;
    }
    let mut i: usize = 0;
    while i < a.len()
        invariant
            i <= a@.len(),
            a@.len() == b@.len(),
            forall|j: int| 0 <= j < i ==> a@[j] == b@[j],
        decreases a@.len() - i,
    {
        if a[i] != b[i] {
            proof {
                if a@ == b@ {
                    assert(a@[i as int] == b@[i as int]);
                }
            }
            return false;
        }
        i += 1;
    }
    proof {
        assert(a@ =~= b@);
    }
    true
}

/// One structured log record, as handed to the external logging collaborator.
pub struct LogEntry {
    /// The level name, lower case.
    pub level: String,
    /// The message text.
    pub msg: String,
    /// The timestamp, already rendered.
    pub time: String,
}

} // verus!
