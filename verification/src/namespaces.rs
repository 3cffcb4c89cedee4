//! User-namespace identity mappings.
//!
//! Provisioning runs inside a fresh user namespace with a single UID/GID
//! range mapping, so that archive extraction can record root ownership
//! without real root privilege on the host. This module holds the mapping
//! data and its invariant; creating the namespace itself is a syscall and
//! stays outside the library.

use vstd::prelude::*;

verus! {

/// One contiguous UID/GID range mapping entry for a user namespace:
/// ids `inside .. inside + len` in the namespace map to
/// ids `outside .. outside + len` on the host.
#[derive(Clone, Copy, PartialEq, Eq, Structural, Debug)]
pub struct IdMapping {
    pub inside: u32,
    pub outside: u32,
    pub len: u32,
}

impl IdMapping {
    /// A mapping is well formed when it covers at least one id.
    pub open spec fn well_formed(&self) -> bool {
        self.len >= 1
    }
}

/// The single mapping provisioning uses: the given host uid appears as
/// uid 0 inside the namespace, and no other id is mapped.
pub fn root_mapping(uid: u32) -> (m: IdMapping)
    ensures
        m.inside == 0,
        m.outside == uid,
        m.len == 1,
        m.well_formed(),
{
    IdMapping { inside: 0, outside: uid, len: 1 }
}

/// Relies on users::get_current_uid: returns the real uid of the calling
/// process. The value depends on the environment, so nothing is promised
/// of it.
#[verifier::external_body]
fn current_uid() -> u32 {
    users::get_current_uid()
}

/// The mapping for the calling process: its own real uid appears as uid 0
/// inside the namespace.
pub fn current_mapping() -> (m: IdMapping)
    ensures
        m.inside == 0,
        m.len == 1,
        m.well_formed(),
{
    let uid = current_uid();
    root_mapping(uid)
}

} // verus!
