//! Provisioning of an unprivileged toolbox root filesystem.
//!
//! The library plans and checks the steps of provisioning: validating the
//! requested source, building the user-namespace identity mapping, ordering
//! tar entries so that directory metadata survives extraction, and driving
//! the engine subprocess protocol that exports an OCI image as a tar archive.

pub mod acquire;
pub mod create;
pub mod extract;
mod namespaces;

pub use namespaces::IdMapping;
pub use namespaces::current_mapping;
pub use namespaces::root_mapping;
