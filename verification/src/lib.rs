//! Synchronization core for a local directory of installable content archives
//! ("resources") kept in step with a remote catalog.
//!
//! The library models resources and catalogs, computes the delta between the
//! local and the remote catalog under a per-category policy (what to download,
//! what to remove), and carries the decision logic of the fetch protocol:
//! filename discovery, integrity checking and retry planning. All I/O stays
//! outside the library; callers hand in plain values and take plain values
//! back.

pub mod config;
pub mod delta_builder;
pub mod file_manager;
pub mod hasher;
pub mod local_resource;
pub mod online_resource;
pub mod resource;
pub mod strutil;

pub use delta_builder::DeltaAction;
pub use delta_builder::DeltaBuilder;
pub use resource::Category;
pub use resource::Resource;
