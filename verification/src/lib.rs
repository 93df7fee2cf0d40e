//! A minimal existence-anchoring registry.
//!
//! A caller binds a content fingerprint (a fixed-width digest) to the
//! identity of whoever registered it; any party may later look the binding
//! up to learn whether the content was anchored and by whom. The registry
//! itself is the whole library: a fingerprint-to-identity mapping, a write
//! rule (last writer wins), and a read rule (existence check plus owner
//! disclosure). Resolving the caller's identity and persisting the mapping
//! on a particular host are the surrounding environment's concern; the
//! registry takes the resolved identity as an explicit argument and owns
//! an in-memory store.

pub mod model;
pub mod registry;
pub mod types;

pub use registry::Anchor;
pub use registry::write_rule;
pub use types::Fingerprint;
pub use types::Identity;
pub use types::RegistryError;
