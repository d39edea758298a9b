//! A vendor-prefix registry for link-layer hardware addresses: prefix
//! validation, randomized address derivation, registry lookups, a persisted
//! JSON snapshot format, and the decision logic of the interface-mutation
//! workflow.

pub mod json;
pub mod mutation;
pub mod prefix;
pub mod record;
pub mod registry;
pub mod source;
pub mod text;

pub use mutation::AbortReason;
pub use mutation::MutationAction;
pub use mutation::MutationEvent;
pub use mutation::MutationState;
pub use mutation::MutationStep;
pub use mutation::next_action;
pub use mutation::start;
pub use mutation::step;
pub use record::VendorRecord;
pub use registry::VendorRegistry;
pub use source::ConvertError;
pub use source::DataSource;
pub use source::convert;
pub use prefix::ValidationError;
pub use prefix::address_with_octets;
pub use prefix::derive_random_address;
pub use prefix::verify_prefix;
