//! Foundation types for composable components: a typed registry that maps
//! type URLs to factories, typed data envelopes, and component manifests.

pub mod factory;
pub mod json;
pub mod laws;
pub mod manifest;
pub mod order;
pub mod registry;

pub use factory::BoxedFactory;
pub use registry::{RegistryError, TypedRegistry, TypedRegistryBuilder, TypedStruct};
pub use manifest::{Kind, Manifest};
