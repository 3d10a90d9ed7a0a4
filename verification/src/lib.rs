//! Packaging policy for Python runtime distributions.
//!
//! The crate decides, for a single target platform, which resources of a
//! Python distribution are eligible for embedding into an assembled binary,
//! and which concrete variant of each native extension module is chosen when
//! several interchangeable implementations exist.

pub mod licensing;
pub mod policy;
pub mod resource;
pub mod strutil;
pub mod values;

pub use policy::PythonPackagingPolicy;
pub use resource::{PythonExtensionModule, PythonExtensionModuleVariants, PythonResource};
pub use values::{ExtensionModuleFilter, PolicyError, PythonResourcesPolicy};
