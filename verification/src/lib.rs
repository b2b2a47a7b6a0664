//! Bidirectional mapper between a hardware-register-description XML dialect
//! (SVD) and a strongly-typed in-memory model.
//!
//! The element tree is a plain value (`xml::Element`); surrounding I/O code is
//! expected to build one from whatever XML reader it uses and to write the
//! encoded tree back out.  Every entity offers `parse` (element to entity,
//! failing on missing required fields and malformed scalars) and `encode`
//! (entity back to element), both specified exactly against spec-level
//! models of the element tree.

pub mod cpu;
pub mod defaults;
pub mod device;
pub mod encode;
pub mod error;
pub mod laws;
pub mod parse;
pub mod peripheral;
pub mod text;
pub mod xml;

pub use cpu::Cpu;
pub use defaults::Defaults;
pub use device::Device;
pub use error::SvdError;
pub use peripheral::Peripheral;
pub use xml::Attribute;
pub use xml::Element;
