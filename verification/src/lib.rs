//! Expansion of compact, polymorphic intrinsic signature specifications into
//! the full set of concrete, monomorphic signatures, rendered as a lookup
//! table for a compiler's intrinsic-checking stage.
//!
//! The core pipeline: a spec token is parsed into a structured capture
//! ([`token::SpecToken`]), enumerated into concrete [`typespec::Type`] values
//! (crossing number kinds and width progressions), transformed by modifier
//! rules, and finally expanded across platform widths and argument slots into
//! [`parser::MonomorphicIntrinsic`] records.

pub mod laws;
pub mod parser;
pub mod render;
pub mod token;
pub mod typespec;

pub use typespec::Error;
pub use typespec::Modifier;
pub use typespec::NumKind;
pub use typespec::Number;
pub use typespec::Type;
