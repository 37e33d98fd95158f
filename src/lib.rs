//! Agent-definition packages: a content-addressed, OCI-style directory layout
//! that bundles an agent definition and its project files, and the steps that
//! recover the definition from such a layout.
pub mod text;
pub mod digest;
pub mod error;
pub mod validation;
pub mod layer;
pub mod package;
