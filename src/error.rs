//! The ways in which creating or opening a package fails.
use vstd::prelude::*;
use crate::text::{push_str, string_of};

verus! {

/// Why an operation on a package failed.
#[derive(Debug, Clone, PartialEq, Eq)]
pub enum PackageError {
    /// The definition file is missing from the source tree; holds its path.
    SourceNotFound(String),
    /// The definition file could not be parsed; holds the parser's message.
    Parse(String),
    /// The definition declares a version that is not supported; holds it.
    UnsupportedVersion(String),
    /// The definition lists no execution entry.
    EmptyExecution,
    /// A file system or archive operation failed; holds its message.
    Io(String),
    /// The package's index is missing or malformed.
    LayoutInvalid,
    /// The index names a manifest blob that is missing or malformed; holds its digest.
    ManifestNotFound(String),
    /// The manifest names a layer blob that is missing; holds its digest.
    LayerNotFound(String),
    /// The layer holds no entry at the definition's fixed path.
    DefinitionNotFound,
}

impl PackageError {
    /// A human-readable description of the failure, naming the path, digest or
    /// version at fault.
    pub fn message(&self) -> (r: String)
        ensures
            self matches PackageError::SourceNotFound(p) ==> r@ == "definition file not found: "@
                + p@,
            self matches PackageError::Parse(m) ==> r@ == "definition could not be parsed: "@ + m@,
            self matches PackageError::UnsupportedVersion(v) ==> r@
                == "adp_version must be 0.1.0 or 0.2.0, got "@ + v@,
            self is EmptyExecution ==> r@ == "runtime.execution must not be empty"@,
            self matches PackageError::Io(m) ==> r@ == "i/o failure: "@ + m@,
            self is LayoutInvalid ==> r@ == "index.json is missing or malformed"@,
            self matches PackageError::ManifestNotFound(d) ==> r@ == "manifest blob not found: "@
                + d@,
            self matches PackageError::LayerNotFound(d) ==> r@ == "layer blob not found: "@ + d@,
            self is DefinitionNotFound ==> r@ == "adp/agent.yaml not found"@,
    {
        let mut out: Vec<char> = Vec::new();
        match self {
            PackageError::SourceNotFound(p) => {
                push_str(&mut out, "definition file not found: ");
                push_str(&mut out, p.as_str());
            },
            PackageError::Parse(m) => {
                push_str(&mut out, "definition could not be parsed: ");
                push_str(&mut out, m.as_str());
            },
            PackageError::UnsupportedVersion(v) => {
                push_str(&mut out, "adp_version must be 0.1.0 or 0.2.0, got ");
                push_str(&mut out, v.as_str());
            },
            PackageError::EmptyExecution => {
                push_str(&mut out, "runtime.execution must not be empty");
            },
            PackageError::Io(m) => {
                push_str(&mut out, "i/o failure: ");
                push_str(&mut out, m.as_str());
            },
            PackageError::LayoutInvalid => {
                push_str(&mut out, "index.json is missing or malformed");
            },
            PackageError::ManifestNotFound(d) => {
                push_str(&mut out, "manifest blob not found: ");
                push_str(&mut out, d.as_str());
            },
            PackageError::LayerNotFound(d) => {
                push_str(&mut out, "layer blob not found: ");
                push_str(&mut out, d.as_str());
            },
            PackageError::DefinitionNotFound => {
                push_str(&mut out, "adp/agent.yaml not found");
            },
        }
        string_of(&out)
    }
}

} // verus!
