//! The rules a definition must meet before it is packaged.
use vstd::prelude::*;
use crate::error::PackageError;
use crate::text::str_equal;

verus! {

/// One way of running the agent: a backend kind, an identifier and an optional entry point.
#[derive(Debug, Clone)]
pub struct RuntimeEntry {
    pub backend: String,
    pub id: String,
    pub entrypoint: Option<String>,
}

/// The definition format versions that are accepted.
pub open spec fn supported_version(v: Seq<char>) -> bool {
    v == seq!['0', '.', '1', '.', '0'] || v == seq!['0', '.', '2', '.', '0']
}

/// Checks a definition's declared version and its execution entries: the version
/// must be supported and at least one execution entry must be listed. The version
/// is checked first.
pub fn validate_adp(adp_version: &str, execution: &Vec<RuntimeEntry>) -> (r: Result<(), PackageError>)
    ensures
        r is Ok <==> supported_version(adp_version@) && execution@.len() > 0,
        r matches Err(e) ==> (if supported_version(adp_version@) {
            e == PackageError::EmptyExecution
        } else {
            e matches PackageError::UnsupportedVersion(v) && v@ == adp_version@
        }),
{
    let first = str_equal(adp_version, "0.1.0");
    let second = str_equal(adp_version, "0.2.0");
    proof {
        reveal_strlit("0.1.0");
        reveal_strlit("0.2.0");
        assert("0.1.0"@ =~= seq!['0', '.', '1', '.', '0']);
        assert("0.2.0"@ =~= seq!['0', '.', '2', '.', '0']);
    }
    if !first && !second {
        return Err(PackageError::UnsupportedVersion(adp_version.to_owned()));
    }
    if execution.len() == 0 {
        return Err(PackageError::EmptyExecution);
    }
    Ok(())
}

} // verus!
