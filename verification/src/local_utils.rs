//! Computing the path of a local file relative to a base directory: the
//! `⊖` half of the path-translation contract.

#![verifier::loop_isolation(false)]
use vstd::prelude::*;
use crate::pathmodel::{is_path_prefix, strip_result, SyncPath};

verus! {

/// Why a relative path could not be computed.
#[derive(Debug, Clone, Copy, PartialEq, Eq, Structural)]
pub enum RelativePathError {
    /// The input path is relative; an absolute path is required.
    InputNotAbsolute,
    /// The base path does not lead the input path.
    BaseNotPrefix,
}

/// Strips `base_path` from the front of the absolute `input_path`, giving
/// the relative remainder: `/home/u/mypath/myfile.txt` under `/home/u`
/// becomes `mypath/myfile.txt`.  Succeeds exactly when the input is
/// absolute and the base leads it.
pub fn compute_relative_path_from_local(input_path: &SyncPath, base_path: &SyncPath) -> (r: Result<
    SyncPath,
    RelativePathError,
>)
    ensures
        r is Ok <==> input_path@.abs && is_path_prefix(base_path@, input_path@),
        match r {
            Ok(p) => p@ == strip_result(input_path@, base_path@) && (input_path.wf() ==> p.wf()),
            Err(e) => (e is InputNotAbsolute <==> !input_path@.abs),
        },
{
    if !input_path.abs {
        return Err(RelativePathError::InputNotAbsolute);
    }
    match input_path.strip_prefix(base_path) {
        Some(p) => Ok(p),
        None => Err(RelativePathError::BaseNotPrefix),
    }
}

} // verus!
