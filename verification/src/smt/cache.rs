//! ProofCache: content-addressed proof result store (Stage 4).
//!
//! Cache key = SHA-256(canonical_fir || compiler_version || z3_version).
//! A cache hit returns the stored certificate without re-invoking Z3. The
//! ACS check is not bypassed on a cache hit. Not built yet.

use vstd::prelude::*;
use crate::errors::CompilerError;

verus! {

/// Looks up a stored proof result (not implemented yet).
pub fn lookup(key: &[u8]) -> (r: Result<Option<Vec<u8>>, CompilerError>)
    ensures
        r matches Err(CompilerError::NotYetImplemented(s)) && s@ == "ProofCache (Stage 4)"@,
{
    Err(CompilerError::NotYetImplemented("ProofCache (Stage 4)"))
}

/// Stores a proof result (not implemented yet).
pub fn store(key: &[u8], value: &[u8]) -> (r: Result<(), CompilerError>)
    ensures
        r matches Err(CompilerError::NotYetImplemented(s)) && s@ == "ProofCache (Stage 4)"@,
{
    Err(CompilerError::NotYetImplemented("ProofCache (Stage 4)"))
}

} // verus!
