//! TypeScript codegen (Stage 5).
//!
//! Generated TypeScript is meant to pass `tsc --strict` (level 3 of gradual
//! formalization: native .frm with TypeScript codegen). Not built yet.

use vstd::prelude::*;
use crate::errors::CompilerError;
use crate::fir::Program;

verus! {

/// Emits TypeScript for `program` (not implemented yet).
pub fn emit_typescript(program: &Program) -> (r: Result<String, CompilerError>)
    ensures
        r matches Err(CompilerError::NotYetImplemented(s)) && s@ == "TypeScript codegen (Stage 5)"@,
{
    Err(CompilerError::NotYetImplemented("TypeScript codegen (Stage 5)"))
}

} // verus!
