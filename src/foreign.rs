//! Declarations of the outside items that the library relies on.
use vstd::prelude::*;

verus! {

/// The handle of a file in a `codespan::Files` registry; carried through
/// to the labels of diagnostics.
#[verifier::external_type_specification]
#[verifier::external_body]
pub struct ExFileId(codespan::FileId);

/// An interned identifier of a `lasso` interner.
#[verifier::external_type_specification]
#[verifier::external_body]
pub struct ExSpur(lasso::Spur);

/// The error that `lexical` reports for text that is no number.
#[verifier::external_type_specification]
#[verifier::external_body]
pub struct ExLexicalError(lexical::Error);

} // verus!
