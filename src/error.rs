//! Errors of the library.

use vstd::prelude::*;

verus! {

/// The tab-delimited reader's error, carried through unchanged.
#[verifier::external_type_specification]
#[verifier::external_body]
pub struct ExCsvError(csv::Error);

/// The expression evaluator's error, carried through unchanged.
#[verifier::external_type_specification]
#[verifier::external_body]
pub struct ExEvalexprError(evalexpr::EvalexprError);

/// What is wrong with the bytes of a genotype container.
#[derive(Debug, Clone, Copy, PartialEq, Eq, Structural)]
pub enum FormatError {
    /// The first two bytes are not the container's magic number.
    BadMagic,
    /// The storage-mode byte names a layout that is not read here.
    UnsupportedMode,
    /// The flags (simple layout) or format byte (general layout) has a value
    /// that is not read here.
    UnsupportedFlags,
    /// The variant block offset table is not strictly ascending.
    UnorderedOffsets,
    /// Genotypes were asked of a container whose records are not stored at a
    /// fixed width of two bits per sample.
    UnsupportedDecode,
}

/// A read that could not be completed.
#[derive(Debug, Clone, Copy, PartialEq, Eq, Structural)]
pub enum IoFault {
    /// The input ended before the data that had to be read.
    UnexpectedEof,
    /// A metadata table does not begin with a `#` column-header line.
    MissingHeader,
    /// A variant or sample index lies outside the genotype matrix.
    IndexOutOfRange,
}

/// Every failure of the library.
#[derive(Debug)]
pub enum PgenError {
    Format(FormatError),
    Io(IoFault),
    /// The tab-delimited reader refused a metadata table.
    Table(csv::Error),
    /// A column that the operation needs is not in the table's header.
    Schema { column: String, file: String },
    /// A filter or format expression could not be evaluated.
    Query(evalexpr::EvalexprError),
    /// A filter or format expression is longer than the evaluator accepts.
    ExpressionTooLong,
}

} // verus!
