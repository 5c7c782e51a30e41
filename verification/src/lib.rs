//! A parser for a compact, URL-query-string-style filter language, in the
//! spirit of REST query filters, e.g. `age=lt.20&(product=eq.134|price=lt.100.0)`.
//!
//! The input is a single text buffer; the output is a typed abstract syntax
//! tree (`Filter`, `Condition`, `Equation`, `Param`) plus the count of
//! characters consumed, or a typed `ParseError` carrying the failing offset.
//! Numeric literals are kept as exact decimal digit strings (`Decimal`), so
//! the whole grammar is free of floating point; a caller that wants a binary
//! float converts the canonical text of a `Decimal`.

pub mod ast;
pub mod model;
pub mod scan;
pub mod grammar;
pub mod filter;
pub mod laws;
pub mod grouping;
