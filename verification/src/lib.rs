//! Representation and evaluation of gene-expression programs.
//!
//! A candidate program is a fixed-layout sequence of integer genes (a
//! K-expression). Genes are resolved against an operation vocabulary into
//! stack operations, and the resulting expressions are run on a numeric stack.
//! Numbers are IEEE 754 doubles carried by their bit patterns; the arithmetic
//! on them is supplied by the caller of the evaluator.
//!
//! The vocabulary is in `primitive_operations` and `operation_set`, the
//! identifiers that genes are drawn from in `operation_ids`. Genotypes are in
//! `k_expression` and built in `k_expressions_builder`; `decoding` says what
//! they stand for. Decoded expressions and their evaluation are in
//! `stack_operation` and `expressions`. What is proved of decoding and of
//! evaluation beyond the contracts of the functions is in `decoding_laws` and
//! `evaluation_laws`.

pub mod decoding;
pub mod decoding_laws;
pub mod error;
pub mod evaluation_laws;
pub mod expressions;
pub mod genes;
pub mod k_expression;
pub mod k_expressions_builder;
pub mod operation_ids;
pub mod operation_set;
pub mod primitive_operations;
pub mod scalar;
pub mod serialize;
pub mod stack_operation;
pub mod text;

pub use error::GepError;
pub use scalar::Scalar;
