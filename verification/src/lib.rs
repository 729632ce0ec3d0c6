//! Null elision for JSON documents.
//!
//! A document is a [`value::Json`] tree. Two strategies remove every null
//! entry from it: [`cleaner::remove_null_values`] prunes the tree in place,
//! [`assembler::get_without_null_values`] builds a fresh tree. [`model`]
//! says what each of them yields on the mathematical view of a document,
//! and [`laws`] proves what holds of the result: that no null is left, that
//! the survivors keep their order, that a document without nulls is left
//! alone, and that the two strategies agree on every document but a bare
//! null.

pub mod value;
pub mod model;
pub mod assembler;
pub mod cleaner;
pub mod laws;
