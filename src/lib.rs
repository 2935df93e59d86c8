use vstd::prelude::*;

// Integer arithmetic with exact results.
pub mod arith;
// Reading and writing numbers, character classes, and small text helpers.
pub mod text;
// Parsing with errors as values, and searching.
pub mod errors;
// Books in a library, and commands that report what they do.
pub mod library;
// Bookkeeping of constants, imports and analysed files.
pub mod translation;
// Comparisons, text processors and containers behind traits.
pub mod processors;
// Folds and maps over sequences of integers, and ordering people by age.
pub mod sequences;
// What the translation tool reports for each command.
pub mod cli;
// The computing side of file processing.
pub mod files;
// Word frequencies of a text.
pub mod words;

verus! {

} // verus!
