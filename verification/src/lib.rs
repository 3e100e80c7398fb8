//! Condenses the source files of a project into one compact document.
//!
//! The core is two scans over a text, each a single pass from left to
//! right that tracks string and character literals: [`strip::strip`] removes
//! comments, given the comment markers of the language, and
//! [`collapse::collapse`] removes the whitespace outside literals. What
//! each writes is stated as a function on sequences of characters, and the
//! laws that hold of them stand in [`strip_laws`] and [`collapse_laws`].
//!
//! Around the scans: the table of languages in [`language`], the two scans
//! in a row in [`condense`], what is made of the outcome of a minifier that
//! the caller runs in [`precise`], and the assembly of the document in
//! [`document`] and [`manifest`].

pub mod collapse;
pub mod collapse_laws;
pub mod condense;
pub mod document;
pub mod language;
pub mod manifest;
pub mod precise;
pub mod scan;
pub mod strip;
pub mod strip_laws;
pub mod text;
