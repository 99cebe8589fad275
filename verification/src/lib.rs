//! Two passes over the programs of a small functional language, between parsing and code
//! generation.
//!
//! [`desugar`] inlines every named `use` binding of a term, or of every rule body of a program.
//! [`entrypoint`] finds the definition at which a program starts, and reports to the log of the
//! program why there is none, or that there are several.
//!
//! A term may be nested as deep as memory allows. Nothing here calls itself on the children of a
//! term: what is still to be done is kept on the heap, and is proved to give what the plain recursion
//! over the term gives.
//!
//! Contracts speak of the mathematical values of the data, their views: a [`name::Name`] is the
//! sequence of its characters, a [`term::Term`] a [`term::TermView`], a [`book::Book`] a
//! [`book::BookView`].

pub mod book;
pub mod desugar;
pub mod diagnostics;
pub mod entrypoint;
pub mod name;
mod rewrite;
pub mod subst;
pub mod term;
