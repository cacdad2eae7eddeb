//! Compiles a curated directory of packages into one validated data set.
//!
//! What maintainers declare about a package is merged with what the
//! package registry says about it ([`ecosystem`]), the registry's answers
//! being kept in a cache between runs ([`cache`], [`registry`]). The tags
//! that packages carry are checked against the tag descriptions
//! ([`tags`]), and the newsfeed is compiled for rendering ([`newsfeed`]).
//! A run collects the validation errors of all these and writes its
//! output only where there are none ([`publish`]).
//!
//! Reading files, asking the registry and writing the output are left to
//! the program around this library, which hands in what it read and does
//! what the run tells it to.

pub mod cache;
pub mod cli;
pub mod ecosystem;
pub mod errors;
pub mod images;
pub mod newsfeed;
pub mod publish;
pub mod registry;
pub mod tags;
pub mod text;
