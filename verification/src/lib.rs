//! A minimal symbol-reference resolver for a small module- and trait-based
//! language.
//!
//! The crate is organised around four components:
//! * [`symbols`]: the symbol table, a flat store of declared items;
//! * [`scopes`], [`index`] and [`paths`]: the scope graph, a tree of lexical
//!   scopes with import edges, with name lookup and path resolution over it;
//! * [`dispatch`]: the trait resolution engine (inherent methods, trait
//!   impls, default bodies, supertrait closure);
//! * [`resolver`]: the reference resolver, one pass that binds every name
//!   occurrence to a symbol and collects the errors.
//!
//! [`samples`] holds the tiny sample declarations that the tests rebuild as
//! an item tree and resolve.

pub mod dispatch;
pub mod errors;
pub mod index;
pub mod paths;
pub mod resolver;
pub mod samples;
pub mod scopes;
pub mod symbols;
