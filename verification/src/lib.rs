//! A declarative registration compiler for procedural-macro glue.
//!
//! The library reads a list of registration directives ("expose this
//! implementation function as a function-like / attribute-like / derive-like
//! macro entry point"), resolves each directive's reference to the
//! implementation symbol, checks the list for name and module collisions,
//! and emits the glue source text that wires every entry point to its
//! implementation.
//!
//! The pipeline is purely textual and runs in one direction:
//! token list -> [`reference`] resolver -> [`directive`] compiler ->
//! [`sequence`] processor -> [`emit`] code emitter -> generated source text.
//! [`laws`] states and proves what holds of the pipeline as a whole.
//!
//! The remaining modules are sample implementation functions of the three
//! macro kinds — the collaborators a directive list typically wires up —
//! together with the text utilities they share.

pub mod tokens;
pub mod seqs;
pub mod errors;
pub mod reference;
pub mod directive;
pub mod sequence;
pub mod emit;
pub mod laws;
pub mod strutil;
pub mod numtext;
pub mod foo;
pub mod hello;
pub mod attr_impl;
pub mod inner;
pub mod existing_mod;
pub mod derive_impl;
pub mod subdir;
pub mod derive_impl_with_attrs;
pub mod derive_multiple_attrs;
