//! The error taxonomy of the registration compiler.
//!
//! Every failure is raised eagerly at the point of detection and aborts the
//! whole list's generation; errors carry the offending fragment or name so
//! that a diagnostic can pinpoint the exact directive.

use vstd::prelude::*;
use crate::tokens::{SpecToken, Token};
use crate::reference::{Anchor, SpecAnchor};

verus! {

/// Maps a `Result` to the deep views of its two sides.
pub open spec fn dv_result<T: DeepView, E: DeepView>(r: Result<T, E>) -> Result<
    T::V,
    E::V,
> {
    match r {
        Ok(t) => Ok(t.deep_view()),
        Err(e) => Err(e.deep_view()),
    }
}

/// A failure of the registration compiler.
#[derive(Debug, PartialEq, Eq)]
pub enum CompileError {
    /// The directive text matches no known shape, or a clause is malformed.
    Grammar { fragment: Vec<Token> },
    /// A derive directive carries no explicit exposed name.
    MissingName { fragment: Vec<Token> },
    /// Two directives declare the same exposed name.
    NameCollision { name: String },
    /// Two directives both declare the same module.
    ModuleCollision { name: String },
    /// A file named by an anchored reference could not be located.
    UnresolvedPath { path: String, anchor: Anchor },
}

/// The mathematical model of a [`CompileError`].
pub enum SpecCompileError {
    Grammar { fragment: Seq<SpecToken> },
    MissingName { fragment: Seq<SpecToken> },
    NameCollision { name: Seq<char> },
    ModuleCollision { name: Seq<char> },
    UnresolvedPath { path: Seq<char>, anchor: SpecAnchor },
}

impl DeepView for CompileError {
    type V = SpecCompileError;

    open spec fn deep_view(&self) -> SpecCompileError {
        match self {
            CompileError::Grammar { fragment } => SpecCompileError::Grammar {
                fragment: fragment.deep_view(),
            },
            CompileError::MissingName { fragment } => SpecCompileError::MissingName {
                fragment: fragment.deep_view(),
            },
            CompileError::NameCollision { name } => SpecCompileError::NameCollision {
                name: name@,
            },
            CompileError::ModuleCollision { name } => SpecCompileError::ModuleCollision {
                name: name@,
            },
            CompileError::UnresolvedPath { path, anchor } => SpecCompileError::UnresolvedPath {
                path: path@,
                anchor: anchor.deep_view(),
            },
        }
    }
}

} // verus!
