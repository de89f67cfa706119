//! Composes per-game process environments from a declarative configuration:
//! a graph of reusable environment profiles is resolved depth-first with a
//! cycle guard, each variable expanded through a layered lookup chain, and a
//! version-to-path lookup feeds the final launch description. Every lookup
//! layer is an explicit value handed in by the caller, so resolution is a
//! pure function of its inputs.

use vstd::prelude::*;

pub mod config;
pub mod expand;
pub mod game;
pub mod laws;
pub mod livesplit;
pub mod strmap;

verus! {

/// Why a resolution, expansion or lookup failed. Every failure carries the
/// name or input that caused it, and resolution is all-or-nothing: no partial
/// environment is ever returned alongside one of these.
#[derive(Debug, PartialEq, Eq)]
pub enum Error {
    /// A profile name referenced in a dependency list (or asked for directly)
    /// is not present in the configuration.
    ProfileNotFound(String),
    /// A profile depends, directly or transitively, on itself; the name is
    /// the profile whose re-entry was detected.
    CyclicDependency(String),
    /// A variable reference could not be resolved by any lookup layer.
    VariableNotFound(String),
    /// A game has no path entry (or an empty path list) for this version;
    /// the fields are the game name and the version label.
    VersionNotFound(String, String),
    /// The game name is not present in the configuration.
    GameNotFound(String),
    /// A raw string contains malformed variable syntax (an unclosed brace,
    /// an empty variable name, or a stray reference sigil).
    ExpansionError(String),
}

/// The mathematical form of an `Error`, over sequences of characters.
pub enum SpecError {
    ProfileNotFound(Seq<char>),
    CyclicDependency(Seq<char>),
    VariableNotFound(Seq<char>),
    VersionNotFound(Seq<char>, Seq<char>),
    GameNotFound(Seq<char>),
    ExpansionError(Seq<char>),
}

impl View for Error {
    type V = SpecError;

    open spec fn view(&self) -> SpecError {
        match self {
            Error::ProfileNotFound(s) => SpecError::ProfileNotFound(s@),
            Error::CyclicDependency(s) => SpecError::CyclicDependency(s@),
            Error::VariableNotFound(s) => SpecError::VariableNotFound(s@),
            Error::VersionNotFound(g, v) => SpecError::VersionNotFound(g@, v@),
            Error::GameNotFound(s) => SpecError::GameNotFound(s@),
            Error::ExpansionError(s) => SpecError::ExpansionError(s@),
        }
    }
}

impl Error {
    /// A human-readable description of the failure, naming its cause.
    pub fn message(&self) -> (r: String)
        ensures
            r@ == match self {
                Error::ProfileNotFound(s) => s@ + ": environment not found"@,
                Error::CyclicDependency(s) => s@ + ": cyclic environment dependency"@,
                Error::VariableNotFound(s) => s@ + ": variable not found"@,
                Error::VersionNotFound(g, v) => "Couldn't find path to version "@ + v@
                    + " for game "@ + g@,
                Error::GameNotFound(s) => "Couldn't find game: "@ + s@,
                Error::ExpansionError(s) => "Malformed variable syntax in: "@ + s@,
            },
    {
        match self {
            Error::ProfileNotFound(s) => s.clone().concat(": environment not found"),
            Error::CyclicDependency(s) => s.clone().concat(": cyclic environment dependency"),
            Error::VariableNotFound(s) => s.clone().concat(": variable not found"),
            Error::VersionNotFound(g, v) => {
                let mut m = String::from_str("Couldn't find path to version ");
                m.append(v.as_str());
                m.append(" for game ");
                m.append(g.as_str());
                m
            },
            Error::GameNotFound(s) => String::from_str("Couldn't find game: ").concat(s.as_str()),
            Error::ExpansionError(s) => String::from_str("Malformed variable syntax in: ").concat(
                s.as_str(),
            ),
        }
    }
}

} // verus!
