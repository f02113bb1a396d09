use vstd::prelude::*;

verus! {

/// A flavor of Squirrel to parse.
///
/// This allows the lexer and parser to adapt to incompatibilities in the variants. Respawn's
/// variant adds some keywords which would be valid identifiers in Squirrel 3.
#[derive(Debug, Clone, Copy, PartialEq, Eq, Structural)]
pub enum Flavor {
    /// Parse tokens in Respawn's Squirrel variant.
    SquirrelRespawn,
    /// Parse tokens in Squirrel 3.
    Squirrel3,
}

} // verus!
