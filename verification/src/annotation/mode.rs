use vstd::prelude::*;

verus! {

/// The kind of an annotation, which decides its colour and underline.
#[derive(Debug, Clone, Copy, PartialEq, Eq, Structural)]
pub enum Mode {
    Warning,
    Error,
    Info,
}

impl Mode {
    /// The character that underlines a highlight of this kind.
    pub open spec fn spec_underline(self) -> char {
        match self {
            Mode::Warning | Mode::Error => '^',
            Mode::Info => '-',
        }
    }

    /// The character that underlines a highlight of this kind: `^` for warnings and errors, `-`
    /// for information.
    pub fn underline(self) -> (c: char)
        ensures
            c == self.spec_underline(),
    {
        match self {
            Mode::Warning | Mode::Error => '^',
            Mode::Info => '-',
        }
    }
}

} // verus!
