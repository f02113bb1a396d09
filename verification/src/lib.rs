//! A source-preserving lexer and parser for the Squirrel language, in its Squirrel 3 form and in
//! Respawn's dialect.

pub mod annotation;
pub mod ast;
pub mod error_display;
pub mod flavor;
pub mod lexer;
pub mod text;
pub mod parser;
pub mod token;

pub use self::flavor::Flavor;
pub use self::lexer::{tokenize, LexerError, LexerErrorType, TokenItem};
pub use self::parser::{parse, ContextType, ParseError, ParseErrorContext, ParseErrorType};
pub use self::annotation::{display_annotations, Annotation};
pub use self::error_display::display_error;
