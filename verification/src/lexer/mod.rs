pub mod comment;
pub mod error;
pub mod identifier;
pub mod literal;
pub mod parse_str;
pub mod reading;
pub mod symbol;
pub mod token_iter;

pub use self::error::{LexerError, LexerErrorType};
pub use self::tokenize::{
    closer_of, closes_at, comments_kept, gap_start, item_tokens, lemma_tokenization_not_stuck, lemma_tokenizations_stack, nested_in, open_stack, read_prefix, spans_matched, spans_nested,
    stuck_reported, tokenization, tokenize, tokens_in_order, unmatched_reported, TokenItem,
};

mod tokenize;
