//! A lexical scanner: it turns raw source text into a flat sequence of
//! classified tokens, produced one at a time by `Lexer::next_token`.

mod laws;
mod lexer;
mod model;
mod token;

pub use laws::chunk_end;
pub use laws::chunks;
pub use laws::chunks_from;
pub use laws::lemma_eof_idempotent;
pub use laws::lemma_totality;
pub use laws::lemma_whitespace_insensitive;
pub use lexer::Lexer;
pub use model::next_token_model;
pub use model::token_at;
pub use model::tokens;
pub use model::tokens_from;
pub use model::ws_end;
pub use model::lemma_progress;
pub use token::Token;
pub use token::TokenView;
pub use token::word_token;
