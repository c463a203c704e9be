//! A preprocessor for (System)Verilog source text: lexing, and the
//! elaboration of compiler directives (`` `define ``, `` `ifdef ``,
//! `` `include ``, `` `line ``, `` `pragma ``, `` `begin_keywords ``, ...).

pub mod span;

pub use span::{Span, SpanRelation};
pub mod keywords;
pub use keywords::{Keyword, KeywordStandard};
pub mod util;
pub mod token;
pub use token::{Directive, Token};
pub mod spanned_token;
pub use spanned_token::SpannedToken;
pub mod token_iter;
pub use token_iter::TokenIterator;
pub mod number_syntax;
pub mod callbacks;
pub mod lexer;
pub mod error;
pub mod state;
pub mod conditional;
pub mod define;
pub mod defines;
pub mod inclusion;
pub mod keyword_directives;
pub mod line;
pub mod number;
pub mod pragma;
pub mod settings;
pub mod preprocess;
pub mod laws;
