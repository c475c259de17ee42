//! A line-oriented markdown lexer: a document becomes an ordered sequence of
//! typed tokens (headings, paragraphs, blank lines and code-fence markers).
pub mod text;
pub mod tokens;
pub mod headers;
pub mod body;
pub mod lex;
pub mod files;

pub use body::BodyMatcher;
pub use files::is_markdown_file;
pub use headers::HeaderMatcher;
pub use lex::{parse, Lexer, LexerFactory};
pub use tokens::{Token, TokenMatcher, Type};
