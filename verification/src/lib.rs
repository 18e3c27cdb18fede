//! A syntax recognizer for C1, a small C-like teaching language.
//!
//! The crate scans a source text into tokens and decides, by recursive
//! descent, whether the tokens form a C1 program. A text that is no program
//! is answered with the first syntax error: what was expected, what was
//! found, and on which line. Nothing else is built: no syntax tree, no
//! symbol table, and parsing stops at the first error.
//!
//! ```text
//! C1Parser::parse("int main(){return 0;}")   Ok(())
//! C1Parser::parse("int main(){a=1}")         Err("expected ;, got }, line 1")
//! ```
//!
//! The modules, in the order in which they build on one another:
//!
//! - `token`: the token vocabulary.
//! - `scanner`: from text to tokens with their lines, and the cursor
//!   `C1Lexer` over them.
//! - `error`: the syntax error and its message.
//! - `grammar`: the grammar, as predicates on spans of tokens.
//! - `descent`: what each grammar procedure consumes or reports, as a
//!   function of the tokens.
//! - `parser`: the procedures themselves, and `C1Parser::parse`.
//! - `soundness`, `completeness`: the procedures accept exactly what the
//!   grammar derives.
//! - `bounds`, `locality`, `transport`, `completion`, `reported`: where and
//!   with what a procedure fails.
//! - `laws`: what follows for a parse as a whole.
pub mod bounds;
pub mod completeness;
pub mod completion;
pub mod descent;
pub mod error;
pub mod grammar;
pub mod laws;
pub mod locality;
pub mod parser;
pub mod reported;
pub mod scanner;
pub mod soundness;
pub mod token;
pub mod transport;

pub use error::{Expected, SyntaxError};
pub use parser::{C1Parser, ParseResult};
pub use scanner::{C1Lexer, Lexeme};
pub use token::C1Token;
