//! Front end of the `mayim` language: a tokenizer that turns source text into
//! located tokens, and a recursive-descent parser that turns those tokens into
//! expressions, with malformed constructs kept inline as error nodes.
use vstd::prelude::*;

pub mod atom;
pub mod chars;
pub mod expression;
pub mod location;
pub mod parser;
pub mod token;
pub mod tokenizer;

pub use crate::expression::{BindingDeclaration, Error, Expression};
pub use crate::location::{Located, Location};
pub use crate::parser::{parse_tokens, Tokens};
pub use crate::token::{AtomToken, Token, TokenKind};
pub use crate::tokenizer::tokenize;

use crate::expression::expression_views;
use crate::parser::parsed_program;
use crate::tokenizer::{lemma_lex_ends_once, lex};

verus! {

/// Tokenize the `source` of the file `filename` and parse the expressions it holds.
pub fn parse(filename: &str, source: &str) -> (expressions: Vec<Expression>)
    requires
        source@.len() < u32::MAX,
    ensures
        expression_views(expressions@) == parsed_program(lex(filename@, source@)),
{
    let tokens = tokenize(filename, source);
    proof {
        lemma_lex_ends_once(filename@, source@);
    }
    parse_tokens(tokens)
}

} // verus!
