//! The parser: recursive descent over a sequence of tokens that ends at the end of the file.
//!
//! [`parsed_expression`] and [`parsed_program`] state what is read from a sequence of token
//! views; [`parse_expression`] and [`parse_tokens`] compute exactly that.
use vstd::prelude::*;

use crate::expression::{BindingDeclaration, Error, Expression, ExpressionView, expression_views};
use crate::location::{Location, LocationView};
use crate::token::{AtomToken, AtomTokenView, Token, TokenKind, TokenKindView, TokenView, description_of};
use crate::tokenizer::token_views;

verus! {

/// Whether a sequence of tokens is closed by an end-of-file token.
pub open spec fn ends_in_end_of_file(tokens: Seq<TokenView>) -> bool {
    tokens.len() > 0 && tokens.last().kind is EndOfFile
}

/// The message of an error found at a token where `expected` should have stood.
pub open spec fn unexpected_message(found: TokenKindView, expected: Seq<char>) -> Seq<char> {
    "Unexpected token: "@ + description_of(found) + ", expected "@ + expected
}

/// The error node for a token found where `expected` should have stood.
pub open spec fn unexpected(token: TokenView, expected: Seq<char>) -> ExpressionView {
    ExpressionView::Error { location: token.location, message: unexpected_message(token.kind, expected) }
}

/// The text of a token, at its location.
pub open spec fn atom_token_of(token: TokenView, text: Seq<char>) -> AtomTokenView {
    AtomTokenView { location: token.location, text }
}

/// The expression that `tokens` start with, and the tokens that follow it.
pub open spec fn parsed_expression(tokens: Seq<TokenView>) -> (ExpressionView, Seq<TokenView>)
    decreases tokens.len(), 1int,
{
    if tokens.len() == 0 {
        (arbitrary(), tokens)
    } else {
        let first = tokens[0];
        let rest = tokens.drop_first();
        match first.kind {
            TokenKindView::Identifier(text) => (ExpressionView::Identifier(atom_token_of(first, text)), rest),
            TokenKindView::Integer(text) => (ExpressionView::IntegerLiteral(atom_token_of(first, text)), rest),
            TokenKindView::Decimal(text) => (ExpressionView::DecimalLiteral(atom_token_of(first, text)), rest),
            TokenKindView::Boolean(text) => (ExpressionView::BooleanLiteral(atom_token_of(first, text)), rest),
            TokenKindView::Let => parsed_binding(first.location, rest),
            _ => (unexpected(first, "an expression"@), rest),
        }
    }
}

/// The binding declaration whose `let` stood at `let_keyword` and whose other tokens start
/// `tokens`, and the tokens that follow it. A token out of place ends it with an error node,
/// and is consumed.
pub open spec fn parsed_binding(let_keyword: LocationView, tokens: Seq<TokenView>) -> (
    ExpressionView,
    Seq<TokenView>,
)
    decreases tokens.len(), 0int,
{
    if tokens.len() == 0 {
        (arbitrary(), tokens)
    } else {
        let name = tokens[0];
        let after_name = tokens.drop_first();
        match name.kind {
            TokenKindView::Identifier(text) => {
                if after_name.len() == 0 {
                    (arbitrary(), after_name)
                } else {
                    let operator = after_name[0];
                    let after_operator = after_name.drop_first();
                    if operator.kind is Assign {
                        let (initialized_to, after) = parsed_expression(after_operator);
                        (
                            ExpressionView::BindingDeclaration {
                                let_keyword,
                                identifier: atom_token_of(name, text),
                                assign_operator: operator.location,
                                initialized_to: Box::new(initialized_to),
                            },
                            after,
                        )
                    } else {
                        (unexpected(operator, "assignment"@), after_operator)
                    }
                }
            },
            _ => (unexpected(name, "identifier"@), after_name),
        }
    }
}

/// What follows an expression is a strict suffix of the tokens it was read from.
pub proof fn lemma_parsed_expression_suffix(tokens: Seq<TokenView>)
    requires
        tokens.len() > 0,
    ensures
        parsed_expression(tokens).1.len() < tokens.len(),
        parsed_expression(tokens).1 == tokens.skip(tokens.len() - parsed_expression(tokens).1.len()),
    decreases tokens.len(),
{
    let rest = tokens.drop_first();
    if tokens[0].kind is Let && rest.len() > 0 && rest[0].kind is Identifier && rest.len() > 1
        && rest[1].kind is Assign {
        let after_operator = rest.drop_first().drop_first();
        if after_operator.len() > 0 {
            lemma_parsed_expression_suffix(after_operator);
            let after = parsed_expression(after_operator).1;
            assert(after == tokens.skip(tokens.len() - after.len()));
        } else {
            assert(after_operator == tokens.skip(tokens.len() - after_operator.len()));
        }
    } else if tokens[0].kind is Let && rest.len() > 0 && rest[0].kind is Identifier && rest.len()
        > 1 {
        assert(rest.drop_first().drop_first() =~= tokens.skip(3));
    } else if tokens[0].kind is Let && rest.len() > 0 && rest[0].kind is Identifier {
        assert(rest.drop_first() =~= tokens.skip(2));
    } else if tokens[0].kind is Let && rest.len() > 0 {
        assert(rest.drop_first() =~= tokens.skip(2));
    } else {
        assert(rest =~= tokens.skip(1));
    }
}

/// The expressions read from `tokens`: one after the other, until the end of the file.
pub open spec fn parsed_program(tokens: Seq<TokenView>) -> Seq<ExpressionView>
    decreases tokens.len(),
{
    if tokens.len() == 0 || tokens[0].kind is EndOfFile {
        Seq::empty()
    } else {
        let (expression, rest) = parsed_expression(tokens);
        proof {
            lemma_parsed_expression_suffix(tokens);
        }
        seq![expression] + parsed_program(rest)
    }
}

/// A cursor over a sequence of tokens, which can take back one token it has handed out.
pub struct Tokens {
    /// The tokens not read yet, last one first.
    remaining: Vec<Token>,
    /// A token put back, to be read again first.
    next: Option<Token>,
}

impl View for Tokens {
    type V = Seq<Token>;

    /// The tokens still to be read, in order.
    closed spec fn view(&self) -> Seq<Token> {
        match self.next {
            Some(token) => seq![token] + self.remaining@.reverse(),
            None => self.remaining@.reverse(),
        }
    }
}

impl Tokens {
    /// Whether no token is held back, so that one may be put back.
    pub closed spec fn nothing_put_back(&self) -> bool {
        self.next is None
    }

    pub fn new(tokens: Vec<Token>) -> (cursor: Tokens)
        ensures
            cursor@ == tokens@,
            cursor.nothing_put_back(),
    {
        let ghost all = tokens@;
        let mut input = tokens;
        let mut remaining: Vec<Token> = Vec::new();
        while input.len() > 0
            invariant
                input@ + remaining@.reverse() == all,
            decreases input.len(),
        {
            let ghost before = remaining@;
            let ghost unread = input@;
            let token = input.pop().unwrap();
            remaining.push(token);
            assert(remaining@.reverse() =~= seq![token] + before.reverse());
            assert(unread =~= input@.push(token));
            assert(input@ + remaining@.reverse() =~= unread + before.reverse());
        }
        assert(input@ + remaining@.reverse() =~= remaining@.reverse());
        Tokens { remaining, next: None }
    }

    /// Read the next token.
    pub fn next(&mut self) -> (token: Token)
        requires
            old(self)@.len() > 0,
        ensures
            token == old(self)@[0],
            final(self)@ == old(self)@.drop_first(),
            final(self).nothing_put_back(),
    {
        let mut held: Option<Token> = None;
        std::mem::swap(&mut self.next, &mut held);
        match held {
            Some(token) => {
                assert(self@ =~= old(self)@.drop_first());
                token
            },
            None => {
                let ghost before = self.remaining@;
                let token = self.remaining.pop().unwrap();
                assert(self.remaining@.reverse() =~= before.reverse().drop_first());
                token
            },
        }
    }

    /// Whether any token is left to read.
    pub fn has_next(&mut self) -> (more: bool)
        ensures
            more == (old(self)@.len() > 0),
            *final(self) == *old(self),
    {
        self.next.is_some() || self.remaining.len() > 0
    }

    /// Hand `token` back, to be read again first.
    pub fn put_back(&mut self, token: Token)
        requires
            old(self).nothing_put_back(),
        ensures
            final(self)@ == seq![token] + old(self)@,
    {
        self.next = Some(token);
    }
}

/// Parse the expressions that `tokens` hold, up to the end of the file.
pub fn parse_tokens(tokens: Vec<Token>) -> (expressions: Vec<Expression>)
    requires
        ends_in_end_of_file(token_views(tokens@)),
    ensures
        expression_views(expressions@) == parsed_program(token_views(tokens@)),
{
    let ghost all = token_views(tokens@);
    let mut cursor = Tokens::new(tokens);
    let mut expressions: Vec<Expression> = Vec::new();
    while cursor.has_next()
        invariant_except_break
            token_views(cursor@).len() == 0 || ends_in_end_of_file(token_views(cursor@)),
            parsed_program(all) == expression_views(expressions@) + parsed_program(
                token_views(cursor@),
            ),
        ensures
            parsed_program(all) == expression_views(expressions@),
        decreases cursor@.len(),
    {
        let ghost before = token_views(cursor@);
        let token = cursor.next();
        assert(token_views(cursor@) =~= before.drop_first());
        if let TokenKind::EndOfFile = token.kind {
            assert(expression_views(expressions@) + parsed_program(before) =~= expression_views(
                expressions@,
            ));
            break;
        }
        cursor.put_back(token);
        assert(token_views(cursor@) =~= before);
        let expression = parse_expression(&mut cursor);
        proof {
            lemma_parsed_expression_suffix(before);
        }
        let ghost done = expression_views(expressions@);
        expressions.push(expression);
        assert(expression_views(expressions@) =~= done.push(expression@));
        assert(expression_views(expressions@) + parsed_program(token_views(cursor@)) =~= done + (
        seq![expression@] + parsed_program(token_views(cursor@))));
    }
    proof {
        if token_views(cursor@).len() == 0 {
            assert(expression_views(expressions@) + parsed_program(token_views(cursor@))
                =~= expression_views(expressions@));
        }
    }
    expressions
}

/// Parse the expression that the tokens start with.
pub fn parse_expression(tokens: &mut Tokens) -> (expression: Expression)
    requires
        ends_in_end_of_file(token_views(old(tokens)@)),
    ensures
        (expression@, token_views(final(tokens)@)) == parsed_expression(token_views(old(tokens)@)),
    decreases old(tokens)@.len(), 1int,
{
    let ghost before = token_views(tokens@);
    let Token { location, kind } = tokens.next();
    assert(token_views(tokens@) =~= before.drop_first());
    match kind {
        TokenKind::Identifier(atom) => parse_identifier_expression(tokens, AtomToken::new(location, atom)),
        TokenKind::Let => parse_binding_expression(tokens, location),
        TokenKind::Integer(atom) => Expression::IntegerLiteral(AtomToken::new(location, atom)),
        TokenKind::Decimal(atom) => Expression::DecimalLiteral(AtomToken::new(location, atom)),
        TokenKind::Boolean(atom) => Expression::BooleanLiteral(AtomToken::new(location, atom)),
        other => unexpected_token(Token::new(location, other), "an expression"),
    }
}

/// Parse the rest of a binding declaration, whose `let` stood at `let_location`.
fn parse_binding_expression(tokens: &mut Tokens, let_location: Location) -> (expression: Expression)
    requires
        ends_in_end_of_file(token_views(old(tokens)@)),
    ensures
        (expression@, token_views(final(tokens)@)) == parsed_binding(
            let_location@,
            token_views(old(tokens)@),
        ),
    decreases old(tokens)@.len(), 0int,
{
    let ghost before = token_views(tokens@);
    let Token { location, kind } = tokens.next();
    assert(token_views(tokens@) =~= before.drop_first());
    let identifier = match kind {
        TokenKind::Identifier(atom) => AtomToken::new(location, atom),
        unexpected => return unexpected_token(Token::new(location, unexpected), "identifier"),
    };
    let ghost after_name = token_views(tokens@);
    let Token { location, kind } = tokens.next();
    assert(token_views(tokens@) =~= after_name.drop_first());
    let assign_operator = match kind {
        TokenKind::Assign => location,
        unexpected => return unexpected_token(Token::new(location, unexpected), "assignment"),
    };
    let initialized_to = parse_expression(tokens);
    let declaration = BindingDeclaration {
        let_keyword: let_location,
        identifier,
        assign_operator,
        initialized_to,
    };
    Expression::BindingDeclaration(Box::new(declaration))
}

/// An identifier standing alone; nothing that starts with an identifier goes further yet.
fn parse_identifier_expression(tokens: &mut Tokens, identifier: AtomToken) -> (expression: Expression)
    requires
        old(tokens)@.len() > 0,
    ensures
        final(tokens)@ == old(tokens)@,
        expression@ == ExpressionView::Identifier(identifier@),
{
    let other_token = tokens.next();
    tokens.put_back(other_token);
    assert(tokens@ =~= old(tokens)@);
    Expression::Identifier(identifier)
}

/// The error node for `token`, found where `expected` should have stood.
fn unexpected_token(token: Token, expected: &str) -> (expression: Expression)
    ensures
        expression@ == unexpected(token@, expected@),
{
    let mut message = String::from_str("Unexpected token: ");
    let description = token.description();
    message.append(description.as_str());
    message.append(", expected ");
    message.append(expected);
    Expression::Error(Error::new(token.location, message))
}

} // verus!
