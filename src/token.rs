//! Tokens: the units that the tokenizer reads from source text.
use vstd::prelude::*;

use crate::atom::atom_text;
use crate::location::{Location, LocationView};
use string_cache::DefaultAtom;

verus! {

/// The kind of a token. Kinds read from text of their own carry that text.
#[derive(Debug, Clone, PartialEq, Eq)]
pub enum TokenKind {
    EndOfFile,
    Unknown(DefaultAtom),
    Identifier(DefaultAtom),
    Boolean(DefaultAtom),
    Integer(DefaultAtom),
    Decimal(DefaultAtom),
    Let,
    Assign,
}

/// The mathematical value of a [`TokenKind`]: its tag and the characters it carries.
pub enum TokenKindView {
    EndOfFile,
    Unknown(Seq<char>),
    Identifier(Seq<char>),
    Boolean(Seq<char>),
    Integer(Seq<char>),
    Decimal(Seq<char>),
    Let,
    Assign,
}

impl View for TokenKind {
    type V = TokenKindView;

    open spec fn view(&self) -> TokenKindView {
        match self {
            TokenKind::EndOfFile => TokenKindView::EndOfFile,
            TokenKind::Unknown(a) => TokenKindView::Unknown(atom_text(*a)),
            TokenKind::Identifier(a) => TokenKindView::Identifier(atom_text(*a)),
            TokenKind::Boolean(a) => TokenKindView::Boolean(atom_text(*a)),
            TokenKind::Integer(a) => TokenKindView::Integer(atom_text(*a)),
            TokenKind::Decimal(a) => TokenKindView::Decimal(atom_text(*a)),
            TokenKind::Let => TokenKindView::Let,
            TokenKind::Assign => TokenKindView::Assign,
        }
    }
}

/// The source text that a token of this kind was read from (empty for the end of the file).
pub open spec fn lexeme(kind: TokenKindView) -> Seq<char> {
    match kind {
        TokenKindView::EndOfFile => Seq::empty(),
        TokenKindView::Unknown(text) => text,
        TokenKindView::Identifier(text) => text,
        TokenKindView::Boolean(text) => text,
        TokenKindView::Integer(text) => text,
        TokenKindView::Decimal(text) => text,
        TokenKindView::Let => "let"@,
        TokenKindView::Assign => ":="@,
    }
}

/// How a token of this kind is named in a diagnostic.
pub open spec fn description_of(kind: TokenKindView) -> Seq<char> {
    match kind {
        TokenKindView::EndOfFile => "EOF"@,
        TokenKindView::Unknown(_) => "unknown symbol"@,
        TokenKindView::Identifier(_) => "identifier"@,
        TokenKindView::Boolean(_) => "boolean literal"@,
        TokenKindView::Integer(_) => "integer literal"@,
        TokenKindView::Decimal(_) => "decimal literal"@,
        TokenKindView::Let => "let"@,
        TokenKindView::Assign => "assignment"@,
    }
}

/// An individual lexeme of a source file: what kind of lexeme it is, and where it was found.
#[derive(Debug, Clone)]
pub struct Token {
    /// Where in which source file this token was found.
    pub location: Location,
    /// The kind of token this is.
    pub kind: TokenKind,
}

/// The mathematical value of a [`Token`].
pub struct TokenView {
    pub location: LocationView,
    pub kind: TokenKindView,
}

impl View for Token {
    type V = TokenView;

    open spec fn view(&self) -> TokenView {
        TokenView { location: self.location@, kind: self.kind@ }
    }
}

impl Token {
    pub fn new(location: Location, kind: TokenKind) -> (token: Token)
        ensures
            token.location == location,
            token.kind == kind,
    {
        Token { location, kind }
    }

    /// Where this token was found.
    pub fn location(&self) -> (location: &Location)
        ensures
            *location == self.location,
    {
        &self.location
    }

    /// How this token is named in a diagnostic.
    pub fn description(&self) -> (text: String)
        ensures
            text@ == description_of(self.kind@),
    {
        let text = match self.kind {
            TokenKind::EndOfFile => "EOF",
            TokenKind::Unknown(_) => "unknown symbol",
            TokenKind::Identifier(_) => "identifier",
            TokenKind::Boolean(_) => "boolean literal",
            TokenKind::Integer(_) => "integer literal",
            TokenKind::Decimal(_) => "decimal literal",
            TokenKind::Let => "let",
            TokenKind::Assign => "assignment",
        };
        String::from_str(text)
    }
}

/// A piece of interned text together with where it was found.
#[derive(Debug, Clone)]
pub struct AtomToken {
    pub location: Location,
    pub atom: DefaultAtom,
}

/// The mathematical value of an [`AtomToken`].
pub struct AtomTokenView {
    pub location: LocationView,
    pub text: Seq<char>,
}

impl View for AtomToken {
    type V = AtomTokenView;

    open spec fn view(&self) -> AtomTokenView {
        AtomTokenView { location: self.location@, text: atom_text(self.atom) }
    }
}

impl AtomToken {
    pub fn new(location: Location, atom: DefaultAtom) -> (token: AtomToken)
        ensures
            token.location == location,
            token.atom == atom,
    {
        AtomToken { location, atom }
    }
}

} // verus!
