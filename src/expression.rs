//! Expressions: the nodes that the parser builds.
use vstd::prelude::*;

use crate::location::{Location, LocationView};
use crate::token::{AtomToken, AtomTokenView};

verus! {

/// The fundamental unit of code in `mayim`, where everything is an expression: a name, a
/// literal, a binding, or the place where a construct failed to parse.
#[derive(Debug)]
pub enum Expression {
    Identifier(AtomToken),
    IntegerLiteral(AtomToken),
    DecimalLiteral(AtomToken),
    BooleanLiteral(AtomToken),
    BindingDeclaration(Box<BindingDeclaration>),
    Error(Error),
}

/// `let identifier := initialized_to`.
#[derive(Debug)]
pub struct BindingDeclaration {
    pub let_keyword: Location,
    pub identifier: AtomToken,
    pub assign_operator: Location,
    pub initialized_to: Expression,
}

/// A construct that failed to parse: where, and why.
#[derive(Debug)]
pub struct Error {
    pub location: Location,
    pub message: String,
}

/// The mathematical value of an [`Expression`].
pub enum ExpressionView {
    Identifier(AtomTokenView),
    IntegerLiteral(AtomTokenView),
    DecimalLiteral(AtomTokenView),
    BooleanLiteral(AtomTokenView),
    BindingDeclaration {
        let_keyword: LocationView,
        identifier: AtomTokenView,
        assign_operator: LocationView,
        initialized_to: Box<ExpressionView>,
    },
    Error { location: LocationView, message: Seq<char> },
}

impl View for Expression {
    type V = ExpressionView;

    open spec fn view(&self) -> ExpressionView
        decreases self,
    {
        match self {
            Expression::Identifier(t) => ExpressionView::Identifier(t@),
            Expression::IntegerLiteral(t) => ExpressionView::IntegerLiteral(t@),
            Expression::DecimalLiteral(t) => ExpressionView::DecimalLiteral(t@),
            Expression::BooleanLiteral(t) => ExpressionView::BooleanLiteral(t@),
            Expression::BindingDeclaration(d) => ExpressionView::BindingDeclaration {
                let_keyword: d.let_keyword@,
                identifier: d.identifier@,
                assign_operator: d.assign_operator@,
                initialized_to: Box::new(d.initialized_to.view()),
            },
            Expression::Error(e) => ExpressionView::Error {
                location: e.location@,
                message: e.message@,
            },
        }
    }
}

/// Where an expression starts.
pub open spec fn start_of_expression(e: ExpressionView) -> LocationView {
    match e {
        ExpressionView::Identifier(t) => t.location,
        ExpressionView::IntegerLiteral(t) => t.location,
        ExpressionView::DecimalLiteral(t) => t.location,
        ExpressionView::BooleanLiteral(t) => t.location,
        ExpressionView::BindingDeclaration { let_keyword, .. } => let_keyword,
        ExpressionView::Error { location, .. } => location,
    }
}

/// The views of a sequence of expressions.
pub open spec fn expression_views(expressions: Seq<Expression>) -> Seq<ExpressionView> {
    expressions.map_values(|e: Expression| e@)
}

impl Expression {
    /// Where this expression starts.
    pub fn location(&self) -> (location: Location)
        ensures
            location@ == start_of_expression(self@),
    {
        match self {
            Expression::Identifier(token)
            | Expression::IntegerLiteral(token)
            | Expression::DecimalLiteral(token)
            | Expression::BooleanLiteral(token) => token.location.duplicate(),
            Expression::BindingDeclaration(declaration) => declaration.let_keyword.duplicate(),
            Expression::Error(error) => error.location.duplicate(),
        }
    }
}

impl Error {
    pub fn new(location: Location, message: String) -> (error: Error)
        ensures
            error.location == location,
            error.message == message,
    {
        Error { location, message }
    }
}

} // verus!
