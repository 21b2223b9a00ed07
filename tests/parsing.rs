use mayim_syntax::{
    parse, parse_tokens, AtomToken, BindingDeclaration, Error, Expression, Location, Token,
    TokenKind, Tokens,
};
use string_cache::DefaultAtom as Atom;

const FILENAME: &str = "test.mayim";

fn text_of(token: &AtomToken) -> &str {
    &token.atom
}

#[test]
fn should_parse_simple_identifier_expression() {
    let source = "john_j4cob";

    let mut expressions = parse(FILENAME, source).into_iter();

    match expressions.next() {
        Some(Expression::Identifier(AtomToken { atom, .. })) => assert_eq!(&atom, "john_j4cob"),
        other => panic!("Found unexpected expression: {:#?}", other),
    }
}

#[test]
fn should_parse_numeric_expressions() {
    let source = "42 3.14";

    let mut expressions = parse(FILENAME, source).into_iter();

    match expressions.next() {
        Some(Expression::IntegerLiteral(AtomToken { atom, .. })) => assert_eq!(&atom, "42"),
        other => panic!("Found unexpected expression: {:#?}", other),
    }
    match expressions.next() {
        Some(Expression::DecimalLiteral(AtomToken { atom, .. })) => assert_eq!(&atom, "3.14"),
        other => panic!("Found unexpected expression: {:#?}", other),
    }
}

#[test]
fn should_parse_simple_assignment_expression() {
    let source = "let x := 3";

    let mut expressions = parse(FILENAME, source).into_iter();

    match expressions.next() {
        Some(Expression::BindingDeclaration(binding_declaration)) => {
            let BindingDeclaration { identifier, initialized_to, .. } = *binding_declaration;
            assert_eq!(&identifier.atom, "x");
            match initialized_to {
                Expression::IntegerLiteral(AtomToken { atom, .. }) => assert_eq!(&atom, "3"),
                other => panic!("Found unexpected expression: {:#?}", other),
            }
        }
        other => panic!("Found unexpected expression: {:#?}", other),
    }
}

#[test]
fn should_return_error_if_assignment_token_at_start_of_expression() {
    let source = "=";

    let mut expressions = parse(FILENAME, source).into_iter();

    match expressions.next() {
        Some(Expression::Error(Error { message, .. })) => {
            assert!(message.contains("Unexpected token"))
        }
        other => panic!("Found unexpected expression: {:#?}", other),
    }
}

#[test]
fn binding_declaration_is_the_only_expression_of_let_x_assign_3() {
    let expressions = parse(FILENAME, "let x := 3");
    assert_eq!(expressions.len(), 1);
    match &expressions[0] {
        Expression::BindingDeclaration(declaration) => {
            assert_eq!(text_of(&declaration.identifier), "x");
            assert_eq!((declaration.let_keyword.line, declaration.let_keyword.column), (1, 1));
            assert_eq!((declaration.identifier.location.line, declaration.identifier.location.column), (1, 5));
            assert_eq!((declaration.assign_operator.line, declaration.assign_operator.column), (1, 7));
            match &declaration.initialized_to {
                Expression::IntegerLiteral(token) => {
                    assert_eq!(text_of(token), "3");
                    assert_eq!(token.location.column, 10);
                }
                other => panic!("Found unexpected expression: {:#?}", other),
            }
        }
        other => panic!("Found unexpected expression: {:#?}", other),
    }
}

#[test]
fn four_literals_parse_in_order() {
    let expressions = parse(FILENAME, "42 3.14 true false");
    assert_eq!(expressions.len(), 4);
    assert!(matches!(&expressions[0], Expression::IntegerLiteral(t) if text_of(t) == "42"));
    assert!(matches!(&expressions[1], Expression::DecimalLiteral(t) if text_of(t) == "3.14"));
    assert!(matches!(&expressions[2], Expression::BooleanLiteral(t) if text_of(t) == "true"));
    assert!(matches!(&expressions[3], Expression::BooleanLiteral(t) if text_of(t) == "false"));
}

#[test]
fn bare_assignment_is_one_error() {
    let expressions = parse(FILENAME, ":=");
    assert_eq!(expressions.len(), 1);
    match &expressions[0] {
        Expression::Error(error) => {
            assert_eq!(error.message, "Unexpected token: assignment, expected an expression");
            assert_eq!((error.location.line, error.location.column), (1, 1));
        }
        other => panic!("Found unexpected expression: {:#?}", other),
    }
}

#[test]
fn missing_identifier_after_let_is_an_error() {
    let expressions = parse(FILENAME, "let := 3");
    assert!(!expressions.is_empty());
    match &expressions[0] {
        Expression::Error(error) => {
            assert_eq!(error.message, "Unexpected token: assignment, expected identifier");
            assert_eq!(error.location.column, 5);
        }
        other => panic!("Found unexpected expression: {:#?}", other),
    }
    assert!(expressions
        .iter()
        .all(|e| !matches!(e, Expression::BindingDeclaration(_))));
    assert_eq!(expressions.len(), 2);
    assert!(matches!(&expressions[1], Expression::IntegerLiteral(t) if text_of(t) == "3"));
}

#[test]
fn missing_assignment_after_identifier_is_an_error() {
    let expressions = parse(FILENAME, "let x 3");
    assert_eq!(expressions.len(), 1);
    match &expressions[0] {
        Expression::Error(error) => {
            assert_eq!(error.message, "Unexpected token: integer literal, expected assignment");
            assert_eq!(error.location.column, 7);
        }
        other => panic!("Found unexpected expression: {:#?}", other),
    }
}

#[test]
fn binding_cut_short_by_end_of_file_holds_an_error() {
    let expressions = parse(FILENAME, "let x :=");
    assert_eq!(expressions.len(), 1);
    match &expressions[0] {
        Expression::BindingDeclaration(declaration) => match &declaration.initialized_to {
            Expression::Error(error) => {
                assert_eq!(error.message, "Unexpected token: EOF, expected an expression");
                assert_eq!(error.location.column, 9);
            }
            other => panic!("Found unexpected expression: {:#?}", other),
        },
        other => panic!("Found unexpected expression: {:#?}", other),
    }
}

#[test]
fn empty_source_parses_to_nothing() {
    assert!(parse(FILENAME, "").is_empty());
}

#[test]
fn whitespace_only_source_parses_to_nothing() {
    assert!(parse(FILENAME, " \n\t  \n").is_empty());
}

#[test]
fn nested_bindings_parse_right_to_left() {
    let expressions = parse(FILENAME, "let a := let b := c d");
    assert_eq!(expressions.len(), 2);
    match &expressions[0] {
        Expression::BindingDeclaration(outer) => {
            assert_eq!(text_of(&outer.identifier), "a");
            match &outer.initialized_to {
                Expression::BindingDeclaration(inner) => {
                    assert_eq!(text_of(&inner.identifier), "b");
                    assert!(matches!(&inner.initialized_to, Expression::Identifier(t) if text_of(t) == "c"));
                }
                other => panic!("Found unexpected expression: {:#?}", other),
            }
        }
        other => panic!("Found unexpected expression: {:#?}", other),
    }
    assert!(matches!(&expressions[1], Expression::Identifier(t) if text_of(t) == "d"));
}

#[test]
fn unknown_character_is_an_error_naming_it() {
    let expressions = parse(FILENAME, "x\n  ?");
    assert_eq!(expressions.len(), 2);
    match &expressions[1] {
        Expression::Error(error) => {
            assert_eq!(error.message, "Unexpected token: unknown symbol, expected an expression");
            assert_eq!((error.location.line, error.location.column), (2, 3));
        }
        other => panic!("Found unexpected expression: {:#?}", other),
    }
}

#[test]
fn expression_location_is_where_it_starts() {
    let expressions = parse(FILENAME, "  let y := 1\n7.5");
    assert_eq!(expressions.len(), 2);
    let first = expressions[0].location();
    assert_eq!((first.line, first.column), (1, 3));
    assert_eq!(&first.filename, FILENAME);
    let second = expressions[1].location();
    assert_eq!((second.line, second.column), (2, 1));
}

fn token(line: u32, column: u32, kind: TokenKind) -> Token {
    Token::new(Location::new(Atom::from(FILENAME), line, column), kind)
}

#[test]
fn parser_stops_at_end_of_file() {
    let tokens = vec![
        token(1, 1, TokenKind::Integer(Atom::from("1"))),
        token(1, 2, TokenKind::EndOfFile),
        token(1, 3, TokenKind::Integer(Atom::from("2"))),
        token(1, 4, TokenKind::EndOfFile),
    ];
    let expressions = parse_tokens(tokens);
    assert_eq!(expressions.len(), 1);
    assert!(matches!(&expressions[0], Expression::IntegerLiteral(t) if text_of(t) == "1"));
}

#[test]
fn cursor_reads_in_order_and_takes_one_token_back() {
    let mut cursor = Tokens::new(vec![
        token(1, 1, TokenKind::Let),
        token(1, 5, TokenKind::Identifier(Atom::from("x"))),
        token(1, 6, TokenKind::EndOfFile),
    ]);
    assert!(cursor.has_next());
    let first = cursor.next();
    assert_eq!(first.kind, TokenKind::Let);
    cursor.put_back(first);
    assert_eq!(cursor.next().kind, TokenKind::Let);
    assert_eq!(cursor.next().kind, TokenKind::Identifier(Atom::from("x")));
    assert!(cursor.has_next());
    assert_eq!(cursor.next().kind, TokenKind::EndOfFile);
    assert!(!cursor.has_next());
}

#[test]
fn error_keeps_location_and_message() {
    let location = Location::new(Atom::from(FILENAME), 3, 4);
    let error = Error::new(location, String::from("bad"));
    assert_eq!((error.location.line, error.location.column), (3, 4));
    assert_eq!(error.message, "bad");
}
