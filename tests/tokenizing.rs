use mayim_syntax::{tokenize, AtomToken, Located, Location, Token, TokenKind};
use std::vec::IntoIter;
use string_cache::DefaultAtom as Atom;

const FILENAME: &str = "test.mayim";

fn assert_next_is(tokens: &mut IntoIter<Token>, expected: TokenKind) {
    let got = tokens.next().map(|it| it.kind).unwrap();
    assert_eq!(got, expected);
}

fn kinds(source: &str) -> Vec<TokenKind> {
    tokenize(FILENAME, source).into_iter().map(|t| t.kind).collect()
}

fn atom(text: &str) -> Atom {
    Atom::from(text)
}

#[test]
fn should_tokenize_let_expression() {
    let source = "let x := 3";
    let tokens = &mut tokenize(FILENAME, source).into_iter();

    assert_next_is(tokens, TokenKind::Let);
    assert_next_is(tokens, TokenKind::Identifier(Atom::from("x")));
    assert_next_is(tokens, TokenKind::Assign);
    assert_next_is(tokens, TokenKind::Integer(Atom::from("3")));
    assert_next_is(tokens, TokenKind::EndOfFile);
    assert!(tokens.next().is_none());
}

#[test]
fn should_format_properly() {
    let location = Location::new(Atom::from("test.mayim"), 1, 2);

    assert_eq!(location.to_string(), "test.mayim:1:2")
}

#[test]
fn should_get_next_location_based_on_char() {
    let starting = Location::new(Atom::from("test.mayim"), 1, 2);

    let read_non_newline = starting.next('b');
    assert_eq!(read_non_newline.filename, starting.filename);
    assert_eq!(read_non_newline.line, 1);
    assert_eq!(read_non_newline.column, 3);

    let read_newline = starting.next('\n');
    assert_eq!(read_newline.filename, starting.filename);
    assert_eq!(read_newline.line, 2);
    assert_eq!(read_newline.column, 1);
}

#[test]
fn maximal_munch_reads_one_dot_per_number() {
    assert_eq!(
        kinds("abc123_d 42 3.14.5"),
        vec![
            TokenKind::Identifier(atom("abc123_d")),
            TokenKind::Integer(atom("42")),
            TokenKind::Decimal(atom("3.14")),
            TokenKind::Unknown(atom(".")),
            TokenKind::Integer(atom("5")),
            TokenKind::EndOfFile,
        ]
    );
}

#[test]
fn keywords_match_whole_words_only() {
    assert_eq!(
        kinds("let letter true truest false"),
        vec![
            TokenKind::Let,
            TokenKind::Identifier(atom("letter")),
            TokenKind::Boolean(atom("true")),
            TokenKind::Identifier(atom("truest")),
            TokenKind::Boolean(atom("false")),
            TokenKind::EndOfFile,
        ]
    );
}

#[test]
fn empty_source_is_just_end_of_file_at_start() {
    let tokens = tokenize(FILENAME, "");
    assert_eq!(tokens.len(), 1);
    assert_eq!(tokens[0].kind, TokenKind::EndOfFile);
    assert_eq!((tokens[0].location.line, tokens[0].location.column), (1, 1));
    assert_eq!(&tokens[0].location.filename, FILENAME);
}

#[test]
fn end_of_file_comes_once_after_the_last_character() {
    let tokens = tokenize("other.mayim", "a\nbc \n");
    assert_eq!(tokens.len(), 3);
    let last = tokens.last().unwrap();
    assert_eq!(last.kind, TokenKind::EndOfFile);
    assert_eq!((last.location.line, last.location.column), (3, 1));
    for token in &tokens[..tokens.len() - 1] {
        assert_ne!(token.kind, TokenKind::EndOfFile);
        assert!((token.location.line, token.location.column) < (last.location.line, last.location.column));
    }
    assert_eq!(&last.location.filename, "other.mayim");
}

#[test]
fn tokens_carry_line_and_column() {
    let tokens = tokenize(FILENAME, "let\n  x:=y");
    let places: Vec<(u32, u32)> = tokens.iter().map(|t| (t.location.line, t.location.column)).collect();
    assert_eq!(places, vec![(1, 1), (2, 3), (2, 4), (2, 6), (2, 7)]);
}

#[test]
fn lexemes_and_whitespace_make_up_the_source() {
    let source = " ab_1 :=  7.25\t?x\n";
    let tokens = tokenize(FILENAME, source);
    let mut lexemes = String::new();
    for token in &tokens {
        match &token.kind {
            TokenKind::EndOfFile => {}
            TokenKind::Let => lexemes.push_str("let"),
            TokenKind::Assign => lexemes.push_str(":="),
            TokenKind::Unknown(a)
            | TokenKind::Identifier(a)
            | TokenKind::Boolean(a)
            | TokenKind::Integer(a)
            | TokenKind::Decimal(a) => lexemes.push_str(a),
        }
    }
    let non_whitespace: String = source.chars().filter(|c| !c.is_whitespace()).collect();
    assert_eq!(lexemes, non_whitespace);
}

#[test]
fn colon_alone_is_unknown() {
    assert_eq!(
        kinds(": =:"),
        vec![
            TokenKind::Unknown(atom(":")),
            TokenKind::Unknown(atom("=")),
            TokenKind::Unknown(atom(":")),
            TokenKind::EndOfFile,
        ]
    );
}

#[test]
fn unicode_letters_and_digits_are_classified() {
    assert_eq!(
        kinds("été _x1 ٣4"),
        vec![
            TokenKind::Identifier(atom("été")),
            TokenKind::Identifier(atom("_x1")),
            TokenKind::Integer(atom("٣4")),
            TokenKind::EndOfFile,
        ]
    );
    let tokens = tokenize(FILENAME, "été x");
    assert_eq!(tokens[1].location.column, 5);
}

#[test]
fn number_may_end_with_its_dot() {
    assert_eq!(
        kinds("1. 2..3"),
        vec![
            TokenKind::Decimal(atom("1.")),
            TokenKind::Decimal(atom("2.")),
            TokenKind::Unknown(atom(".")),
            TokenKind::Integer(atom("3")),
            TokenKind::EndOfFile,
        ]
    );
}

#[test]
fn descriptions_name_each_kind() {
    let at = || Location::new(atom(FILENAME), 1, 1);
    let described = |kind: TokenKind| Token::new(at(), kind).description();
    assert_eq!(described(TokenKind::EndOfFile), "EOF");
    assert_eq!(described(TokenKind::Let), "let");
    assert_eq!(described(TokenKind::Assign), "assignment");
    assert_eq!(described(TokenKind::Unknown(atom("?"))), "unknown symbol");
    assert_eq!(described(TokenKind::Identifier(atom("a"))), "identifier");
    assert_eq!(described(TokenKind::Boolean(atom("true"))), "boolean literal");
    assert_eq!(described(TokenKind::Integer(atom("1"))), "integer literal");
    assert_eq!(described(TokenKind::Decimal(atom("1.5"))), "decimal literal");
}

#[test]
fn location_prints_large_numbers_in_decimal() {
    let location = Location::new(atom("dir/file.mayim"), 120, 4005);
    assert_eq!(location.to_string(), "dir/file.mayim:120:4005");
    assert_eq!(location.duplicate().to_string(), "dir/file.mayim:120:4005");
}

#[test]
fn token_and_located_keep_their_parts() {
    let token = Token::new(Location::new(atom(FILENAME), 2, 7), TokenKind::Assign);
    assert_eq!((token.location().line, token.location().column), (2, 7));
    let located = Located::new(Location::new(atom(FILENAME), 4, 1), 99u8);
    assert_eq!(located.data, 99);
    assert_eq!(located.location.line, 4);
    let atom_token = AtomToken::new(Location::new(atom(FILENAME), 1, 9), atom("name"));
    assert_eq!(&atom_token.atom, "name");
    assert_eq!(atom_token.location.column, 9);
}
