//! The tokenizer: a single left-to-right scan over the characters of a source text.
//!
//! [`scan`] states which spans of the text become tokens and of what kind; [`lex`] places each
//! of them at the location where it starts and closes the sequence with an end-of-file token.
//! [`tokenize`] computes exactly [`lex`].
use vstd::prelude::*;

use crate::atom::{intern, intern_chars};
use crate::chars::{
    is_alphabetic, is_alphabetic_char, is_alphanumeric, is_numeric, is_numeric_char,
    is_whitespace, is_whitespace_char,
};
use crate::location::{
    lemma_location_after_bounds, lemma_location_after_increases, location_after, precedes, Location,
};
use crate::token::{lexeme, Token, TokenKind, TokenKindView, TokenView};

verus! {

/// A stretch `start .. end` of the text (counted in characters) read as one token of `kind`.
pub struct Span {
    pub start: int,
    pub end: int,
    pub kind: TokenKindView,
}

/// The end of the run of whitespace that starts at `j`.
pub open spec fn whitespace_end(text: Seq<char>, j: int) -> int
    decreases text.len() - j,
{
    if 0 <= j < text.len() && is_whitespace_char(text[j]) {
        whitespace_end(text, j + 1)
    } else {
        j
    }
}

/// Whether `c` may continue a word.
pub open spec fn is_word_char(c: char) -> bool {
    is_alphabetic_char(c) || is_numeric_char(c) || c == '_'
}

/// The end of the run of word characters that starts at `j`.
pub open spec fn word_end(text: Seq<char>, j: int) -> int
    decreases text.len() - j,
{
    if 0 <= j < text.len() && is_word_char(text[j]) {
        word_end(text, j + 1)
    } else {
        j
    }
}

/// The end of the number that continues at `j`, and whether it holds a decimal point: numeric
/// characters, and the first `.` (if `dotted` says that none was read before).
pub open spec fn number_end(text: Seq<char>, j: int, dotted: bool) -> (int, bool)
    decreases text.len() - j,
{
    if 0 <= j < text.len() && !dotted && text[j] == '.' {
        number_end(text, j + 1, true)
    } else if 0 <= j < text.len() && is_numeric_char(text[j]) {
        number_end(text, j + 1, dotted)
    } else {
        (j, dotted)
    }
}

/// The kind of a word: the keyword `let`, a boolean, or else an identifier.
pub open spec fn word_kind(word: Seq<char>) -> TokenKindView {
    if word == "let"@ {
        TokenKindView::Let
    } else if word == "true"@ || word == "false"@ {
        TokenKindView::Boolean(word)
    } else {
        TokenKindView::Identifier(word)
    }
}

/// Whether the text continues at `i` with the assignment operator `:=`.
pub open spec fn assign_at(text: Seq<char>, i: int) -> bool {
    0 <= i && i + 1 < text.len() && text[i] == ':' && text[i + 1] == '='
}

pub proof fn lemma_whitespace_end(text: Seq<char>, j: int)
    requires
        0 <= j <= text.len(),
    ensures
        j <= whitespace_end(text, j) <= text.len(),
        forall|k: int| j <= k < whitespace_end(text, j) ==> is_whitespace_char(#[trigger] text[k]),
    decreases text.len() - j,
{
    if j < text.len() && is_whitespace_char(text[j]) {
        lemma_whitespace_end(text, j + 1);
    }
}

pub proof fn lemma_word_end(text: Seq<char>, j: int)
    requires
        0 <= j <= text.len(),
    ensures
        j <= word_end(text, j) <= text.len(),
    decreases text.len() - j,
{
    if j < text.len() && is_word_char(text[j]) {
        lemma_word_end(text, j + 1);
    }
}

pub proof fn lemma_number_end(text: Seq<char>, j: int, dotted: bool)
    requires
        0 <= j <= text.len(),
    ensures
        j <= number_end(text, j, dotted).0 <= text.len(),
    decreases text.len() - j,
{
    if j < text.len() && !dotted && text[j] == '.' {
        lemma_number_end(text, j + 1, true);
    } else if j < text.len() && is_numeric_char(text[j]) {
        lemma_number_end(text, j + 1, dotted);
    }
}

/// The spans that the scan reads from `i` on, in order. At each step the next character picks
/// the production: whitespace is skipped; a letter or `_` starts a word; a numeric character
/// starts a number; otherwise `:=` is an assignment, and any other character stands alone.
pub open spec fn scan(text: Seq<char>, i: int) -> Seq<Span>
    decreases text.len() - i,
{
    if i < 0 || i >= text.len() {
        Seq::empty()
    } else {
        let c = text[i];
        if is_whitespace_char(c) {
            let j = whitespace_end(text, i);
            proof {
                lemma_whitespace_end(text, i + 1);
            }
            scan(text, j)
        } else if is_alphabetic_char(c) || c == '_' {
            let j = word_end(text, i);
            proof {
                lemma_word_end(text, i + 1);
            }
            seq![Span { start: i, end: j, kind: word_kind(text.subrange(i, j)) }] + scan(text, j)
        } else if is_numeric_char(c) {
            let (j, dotted) = number_end(text, i, false);
            proof {
                lemma_number_end(text, i + 1, false);
                lemma_number_end(text, i + 1, true);
            }
            let kind = if dotted {
                TokenKindView::Decimal(text.subrange(i, j))
            } else {
                TokenKindView::Integer(text.subrange(i, j))
            };
            seq![Span { start: i, end: j, kind }] + scan(text, j)
        } else if assign_at(text, i) {
            seq![Span { start: i, end: i + 2, kind: TokenKindView::Assign }] + scan(text, i + 2)
        } else {
            seq![Span { start: i, end: i + 1, kind: TokenKindView::Unknown(text.subrange(i, i + 1)) }]
                + scan(text, i + 1)
        }
    }
}

/// The token read from a span of `text` in the file `filename`: located where the span starts.
pub open spec fn token_at(filename: Seq<char>, text: Seq<char>, span: Span) -> TokenView {
    TokenView { location: location_after(filename, text.take(span.start)), kind: span.kind }
}

/// The tokens read from the spans of `text`.
pub open spec fn located(filename: Seq<char>, text: Seq<char>, spans: Seq<Span>) -> Seq<TokenView> {
    spans.map_values(|span: Span| token_at(filename, text, span))
}

/// The tokens of the source `text` of the file `filename`: one for each span of the scan, then
/// an end-of-file token at the location reached after the whole text.
pub open spec fn lex(filename: Seq<char>, text: Seq<char>) -> Seq<TokenView> {
    located(filename, text, scan(text, 0)).push(
        TokenView { location: location_after(filename, text), kind: TokenKindView::EndOfFile },
    )
}

/// Each span of the scan from `i` lies within `i .. text.len()`, is not empty, and is not an
/// end-of-file token.
pub proof fn lemma_scan_spans(text: Seq<char>, i: int)
    requires
        0 <= i,
    ensures
        forall|k: int|
            0 <= k < scan(text, i).len() ==> i <= #[trigger] scan(text, i)[k].start
                < scan(text, i)[k].end <= text.len() && !(scan(text, i)[k].kind is EndOfFile),
    decreases text.len() - i,
{
    if i < text.len() {
        let c = text[i];
        if is_whitespace_char(c) {
            lemma_whitespace_end(text, i + 1);
            lemma_scan_spans(text, whitespace_end(text, i));
        } else if is_alphabetic_char(c) || c == '_' {
            lemma_word_end(text, i + 1);
            lemma_scan_spans(text, word_end(text, i));
        } else if is_numeric_char(c) {
            lemma_number_end(text, i + 1, false);
            lemma_number_end(text, i + 1, true);
            lemma_scan_spans(text, number_end(text, i, false).0);
        } else if assign_at(text, i) {
            lemma_scan_spans(text, i + 2);
        } else {
            lemma_scan_spans(text, i + 1);
        }
        let spans = scan(text, i);
        if !is_whitespace_char(c) {
            let rest = scan(text, spans[0].end);
            assert(spans.drop_first() == rest);
            assert forall|k: int| 0 < k < spans.len() implies spans[k] == rest[k - 1] by {
                assert(spans[k] == spans.drop_first()[k - 1]);
            }
        }
    }
}

/// Tokenizing any text ends: it gives a non-empty sequence whose last token, and no other, marks
/// the end of the file, at a location that comes after that of every other token.
pub proof fn lemma_lex_ends_once(filename: Seq<char>, text: Seq<char>)
    ensures
        lex(filename, text).len() > 0,
        lex(filename, text).last().kind is EndOfFile,
        forall|k: int|
            0 <= k < lex(filename, text).len() - 1 ==> {
                &&& !(#[trigger] lex(filename, text)[k].kind is EndOfFile)
                &&& precedes(lex(filename, text)[k].location, lex(filename, text).last().location)
                &&& lex(filename, text)[k].location != lex(filename, text).last().location
            },
{
    let tokens = lex(filename, text);
    let spans = scan(text, 0);
    lemma_scan_spans(text, 0);
    assert(text.take(text.len() as int) =~= text);
    assert forall|k: int| 0 <= k < tokens.len() - 1 implies {
        &&& !(#[trigger] tokens[k].kind is EndOfFile)
        &&& precedes(tokens[k].location, tokens.last().location)
        &&& tokens[k].location != tokens.last().location
    } by {
        assert(tokens[k] == token_at(filename, text, spans[k]));
        lemma_location_after_increases(filename, text, spans[k].start, text.len() as int);
    }
}

/// Whether `spans` cover the text from `from` on: in order, each one reads exactly its lexeme
/// from the text, and every character outside them is whitespace.
pub open spec fn spans_cover(text: Seq<char>, from: int, spans: Seq<Span>) -> bool
    decreases spans.len(),
{
    if spans.len() == 0 {
        forall|k: int| from <= k < text.len() ==> is_whitespace_char(#[trigger] text[k])
    } else {
        &&& from <= spans[0].start < spans[0].end <= text.len()
        &&& forall|k: int| from <= k < spans[0].start ==> is_whitespace_char(#[trigger] text[k])
        &&& text.subrange(spans[0].start, spans[0].end) == lexeme(spans[0].kind)
        &&& spans_cover(text, spans[0].end, spans.drop_first())
    }
}

proof fn lemma_cover_after_whitespace(text: Seq<char>, i: int, j: int, spans: Seq<Span>)
    requires
        i <= j,
        spans_cover(text, j, spans),
        forall|k: int| i <= k < j ==> is_whitespace_char(#[trigger] text[k]),
    ensures
        spans_cover(text, i, spans),
{
}

proof fn lemma_scan_covers(text: Seq<char>, i: int)
    requires
        0 <= i <= text.len(),
    ensures
        spans_cover(text, i, scan(text, i)),
    decreases text.len() - i,
{
    if i < text.len() {
        let c = text[i];
        if is_whitespace_char(c) {
            lemma_whitespace_end(text, i);
            lemma_whitespace_end(text, i + 1);
            lemma_scan_covers(text, whitespace_end(text, i));
            lemma_cover_after_whitespace(text, i, whitespace_end(text, i), scan(text, i));
        } else {
            let spans = scan(text, i);
            if is_alphabetic_char(c) || c == '_' {
                lemma_word_end(text, i + 1);
                lemma_scan_covers(text, word_end(text, i));
                reveal_strlit("let");
            } else if is_numeric_char(c) {
                lemma_number_end(text, i + 1, false);
                lemma_number_end(text, i + 1, true);
                lemma_scan_covers(text, number_end(text, i, false).0);
            } else if assign_at(text, i) {
                lemma_scan_covers(text, i + 2);
                reveal_strlit(":=");
                assert(text.subrange(i, i + 2) =~= ":="@);
            } else {
                lemma_scan_covers(text, i + 1);
            }
            assert(spans.drop_first() == scan(text, spans[0].end));
        }
    }
}

/// The tokens of a text account for all of it. Each token but the last is read from a span of
/// the text that holds exactly its lexeme, and stands at the location reached before that span;
/// the spans follow one another in order, and nothing but whitespace lies between or around
/// them.
pub proof fn lemma_tokens_cover_source(filename: Seq<char>, text: Seq<char>)
    ensures
        lex(filename, text).len() == scan(text, 0).len() + 1,
        forall|k: int|
            0 <= k < scan(text, 0).len() ==> #[trigger] lex(filename, text)[k] == token_at(
                filename,
                text,
                scan(text, 0)[k],
            ),
        spans_cover(text, 0, scan(text, 0)),
{
    lemma_scan_covers(text, 0);
}

/// The views of a sequence of tokens.
pub open spec fn token_views(tokens: Seq<Token>) -> Seq<TokenView> {
    tokens.map_values(|t: Token| t@)
}

/// Convert the `source` into the tokens it holds, located in the file `filename`.
pub fn tokenize(filename: &str, source: &str) -> (tokens: Vec<Token>)
    requires
        source@.len() < u32::MAX,
    ensures
        token_views(tokens@) == lex(filename@, source@),
{
    Tokenizer::new(filename, source).tokenize()
}

/// The state of a scan: the characters of the source, how many of them have been read, and
/// the location reached.
struct Tokenizer {
    location: Location,
    index: usize,
    chars: Vec<char>,
}

impl Tokenizer {
    spec fn wf(&self) -> bool {
        &&& self.index <= self.chars.len()
        &&& self.chars.len() < u32::MAX
        &&& self.location@ == location_after(
            self.location@.filename,
            self.chars@.take(self.index as int),
        )
    }

    fn new(filename: &str, source: &str) -> (tokenizer: Tokenizer)
        requires
            source@.len() < u32::MAX,
        ensures
            tokenizer.wf(),
            tokenizer.index == 0,
            tokenizer.chars@ == source@,
            tokenizer.location@.filename == filename@,
    {
        let mut chars: Vec<char> = Vec::new();
        for c in it: source.chars()
            invariant
                chars@ == it.seq().take(it.index() as int),
        {
            chars.push(c);
        }
        let tokenizer = Tokenizer { location: Location::new(intern(filename), 1, 1), index: 0, chars };
        assert(tokenizer.chars@.take(0) =~= Seq::<char>::empty());
        tokenizer
    }

    /// Read one character.
    fn advance(&mut self)
        requires
            old(self).wf(),
            old(self).index < old(self).chars.len(),
        ensures
            final(self).wf(),
            final(self).index == old(self).index + 1,
            final(self).chars == old(self).chars,
            final(self).location@.filename == old(self).location@.filename,
    {
        let c = self.chars[self.index];
        proof {
            lemma_location_after_bounds(self.location@.filename, self.chars@.take(self.index as int));
        }
        self.location = self.location.next(c);
        self.index = self.index + 1;
        assert(self.chars@.take(self.index as int).drop_last() =~= self.chars@.take(self.index - 1));
    }

    /// Read the run of whitespace ahead.
    fn eat_whitespace(&mut self)
        requires
            old(self).wf(),
        ensures
            final(self).wf(),
            final(self).index == whitespace_end(old(self).chars@, old(self).index as int),
            final(self).chars == old(self).chars,
            final(self).location@.filename == old(self).location@.filename,
    {
        while self.index < self.chars.len() && is_whitespace(self.chars[self.index])
            invariant
                self.wf(),
                self.chars == old(self).chars,
                self.location@.filename == old(self).location@.filename,
                whitespace_end(self.chars@, self.index as int) == whitespace_end(
                    old(self).chars@,
                    old(self).index as int,
                ),
            decreases self.chars.len() - self.index,
        {
            self.advance();
        }
    }

    /// Read the run of word characters ahead.
    fn eat_word(&mut self)
        requires
            old(self).wf(),
        ensures
            final(self).wf(),
            final(self).index == word_end(old(self).chars@, old(self).index as int),
            final(self).chars == old(self).chars,
            final(self).location@.filename == old(self).location@.filename,
    {
        while self.index < self.chars.len() && (is_alphanumeric(self.chars[self.index])
            || self.chars[self.index] == '_')
            invariant
                self.wf(),
                self.chars == old(self).chars,
                self.location@.filename == old(self).location@.filename,
                word_end(self.chars@, self.index as int) == word_end(
                    old(self).chars@,
                    old(self).index as int,
                ),
            decreases self.chars.len() - self.index,
        {
            self.advance();
        }
    }

    /// Read the number ahead, and say whether it holds a decimal point.
    fn eat_number(&mut self) -> (dotted: bool)
        requires
            old(self).wf(),
        ensures
            final(self).wf(),
            (final(self).index as int, dotted) == number_end(
                old(self).chars@,
                old(self).index as int,
                false,
            ),
            final(self).chars == old(self).chars,
            final(self).location@.filename == old(self).location@.filename,
    {
        let mut dotted = false;
        while self.index < self.chars.len() && ((!dotted && self.chars[self.index] == '.')
            || is_numeric(self.chars[self.index]))
            invariant
                self.wf(),
                self.chars == old(self).chars,
                self.location@.filename == old(self).location@.filename,
                number_end(self.chars@, self.index as int, dotted) == number_end(
                    old(self).chars@,
                    old(self).index as int,
                    false,
                ),
            decreases self.chars.len() - self.index,
        {
            if !dotted && self.chars[self.index] == '.' {
                dotted = true;
            }
            self.advance();
        }
        dotted
    }

    /// Read the characters of `expected` if the text continues with them.
    fn eat(&mut self, expected: &[char]) -> (eaten: bool)
        requires
            old(self).wf(),
        ensures
            final(self).wf(),
            eaten == (old(self).index + expected@.len() <= old(self).chars.len()
                && old(self).chars@.subrange(
                old(self).index as int,
                old(self).index + expected@.len(),
            ) == expected@),
            final(self).index == if eaten {
                old(self).index + expected@.len()
            } else {
                old(self).index as int
            },
            final(self).chars == old(self).chars,
            final(self).location@.filename == old(self).location@.filename,
    {
        if !self.continues_with(expected) {
            return false;
        }
        let mut k: usize = 0;
        while k < expected.len()
            invariant
                self.wf(),
                self.chars == old(self).chars,
                self.location@.filename == old(self).location@.filename,
                k <= expected@.len(),
                old(self).index + expected@.len() <= old(self).chars.len(),
                self.index == old(self).index + k,
            decreases expected@.len() - k,
        {
            self.advance();
            k = k + 1;
        }
        true
    }

    /// Whether the text continues at the current index with the characters of `expected`.
    fn continues_with(&self, expected: &[char]) -> (r: bool)
        requires
            self.wf(),
        ensures
            r == (self.index + expected@.len() <= self.chars.len() && self.chars@.subrange(
                self.index as int,
                self.index + expected@.len(),
            ) == expected@),
    {
        if expected.len() > self.chars.len() - self.index {
            return false;
        }
        self.lexeme_is(self.index, self.index + expected.len(), expected)
    }

    /// Whether the characters `start .. end` are those of `expected`.
    fn lexeme_is(&self, start: usize, end: usize, expected: &[char]) -> (r: bool)
        requires
            start <= end <= self.chars.len(),
        ensures
            r == (self.chars@.subrange(start as int, end as int) == expected@),
    {
        if end - start != expected.len() {
            assert(self.chars@.subrange(start as int, end as int).len() != expected@.len());
            return false;
        }
        let mut k: usize = 0;
        while k < expected.len()
            invariant
                start <= end <= self.chars.len(),
                end - start == expected@.len(),
                k <= expected@.len(),
                forall|m: int| 0 <= m < k ==> self.chars@[start + m] == expected@[m],
            decreases expected@.len() - k,
        {
            if self.chars[start + k] != expected[k] {
                assert(self.chars@.subrange(start as int, end as int)[k as int] != expected@[k as int]);
                return false;
            }
            k = k + 1;
        }
        assert(self.chars@.subrange(start as int, end as int) =~= expected@);
        true
    }

    /// The kind of the word `start .. end`.
    fn word_kind(&self, start: usize, end: usize) -> (kind: TokenKind)
        requires
            start <= end <= self.chars.len(),
        ensures
            kind@ == word_kind(self.chars@.subrange(start as int, end as int)),
    {
        proof {
            reveal_strlit("let");
            reveal_strlit("true");
            reveal_strlit("false");
        }
        let word = &self.chars.as_slice()[start..end];
        let keyword: &[char] = &['l', 'e', 't'];
        let yes: &[char] = &['t', 'r', 'u', 'e'];
        let no: &[char] = &['f', 'a', 'l', 's', 'e'];
        assert(keyword@ == "let"@ && yes@ == "true"@ && no@ == "false"@);
        if self.lexeme_is(start, end, keyword) {
            TokenKind::Let
        } else if self.lexeme_is(start, end, yes) || self.lexeme_is(start, end, no) {
            TokenKind::Boolean(intern_chars(word))
        } else {
            TokenKind::Identifier(intern_chars(word))
        }
    }

    /// Read the whole text.
    fn tokenize(self) -> (tokens: Vec<Token>)
        requires
            self.wf(),
            self.index == 0,
        ensures
            token_views(tokens@) == lex(self.location@.filename, self.chars@),
    {
        let mut scanner = self;
        let ghost filename = scanner.location@.filename;
        let ghost text = scanner.chars@;
        let mut tokens: Vec<Token> = Vec::new();
        while scanner.index < scanner.chars.len()
            invariant
                scanner.wf(),
                scanner.chars@ == text,
                scanner.location@.filename == filename,
                located(filename, text, scan(text, 0)) == token_views(tokens@) + located(
                    filename,
                    text,
                    scan(text, scanner.index as int),
                ),
            decreases scanner.chars.len() - scanner.index,
        {
            let location = scanner.location.duplicate();
            let start = scanner.index;
            let c = scanner.chars[scanner.index];
            let ghost rest = scan(text, start as int);
            if is_whitespace(c) {
                scanner.eat_whitespace();
                proof {
                    lemma_whitespace_end(text, start + 1);
                }
                assert(scan(text, scanner.index as int) == rest);
            } else {
                let kind = if is_alphabetic(c) || c == '_' {
                    scanner.eat_word();
                    proof {
                        lemma_word_end(text, start + 1);
                    }
                    scanner.word_kind(start, scanner.index)
                } else if is_numeric(c) {
                    let dotted = scanner.eat_number();
                    proof {
                        lemma_number_end(text, start + 1, false);
                        lemma_number_end(text, start + 1, true);
                    }
                    let atom = intern_chars(&scanner.chars.as_slice()[start..scanner.index]);
                    if dotted {
                        TokenKind::Decimal(atom)
                    } else {
                        TokenKind::Integer(atom)
                    }
                } else {
                    let assign: &[char] = &[':', '='];
                    assert(assign@ == seq![':', '=']);
                    let eaten = scanner.eat(assign);
                    proof {
                        if eaten {
                            assert(text.subrange(start as int, start + 2)[0] == ':');
                            assert(text.subrange(start as int, start + 2)[1] == '=');
                        } else if assign_at(text, start as int) {
                            assert(text.subrange(start as int, start + 2) =~= assign@);
                        }
                    }
                    if eaten {
                        TokenKind::Assign
                    } else {
                        scanner.advance();
                        TokenKind::Unknown(intern_chars(&scanner.chars.as_slice()[start..scanner.index]))
                    }
                };
                let token = Token::new(location, kind);
                let ghost span = Span { start: start as int, end: scanner.index as int, kind: kind@ };
                assert(rest == seq![span] + scan(text, scanner.index as int));
                assert(token@ == token_at(filename, text, span));
                let ghost before = token_views(tokens@);
                tokens.push(token);
                assert(token_views(tokens@) =~= before.push(token@));
                assert(located(filename, text, rest) =~= seq![token@] + located(
                    filename,
                    text,
                    scan(text, scanner.index as int),
                ));
            }
        }
        assert(text.take(text.len() as int) =~= text);
        let ghost before = token_views(tokens@);
        tokens.push(Token::new(scanner.location, TokenKind::EndOfFile));
        assert(token_views(tokens@) =~= before.push(tokens@.last()@));
        tokens
    }
}

} // verus!
