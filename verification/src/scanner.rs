//! The scanner: from source text to tokens.
//!
//! What the scanner produces is defined by [`scan`], a function of the
//! characters of the source, of the offset at which they stand in the whole
//! buffer, and of the string table. [`Scanner::scan_tokens`] computes it.

use vstd::prelude::*;
use vstd::std_specs::iter::IteratorSpec;
use vstd::string::*;
use crate::chars::{
    char_is_alphabetic, is_ascii_digit, is_digit, is_identifier, is_identifier_char,
    lemma_encode_subrange, lemma_utf8_len_step, len_utf8, utf8_len,
};
use crate::error::RuntimeError;
use crate::interner::{
    keyword_or_identifier, lemma_with_symbol, symbol_of, symbol_type, with_symbol, Interner,
};
use crate::literal::LiteralValue;
use crate::token::{SourcePosition, Token, TokenType};

verus! {

/// The character at a place, or NUL past the end.
pub open spec fn peek_at(chars: Seq<char>, pos: int) -> char {
    if 0 <= pos < chars.len() {
        chars[pos]
    } else {
        '\0'
    }
}

/// How many digits stand at `pos` and after it without a break.
pub open spec fn digit_run(chars: Seq<char>, pos: int) -> nat
    decreases chars.len() - pos,
{
    if 0 <= pos < chars.len() && is_digit(chars[pos]) {
        1 + digit_run(chars, pos + 1)
    } else {
        0
    }
}

/// How many identifier characters stand at `pos` and after it without a
/// break.
pub open spec fn identifier_run(chars: Seq<char>, pos: int) -> nat
    decreases chars.len() - pos,
{
    if 0 <= pos < chars.len() && is_identifier_char(chars[pos]) {
        1 + identifier_run(chars, pos + 1)
    } else {
        0
    }
}

/// How many characters other than `stop` stand at `pos` and after it
/// without a break.
pub open spec fn run_until(chars: Seq<char>, pos: int, stop: char) -> nat
    decreases chars.len() - pos,
{
    if 0 <= pos < chars.len() && chars[pos] != stop {
        1 + run_until(chars, pos + 1, stop)
    } else {
        0
    }
}

/// How many newlines stand in `chars[from..to]`.
pub open spec fn newlines(chars: Seq<char>, from: int, to: int) -> nat
    decreases to - from,
{
    if 0 <= from < to <= chars.len() {
        newlines(chars, from, to - 1) + if chars[to - 1] == '\n' {
            1nat
        } else {
            0nat
        }
    } else {
        0
    }
}

/// What one lexeme is.
pub enum LexKind {
    /// An operator or a delimiter.
    Punct(TokenType),
    /// An identifier or a keyword.
    Name,
    Number,
    /// A string literal with both its quotes.
    Text,
    /// White space or a comment: no token.
    Blank,
    /// A character that starts no lexeme.
    Unexpected,
    /// A string literal without its closing quote.
    Unterminated,
}

/// One lexeme: what it is and how many characters follow its first.
pub struct Lexeme {
    pub kind: LexKind,
    pub more: nat,
}

impl Lexeme {
    /// How many characters the lexeme takes.
    pub open spec fn len(self) -> nat {
        1 + self.more
    }
}

/// The token type of a single-character lexeme, if the character is one.
pub open spec fn single(c: char) -> Option<TokenType> {
    if c == '(' {
        Some(TokenType::LeftParen)
    } else if c == ')' {
        Some(TokenType::RightParen)
    } else if c == '{' {
        Some(TokenType::LeftBrace)
    } else if c == '}' {
        Some(TokenType::RightBrace)
    } else if c == ',' {
        Some(TokenType::Comma)
    } else if c == '.' {
        Some(TokenType::Dot)
    } else if c == '-' {
        Some(TokenType::Minus)
    } else if c == '+' {
        Some(TokenType::Plus)
    } else if c == ';' {
        Some(TokenType::Semicolon)
    } else if c == '*' {
        Some(TokenType::Star)
    } else {
        None
    }
}

/// The token type of an operator that may be followed by `=`, alone or
/// with it, if the character is such an operator.
pub open spec fn with_equal(c: char, followed: bool) -> Option<TokenType> {
    if c == '!' {
        Some(if followed { TokenType::BangEqual } else { TokenType::Bang })
    } else if c == '=' {
        Some(if followed { TokenType::EqualEqual } else { TokenType::Equal })
    } else if c == '<' {
        Some(if followed { TokenType::LessEqual } else { TokenType::Less })
    } else if c == '>' {
        Some(if followed { TokenType::GreaterEqual } else { TokenType::Greater })
    } else {
        None
    }
}

/// Whether a character starts an identifier or a keyword: it is
/// alphabetic, and starts no other lexeme.
pub open spec fn starts_name(c: char) -> bool {
    &&& single(c) is None
    &&& with_equal(c, false) is None
    &&& c != '/'
    &&& c != '"'
    &&& !is_digit(c)
    &&& char_is_alphabetic(c)
}

/// The lexeme that starts at `start`: the longest one, two-character
/// operators before one-character ones.
pub open spec fn lex(chars: Seq<char>, start: int) -> Lexeme
    recommends
        0 <= start < chars.len(),
{
    let c = chars[start];
    let next = peek_at(chars, start + 1);
    if single(c) is Some {
        Lexeme { kind: LexKind::Punct(single(c)->0), more: 0 }
    } else if with_equal(c, next == '=') is Some {
        Lexeme { kind: LexKind::Punct(with_equal(c, next == '=')->0), more: if next == '=' {
            1
        } else {
            0
        } }
    } else if c == '/' {
        if next == '/' {
            Lexeme { kind: LexKind::Blank, more: 1 + run_until(chars, start + 2, '\n') }
        } else {
            Lexeme { kind: LexKind::Punct(TokenType::Slash), more: 0 }
        }
    } else if c == '"' {
        let inner = run_until(chars, start + 1, '"');
        if start + 1 + inner >= chars.len() {
            Lexeme { kind: LexKind::Unterminated, more: inner }
        } else {
            Lexeme { kind: LexKind::Text, more: inner + 1 }
        }
    } else if is_digit(c) {
        let whole = digit_run(chars, start + 1);
        if peek_at(chars, start + 1 + whole) == '.' && is_digit(
            peek_at(chars, start + 1 + whole + 1),
        ) {
            Lexeme {
                kind: LexKind::Number,
                more: whole + 1 + digit_run(chars, start + 1 + whole + 1),
            }
        } else {
            Lexeme { kind: LexKind::Number, more: whole }
        }
    } else if char_is_alphabetic(c) {
        Lexeme { kind: LexKind::Name, more: identifier_run(chars, start + 1) }
    } else if c == ' ' || c == '\r' || c == '\t' || c == '\n' {
        Lexeme { kind: LexKind::Blank, more: 0 }
    } else {
        Lexeme { kind: LexKind::Unexpected, more: 0 }
    }
}

/// The line that the scanner is on after a lexeme: newlines count where
/// they stand alone and inside strings.
pub open spec fn line_after(chars: Seq<char>, start: int, line: nat) -> nat {
    let lexeme = lex(chars, start);
    match lexeme.kind {
        LexKind::Blank => if chars[start] == '\n' {
            line + 1
        } else {
            line
        },
        LexKind::Text => line + newlines(chars, start + 1, start + lexeme.len() - 1),
        LexKind::Unterminated => line + newlines(chars, start + 1, start + lexeme.len()),
        _ => line,
    }
}

/// The position of `chars[from..to]` in the whole buffer, where `chars`
/// starts at byte `offset` of it.
pub open spec fn position_of(chars: Seq<char>, offset: nat, from: int, to: int, line: nat)
    -> SourcePosition {
    SourcePosition {
        line: line as usize,
        start: (offset + utf8_len(chars.take(from))) as usize,
        end: (offset + utf8_len(chars.take(to))) as usize,
    }
}

/// What scanning has produced so far.
pub struct Scanned {
    pub tokens: Seq<Token>,
    pub errors: Seq<RuntimeError>,
    /// The string table.
    pub table: Seq<Seq<char>>,
}

/// What the lexeme at `start` adds: a token, an error, or nothing; names,
/// numbers and the contents of strings get their symbols.
pub open spec fn scan_one(chars: Seq<char>, offset: nat, start: int, line: nat, so_far: Scanned)
    -> Scanned {
    let lexeme = lex(chars, start);
    let end = start + lexeme.len();
    let position = position_of(chars, offset, start, end, line_after(chars, start, line));
    match lexeme.kind {
        LexKind::Punct(token_type) => Scanned {
            tokens: so_far.tokens.push(Token { token_type, position, symbol: 0, literal: None }),
            ..so_far
        },
        LexKind::Name => {
            let text = chars.subrange(start, end);
            let symbol = symbol_of(so_far.table, text) as usize;
            Scanned {
                tokens: so_far.tokens.push(
                    Token { token_type: symbol_type(symbol), position, symbol, literal: None },
                ),
                table: with_symbol(so_far.table, text),
                ..so_far
            }
        },
        LexKind::Number => {
            let text = chars.subrange(start, end);
            let symbol = symbol_of(so_far.table, text) as usize;
            Scanned {
                tokens: so_far.tokens.push(
                    Token { token_type: TokenType::Number, position, symbol, literal: None },
                ),
                table: with_symbol(so_far.table, text),
                ..so_far
            }
        },
        LexKind::Text => {
            let text = chars.subrange(start + 1, end - 1);
            let symbol = symbol_of(so_far.table, text) as usize;
            Scanned {
                tokens: so_far.tokens.push(
                    Token {
                        token_type: TokenType::String,
                        position,
                        symbol: 0,
                        literal: Some(LiteralValue::Str(symbol)),
                    },
                ),
                table: with_symbol(so_far.table, text),
                ..so_far
            }
        },
        LexKind::Blank => so_far,
        LexKind::Unexpected => Scanned {
            errors: so_far.errors.push(RuntimeError::ScanError { location: position }),
            ..so_far
        },
        LexKind::Unterminated => Scanned {
            errors: so_far.errors.push(RuntimeError::ScanError { location: position }),
            ..so_far
        },
    }
}

/// Scanning from `pos` on: lexeme after lexeme to the end of the text, then
/// the end-of-input token, which spans from the start of the last lexeme,
/// `last`, to the end.
pub open spec fn scan_from(
    chars: Seq<char>,
    offset: nat,
    pos: int,
    line: nat,
    last: int,
    so_far: Scanned,
) -> Scanned
    decreases
        (if pos < chars.len() {
            chars.len() - pos
        } else {
            0
        }),
{
    if 0 <= pos < chars.len() {
        scan_from(
            chars,
            offset,
            pos + lex(chars, pos).len(),
            line_after(chars, pos, line),
            pos,
            scan_one(chars, offset, pos, line, so_far),
        )
    } else {
        Scanned {
            tokens: so_far.tokens.push(
                Token {
                    token_type: TokenType::Eof,
                    position: position_of(chars, offset, last, pos, line),
                    symbol: 0,
                    literal: None,
                },
            ),
            ..so_far
        }
    }
}

/// The tokens and errors of a source text that stands at byte `offset` of
/// the whole buffer, and the string table afterwards.
pub open spec fn scan(chars: Seq<char>, offset: nat, table: Seq<Seq<char>>) -> Scanned {
    scan_from(
        chars,
        offset,
        0,
        1,
        0,
        Scanned { tokens: Seq::empty(), errors: Seq::empty(), table },
    )
}

fn single_type(c: char) -> (r: Option<TokenType>)
    ensures
        r == single(c),
{
    if c == '(' {
        Some(TokenType::LeftParen)
    } else if c == ')' {
        Some(TokenType::RightParen)
    } else if c == '{' {
        Some(TokenType::LeftBrace)
    } else if c == '}' {
        Some(TokenType::RightBrace)
    } else if c == ',' {
        Some(TokenType::Comma)
    } else if c == '.' {
        Some(TokenType::Dot)
    } else if c == '-' {
        Some(TokenType::Minus)
    } else if c == '+' {
        Some(TokenType::Plus)
    } else if c == ';' {
        Some(TokenType::Semicolon)
    } else if c == '*' {
        Some(TokenType::Star)
    } else {
        None
    }
}

fn is_paired(c: char) -> (r: bool)
    ensures
        r == (c == '!' || c == '=' || c == '<' || c == '>'),
        forall|followed: bool| r == (#[trigger] with_equal(c, followed) is Some),
{
    c == '!' || c == '=' || c == '<' || c == '>'
}

fn paired_type(c: char, followed: bool) -> (r: TokenType)
    requires
        c == '!' || c == '=' || c == '<' || c == '>',
    ensures
        with_equal(c, followed) == Some(r),
{
    if c == '!' {
        if followed {
            TokenType::BangEqual
        } else {
            TokenType::Bang
        }
    } else if c == '=' {
        if followed {
            TokenType::EqualEqual
        } else {
            TokenType::Equal
        }
    } else if c == '<' {
        if followed {
            TokenType::LessEqual
        } else {
            TokenType::Less
        }
    } else {
        if followed {
            TokenType::GreaterEqual
        } else {
            TokenType::Greater
        }
    }
}

/// A copy of the tokens.
pub fn copy_tokens(tokens: &Vec<Token>) -> (r: Vec<Token>)
    ensures
        r@ == tokens@,
{
    let mut r: Vec<Token> = Vec::new();
    let mut i: usize = 0;
    while i < tokens.len()
        invariant
            i <= tokens@.len(),
            r@ == tokens@.take(i as int),
        decreases tokens@.len() - i,
    {
        r.push(tokens[i]);
        assert(tokens@.take(i + 1) == tokens@.take(i as int).push(tokens@[i as int]));
        i += 1;
    }
    assert(tokens@.take(tokens@.len() as int) == tokens@);
    r
}

/// Current scanner state for iterating over the source input.
pub struct Scanner<'src> {
    /// The text to scan.
    pub source: &'src str,
    /// Its characters.
    pub chars: Vec<char>,
    /// The byte offset of the text in the whole buffer.
    pub scan_offset: usize,
    /// Current line number.
    pub line: usize,
    /// Where the current lexeme starts, in characters and in bytes.
    pub start_char: usize,
    pub start_byte: usize,
    /// Where the scanner stands, in characters and in bytes.
    pub current_char: usize,
    pub current_byte: usize,
    /// The tokens collected so far.
    pub tokens: Vec<Token>,
    /// The errors met so far.
    pub errors: Vec<RuntimeError>,
}

impl<'src> Scanner<'src> {
    /// The positions are consistent: each byte position is that of the
    /// character position beside it, and all spans fit the machine.
    pub open spec fn inv(&self) -> bool {
        &&& self.chars@ == self.source@
        &&& self.start_char <= self.current_char <= self.chars@.len()
        &&& self.start_byte == utf8_len(self.chars@.take(self.start_char as int))
        &&& self.current_byte == utf8_len(self.chars@.take(self.current_char as int))
        &&& self.start_byte <= self.current_byte <= utf8_len(self.chars@)
        &&& self.current_char <= self.current_byte
        &&& self.line <= 1 + self.current_char
        &&& utf8_len(self.chars@) + self.scan_offset < usize::MAX
    }

    /// The scanner has not scanned anything yet.
    pub open spec fn fresh(&self) -> bool {
        &&& self.inv()
        &&& self.line == 1
        &&& self.start_char == 0
        &&& self.current_char == 0
        &&& self.tokens@.len() == 0
        &&& self.errors@.len() == 0
    }

    /// What the scanner has produced so far, with the given string table.
    pub open spec fn scanned(&self, table: Seq<Seq<char>>) -> Scanned {
        Scanned { tokens: self.tokens@, errors: self.errors@, table }
    }

    /// Nothing but the positions and the line has changed.
    pub open spec fn moved_from(&self, before: &Scanner<'src>) -> bool {
        &&& self.source == before.source
        &&& self.chars == before.chars
        &&& self.scan_offset == before.scan_offset
        &&& self.start_char == before.start_char
        &&& self.start_byte == before.start_byte
        &&& self.tokens == before.tokens
        &&& self.errors == before.errors
    }

    /// A scanner for `source`, which stands at byte `scan_offset` of the
    /// whole buffer: the spans of its tokens are ranges of that buffer.
    pub fn new(source: &'src str, scan_offset: usize) -> (r: Scanner<'src>)
        requires
            utf8_len(source@) + scan_offset < usize::MAX,
        ensures
            r.fresh(),
            r.source == source,
            r.scan_offset == scan_offset,
    {
        let mut chars: Vec<char> = Vec::new();
        let mut rest = source.chars();
        loop
            invariant
                rest.obeys_prophetic_iter_laws(),
                rest.decrease() is Some,
                chars@ + rest.remaining() == source@,
            ensures
                chars@ == source@,
            decreases rest.decrease()->0,
        {
            let ghost before = rest;
            match rest.next() {
                Some(c) => {
                    chars.push(c);
                    assert(chars@ + rest.remaining() =~= source@);
                },
                None => {
                    assert(chars@ + before.remaining() =~= chars@);
                    break ;
                },
            }
        }
        assert(chars@.take(0) == Seq::<char>::empty());
        Scanner {
            source,
            chars,
            scan_offset,
            line: 1,
            start_char: 0,
            start_byte: 0,
            current_char: 0,
            current_byte: 0,
            tokens: Vec::new(),
            errors: Vec::new(),
        }
    }

    fn is_at_end(&self) -> (r: bool)
        ensures
            r == (self.current_char >= self.chars@.len()),
    {
        self.current_char >= self.chars.len()
    }

    fn advance(&mut self) -> (c: char)
        requires
            old(self).inv(),
            old(self).current_char < old(self).chars@.len(),
        ensures
            final(self).inv(),
            final(self).moved_from(old(self)),
            final(self).line == old(self).line,
            final(self).current_char == old(self).current_char + 1,
            c == old(self).chars@[old(self).current_char as int],
    {
        let c = self.chars[self.current_char];
        proof {
            lemma_utf8_len_step(self.chars@, self.current_char as int);
        }
        self.current_char += 1;
        self.current_byte += len_utf8(c);
        c
    }

    /// Return true and advance if the next character is the expected one.
    fn matches(&mut self, expected: char) -> (r: bool)
        requires
            old(self).inv(),
        ensures
            final(self).inv(),
            final(self).moved_from(old(self)),
            final(self).line == old(self).line,
            r == (peek_at(old(self).chars@, old(self).current_char as int) == expected
                && old(self).current_char < old(self).chars@.len()),
            final(self).current_char == old(self).current_char + if r {
                1int
            } else {
                0int
            },
    {
        if self.is_at_end() {
            return false;
        }
        if self.chars[self.current_char] != expected {
            return false;
        }
        self.advance();
        true
    }

    fn peek(&self) -> (c: char)
        ensures
            c == peek_at(self.chars@, self.current_char as int),
    {
        if self.current_char < self.chars.len() {
            self.chars[self.current_char]
        } else {
            '\0'
        }
    }

    fn peek_next(&self) -> (c: char)
        requires
            self.inv(),
        ensures
            c == peek_at(self.chars@, self.current_char + 1),
    {
        if self.current_char + 1 < self.chars.len() {
            self.chars[self.current_char + 1]
        } else {
            '\0'
        }
    }

    fn skip_digits(&mut self)
        requires
            old(self).inv(),
        ensures
            final(self).inv(),
            final(self).moved_from(old(self)),
            final(self).line == old(self).line,
            final(self).current_char == old(self).current_char + digit_run(
                old(self).chars@,
                old(self).current_char as int,
            ),
    {
        while self.current_char < self.chars.len() && is_ascii_digit(self.chars[self.current_char])
            invariant
                self.inv(),
                self.moved_from(old(self)),
                self.line == old(self).line,
                old(self).current_char <= self.current_char,
                self.current_char + digit_run(self.chars@, self.current_char as int) == old(
                    self,
                ).current_char + digit_run(old(self).chars@, old(self).current_char as int),
            decreases self.chars@.len() - self.current_char,
        {
            self.advance();
        }
    }

    fn skip_identifier(&mut self)
        requires
            old(self).inv(),
        ensures
            final(self).inv(),
            final(self).moved_from(old(self)),
            final(self).line == old(self).line,
            final(self).current_char == old(self).current_char + identifier_run(
                old(self).chars@,
                old(self).current_char as int,
            ),
    {
        while self.current_char < self.chars.len() && is_identifier(self.chars[self.current_char])
            invariant
                self.inv(),
                self.moved_from(old(self)),
                self.line == old(self).line,
                old(self).current_char <= self.current_char,
                self.current_char + identifier_run(self.chars@, self.current_char as int) == old(
                    self,
                ).current_char + identifier_run(old(self).chars@, old(self).current_char as int),
            decreases self.chars@.len() - self.current_char,
        {
            self.advance();
        }
    }

    /// Advances to the next `stop` or to the end, counting newlines on the
    /// way if asked to.
    fn skip_until(&mut self, stop: char, count_lines: bool)
        requires
            old(self).inv(),
        ensures
            final(self).inv(),
            final(self).moved_from(old(self)),
            final(self).current_char == old(self).current_char + run_until(
                old(self).chars@,
                old(self).current_char as int,
                stop,
            ),
            final(self).line == old(self).line + if count_lines {
                newlines(
                    old(self).chars@,
                    old(self).current_char as int,
                    final(self).current_char as int,
                )
            } else {
                0
            },
    {
        while self.current_char < self.chars.len() && self.chars[self.current_char] != stop
            invariant
                self.inv(),
                self.moved_from(old(self)),
                old(self).current_char <= self.current_char,
                self.current_char + run_until(self.chars@, self.current_char as int, stop) == old(
                    self,
                ).current_char + run_until(old(self).chars@, old(self).current_char as int, stop),
                self.line == old(self).line + if count_lines {
                    newlines(
                        old(self).chars@,
                        old(self).current_char as int,
                        self.current_char as int,
                    )
                } else {
                    0
                },
                self.line - old(self).line <= self.current_char - old(self).current_char,
            decreases self.chars@.len() - self.current_char,
        {
            let c = self.advance();
            if count_lines && c == '\n' {
                self.line += 1;
            }
        }
    }

    fn current_location(&self) -> (r: SourcePosition)
        requires
            self.inv(),
        ensures
            r == position_of(
                self.chars@,
                self.scan_offset as nat,
                self.start_char as int,
                self.current_char as int,
                self.line as nat,
            ),
    {
        SourcePosition {
            line: self.line,
            start: self.start_byte + self.scan_offset,
            end: self.current_byte + self.scan_offset,
        }
    }

    fn add_token(&mut self, token_type: TokenType, symbol: usize, literal: Option<LiteralValue>)
        requires
            old(self).inv(),
        ensures
            final(self).inv(),
            final(self).tokens@ == old(self).tokens@.push(
                Token {
                    token_type,
                    position: position_of(
                        old(self).chars@,
                        old(self).scan_offset as nat,
                        old(self).start_char as int,
                        old(self).current_char as int,
                        old(self).line as nat,
                    ),
                    symbol,
                    literal,
                },
            ),
            final(self).source == old(self).source,
            final(self).chars == old(self).chars,
            final(self).scan_offset == old(self).scan_offset,
            final(self).line == old(self).line,
            final(self).start_char == old(self).start_char,
            final(self).current_char == old(self).current_char,
            final(self).errors == old(self).errors,
    {
        let position = self.current_location();
        self.tokens.push(Token::new(token_type, position, symbol, literal));
    }

    fn add_error(&mut self)
        requires
            old(self).inv(),
        ensures
            final(self).inv(),
            final(self).errors@ == old(self).errors@.push(
                RuntimeError::ScanError {
                    location: position_of(
                        old(self).chars@,
                        old(self).scan_offset as nat,
                        old(self).start_char as int,
                        old(self).current_char as int,
                        old(self).line as nat,
                    ),
                },
            ),
            final(self).source == old(self).source,
            final(self).chars == old(self).chars,
            final(self).scan_offset == old(self).scan_offset,
            final(self).line == old(self).line,
            final(self).start_char == old(self).start_char,
            final(self).current_char == old(self).current_char,
            final(self).tokens == old(self).tokens,
    {
        let location = self.current_location();
        self.errors.push(RuntimeError::ScanError { location });
    }

    /// The scanner has gone from `before`, where it stood behind the first
    /// character of a lexeme, to the end of that lexeme, and has added what
    /// the lexeme gives.
    pub open spec fn lexed(
        &self,
        before: &Scanner<'src>,
        table_before: Seq<Seq<char>>,
        table_after: Seq<Seq<char>>,
    ) -> bool {
        &&& self.inv()
        &&& self.source == before.source
        &&& self.chars == before.chars
        &&& self.scan_offset == before.scan_offset
        &&& self.start_char == before.start_char
        &&& self.current_char == before.start_char + lex(
            before.chars@,
            before.start_char as int,
        ).len()
        &&& self.line == line_after(
            before.chars@,
            before.start_char as int,
            before.line as nat,
        )
        &&& self.scanned(table_after) == scan_one(
            before.chars@,
            before.scan_offset as nat,
            before.start_char as int,
            before.line as nat,
            before.scanned(table_before),
        )
    }

    /// A string literal, from behind its opening quote on.
    fn string(&mut self, interner: &mut Interner)
        requires
            old(self).inv(),
            old(interner).wf(),
            old(self).current_char == old(self).start_char + 1,
            old(self).chars@[old(self).start_char as int] == '"',
        ensures
            final(interner).wf(),
            final(self).lexed(old(self), old(interner)@, final(interner)@),
    {
        self.skip_until('"', true);
        if self.is_at_end() {
            self.add_error();
            return ;
        }
        // The closing ".
        self.advance();
        // Skip " " around the string value.
        let symbol = self.symbol(interner, self.start_char + 1, self.current_char - 1);
        self.add_token(TokenType::String, 0, Some(LiteralValue::Str(symbol)));
    }

    /// A number, from behind its first digit on: digits, and a fraction if
    /// a dot and a digit follow.
    fn number(&mut self, interner: &mut Interner)
        requires
            old(self).inv(),
            old(interner).wf(),
            old(self).current_char == old(self).start_char + 1,
            is_digit(old(self).chars@[old(self).start_char as int]),
        ensures
            final(interner).wf(),
            final(self).lexed(old(self), old(interner)@, final(interner)@),
    {
        self.skip_digits();
        if self.peek() == '.' && is_ascii_digit(self.peek_next()) {
            self.advance();
            self.skip_digits();
        }
        let symbol = self.symbol(interner, self.start_char, self.current_char);
        self.add_token(TokenType::Number, symbol, None);
    }

    /// An identifier or a keyword, from behind its first character on.
    fn identifier(&mut self, interner: &mut Interner)
        requires
            old(self).inv(),
            old(interner).wf(),
            old(self).current_char == old(self).start_char + 1,
            starts_name(old(self).chars@[old(self).start_char as int]),
        ensures
            final(interner).wf(),
            final(self).lexed(old(self), old(interner)@, final(interner)@),
    {
        self.skip_identifier();
        let symbol = self.symbol(interner, self.start_char, self.current_char);
        self.add_token(keyword_or_identifier(symbol), symbol, None);
    }

    /// Scans the lexeme at which the scanner stands.
    fn scan_token(&mut self, interner: &mut Interner)
        requires
            old(self).inv(),
            old(self).current_char < old(self).chars@.len(),
            old(interner).wf(),
        ensures
            final(self).inv(),
            final(interner).wf(),
            final(self).source == old(self).source,
            final(self).chars == old(self).chars,
            final(self).scan_offset == old(self).scan_offset,
            final(self).start_char == old(self).current_char,
            final(self).current_char == old(self).current_char + lex(
                old(self).chars@,
                old(self).current_char as int,
            ).len(),
            final(self).line == line_after(
                old(self).chars@,
                old(self).current_char as int,
                old(self).line as nat,
            ),
            final(self).scanned(final(interner)@) == scan_one(
                old(self).chars@,
                old(self).scan_offset as nat,
                old(self).current_char as int,
                old(self).line as nat,
                old(self).scanned(old(interner)@),
            ),
    {
        self.start_char = self.current_char;
        self.start_byte = self.current_byte;
        let c = self.advance();
        if let Some(token_type) = single_type(c) {
            self.add_token(token_type, 0, None);
        } else if is_paired(c) {
            let followed = self.matches('=');
            let token_type = paired_type(c, followed);
            self.add_token(token_type, 0, None);
        } else if c == '/' {
            if self.matches('/') {
                self.skip_until('\n', false);
            } else {
                self.add_token(TokenType::Slash, 0, None);
            }
        } else if c == '"' {
            self.string(interner);
        } else if is_ascii_digit(c) {
            self.number(interner);
        } else if c.is_alphabetic() {
            self.identifier(interner);
        } else if c == ' ' || c == '\r' || c == '\t' {
            // Ignore whitespace.
        } else if c == '\n' {
            self.line += 1;
        } else {
            self.add_error();
        }
    }

    /// Scans the whole text: its tokens, ending with the end-of-input token.
    /// The errors met on the way are in `errors`; scanning goes on after each.
    pub fn scan_tokens(&mut self, interner: &mut Interner) -> (r: Vec<Token>)
        requires
            old(self).fresh(),
            old(interner).wf(),
        ensures
            final(interner).wf(),
            final(self).scanned(final(interner)@) == scan(
                old(self).source@,
                old(self).scan_offset as nat,
                old(interner)@,
            ),
            r@ == final(self).tokens@,
            r@.len() > 0,
            r@[r@.len() - 1].token_type == TokenType::Eof,
            final(self).source == old(self).source,
            final(self).scan_offset == old(self).scan_offset,
    {
        proof {
            lemma_scan_ends(
                self.source@,
                self.scan_offset as nat,
                0,
                1,
                0,
                Scanned { tokens: Seq::empty(), errors: Seq::empty(), table: interner@ },
            );
        }
        assert(self.tokens@ =~= Seq::<Token>::empty());
        assert(self.errors@ =~= Seq::<RuntimeError>::empty());
        while !self.is_at_end()
            invariant
                self.inv(),
                interner.wf(),
                self.source == old(self).source,
                self.chars == old(self).chars,
                self.scan_offset == old(self).scan_offset,
                scan_from(
                    self.chars@,
                    self.scan_offset as nat,
                    self.current_char as int,
                    self.line as nat,
                    self.start_char as int,
                    self.scanned(interner@),
                ) == scan(old(self).source@, old(self).scan_offset as nat, old(interner)@),
            decreases self.chars@.len() - self.current_char,
        {
            self.scan_token(interner);
        }
        self.add_token(TokenType::Eof, 0, None);
        copy_tokens(&self.tokens)
    }

    /// The symbol of `chars[from..to]`.
    fn symbol(&self, interner: &mut Interner, from: usize, to: usize) -> (symbol: usize)
        requires
            self.inv(),
            old(interner).wf(),
            from <= to <= self.chars@.len(),
        ensures
            final(interner).wf(),
            final(interner)@ == with_symbol(old(interner)@, self.chars@.subrange(from as int, to as int)),
            symbol == symbol_of(old(interner)@, self.chars@.subrange(from as int, to as int)),
    {
        interner.intern(self.source.substring_char(from, to))
    }
}

/// The token `t` is the lexeme that starts at `from`: its span is the
/// byte range of the lexeme in the whole buffer, its type is that of the
/// lexeme, and what it carries is the text of the lexeme, for a string
/// without the quotes.
pub open spec fn token_at(
    chars: Seq<char>,
    offset: nat,
    table: Seq<Seq<char>>,
    t: Token,
    from: int,
) -> bool {
    let lexeme = lex(chars, from);
    let to = from + lexeme.len();
    &&& 0 <= from < to <= chars.len()
    &&& t.position.start == (offset + utf8_len(chars.take(from))) as usize
    &&& t.position.end == (offset + utf8_len(chars.take(to))) as usize
    &&& match lexeme.kind {
        LexKind::Punct(token_type) => t.token_type == token_type,
        LexKind::Name => {
            &&& t.token_type == symbol_type(t.symbol)
            &&& t.symbol < table.len()
            &&& table[t.symbol as int] == chars.subrange(from, to)
        },
        LexKind::Number => {
            &&& t.token_type == TokenType::Number
            &&& t.symbol < table.len()
            &&& table[t.symbol as int] == chars.subrange(from, to)
        },
        LexKind::Text => {
            &&& t.token_type == TokenType::String
            &&& t.literal matches Some(LiteralValue::Str(s))
            &&& s < table.len()
            &&& table[s as int] == chars.subrange(from + 1, to - 1)
        },
        _ => false,
    }
}

/// The token is a lexeme of the text.
pub open spec fn is_lexeme(chars: Seq<char>, offset: nat, table: Seq<Seq<char>>, t: Token) -> bool {
    exists|from: int| token_at(chars, offset, table, t, from)
}

/// Every token is a lexeme of the text.
pub open spec fn tokens_at(
    chars: Seq<char>,
    offset: nat,
    table: Seq<Seq<char>>,
    tokens: Seq<Token>,
) -> bool {
    forall|k: int| 0 <= k < tokens.len() ==> is_lexeme(chars, offset, table, #[trigger] tokens[k])
}

/// A run of characters ends within the text.
pub proof fn lemma_runs_end(chars: Seq<char>, pos: int, stop: char)
    requires
        0 <= pos <= chars.len(),
    ensures
        pos + digit_run(chars, pos) <= chars.len(),
        pos + identifier_run(chars, pos) <= chars.len(),
        pos + run_until(chars, pos, stop) <= chars.len(),
    decreases chars.len() - pos,
{
    if pos < chars.len() {
        lemma_runs_end(chars, pos + 1, stop);
    }
}

/// A lexeme ends within the text.
pub proof fn lemma_lex_ends(chars: Seq<char>, start: int)
    requires
        0 <= start < chars.len(),
    ensures
        start + lex(chars, start).len() <= chars.len(),
        lex(chars, start).kind is Text ==> lex(chars, start).len() >= 2,
{
    lemma_runs_end(chars, start + 1, '"');
    if start + 2 <= chars.len() {
        lemma_runs_end(chars, start + 2, '\n');
    }
    let whole = digit_run(chars, start + 1);
    if start + 1 + whole + 1 <= chars.len() {
        lemma_runs_end(chars, start + 1 + whole + 1, '"');
    }
}

/// One more lexeme keeps every token a lexeme of the text.
pub proof fn lemma_scan_one(
    chars: Seq<char>,
    offset: nat,
    start: int,
    line: nat,
    so_far: Scanned,
)
    requires
        0 <= start < chars.len(),
        so_far.table.len() < usize::MAX,
        tokens_at(chars, offset, so_far.table, so_far.tokens),
    ensures
        tokens_at(
            chars,
            offset,
            scan_one(chars, offset, start, line, so_far).table,
            scan_one(chars, offset, start, line, so_far).tokens,
        ),
        scan_one(chars, offset, start, line, so_far).table.len() <= so_far.table.len() + 1,
{
    lemma_lex_ends(chars, start);
    let lexeme = lex(chars, start);
    let end = start + lexeme.len();
    let after = scan_one(chars, offset, start, line, so_far);
    let text = match lexeme.kind {
        LexKind::Text => chars.subrange(start + 1, end - 1),
        _ => chars.subrange(start, end),
    };
    lemma_with_symbol(so_far.table, text);
    assert forall|k: int| 0 <= k < after.tokens.len() implies is_lexeme(
        chars,
        offset,
        after.table,
        #[trigger] after.tokens[k],
    ) by {
        if k < so_far.tokens.len() {
            assert(is_lexeme(chars, offset, so_far.table, so_far.tokens[k]));
            let from = choose|from: int|
                token_at(chars, offset, so_far.table, so_far.tokens[k], from);
            assert(after.tokens[k] == so_far.tokens[k]);
            assert(token_at(chars, offset, after.table, after.tokens[k], from));
        } else {
            assert(token_at(chars, offset, after.table, after.tokens[k], start));
        }
    }
}

/// Scanning keeps every token a lexeme of the text, and ends the tokens
/// with the end-of-input token.
pub proof fn lemma_scan_from(
    chars: Seq<char>,
    offset: nat,
    pos: int,
    line: nat,
    last: int,
    so_far: Scanned,
)
    requires
        0 <= pos <= chars.len(),
        so_far.table.len() + (chars.len() - pos) < usize::MAX,
        tokens_at(chars, offset, so_far.table, so_far.tokens),
    ensures
        ({
            let r = scan_from(chars, offset, pos, line, last, so_far);
            &&& r.tokens.len() > 0
            &&& r.tokens.last().token_type == TokenType::Eof
            &&& tokens_at(chars, offset, r.table, r.tokens.drop_last())
        }),
    decreases chars.len() - pos,
{
    if pos < chars.len() {
        lemma_lex_ends(chars, pos);
        lemma_scan_one(chars, offset, pos, line, so_far);
        lemma_scan_from(
            chars,
            offset,
            pos + lex(chars, pos).len(),
            line_after(chars, pos, line),
            pos,
            scan_one(chars, offset, pos, line, so_far),
        );
    } else {
        let r = scan_from(chars, offset, pos, line, last, so_far);
        assert(r.tokens.drop_last() == so_far.tokens);
    }
}

/// Scanning ends the tokens with the end-of-input token, whatever the
/// text.
pub proof fn lemma_scan_ends(
    chars: Seq<char>,
    offset: nat,
    pos: int,
    line: nat,
    last: int,
    so_far: Scanned,
)
    ensures
        scan_from(chars, offset, pos, line, last, so_far).tokens.len() > 0,
        scan_from(chars, offset, pos, line, last, so_far).tokens.last().token_type
            == TokenType::Eof,
    decreases
        (if pos < chars.len() {
            chars.len() - pos
        } else {
            0
        }),
{
    if 0 <= pos < chars.len() {
        lemma_scan_ends(
            chars,
            offset,
            pos + lex(chars, pos).len(),
            line_after(chars, pos, line),
            pos,
            scan_one(chars, offset, pos, line, so_far),
        );
    }
}

/// Spans are correct. The tokens that scanning gives end with the
/// end-of-input token, and every token before it is a lexeme of the text:
/// its span is the byte range of that lexeme in the whole buffer, and the
/// string that it carries is the text of the lexeme.
pub proof fn lemma_scan_spans(chars: Seq<char>, offset: nat, table: Seq<Seq<char>>)
    requires
        table.len() + chars.len() < usize::MAX,
    ensures
        scan(chars, offset, table).tokens.len() > 0,
        scan(chars, offset, table).tokens.last().token_type == TokenType::Eof,
        tokens_at(
            chars,
            offset,
            scan(chars, offset, table).table,
            scan(chars, offset, table).tokens.drop_last(),
        ),
{
    lemma_scan_from(
        chars,
        offset,
        0,
        1,
        0,
        Scanned { tokens: Seq::empty(), errors: Seq::empty(), table },
    );
}

/// The round trip: the bytes of the buffer that lie in the span of a
/// lexeme are the bytes of the lexeme, where the text stands at byte
/// `offset` of a buffer that holds `before` in front of it and `after`
/// behind it.
pub proof fn lemma_span_bytes(
    before: Seq<char>,
    chars: Seq<char>,
    after: Seq<char>,
    from: int,
    to: int,
)
    requires
        0 <= from <= to <= chars.len(),
    ensures
        vstd::utf8::encode_utf8(before + chars + after).subrange(
            (utf8_len(before) + utf8_len(chars.take(from))) as int,
            (utf8_len(before) + utf8_len(chars.take(to))) as int,
        ) == vstd::utf8::encode_utf8(chars.subrange(from, to)),
{
    let all = before + chars + after;
    let n = before.len() as int;
    assert(all.take(n + from) == before + chars.take(from));
    assert(all.take(n + to) == before + chars.take(to));
    assert(all.subrange(n + from, n + to) == chars.subrange(from, to));
    crate::chars::lemma_encode_concat(before, chars.take(from));
    crate::chars::lemma_encode_concat(before, chars.take(to));
    lemma_encode_subrange(all, n + from, n + to);
}

/// The round trip for a token. Where the text stands in a buffer behind
/// `before` and in front of `after`, and was scanned with the byte length
/// of `before` as its offset, the span of each of its tokens can be cut
/// out of the buffer, and what is cut out is the lexeme.
pub proof fn lemma_lexeme_round_trip(
    before: Seq<char>,
    chars: Seq<char>,
    after: Seq<char>,
    table: Seq<Seq<char>>,
    t: Token,
    from: int,
)
    requires
        token_at(chars, utf8_len(before), table, t, from),
        utf8_len(before + chars + after) <= usize::MAX,
    ensures
        crate::token::sliceable(
            vstd::utf8::encode_utf8(before + chars + after),
            t.position.start as int,
            t.position.end as int,
        ),
        vstd::utf8::encode_utf8(before + chars + after).subrange(
            t.position.start as int,
            t.position.end as int,
        ) == vstd::utf8::encode_utf8(chars.subrange(from, from + lex(chars, from).len())),
{
    let all = before + chars + after;
    let n = before.len() as int;
    let to = from + lex(chars, from).len();
    assert(all.take(n + from) == before + chars.take(from));
    assert(all.take(n + to) == before + chars.take(to));
    crate::chars::lemma_encode_concat(before, chars.take(from));
    crate::chars::lemma_encode_concat(before, chars.take(to));
    lemma_encode_subrange(all, n + from, n + to);
    crate::chars::lemma_boundary(all, n + from);
    crate::chars::lemma_boundary(all, n + to);
    lemma_span_bytes(before, chars, after, from, to);
}

} // verus!
