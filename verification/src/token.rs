//! Tokens and their positions in the source text.

use vstd::prelude::*;
use vstd::string::*;
use vstd::utf8::*;
use crate::literal::LiteralValue;

verus! {

/// Where a token stands: its line, for diagnostics, and the byte range
/// `start..end` that it covers in the whole source buffer.
#[derive(Clone, Copy, PartialEq, Eq, Structural, Debug)]
pub struct SourcePosition {
    pub line: usize,
    pub start: usize,
    pub end: usize,
}

#[derive(Clone, Copy, PartialEq, Eq, Structural, Debug)]
pub enum TokenType {
    Eof,
    // Single-character tokens.
    LeftParen,
    RightParen,
    LeftBrace,
    RightBrace,
    Comma,
    Dot,
    Minus,
    Plus,
    Semicolon,
    Slash,
    Star,
    // One or two character tokens.
    Bang,
    BangEqual,
    Equal,
    EqualEqual,
    Greater,
    GreaterEqual,
    Less,
    LessEqual,
    // Literals.
    Identifier,
    String,
    Number,
    // Keywords.
    KwAnd,
    KwClass,
    KwElse,
    KwFalse,
    KwFun,
    KwFor,
    KwIf,
    KwNil,
    KwOr,
    KwPrint,
    KwReturn,
    KwSuper,
    KwThis,
    KwTrue,
    KwVar,
    KwWhile,
}

/// A token: its type, its position, the symbol of its lexeme for names, and
/// the value it denotes for literals.
///
/// Two tokens are the same token when they stand at the same place: the
/// identity of a token is its span, not its text.
#[derive(Clone, Copy, Debug)]
pub struct Token {
    pub token_type: TokenType,
    pub position: SourcePosition,
    /// For identifiers, keywords and numbers: the interned lexeme.
    pub symbol: usize,
    pub literal: Option<LiteralValue>,
}

/// Whether the bytes from `start` to `end` can be cut out of a text: the
/// range lies in the text, and both its ends fall between characters.
pub open spec fn sliceable(bytes: Seq<u8>, start: int, end: int) -> bool {
    &&& 0 <= start <= end <= bytes.len()
    &&& is_char_boundary(bytes, start)
    &&& is_char_boundary(bytes, end)
}

impl Token {
    pub fn new(
        token_type: TokenType,
        position: SourcePosition,
        symbol: usize,
        literal: Option<LiteralValue>,
    ) -> (r: Token)
        ensures
            r == (Token { token_type, position, symbol, literal }),
    {
        Token { token_type, position, symbol, literal }
    }

    /// The identity of the token: the byte range it covers.
    pub open spec fn span(self) -> (usize, usize) {
        (self.position.start, self.position.end)
    }

    /// Whether two tokens are the same token, that is, stand at the same
    /// place in the source.
    pub fn same_token(&self, other: &Token) -> (r: bool)
        ensures
            r == (self.position == other.position),
    {
        self.position.line == other.position.line && self.position.start == other.position.start
            && self.position.end == other.position.end
    }

    /// The lexeme of the token: the part of the source buffer that its span
    /// covers, or nothing if the span does not fit the buffer.
    pub fn lexeme<'src>(&self, source: &'src str) -> (r: Option<&'src str>)
        ensures
            r is Some ==> sliceable(
                source.spec_bytes(),
                self.position.start as int,
                self.position.end as int,
            ),
            source.spec_bytes().len() <= usize::MAX && sliceable(
                source.spec_bytes(),
                self.position.start as int,
                self.position.end as int,
            ) ==> r is Some,
            r matches Some(s) ==> s.spec_bytes() == source.spec_bytes().subrange(
                self.position.start as int,
                self.position.end as int,
            ),
    {
        let start = self.position.start;
        let end = self.position.end;
        if start <= end && end <= source.len() && source.is_char_boundary(start)
            && source.is_char_boundary(end) {
            let ghost bytes = source.spec_bytes();
            proof {
                encode_utf8_valid_utf8(source@);
                assert(end <= bytes.len());
                valid_utf8_split(bytes, end as int);
                let head = bytes.subrange(0, end as int);
                if start < end {
                    is_char_boundary_iff_not_is_continuation_byte(bytes, start as int);
                    is_char_boundary_iff_not_is_continuation_byte(head, start as int);
                } else {
                    is_char_boundary_start_end_of_seq(head);
                }
            }
            let (head, _) = source.split_at(end);
            let (_, lexeme) = head.split_at(start);
            assert(lexeme.spec_bytes() == bytes.subrange(start as int, end as int));
            Some(lexeme)
        } else {
            None
        }
    }

    /// The bits of the number that a number token denotes.
    pub fn literal_num(&self) -> (r: Option<u64>)
        ensures
            r == (match self.literal {
                Some(LiteralValue::Num(x)) => Some(x),
                _ => None,
            }),
    {
        match self.literal {
            Some(LiteralValue::Num(x)) => Some(x),
            _ => None,
        }
    }

    /// The symbol of the string that a string token denotes.
    pub fn literal_str(&self) -> (r: Option<usize>)
        ensures
            r == (match self.literal {
                Some(LiteralValue::Str(s)) => Some(s),
                _ => None,
            }),
    {
        match self.literal {
            Some(LiteralValue::Str(s)) => Some(s),
            _ => None,
        }
    }

    /// The same token carrying the given number as its literal: the host
    /// converts the lexeme of a number token and attaches the result.
    pub fn with_number(self, bits: u64) -> (r: Token)
        ensures
            r == (Token { literal: Some(LiteralValue::Num(bits)), ..self }),
    {
        Token {
            token_type: self.token_type,
            position: self.position,
            symbol: self.symbol,
            literal: Some(LiteralValue::Num(bits)),
        }
    }
}

} // verus!
