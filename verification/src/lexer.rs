use crate::error::{unexpected_token, CacauError, ErrorView};
use crate::text::same_text;
use core::ops::Range;
use vstd::prelude::*;
use vstd::string::StringSliceAdditionalSpecFns;
use vstd::utf8::{
    encode_utf8_decode_utf8, encode_utf8_valid_utf8, is_ascii_chars, is_ascii_chars_encode_utf8,
    is_char_boundary, is_char_boundary_iff_not_is_continuation_byte, is_continuation_byte,
    length_of_first_scalar, pop_first_scalar, valid_utf8,
};

verus! {

/// A token of the language. An identifier and a number carry their text, as
/// it stands in the source.
#[derive(Debug, Clone, Copy, PartialEq, Eq)]
pub enum Tok<'input> {
    Identifier(&'input str),
    Number(&'input str),
    Let,
    Fn,
    Return,
    Not,
    True,
    False,
    SemiColon,
    SingleEquals,
    Comma,
    OpenParen,
    CloseParen,
    OpenBracket,
    CloseBracket,
    Plus,
    Minus,
    Mul,
    Div,
    Less,
    LessOrEqual,
    DoubleEquals,
    NotEquals,
    Greater,
    GreaterOrEqual,
    Invalid,
}

/// A token with its text as a sequence of characters.
pub enum TokView {
    Identifier(Seq<char>),
    Number(Seq<char>),
    Let,
    Fn,
    Return,
    Not,
    True,
    False,
    SemiColon,
    SingleEquals,
    Comma,
    OpenParen,
    CloseParen,
    OpenBracket,
    CloseBracket,
    Plus,
    Minus,
    Mul,
    Div,
    Less,
    LessOrEqual,
    DoubleEquals,
    NotEquals,
    Greater,
    GreaterOrEqual,
    Invalid,
}

impl<'input> View for Tok<'input> {
    type V = TokView;

    open spec fn view(&self) -> TokView {
        match *self {
            Tok::Identifier(text) => TokView::Identifier(text@),
            Tok::Number(text) => TokView::Number(text@),
            Tok::Let => TokView::Let,
            Tok::Fn => TokView::Fn,
            Tok::Return => TokView::Return,
            Tok::Not => TokView::Not,
            Tok::True => TokView::True,
            Tok::False => TokView::False,
            Tok::SemiColon => TokView::SemiColon,
            Tok::SingleEquals => TokView::SingleEquals,
            Tok::Comma => TokView::Comma,
            Tok::OpenParen => TokView::OpenParen,
            Tok::CloseParen => TokView::CloseParen,
            Tok::OpenBracket => TokView::OpenBracket,
            Tok::CloseBracket => TokView::CloseBracket,
            Tok::Plus => TokView::Plus,
            Tok::Minus => TokView::Minus,
            Tok::Mul => TokView::Mul,
            Tok::Div => TokView::Div,
            Tok::Less => TokView::Less,
            Tok::LessOrEqual => TokView::LessOrEqual,
            Tok::DoubleEquals => TokView::DoubleEquals,
            Tok::NotEquals => TokView::NotEquals,
            Tok::Greater => TokView::Greater,
            Tok::GreaterOrEqual => TokView::GreaterOrEqual,
            Tok::Invalid => TokView::Invalid,
        }
    }
}

/// A letter of the Latin alphabet or an underscore: what an identifier begins
/// with.
pub open spec fn is_identifier_start(byte: u8) -> bool {
    byte == 0x5f || (0x41 <= byte <= 0x5a) || (0x61 <= byte <= 0x7a)
}

/// A decimal digit.
pub open spec fn is_digit(byte: u8) -> bool {
    0x30 <= byte <= 0x39
}

/// What an identifier goes on with: a letter, a digit or an underscore.
pub open spec fn is_identifier_part(byte: u8) -> bool {
    is_identifier_start(byte) || is_digit(byte)
}

/// What a number goes on with: a digit or an underscore.
pub open spec fn is_number_part(byte: u8) -> bool {
    is_digit(byte) || byte == 0x5f
}

/// The number of bytes of the white-space character that is encoded at
/// `pos`, or 0 if none is. White space is U+0009 to U+000D, U+0020, U+0085,
/// U+00A0, U+1680, U+2000 to U+200A, U+2028, U+2029, U+202F, U+205F and
/// U+3000.
pub open spec fn whitespace_width(bytes: Seq<u8>, pos: int) -> int {
    if !(0 <= pos < bytes.len()) {
        0
    } else {
        let first = bytes[pos];
        if (0x09 <= first <= 0x0d) || first == 0x20 {
            1
        } else if pos + 1 < bytes.len() && first == 0xc2 && (bytes[pos + 1] == 0x85 || bytes[pos
            + 1] == 0xa0) {
            2
        } else if pos + 2 < bytes.len() {
            let second = bytes[pos + 1];
            let third = bytes[pos + 2];
            if (first == 0xe1 && second == 0x9a && third == 0x80) || (first == 0xe2 && second
                == 0x80 && ((0x80 <= third <= 0x8a) || third == 0xa8 || third == 0xa9 || third
                == 0xaf)) || (first == 0xe2 && second == 0x81 && third == 0x9f) || (first == 0xe3
                && second == 0x80 && third == 0x80) {
                3
            } else {
                0
            }
        } else {
            0
        }
    }
}

/// The place of the first line feed at or after `pos`, or the length of the
/// source if there is none.
pub open spec fn line_end(bytes: Seq<u8>, pos: int) -> int
    decreases bytes.len() - pos,
{
    if !(0 <= pos < bytes.len()) {
        bytes.len() as int
    } else if bytes[pos] == 0x0a {
        pos
    } else {
        line_end(bytes, pos + 1)
    }
}

/// The number of bytes of the comment that begins at `pos`, or 0 if none
/// does. A comment goes from two slashes to the end of its line: up to the
/// line feed, which belongs to it, or up to the end of the source on a last
/// line that no line feed ends.
pub open spec fn comment_width(bytes: Seq<u8>, pos: int) -> int {
    if 0 <= pos && pos + 1 < bytes.len() && bytes[pos] == 0x2f && bytes[pos + 1] == 0x2f {
        if line_end(bytes, pos + 2) < bytes.len() {
            line_end(bytes, pos + 2) + 1 - pos
        } else {
            bytes.len() - pos
        }
    } else {
        0
    }
}

/// The place of the first byte at or after `pos` that is neither white space
/// nor inside a comment, or the length of the source if there is none.
pub open spec fn skip_trivia(bytes: Seq<u8>, pos: int) -> int
    decreases bytes.len() - pos,
{
    let white = whitespace_width(bytes, pos);
    let comment = comment_width(bytes, pos);
    if white > 0 {
        skip_trivia(bytes, pos + white)
    } else if comment > 0 && pos + comment <= bytes.len() {
        skip_trivia(bytes, pos + comment)
    } else {
        pos
    }
}

/// The end of the longest run of identifier bytes that begins at `pos`.
pub open spec fn identifier_end(bytes: Seq<u8>, pos: int) -> int
    decreases bytes.len() - pos,
{
    if 0 <= pos < bytes.len() && is_identifier_part(bytes[pos]) {
        identifier_end(bytes, pos + 1)
    } else {
        pos
    }
}

/// The end of the longest run of number bytes that begins at `pos`.
pub open spec fn number_end(bytes: Seq<u8>, pos: int) -> int
    decreases bytes.len() - pos,
{
    if 0 <= pos < bytes.len() && is_number_part(bytes[pos]) {
        number_end(bytes, pos + 1)
    } else {
        pos
    }
}

/// The place of the first byte at or after `pos` that begins a character, or
/// the length of the source if there is none.
pub open spec fn character_end(bytes: Seq<u8>, pos: int) -> int
    decreases bytes.len() - pos,
{
    if 0 <= pos < bytes.len() && is_continuation_byte(bytes[pos]) {
        character_end(bytes, pos + 1)
    } else {
        pos
    }
}

/// Bytes of ASCII as characters.
pub open spec fn ascii_text(bytes: Seq<u8>) -> Seq<char> {
    Seq::new(bytes.len(), |i: int| bytes[i] as char)
}

/// The token that a word is: a keyword, or else an identifier.
pub open spec fn word_token(text: Seq<char>) -> TokView {
    if text == "let"@ {
        TokView::Let
    } else if text == "fn"@ {
        TokView::Fn
    } else if text == "return"@ {
        TokView::Return
    } else if text == "not"@ {
        TokView::Not
    } else if text == "true"@ {
        TokView::True
    } else if text == "false"@ {
        TokView::False
    } else {
        TokView::Identifier(text)
    }
}

/// The punctuation mark or operator that begins at `pos`, with the number of
/// its bytes: of two that begin alike, the longer.
pub open spec fn symbol_at(bytes: Seq<u8>, pos: int) -> Option<(TokView, int)>
    recommends
        0 <= pos < bytes.len(),
{
    let first = bytes[pos];
    let equals_follows = pos + 1 < bytes.len() && bytes[pos + 1] == 0x3d;
    if first == 0x3c {
        if equals_follows {
            Some((TokView::LessOrEqual, 2))
        } else {
            Some((TokView::Less, 1))
        }
    } else if first == 0x3e {
        if equals_follows {
            Some((TokView::GreaterOrEqual, 2))
        } else {
            Some((TokView::Greater, 1))
        }
    } else if first == 0x3d {
        if equals_follows {
            Some((TokView::DoubleEquals, 2))
        } else {
            Some((TokView::SingleEquals, 1))
        }
    } else if first == 0x21 {
        if equals_follows {
            Some((TokView::NotEquals, 2))
        } else {
            None
        }
    } else if first == 0x3b {
        Some((TokView::SemiColon, 1))
    } else if first == 0x2c {
        Some((TokView::Comma, 1))
    } else if first == 0x28 {
        Some((TokView::OpenParen, 1))
    } else if first == 0x29 {
        Some((TokView::CloseParen, 1))
    } else if first == 0x7b {
        Some((TokView::OpenBracket, 1))
    } else if first == 0x7d {
        Some((TokView::CloseBracket, 1))
    } else if first == 0x2b {
        Some((TokView::Plus, 1))
    } else if first == 0x2d {
        Some((TokView::Minus, 1))
    } else if first == 0x2a {
        Some((TokView::Mul, 1))
    } else if first == 0x2f {
        Some((TokView::Div, 1))
    } else {
        None
    }
}

/// What the lexer finds when it looks for the next token.
pub enum Lexeme {
    /// Nothing but white space and comments is left.
    End,
    /// A token, with the places of its first byte and of the byte after its last.
    Token { start: int, tok: TokView, end: int },
    /// A character that begins no token, with the places of its first byte
    /// and of the byte after its last.
    Invalid { start: int, end: int },
}

/// What the lexer finds from `pos` on. White space and comments are skipped.
/// A word is the longest run of letters, digits and underscores that begins
/// with no digit; a number is the longest run of digits and underscores that
/// begins with a digit.
pub open spec fn next_lexeme(bytes: Seq<u8>, pos: int) -> Lexeme {
    let start = skip_trivia(bytes, pos);
    if !(0 <= start < bytes.len()) {
        Lexeme::End
    } else if is_identifier_start(bytes[start]) {
        let end = identifier_end(bytes, start + 1);
        Lexeme::Token { start, tok: word_token(ascii_text(bytes.subrange(start, end))), end }
    } else if is_digit(bytes[start]) {
        let end = number_end(bytes, start + 1);
        Lexeme::Token { start, tok: TokView::Number(ascii_text(bytes.subrange(start, end))), end }
    } else {
        match symbol_at(bytes, start) {
            Some((tok, width)) => Lexeme::Token { start, tok, end: start + width },
            None => Lexeme::Invalid { start, end: character_end(bytes, start + 1) },
        }
    }
}

/// What the lexer hands out: a token between the places of its first byte
/// and of the byte after its last, or an error.
pub open spec fn item_view(item: Option<Result<(usize, Tok<'_>, usize), CacauError>>) -> Option<
    Result<(int, TokView, int), ErrorView>,
> {
    match item {
        None => None,
        Some(Ok((start, tok, end))) => Some(Ok((start as int, tok@, end as int))),
        Some(Err(error)) => Some(Err(error@)),
    }
}

/// A lexer as a mathematical value: the bytes of the source, the place from
/// which it reads on, and whether it has come to its end.
pub struct LexerView {
    pub source: Seq<u8>,
    pub position: int,
    pub halted: bool,
}

impl LexerView {
    /// What the lexer hands out next, and what it is afterwards. After the
    /// end of the source, and after an error, it hands out nothing more.
    pub open spec fn next(self) -> (Option<Result<(int, TokView, int), ErrorView>>, LexerView) {
        if self.halted {
            (None, self)
        } else {
            match next_lexeme(self.source, self.position) {
                Lexeme::End => (
                    None,
                    LexerView { position: self.source.len() as int, halted: true, ..self },
                ),
                Lexeme::Token { start, tok, end } => (
                    Some(Ok((start, tok, end))),
                    LexerView { position: end, ..self },
                ),
                Lexeme::Invalid { start, end } => (
                    Some(
                        Err(
                            ErrorView::UnexpectedToken(
                                Range { start: start as usize, end: end as usize },
                            ),
                        ),
                    ),
                    LexerView { position: end, halted: true, ..self },
                ),
            }
        }
    }
}

/// Turns source text into tokens, one at a time.
pub struct Lexer<'a> {
    source: &'a str,
    position: usize,
    halted: bool,
}

impl<'a> View for Lexer<'a> {
    type V = LexerView;

    closed spec fn view(&self) -> LexerView {
        LexerView {
            source: self.source.spec_bytes(),
            position: self.position as int,
            halted: self.halted,
        }
    }
}

impl<'a> Lexer<'a> {
    #[verifier::type_invariant]
    spec fn in_bounds(self) -> bool {
        self.position <= self.source.spec_bytes().len()
    }

    /// A lexer at the beginning of `src`.
    pub fn new(src: &'a str) -> (lexer: Lexer<'a>)
        ensures
            lexer@ == (LexerView { source: src.spec_bytes(), position: 0, halted: false }),
    {
        Lexer { source: src, position: 0, halted: false }
    }

    /// The next token of the source with the places of its first byte and of
    /// the byte after its last, an error for a character that begins no
    /// token, or nothing at the end.
    pub fn next(&mut self) -> (item: Option<Result<(usize, Tok<'a>, usize), CacauError>>)
        ensures
            (item_view(item), final(self)@) == old(self)@.next(),
            old(self)@.position <= final(self)@.position <= old(self)@.source.len(),
            item matches Some(Ok((start, _, end))) ==> old(self)@.position <= start < end
                == final(self)@.position,
    {
        proof {
            use_type_invariant(&*self);
        }
        if self.halted {
            return None;
        }
        let source: &'a str = self.source;
        let bytes = source.as_bytes();
        let start = skip_trivia_from(bytes, self.position);
        if start >= bytes.len() {
            self.position = bytes.len();
            self.halted = true;
            return None;
        }
        let first = bytes[start];
        if is_identifier_start_byte(first) {
            let end = scan_identifier(bytes, start + 1);
            let text = slice_text(source, start, end);
            self.position = end;
            Some(Ok((start, word(text), end)))
        } else if first >= 0x30 && first <= 0x39 {
            let end = scan_number(bytes, start + 1);
            let text = slice_text(source, start, end);
            self.position = end;
            Some(Ok((start, Tok::Number(text), end)))
        } else {
            match symbol(bytes, start) {
                Some((tok, width)) => {
                    self.position = start + width;
                    Some(Ok((start, tok, start + width)))
                },
                None => {
                    let end = scan_character(bytes, start + 1);
                    self.position = end;
                    self.halted = true;
                    Some(Err(unexpected_token(start, end)))
                },
            }
        }
    }
}

fn is_identifier_start_byte(byte: u8) -> (yes: bool)
    ensures
        yes == is_identifier_start(byte),
{
    byte == 0x5f || (0x41 <= byte && byte <= 0x5a) || (0x61 <= byte && byte <= 0x7a)
}

fn whitespace_width_at(bytes: &[u8], pos: usize) -> (width: usize)
    requires
        pos < bytes@.len(),
    ensures
        width == whitespace_width(bytes@, pos as int),
        pos + width <= bytes@.len(),
{
    let first = bytes[pos];
    if (0x09 <= first && first <= 0x0d) || first == 0x20 {
        1
    } else if bytes.len() - pos > 1 && first == 0xc2 && (bytes[pos + 1] == 0x85 || bytes[pos + 1]
        == 0xa0) {
        2
    } else if bytes.len() - pos > 2 {
        let second = bytes[pos + 1];
        let third = bytes[pos + 2];
        if (first == 0xe1 && second == 0x9a && third == 0x80) || (first == 0xe2 && second == 0x80
            && ((0x80 <= third && third <= 0x8a) || third == 0xa8 || third == 0xa9 || third
            == 0xaf)) || (first == 0xe2 && second == 0x81 && third == 0x9f) || (first == 0xe3
            && second == 0x80 && third == 0x80) {
            3
        } else {
            0
        }
    } else {
        0
    }
}

fn find_line_end(bytes: &[u8], pos: usize) -> (end: usize)
    requires
        pos <= bytes@.len(),
    ensures
        end == line_end(bytes@, pos as int),
        pos <= end <= bytes@.len(),
{
    let mut end: usize = pos;
    while end < bytes.len() && bytes[end] != 0x0a
        invariant
            pos <= end <= bytes@.len(),
            line_end(bytes@, end as int) == line_end(bytes@, pos as int),
        decreases bytes@.len() - end,
    {
        end += 1;
    }
    end
}

fn comment_width_at(bytes: &[u8], pos: usize) -> (width: usize)
    requires
        pos < bytes@.len(),
    ensures
        width == comment_width(bytes@, pos as int),
        pos + width <= bytes@.len(),
{
    if bytes.len() - pos > 1 && bytes[pos] == 0x2f && bytes[pos + 1] == 0x2f {
        let end = find_line_end(bytes, pos + 2);
        if end < bytes.len() {
            end + 1 - pos
        } else {
            bytes.len() - pos
        }
    } else {
        0
    }
}

fn skip_trivia_from(bytes: &[u8], pos: usize) -> (start: usize)
    requires
        pos <= bytes@.len(),
    ensures
        start == skip_trivia(bytes@, pos as int),
        pos <= start <= bytes@.len(),
{
    let mut start: usize = pos;
    while start < bytes.len()
        invariant
            pos <= start <= bytes@.len(),
            skip_trivia(bytes@, start as int) == skip_trivia(bytes@, pos as int),
        decreases bytes@.len() - start,
    {
        let white = whitespace_width_at(bytes, start);
        if white > 0 {
            start += white;
        } else {
            let comment = comment_width_at(bytes, start);
            if comment > 0 {
                start += comment;
            } else {
                return start;
            }
        }
    }
    start
}

fn scan_identifier(bytes: &[u8], pos: usize) -> (end: usize)
    requires
        pos <= bytes@.len(),
    ensures
        end == identifier_end(bytes@, pos as int),
        pos <= end <= bytes@.len(),
        forall|i: int| pos <= i < end ==> is_identifier_part(bytes@[i]),
{
    let mut end: usize = pos;
    while end < bytes.len() && (is_identifier_start_byte(bytes[end]) || (0x30 <= bytes[end]
        && bytes[end] <= 0x39))
        invariant
            pos <= end <= bytes@.len(),
            identifier_end(bytes@, end as int) == identifier_end(bytes@, pos as int),
            forall|i: int| pos <= i < end ==> is_identifier_part(bytes@[i]),
        decreases bytes@.len() - end,
    {
        end += 1;
    }
    end
}

fn scan_number(bytes: &[u8], pos: usize) -> (end: usize)
    requires
        pos <= bytes@.len(),
    ensures
        end == number_end(bytes@, pos as int),
        pos <= end <= bytes@.len(),
        forall|i: int| pos <= i < end ==> is_number_part(bytes@[i]),
{
    let mut end: usize = pos;
    while end < bytes.len() && ((0x30 <= bytes[end] && bytes[end] <= 0x39) || bytes[end] == 0x5f)
        invariant
            pos <= end <= bytes@.len(),
            number_end(bytes@, end as int) == number_end(bytes@, pos as int),
            forall|i: int| pos <= i < end ==> is_number_part(bytes@[i]),
        decreases bytes@.len() - end,
    {
        end += 1;
    }
    end
}

fn scan_character(bytes: &[u8], pos: usize) -> (end: usize)
    requires
        pos <= bytes@.len(),
    ensures
        end == character_end(bytes@, pos as int),
        pos <= end <= bytes@.len(),
{
    let mut end: usize = pos;
    while end < bytes.len() && 0x80 <= bytes[end] && bytes[end] <= 0xbf
        invariant
            pos <= end <= bytes@.len(),
            character_end(bytes@, end as int) == character_end(bytes@, pos as int),
        decreases bytes@.len() - end,
    {
        end += 1;
    }
    end
}

fn symbol(bytes: &[u8], pos: usize) -> (found: Option<(Tok<'static>, usize)>)
    requires
        pos < bytes@.len(),
    ensures
        match found {
            Some((tok, width)) => symbol_at(bytes@, pos as int) == Some((tok@, width as int))
                && pos + width <= bytes@.len(),
            None => symbol_at(bytes@, pos as int) is None,
        },
{
    let first = bytes[pos];
    let equals_follows = bytes.len() - pos > 1 && bytes[pos + 1] == 0x3d;
    if first == 0x3c {
        if equals_follows {
            Some((Tok::LessOrEqual, 2))
        } else {
            Some((Tok::Less, 1))
        }
    } else if first == 0x3e {
        if equals_follows {
            Some((Tok::GreaterOrEqual, 2))
        } else {
            Some((Tok::Greater, 1))
        }
    } else if first == 0x3d {
        if equals_follows {
            Some((Tok::DoubleEquals, 2))
        } else {
            Some((Tok::SingleEquals, 1))
        }
    } else if first == 0x21 {
        if equals_follows {
            Some((Tok::NotEquals, 2))
        } else {
            None
        }
    } else if first == 0x3b {
        Some((Tok::SemiColon, 1))
    } else if first == 0x2c {
        Some((Tok::Comma, 1))
    } else if first == 0x28 {
        Some((Tok::OpenParen, 1))
    } else if first == 0x29 {
        Some((Tok::CloseParen, 1))
    } else if first == 0x7b {
        Some((Tok::OpenBracket, 1))
    } else if first == 0x7d {
        Some((Tok::CloseBracket, 1))
    } else if first == 0x2b {
        Some((Tok::Plus, 1))
    } else if first == 0x2d {
        Some((Tok::Minus, 1))
    } else if first == 0x2a {
        Some((Tok::Mul, 1))
    } else if first == 0x2f {
        Some((Tok::Div, 1))
    } else {
        None
    }
}

fn word<'a>(text: &'a str) -> (tok: Tok<'a>)
    ensures
        tok@ == word_token(text@),
{
    if same_text(text, "let") {
        Tok::Let
    } else if same_text(text, "fn") {
        Tok::Fn
    } else if same_text(text, "return") {
        Tok::Return
    } else if same_text(text, "not") {
        Tok::Not
    } else if same_text(text, "true") {
        Tok::True
    } else if same_text(text, "false") {
        Tok::False
    } else {
        Tok::Identifier(text)
    }
}

/// In well-formed UTF-8 a character begins after every byte of ASCII.
proof fn lemma_boundary_after_ascii(bytes: Seq<u8>, i: int)
    requires
        valid_utf8(bytes),
        0 <= i < bytes.len(),
        bytes[i] <= 0x7f,
    ensures
        is_char_boundary(bytes, i + 1),
    decreases bytes.len(),
{
    let first = length_of_first_scalar(bytes);
    if i < first {
        reveal_with_fuel(is_char_boundary, 2);
    } else {
        lemma_boundary_after_ascii(pop_first_scalar(bytes), i - first);
    }
}

/// The part of `source` from `start` up to `end`, which holds only ASCII.
fn slice_text<'a>(source: &'a str, start: usize, end: usize) -> (text: &'a str)
    requires
        start < end <= source.spec_bytes().len(),
        forall|i: int| start <= i < end ==> source.spec_bytes()[i] <= 0x7f,
    ensures
        text@ == ascii_text(source.spec_bytes().subrange(start as int, end as int)),
{
    let ghost bytes = source.spec_bytes();
    proof {
        encode_utf8_valid_utf8(source@);
        lemma_boundary_after_ascii(bytes, end - 1);
    }
    let (head, _) = source.split_at(end);
    proof {
        encode_utf8_valid_utf8(head@);
        is_char_boundary_iff_not_is_continuation_byte(head.spec_bytes(), start as int);
    }
    let (_, text) = head.split_at(start);
    proof {
        let characters = ascii_text(bytes.subrange(start as int, end as int));
        assert(is_ascii_chars(characters));
        is_ascii_chars_encode_utf8(characters);
        assert(vstd::utf8::encode_utf8(characters) =~= text.spec_bytes());
        encode_utf8_decode_utf8(characters);
        encode_utf8_decode_utf8(text@);
    }
    text
}

/// A token between the places of its first byte and of the byte after its last.
pub type Token<'a> = (usize, Tok<'a>, usize);

/// A token between two places, as a mathematical value.
pub type SpannedTok = (int, TokView, int);

/// The views of a list of tokens, in order.
pub open spec fn tokens_view(tokens: Seq<Token<'_>>) -> Seq<SpannedTok> {
    Seq::new(tokens.len(), |i: int| (tokens[i].0 as int, tokens[i].1@, tokens[i].2 as int))
}

/// All that the lexer hands out.
pub struct Lexed {
    /// The tokens, in the order of the source.
    pub tokens: Seq<SpannedTok>,
    /// The bytes of the character that begins no token, if the lexer stopped
    /// at one.
    pub failure: Option<Range<usize>>,
}

/// All that a lexer hands out from `pos` on: the tokens up to the end of the
/// source, or up to the first character that begins no token.
pub open spec fn lex_from(bytes: Seq<u8>, pos: int) -> Lexed
    decreases bytes.len() - pos,
{
    match next_lexeme(bytes, pos) {
        Lexeme::End => Lexed { tokens: Seq::empty(), failure: None },
        Lexeme::Invalid { start, end } => Lexed {
            tokens: Seq::empty(),
            failure: Some(Range { start: start as usize, end: end as usize }),
        },
        Lexeme::Token { start, tok, end } => {
            if 0 <= pos < end <= bytes.len() {
                let rest = lex_from(bytes, end);
                Lexed { tokens: seq![(start, tok, end)] + rest.tokens, failure: rest.failure }
            } else {
                Lexed { tokens: Seq::empty(), failure: None }
            }
        },
    }
}

/// The bytes that an error of the lexer covers.
pub open spec fn failure_view(failure: Option<CacauError>) -> Option<Range<usize>> {
    match failure {
        Some(CacauError::UnexpectedToken(spanned)) => Some(spanned.1),
        _ => None,
    }
}

/// All the tokens of `input`, and the lexer's error if it stopped at one.
pub fn tokenize<'a>(input: &'a str) -> (lexed: (Vec<Token<'a>>, Option<CacauError>))
    ensures
        lex_from(input.spec_bytes(), 0) == (Lexed {
            tokens: tokens_view(lexed.0@),
            failure: failure_view(lexed.1),
        }),
        lexed.1 matches Some(error) ==> error@ is UnexpectedToken,
{
    let ghost bytes = input.spec_bytes();
    let mut lexer = Lexer::new(input);
    let mut tokens: Vec<Token<'a>> = Vec::new();
    loop
        invariant
            bytes == input.spec_bytes(),
            lexer@.source == bytes,
            !lexer@.halted,
            0 <= lexer@.position <= bytes.len(),
            lex_from(bytes, 0).tokens == tokens_view(tokens@) + lex_from(
                bytes,
                lexer@.position,
            ).tokens,
            lex_from(bytes, 0).failure == lex_from(bytes, lexer@.position).failure,
        decreases bytes.len() - lexer@.position,
    {
        let ghost before = tokens_view(tokens@);
        match lexer.next() {
            None => {
                assert(before + Seq::<SpannedTok>::empty() =~= before);
                return (tokens, None);
            },
            Some(Err(error)) => {
                assert(before + Seq::<SpannedTok>::empty() =~= before);
                return (tokens, Some(error));
            },
            Some(Ok(token)) => {
                tokens.push(token);
                proof {
                    let rest = lex_from(bytes, token.2 as int).tokens;
                    let one = (token.0 as int, token.1@, token.2 as int);
                    assert(tokens_view(tokens@) =~= before.push(one));
                    assert(before + (seq![one] + rest) =~= before.push(one) + rest);
                }
            },
        }
    }
}

} // verus!
