//! The lexer: from the characters of a script to its tokens.

pub mod scanner;

use vstd::prelude::*;

use self::scanner::Scanner;

use self::scanner::ScannerView;

use crate::text::push_char;

verus! {

/// The span in bytes of a `${ .. }` slot in the text of a string literal.
pub type InterpSlot = (usize, usize);

/// Where the text of a slot lies in a literal of `len` bytes: the slot
/// from `start` to `end` without its delimiters, `${` before and `}` after.
/// A span too short to hold the delimiters, or one that ends beyond the
/// literal, has no text.
pub open spec fn slot_text_span(start: int, end: int, len: int) -> Option<(int, int)> {
    if start + 3 <= end <= len {
        Some((start + 2, end - 1))
    } else {
        None
    }
}

/// The span in bytes of the text of the slot from `start` to `end`, in a
/// literal of `len` bytes.
pub fn slot_text_range(start: usize, end: usize, len: usize) -> (r: Option<(usize, usize)>)
    ensures
        match r {
            Some((a, b)) => slot_text_span(start as int, end as int, len as int) == Some(
                (a as int, b as int),
            ),
            None => slot_text_span(start as int, end as int, len as int) is None,
        },
{
    if end <= len && end >= 3 && start <= end - 3 {
        Some((start + 2, end - 1))
    } else {
        None
    }
}

/// A position in the source text: line, then column.
pub type Location = (usize, usize);

/// A token with the places of its first and last character.
pub type Span = (Location, Token, Location);

/// A token of the language.
#[derive(Debug, PartialEq)]
pub enum Token {
    Ident(String),
    IntLiteral(i64),
    StrLiteral(String),
    /// An interpolated string literal: its text, and the span in bytes of
    /// each `${ .. }` slot in it, from its `$` to just after its `}`.
    InterpStrLiteral(String, Vec<InterpSlot>),

    Break,
    Continue,
    Else,
    False,
    Fn,
    For,
    If,
    In,
    Null,
    Return,
    True,
    While,
    Bang,
    BraceClose,
    BraceOpen,
    BracketClose,
    BracketOpen,
    Colon,
    Comma,
    Div,
    Dot,
    Equals,
    GreaterThan,
    LessThan,
    Mod,
    Mul,
    ParenClose,
    ParenOpen,
    Semicolon,
    Sub,
    Sum,
    AmpAmp,
    BangEquals,
    ColonEquals,
    DashGreaterThan,
    DivEquals,
    DotDot,
    EqualsEquals,
    GreaterThanEquals,
    LessThanEquals,
    ModEquals,
    MulEquals,
    PipePipe,
    SubEquals,
    SumEquals,
}

/// What a [`Token`] stands for.
pub enum TokenView {
    Ident(Seq<char>),
    IntLiteral(i64),
    StrLiteral(Seq<char>),
    InterpStrLiteral(Seq<char>, Seq<InterpSlot>),
    Break,
    Continue,
    Else,
    False,
    Fn,
    For,
    If,
    In,
    Null,
    Return,
    True,
    While,
    Bang,
    BraceClose,
    BraceOpen,
    BracketClose,
    BracketOpen,
    Colon,
    Comma,
    Div,
    Dot,
    Equals,
    GreaterThan,
    LessThan,
    Mod,
    Mul,
    ParenClose,
    ParenOpen,
    Semicolon,
    Sub,
    Sum,
    AmpAmp,
    BangEquals,
    ColonEquals,
    DashGreaterThan,
    DivEquals,
    DotDot,
    EqualsEquals,
    GreaterThanEquals,
    LessThanEquals,
    ModEquals,
    MulEquals,
    PipePipe,
    SubEquals,
    SumEquals,
}

impl View for Token {
    type V = TokenView;

    open spec fn view(&self) -> TokenView {
        match *self {
            Token::Ident(s) => TokenView::Ident(s@),
            Token::IntLiteral(n) => TokenView::IntLiteral(n),
            Token::StrLiteral(s) => TokenView::StrLiteral(s@),
            Token::InterpStrLiteral(s, slots) => TokenView::InterpStrLiteral(s@, slots@),
            Token::Break => TokenView::Break,
            Token::Continue => TokenView::Continue,
            Token::Else => TokenView::Else,
            Token::False => TokenView::False,
            Token::Fn => TokenView::Fn,
            Token::For => TokenView::For,
            Token::If => TokenView::If,
            Token::In => TokenView::In,
            Token::Null => TokenView::Null,
            Token::Return => TokenView::Return,
            Token::True => TokenView::True,
            Token::While => TokenView::While,
            Token::Bang => TokenView::Bang,
            Token::BraceClose => TokenView::BraceClose,
            Token::BraceOpen => TokenView::BraceOpen,
            Token::BracketClose => TokenView::BracketClose,
            Token::BracketOpen => TokenView::BracketOpen,
            Token::Colon => TokenView::Colon,
            Token::Comma => TokenView::Comma,
            Token::Div => TokenView::Div,
            Token::Dot => TokenView::Dot,
            Token::Equals => TokenView::Equals,
            Token::GreaterThan => TokenView::GreaterThan,
            Token::LessThan => TokenView::LessThan,
            Token::Mod => TokenView::Mod,
            Token::Mul => TokenView::Mul,
            Token::ParenClose => TokenView::ParenClose,
            Token::ParenOpen => TokenView::ParenOpen,
            Token::Semicolon => TokenView::Semicolon,
            Token::Sub => TokenView::Sub,
            Token::Sum => TokenView::Sum,
            Token::AmpAmp => TokenView::AmpAmp,
            Token::BangEquals => TokenView::BangEquals,
            Token::ColonEquals => TokenView::ColonEquals,
            Token::DashGreaterThan => TokenView::DashGreaterThan,
            Token::DivEquals => TokenView::DivEquals,
            Token::DotDot => TokenView::DotDot,
            Token::EqualsEquals => TokenView::EqualsEquals,
            Token::GreaterThanEquals => TokenView::GreaterThanEquals,
            Token::LessThanEquals => TokenView::LessThanEquals,
            Token::ModEquals => TokenView::ModEquals,
            Token::MulEquals => TokenView::MulEquals,
            Token::PipePipe => TokenView::PipePipe,
            Token::SubEquals => TokenView::SubEquals,
            Token::SumEquals => TokenView::SumEquals,
        }
    }
}

/// The keyword that `text` spells, or the identifier `text`.
pub open spec fn keyword_or_ident(text: Seq<char>) -> TokenView {
    if text == "break"@ {
        TokenView::Break
    } else if text == "continue"@ {
        TokenView::Continue
    } else if text == "else"@ {
        TokenView::Else
    } else if text == "false"@ {
        TokenView::False
    } else if text == "fn"@ {
        TokenView::Fn
    } else if text == "for"@ {
        TokenView::For
    } else if text == "if"@ {
        TokenView::If
    } else if text == "in"@ {
        TokenView::In
    } else if text == "null"@ {
        TokenView::Null
    } else if text == "return"@ {
        TokenView::Return
    } else if text == "true"@ {
        TokenView::True
    } else if text == "while"@ {
        TokenView::While
    } else {
        TokenView::Ident(text)
    }
}

/// The keyword that `text` spells, or the identifier `text`.
fn to_keyword_or_ident(text: String) -> (t: Token)
    ensures
        t@ == keyword_or_ident(text@),
{
    if text == String::from_str("break") {
        Token::Break
    } else if text == String::from_str("continue") {
        Token::Continue
    } else if text == String::from_str("else") {
        Token::Else
    } else if text == String::from_str("false") {
        Token::False
    } else if text == String::from_str("fn") {
        Token::Fn
    } else if text == String::from_str("for") {
        Token::For
    } else if text == String::from_str("if") {
        Token::If
    } else if text == String::from_str("in") {
        Token::In
    } else if text == String::from_str("null") {
        Token::Null
    } else if text == String::from_str("return") {
        Token::Return
    } else if text == String::from_str("true") {
        Token::True
    } else if text == String::from_str("while") {
        Token::While
    } else {
        Token::Ident(text)
    }
}

/// The token that the one character `c` spells.
pub open spec fn single_symbol(c: char) -> Option<TokenView> {
    if c == '!' {
        Some(TokenView::Bang)
    } else if c == '}' {
        Some(TokenView::BraceClose)
    } else if c == '{' {
        Some(TokenView::BraceOpen)
    } else if c == ']' {
        Some(TokenView::BracketClose)
    } else if c == '[' {
        Some(TokenView::BracketOpen)
    } else if c == ':' {
        Some(TokenView::Colon)
    } else if c == ',' {
        Some(TokenView::Comma)
    } else if c == '/' {
        Some(TokenView::Div)
    } else if c == '.' {
        Some(TokenView::Dot)
    } else if c == '=' {
        Some(TokenView::Equals)
    } else if c == '>' {
        Some(TokenView::GreaterThan)
    } else if c == '<' {
        Some(TokenView::LessThan)
    } else if c == '%' {
        Some(TokenView::Mod)
    } else if c == '*' {
        Some(TokenView::Mul)
    } else if c == ')' {
        Some(TokenView::ParenClose)
    } else if c == '(' {
        Some(TokenView::ParenOpen)
    } else if c == ';' {
        Some(TokenView::Semicolon)
    } else if c == '-' {
        Some(TokenView::Sub)
    } else if c == '+' {
        Some(TokenView::Sum)
    } else {
        None
    }
}

pub fn match_single_symbol_token(c: char) -> (t: Option<Token>)
    ensures
        match t {
            Some(t) => single_symbol(c) == Some(t@),
            None => single_symbol(c) is None,
        },
{
    if c == '!' {
        Some(Token::Bang)
    } else if c == '}' {
        Some(Token::BraceClose)
    } else if c == '{' {
        Some(Token::BraceOpen)
    } else if c == ']' {
        Some(Token::BracketClose)
    } else if c == '[' {
        Some(Token::BracketOpen)
    } else if c == ':' {
        Some(Token::Colon)
    } else if c == ',' {
        Some(Token::Comma)
    } else if c == '/' {
        Some(Token::Div)
    } else if c == '.' {
        Some(Token::Dot)
    } else if c == '=' {
        Some(Token::Equals)
    } else if c == '>' {
        Some(Token::GreaterThan)
    } else if c == '<' {
        Some(Token::LessThan)
    } else if c == '%' {
        Some(Token::Mod)
    } else if c == '*' {
        Some(Token::Mul)
    } else if c == ')' {
        Some(Token::ParenClose)
    } else if c == '(' {
        Some(Token::ParenOpen)
    } else if c == ';' {
        Some(Token::Semicolon)
    } else if c == '-' {
        Some(Token::Sub)
    } else if c == '+' {
        Some(Token::Sum)
    } else {
        None
    }
}

/// The token that the two characters `a` and `b` spell.
pub open spec fn double_symbol(a: char, b: char) -> Option<TokenView> {
    if a == '&' && b == '&' {
        Some(TokenView::AmpAmp)
    } else if a == '!' && b == '=' {
        Some(TokenView::BangEquals)
    } else if a == ':' && b == '=' {
        Some(TokenView::ColonEquals)
    } else if a == '-' && b == '>' {
        Some(TokenView::DashGreaterThan)
    } else if a == '/' && b == '=' {
        Some(TokenView::DivEquals)
    } else if a == '.' && b == '.' {
        Some(TokenView::DotDot)
    } else if a == '=' && b == '=' {
        Some(TokenView::EqualsEquals)
    } else if a == '>' && b == '=' {
        Some(TokenView::GreaterThanEquals)
    } else if a == '<' && b == '=' {
        Some(TokenView::LessThanEquals)
    } else if a == '%' && b == '=' {
        Some(TokenView::ModEquals)
    } else if a == '*' && b == '=' {
        Some(TokenView::MulEquals)
    } else if a == '|' && b == '|' {
        Some(TokenView::PipePipe)
    } else if a == '-' && b == '=' {
        Some(TokenView::SubEquals)
    } else if a == '+' && b == '=' {
        Some(TokenView::SumEquals)
    } else {
        None
    }
}

pub fn match_double_symbol_token(a: char, b: char) -> (t: Option<Token>)
    ensures
        match t {
            Some(t) => double_symbol(a, b) == Some(t@),
            None => double_symbol(a, b) is None,
        },
{
    if a == '&' && b == '&' {
        Some(Token::AmpAmp)
    } else if a == '!' && b == '=' {
        Some(Token::BangEquals)
    } else if a == ':' && b == '=' {
        Some(Token::ColonEquals)
    } else if a == '-' && b == '>' {
        Some(Token::DashGreaterThan)
    } else if a == '/' && b == '=' {
        Some(Token::DivEquals)
    } else if a == '.' && b == '.' {
        Some(Token::DotDot)
    } else if a == '=' && b == '=' {
        Some(Token::EqualsEquals)
    } else if a == '>' && b == '=' {
        Some(Token::GreaterThanEquals)
    } else if a == '<' && b == '=' {
        Some(Token::LessThanEquals)
    } else if a == '%' && b == '=' {
        Some(Token::ModEquals)
    } else if a == '*' && b == '=' {
        Some(Token::MulEquals)
    } else if a == '|' && b == '|' {
        Some(Token::PipePipe)
    } else if a == '-' && b == '=' {
        Some(Token::SubEquals)
    } else if a == '+' && b == '=' {
        Some(Token::SumEquals)
    } else {
        None
    }
}

#[derive(Debug, PartialEq)]
pub enum LexError {
    /// A character that begins no token.
    Unexpected(Location, char),
    /// An integer literal that is greater than any integer of the language.
    IntTooHigh(Location, String),
    IntTooLow(Location, String),
    /// A `$` in a plain string literal.
    UnescapedDollar(Location),
    /// A `$` in an interpolated string literal that no `{` follows.
    InvalidInterpolationStart(Location, char),
    InvalidEscapeChar(Location, char),
    InvalidHexChar(Location, char),
}

/// What a [`LexError`] stands for.
pub enum LexFault {
    Unexpected(Location, char),
    IntTooHigh(Location, Seq<char>),
    IntTooLow(Location, Seq<char>),
    UnescapedDollar(Location),
    InvalidInterpolationStart(Location, char),
    InvalidEscapeChar(Location, char),
    InvalidHexChar(Location, char),
}

impl View for LexError {
    type V = LexFault;

    open spec fn view(&self) -> LexFault {
        match *self {
            LexError::Unexpected(l, c) => LexFault::Unexpected(l, c),
            LexError::IntTooHigh(l, s) => LexFault::IntTooHigh(l, s@),
            LexError::IntTooLow(l, s) => LexFault::IntTooLow(l, s@),
            LexError::UnescapedDollar(l) => LexFault::UnescapedDollar(l),
            LexError::InvalidInterpolationStart(l, c) => LexFault::InvalidInterpolationStart(l, c),
            LexError::InvalidEscapeChar(l, c) => LexFault::InvalidEscapeChar(l, c),
            LexError::InvalidHexChar(l, c) => LexFault::InvalidHexChar(l, c),
        }
    }
}

/// Whether `c` is white space: a space, a tab, a line feed, a form feed or
/// a carriage return.
pub open spec fn is_space(c: char) -> bool {
    c == ' ' || c == '\t' || c == '\n' || c == '\x0C' || c == '\r'
}

pub open spec fn is_digit(c: char) -> bool {
    '0' <= c <= '9'
}

pub open spec fn is_alpha(c: char) -> bool {
    ('a' <= c <= 'z') || ('A' <= c <= 'Z')
}

/// Whether `c` can stand in an identifier.
pub open spec fn is_ident_char(c: char) -> bool {
    is_alpha(c) || is_digit(c) || c == '_'
}

fn space(c: char) -> (b: bool)
    ensures
        b == is_space(c),
{
    c == ' ' || c == '\t' || c == '\n' || c == '\x0C' || c == '\r'
}

fn digit(c: char) -> (b: bool)
    ensures
        b == is_digit(c),
{
    '0' <= c && c <= '9'
}

fn alpha(c: char) -> (b: bool)
    ensures
        b == is_alpha(c),
{
    ('a' <= c && c <= 'z') || ('A' <= c && c <= 'Z')
}

fn ident_char(c: char) -> (b: bool)
    ensures
        b == is_ident_char(c),
{
    alpha(c) || digit(c) || c == '_'
}

/// The first place from `pos` on that holds a line feed, or the end.
pub open spec fn comment_end(chars: Seq<char>, pos: int) -> int
    decreases chars.len() - pos,
{
    if pos < 0 || pos >= chars.len() || chars[pos] == '\n' {
        pos
    } else {
        comment_end(chars, pos + 1)
    }
}

/// The first place from `pos` on that holds neither white space nor a part
/// of a comment, which runs from a `#` to the end of its line.
pub open spec fn skip_spec(chars: Seq<char>, pos: int) -> int
    decreases chars.len() - pos,
{
    if pos < 0 || pos >= chars.len() {
        pos
    } else if chars[pos] == '#' {
        let end = comment_end(chars, pos + 1);
        if pos < end <= chars.len() {
            skip_spec(chars, end)
        } else {
            pos
        }
    } else if is_space(chars[pos]) {
        skip_spec(chars, pos + 1)
    } else {
        pos
    }
}

/// The first place from `pos` on that holds no character of an identifier.
pub open spec fn ident_end(chars: Seq<char>, pos: int) -> int
    decreases chars.len() - pos,
{
    if pos < 0 || pos >= chars.len() || !is_ident_char(chars[pos]) {
        pos
    } else {
        ident_end(chars, pos + 1)
    }
}

/// The first place from `pos` on that holds neither a digit nor `_`.
pub open spec fn int_end(chars: Seq<char>, pos: int) -> int
    decreases chars.len() - pos,
{
    if pos < 0 || pos >= chars.len() || !(is_digit(chars[pos]) || chars[pos] == '_') {
        pos
    } else {
        int_end(chars, pos + 1)
    }
}

/// The number that the digits of `s` write in decimal; a `_` between them
/// counts for nothing.
pub open spec fn digits_value(s: Seq<char>) -> nat
    decreases s.len(),
{
    if s.len() == 0 {
        0
    } else if is_digit(s.last()) {
        digits_value(s.drop_last()) * 10 + (s.last() as nat - '0' as nat) as nat
    } else {
        digits_value(s.drop_last())
    }
}

/// The number of bytes that `c` takes in UTF-8.
pub open spec fn width(c: char) -> usize {
    if (c as u32) < 0x80 {
        1
    } else if (c as u32) < 0x800 {
        2
    } else if (c as u32) < 0x10000 {
        3
    } else {
        4
    }
}

fn char_width(c: char) -> (n: usize)
    ensures
        n == width(c),
{
    let v = c as u32;
    if v < 0x80 {
        1
    } else if v < 0x800 {
        2
    } else if v < 0x10000 {
        3
    } else {
        4
    }
}

/// `a + b`, or the greatest number if the sum is none.
pub open spec fn sat_add(a: usize, b: usize) -> usize {
    if a + b > usize::MAX {
        usize::MAX
    } else {
        (a + b) as usize
    }
}

fn add_sat(a: usize, b: usize) -> (r: usize)
    ensures
        r == sat_add(a, b),
{
    match a.checked_add(b) {
        Some(n) => n,
        None => usize::MAX,
    }
}

/// What the hexadecimal digit `c` counts for.
pub open spec fn hex_value(c: char) -> Option<u8> {
    if '0' <= c <= '9' {
        Some((c as u32 - '0' as u32) as u8)
    } else if 'a' <= c <= 'f' {
        Some((c as u32 - 'a' as u32 + 10) as u8)
    } else if 'A' <= c <= 'F' {
        Some((c as u32 - 'A' as u32 + 10) as u8)
    } else {
        None
    }
}

fn hex_digit(c: char) -> (r: Option<u8>)
    ensures
        r == hex_value(c),
{
    if '0' <= c && c <= '9' {
        Some((c as u32 - '0' as u32) as u8)
    } else if 'a' <= c && c <= 'f' {
        Some((c as u32 - 'a' as u32 + 10) as u8)
    } else if 'A' <= c && c <= 'F' {
        Some((c as u32 - 'A' as u32 + 10) as u8)
    } else {
        None
    }
}

/// Where the scan of a string literal stands.
#[derive(Clone, Copy, Debug, PartialEq, Eq, Structural)]
pub enum StrScanState {
    /// In the plain text of the literal.
    Plain,
    /// After a backslash.
    Escape,
    /// After `\x`, before its two digits are read.
    Hex,
    /// In a `${ .. }` slot.
    Interpolate,
}

/// What has been read of a string literal.
pub struct StrScan {
    pub text: String,
    /// The number of bytes of `text` in UTF-8.
    pub len: usize,
    pub state: StrScanState,
    pub first_hex_char: Option<u8>,
    pub cur_interpolation_start: usize,
    pub interpolation_slots: Vec<InterpSlot>,
    pub interpolation_brace_count: usize,
}

/// What a [`StrScan`] stands for.
pub struct StrScanView {
    pub text: Seq<char>,
    pub len: usize,
    pub state: StrScanState,
    pub first_hex_char: Option<u8>,
    pub cur_interpolation_start: usize,
    pub interpolation_slots: Seq<InterpSlot>,
    pub interpolation_brace_count: usize,
}

impl View for StrScan {
    type V = StrScanView;

    open spec fn view(&self) -> StrScanView {
        StrScanView {
            text: self.text@,
            len: self.len,
            state: self.state,
            first_hex_char: self.first_hex_char,
            cur_interpolation_start: self.cur_interpolation_start,
            interpolation_slots: self.interpolation_slots@,
            interpolation_brace_count: self.interpolation_brace_count,
        }
    }
}

impl StrScanView {
    /// Nothing read yet.
    pub open spec fn start() -> StrScanView {
        StrScanView {
            text: seq![],
            len: 0,
            state: StrScanState::Plain,
            first_hex_char: None,
            cur_interpolation_start: 0,
            interpolation_slots: seq![],
            interpolation_brace_count: 0,
        }
    }

    /// The text with `c` added.
    pub open spec fn push(self, c: char) -> StrScanView {
        StrScanView { text: self.text.push(c), len: sat_add(self.len, width(c)), ..self }
    }

    pub open spec fn with_state(self, state: StrScanState) -> StrScanView {
        StrScanView { state, ..self }
    }
}

/// What one character does to the scan of a string literal.
pub enum Step {
    /// The literal goes on.
    Go(StrScanView),
    /// The character closed the literal.
    Done(StrScanView),
    Fail(LexFault),
}

/// What the character `c`, which stands at `loc`, does to the scan `st`.
///
/// In plain text a backslash begins an escape, `"` closes the literal and
/// `$` begins a slot, which only an interpolated literal can have. After a
/// backslash `\`, `"` and `$` stand for themselves, `n` and `r` for a line
/// feed and a carriage return, and `x` begins a character given by two
/// hexadecimal digits. In a slot the braces are counted, and the slot ends
/// with the brace that closes its first one.
pub open spec fn str_step(st: StrScanView, c: char, loc: Location, interpolate: bool) -> Step {
    match st.state {
        StrScanState::Plain => {
            if c == '\\' {
                Step::Go(st.with_state(StrScanState::Escape))
            } else if c == '$' {
                if interpolate {
                    Step::Go(
                        (StrScanView {
                            cur_interpolation_start: st.len,
                            state: StrScanState::Interpolate,
                            ..st
                        }).push('$'),
                    )
                } else {
                    Step::Fail(LexFault::UnescapedDollar(loc))
                }
            } else if c == '"' {
                Step::Done(st)
            } else {
                Step::Go(st.push(c))
            }
        },
        StrScanState::Escape => {
            if c == '\\' || c == '"' || c == '$' {
                Step::Go(st.push(c).with_state(StrScanState::Plain))
            } else if c == 'n' {
                Step::Go(st.push('\n').with_state(StrScanState::Plain))
            } else if c == 'r' {
                Step::Go(st.push('\r').with_state(StrScanState::Plain))
            } else if c == 'x' {
                Step::Go(st.with_state(StrScanState::Hex))
            } else {
                Step::Fail(LexFault::InvalidEscapeChar(loc, c))
            }
        },
        StrScanState::Hex => match hex_value(c) {
            None => Step::Fail(LexFault::InvalidHexChar(loc, c)),
            Some(h) => match st.first_hex_char {
                None => Step::Go(StrScanView { first_hex_char: Some(h), ..st }),
                Some(n) => Step::Go(
                    (StrScanView {
                        first_hex_char: None,
                        state: StrScanState::Plain,
                        ..st
                    }).push(((n % 16) * 16 + h % 16) as char),
                ),
            },
        },
        StrScanState::Interpolate => {
            if sat_add(st.cur_interpolation_start, 1) == st.len && c != '{' {
                Step::Fail(LexFault::InvalidInterpolationStart(loc, c))
            } else {
                let count = if c == '{' {
                    sat_add(st.interpolation_brace_count, 1)
                } else if c == '}' && st.interpolation_brace_count > 0 {
                    (st.interpolation_brace_count - 1) as usize
                } else {
                    st.interpolation_brace_count
                };
                let counted = StrScanView { interpolation_brace_count: count, ..st };
                if count == 0 {
                    Step::Go(
                        (StrScanView {
                            interpolation_slots: st.interpolation_slots.push(
                                (st.cur_interpolation_start, sat_add(st.len, 1)),
                            ),
                            state: StrScanState::Plain,
                            ..counted
                        }).push(c),
                    )
                } else {
                    Step::Go(counted.push(c))
                }
            }
        },
    }
}

/// The scan of a string literal from `pos` on: where it ends, and what was
/// read. A literal that the source ends in is closed by the end.
pub open spec fn str_scan(
    chars: Seq<char>,
    pos: int,
    st: StrScanView,
    interpolate: bool,
) -> (int, Result<StrScanView, LexFault>)
    decreases chars.len() - pos,
{
    if pos < 0 || pos >= chars.len() {
        (pos, Ok(st))
    } else {
        match str_step(st, chars[pos], scanner::loc_at(chars, pos), interpolate) {
            Step::Go(next) => str_scan(chars, pos + 1, next, interpolate),
            Step::Done(last) => (pos + 1, Ok(last)),
            Step::Fail(e) => (pos + 1, Err(e)),
        }
    }
}

/// The scanner at place `index` of the same characters.
pub open spec fn at(s: ScannerView, index: int) -> ScannerView {
    ScannerView { chars: s.chars, index: index as nat }
}

/// The identifier or keyword that begins at the current character.
pub open spec fn ident_spec(s: ScannerView) -> (ScannerView, TokenView) {
    let end = ident_end(s.chars, s.index as int);
    (at(s, end), keyword_or_ident(s.chars.subrange(s.index as int, end)))
}

/// The integer literal that begins at the current character.
pub open spec fn int_spec(s: ScannerView) -> (ScannerView, Result<TokenView, LexFault>) {
    let end = int_end(s.chars, s.index as int);
    let raw = s.chars.subrange(s.index as int, end);
    (
        at(s, end),
        if digits_value(raw) > i64::MAX {
            Err(LexFault::IntTooHigh(s.loc(), raw))
        } else {
            Ok(TokenView::IntLiteral(digits_value(raw) as i64))
        },
    )
}

/// The string literal whose opening quote is the current character.
pub open spec fn str_literal_spec(s: ScannerView, interpolate: bool) -> (
    ScannerView,
    Result<TokenView, LexFault>,
) {
    let (end, r) = str_scan(s.chars, s.step().index as int, StrScanView::start(), interpolate);
    (
        at(s, end),
        match r {
            Err(e) => Err(e),
            Ok(st) => if interpolate {
                Ok(TokenView::InterpStrLiteral(st.text, st.interpolation_slots))
            } else {
                Ok(TokenView::StrLiteral(st.text))
            },
        },
    )
}

/// The symbol that begins with the current character, `c`: the token of two
/// characters that it spells with the next one, or else the token that it
/// spells alone.
pub open spec fn symbol_spec(s: ScannerView, c: char) -> (ScannerView, Option<TokenView>) {
    let s1 = s.step();
    match single_symbol(c) {
        Some(initial) => match s1.cur() {
            None => (s1, Some(initial)),
            Some(next) => match double_symbol(c, next) {
                Some(t) => (s1.step(), Some(t)),
                None => (s1, Some(initial)),
            },
        },
        None => match s1.cur() {
            None => (s1, None),
            Some(second) => (s1.step(), double_symbol(c, second)),
        },
    }
}

/// The place of the last character of a token after which the scanner
/// stands at `s`: one column before the current character, or at the end of
/// the source the place of the last character.
pub open spec fn end_loc(s: ScannerView) -> Location {
    let l = s.loc();
    if s.cur() is Some && l.1 > 0 {
        (l.0, (l.1 - 1) as usize)
    } else {
        l
    }
}

/// The next token from `s` on, with its span, and where the scanner stands
/// after it: `None` at the end of the source.
pub open spec fn next_spec(s: ScannerView) -> (
    ScannerView,
    Option<Result<(Location, TokenView, Location), LexFault>>,
) {
    let s1 = at(s, skip_spec(s.chars, s.index as int));
    let start_loc = s1.loc();
    match s1.cur() {
        None => (s1, None),
        Some(c) => {
            let (s2, t) = if is_alpha(c) || c == '_' {
                let (s2, t) = ident_spec(s1);
                (s2, Ok(t))
            } else if is_digit(c) {
                int_spec(s1)
            } else if c == '"' {
                str_literal_spec(s1, false)
            } else if c == '$' {
                str_literal_spec(s1.step(), true)
            } else {
                let (s2, t) = symbol_spec(s1, c);
                (
                    s2,
                    match t {
                        Some(t) => Ok(t),
                        None => Err(LexFault::Unexpected(start_loc, c)),
                    },
                )
            };
            (
                s2,
                Some(
                    match t {
                        Ok(t) => Ok((start_loc, t, end_loc(s2))),
                        Err(e) => Err(e),
                    },
                ),
            )
        },
    }
}

/// The view of what `next` returns.
pub open spec fn next_view(r: Option<Result<Span, LexError>>) -> Option<
    Result<(Location, TokenView, Location), LexFault>,
> {
    match r {
        None => None,
        Some(Ok(span)) => Some(Ok((span.0, span.1@, span.2))),
        Some(Err(e)) => Some(Err(e@)),
    }
}

pub struct Lexer {
    pub scanner: Scanner,
}

/// The character that the byte `b` is.
fn char_of(b: u8) -> (c: char)
    ensures
        c == b as char,
{
    b as char
}

/// Takes the character `c`, which stands at `cur_loc`, into the scan of a
/// string literal. `Ok(true)` says that the literal goes on.
fn take_char(st: &mut StrScan, c: char, cur_loc: Location, interpolate: bool) -> (r: Result<
    bool,
    LexError,
>)
    ensures
        match r {
            Ok(true) => str_step(old(st)@, c, cur_loc, interpolate) == Step::Go(final(st)@),
            Ok(false) => str_step(old(st)@, c, cur_loc, interpolate) == Step::Done(final(st)@),
            Err(e) => str_step(old(st)@, c, cur_loc, interpolate) == Step::Fail(e@),
        },
{
    match st.state {
        StrScanState::Plain => {
            if c == '\\' {
                st.state = StrScanState::Escape;
            } else if c == '$' {
                if interpolate {
                    st.cur_interpolation_start = st.len;
                    st.state = StrScanState::Interpolate;
                    push_char(&mut st.text, '$');
                    st.len = add_sat(st.len, char_width('$'));
                } else {
                    return Err(LexError::UnescapedDollar(cur_loc));
                }
            } else if c == '"' {
                return Ok(false);
            } else {
                push_char(&mut st.text, c);
                st.len = add_sat(st.len, char_width(c));
            }
        },
        StrScanState::Escape => {
            if c == '\\' || c == '"' || c == '$' {
                push_char(&mut st.text, c);
                st.len = add_sat(st.len, char_width(c));
            } else if c == 'n' {
                push_char(&mut st.text, '\n');
                st.len = add_sat(st.len, char_width('\n'));
            } else if c == 'r' {
                push_char(&mut st.text, '\r');
                st.len = add_sat(st.len, char_width('\r'));
            } else if c == 'x' {
                st.state = StrScanState::Hex;
                return Ok(true);
            } else {
                return Err(LexError::InvalidEscapeChar(cur_loc, c));
            }
            st.state = StrScanState::Plain;
        },
        StrScanState::Hex => {
            let h = match hex_digit(c) {
                Some(v) => v,
                None => {
                    return Err(LexError::InvalidHexChar(cur_loc, c));
                },
            };
            match st.first_hex_char {
                None => {
                    st.first_hex_char = Some(h);
                },
                Some(n) => {
                    let made = char_of((n % 16) * 16 + h % 16);
                    push_char(&mut st.text, made);
                    st.len = add_sat(st.len, char_width(made));
                    st.first_hex_char = None;
                    st.state = StrScanState::Plain;
                },
            }
        },
        StrScanState::Interpolate => {
            if add_sat(st.cur_interpolation_start, 1) == st.len && c != '{' {
                return Err(LexError::InvalidInterpolationStart(cur_loc, c));
            }
            if c == '{' {
                st.interpolation_brace_count = add_sat(st.interpolation_brace_count, 1);
            } else if c == '}' && st.interpolation_brace_count > 0 {
                st.interpolation_brace_count = st.interpolation_brace_count - 1;
            }
            if st.interpolation_brace_count == 0 {
                let slot = (st.cur_interpolation_start, add_sat(st.len, 1));
                st.interpolation_slots.push(slot);
                st.state = StrScanState::Plain;
            }
            push_char(&mut st.text, c);
            st.len = add_sat(st.len, char_width(c));
        },
    }
    Ok(true)
}

impl Lexer {
    /// A lexer at the beginning of `chars`.
    pub fn new(chars: &str) -> (l: Lexer)
        ensures
            l.scanner.wf(),
            l.scanner@ == (ScannerView { chars: chars@, index: 0 }),
    {
        Lexer { scanner: Scanner::new(chars) }
    }

    fn skip_whitespace_and_comments(&mut self)
        requires
            old(self).scanner.wf(),
        ensures
            final(self).scanner.wf(),
            final(self).scanner@ == at(
                old(self).scanner@,
                skip_spec(old(self).scanner@.chars, old(self).scanner@.index as int),
            ),
    {
        let ghost chars = self.scanner@.chars;
        let ghost first = self.scanner@.index as int;
        loop
            invariant
                self.scanner.wf(),
                self.scanner@.chars == chars,
                old(self).scanner@.chars == chars,
                first == old(self).scanner@.index,
                skip_spec(chars, first) == skip_spec(chars, self.scanner@.index as int),
            decreases chars.len() - self.scanner@.index,
        {
            let c = match self.scanner.peek_char() {
                Some(c) => c,
                None => {
                    return ;
                },
            };
            if c == '#' {
                let ghost hash = self.scanner@.index as int;
                self.scanner.next_char();
                loop
                    invariant
                        self.scanner.wf(),
                        self.scanner@.chars == chars,
                        hash < self.scanner@.index <= chars.len(),
                        comment_end(chars, hash + 1) == comment_end(
                            chars,
                            self.scanner@.index as int,
                        ),
                    ensures
                        comment_end(chars, hash + 1) == self.scanner@.index,
                    decreases chars.len() - self.scanner@.index,
                {
                    match self.scanner.peek_char() {
                        Some(c_) => {
                            if c_ == '\n' {
                                break ;
                            }
                        },
                        None => {
                            break ;
                        },
                    }
                    self.scanner.next_char();
                }
            } else {
                if !space(c) {
                    return ;
                }
                self.scanner.next_char();
            }
        }
    }

    fn next_keyword_or_ident(&mut self) -> (t: Token)
        requires
            old(self).scanner.wf(),
        ensures
            final(self).scanner.wf(),
            (final(self).scanner@, t@) == ident_spec(old(self).scanner@),
    {
        let ghost chars = self.scanner@.chars;
        let start = self.scanner.index();
        loop
            invariant
                self.scanner.wf(),
                self.scanner@.chars == chars,
                start == old(self).scanner@.index,
                start <= self.scanner@.index <= chars.len(),
                ident_end(chars, start as int) == ident_end(chars, self.scanner@.index as int),
            ensures
                ident_end(chars, start as int) == self.scanner@.index,
            decreases chars.len() - self.scanner@.index,
        {
            match self.scanner.peek_char() {
                Some(c) => {
                    if !ident_char(c) {
                        break ;
                    }
                },
                None => {
                    break ;
                },
            }
            self.scanner.next_char();
        }
        let end = self.scanner.index();
        let t = self.scanner.range(start, end);
        to_keyword_or_ident(t)
    }

    fn next_int(&mut self) -> (r: Result<Token, LexError>)
        requires
            old(self).scanner.wf(),
        ensures
            final(self).scanner.wf(),
            (final(self).scanner@, match r {
                Ok(t) => Ok::<TokenView, LexFault>(t@),
                Err(e) => Err::<TokenView, LexFault>(e@),
            }) == int_spec(old(self).scanner@),
    {
        let ghost chars = self.scanner@.chars;
        let loc = self.scanner.loc();
        let start = self.scanner.index();
        let mut value: u64 = 0;
        let mut too_high = false;
        assert(chars.subrange(start as int, start as int) =~= seq![]);
        loop
            invariant
                self.scanner.wf(),
                self.scanner@.chars == chars,
                start == old(self).scanner@.index,
                start <= self.scanner@.index <= chars.len(),
                int_end(chars, start as int) == int_end(chars, self.scanner@.index as int),
                !too_high ==> value == digits_value(
                    chars.subrange(start as int, self.scanner@.index as int),
                ) && value <= i64::MAX,
                too_high ==> digits_value(chars.subrange(start as int, self.scanner@.index as int))
                    > i64::MAX,
            ensures
                int_end(chars, start as int) == self.scanner@.index,
            decreases chars.len() - self.scanner@.index,
        {
            let c = match self.scanner.peek_char() {
                Some(c) => c,
                None => {
                    break ;
                },
            };
            if !(digit(c) || c == '_') {
                break ;
            }
            proof {
                let i = self.scanner@.index as int;
                let next = chars.subrange(start as int, i + 1);
                assert(next.drop_last() =~= chars.subrange(start as int, i));
                assert(next.last() == c);
            }
            if digit(c) && !too_high {
                let d = (c as u32 - '0' as u32) as u128;
                let next = value as u128 * 10 + d;
                if next > i64::MAX as u128 {
                    too_high = true;
                } else {
                    value = next as u64;
                }
            }
            self.scanner.next_char();
        }
        let end = self.scanner.index();
        let raw_int = self.scanner.range(start, end);
        if too_high {
            return Err(LexError::IntTooHigh(loc, raw_int));
        }
        Ok(Token::IntLiteral(value as i64))
    }

    fn next_str_literal(&mut self, interpolate: bool) -> (r: Result<Token, LexError>)
        requires
            old(self).scanner.wf(),
        ensures
            final(self).scanner.wf(),
            (final(self).scanner@, match r {
                Ok(t) => Ok::<TokenView, LexFault>(t@),
                Err(e) => Err::<TokenView, LexFault>(e@),
            }) == str_literal_spec(old(self).scanner@, interpolate),
    {
        let ghost chars = self.scanner@.chars;
        self.scanner.next_char();
        let ghost first = self.scanner@.index as int;
        let mut st = StrScan {
            text: String::new(),
            len: 0,
            state: StrScanState::Plain,
            first_hex_char: None,
            cur_interpolation_start: 0,
            interpolation_slots: Vec::new(),
            interpolation_brace_count: 0,
        };
        assert(st@ == StrScanView::start());
        loop
            invariant_except_break
                str_scan(chars, first, StrScanView::start(), interpolate) == str_scan(
                    chars,
                    self.scanner@.index as int,
                    st@,
                    interpolate,
                ),
            invariant
                self.scanner.wf(),
                self.scanner@.chars == chars,
                old(self).scanner@.chars == chars,
                first == old(self).scanner@.step().index,
            ensures
                str_scan(chars, first, StrScanView::start(), interpolate) == (
                    self.scanner@.index as int,
                    Ok::<StrScanView, LexFault>(st@),
                ),
            decreases chars.len() - self.scanner@.index,
        {
            let c = match self.scanner.peek_char() {
                Some(c) => c,
                None => {
                    break ;
                },
            };
            let cur_loc = self.scanner.loc();
            self.scanner.next_char();
            if !take_char(&mut st, c, cur_loc, interpolate)? {
                break ;
            }
        }
        if interpolate {
            Ok(Token::InterpStrLiteral(st.text, st.interpolation_slots))
        } else {
            Ok(Token::StrLiteral(st.text))
        }
    }

    fn next_symbol_token(&mut self, c: char) -> (t: Option<Token>)
        requires
            old(self).scanner.wf(),
        ensures
            final(self).scanner.wf(),
            (final(self).scanner@, match t {
                Some(t) => Some(t@),
                None => None,
            }) == symbol_spec(old(self).scanner@, c),
    {
        if let Some(initial_t) = match_single_symbol_token(c) {
            self.scanner.next_char();
            let next_char = match self.scanner.peek_char() {
                Some(c) => c,
                None => {
                    return Some(initial_t);
                },
            };
            let t = match match_double_symbol_token(c, next_char) {
                Some(t) => t,
                None => {
                    return Some(initial_t);
                },
            };
            self.scanner.next_char();
            Some(t)
        } else {
            self.next_double_symbol_token(c)
        }
    }

    fn next_double_symbol_token(&mut self, first_char: char) -> (t: Option<Token>)
        requires
            old(self).scanner.wf(),
            single_symbol(first_char) is None,
        ensures
            final(self).scanner.wf(),
            (final(self).scanner@, match t {
                Some(t) => Some(t@),
                None => None,
            }) == symbol_spec(old(self).scanner@, first_char),
    {
        self.scanner.next_char();
        let second_char = match self.scanner.peek_char() {
            Some(c) => c,
            None => {
                return None;
            },
        };
        self.scanner.next_char();
        match_double_symbol_token(first_char, second_char)
    }

    /// The next token, with the places of its first and last character, or
    /// `None` at the end of the source.
    pub fn next(&mut self) -> (r: Option<Result<Span, LexError>>)
        requires
            old(self).scanner.wf(),
        ensures
            final(self).scanner.wf(),
            (final(self).scanner@, next_view(r)) == next_spec(old(self).scanner@),
    {
        self.skip_whitespace_and_comments();
        let start_loc = self.scanner.loc();
        let c = match self.scanner.peek_char() {
            Some(c) => c,
            None => {
                return None;
            },
        };
        let t = if alpha(c) || c == '_' {
            self.next_keyword_or_ident()
        } else if digit(c) {
            match self.next_int() {
                Ok(n) => n,
                Err(e) => {
                    return Some(Err(e));
                },
            }
        } else if c == '"' || c == '$' {
            let mut interpolate = false;
            if c == '$' {
                self.scanner.next_char();
                interpolate = true;
            }
            match self.next_str_literal(interpolate) {
                Ok(s) => s,
                Err(e) => {
                    return Some(Err(e));
                },
            }
        } else if let Some(t) = self.next_symbol_token(c) {
            t
        } else {
            return Some(Err(LexError::Unexpected(start_loc, c)));
        };
        let end = self.end_loc();
        Some(Ok((start_loc, t, end)))
    }

    /// The place of the last character of the token that was read last.
    fn end_loc(&mut self) -> (l: Location)
        requires
            old(self).scanner.wf(),
        ensures
            *final(self) == *old(self),
            l == end_loc(old(self).scanner@),
    {
        let (line, mut col) = self.scanner.loc();
        if self.scanner.peek_char().is_some() && col > 0 {
            col = col - 1;
        }
        (line, col)
    }
}

} // verus!
