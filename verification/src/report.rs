//! How failures are reported to the user: the line that says where a
//! script went wrong, and what went wrong there.

use vstd::prelude::*;

use crate::eval::error::Context;
use crate::eval::error::Error;
use crate::eval::error::Failure;
use crate::eval::message::message_text;
use crate::eval::message::place_of;
use crate::eval::message::placed;
use crate::lexer::LexError;
use crate::lexer::LexFault;
use crate::lexer::Location;
use crate::lexer::Span;
use crate::lexer::Token;
use crate::lexer::TokenView;
use crate::text::decimal;
use crate::text::push_char;
use crate::text::i64_to_string;
use crate::text::int_text;
use crate::text::usize_to_string;

verus! {

/// The ways in which the text of a script fails to be a program.
#[derive(Debug, PartialEq)]
pub enum ParseError {
    /// A token that nothing can begin with.
    InvalidToken { location: Location },
    /// The text ended where one of `expected` had to follow.
    UnrecognizedEOF { location: Location, expected: Vec<String> },
    /// A token stands where one of `expected` had to stand.
    UnrecognizedToken { token: Span, expected: Vec<String> },
    /// A token stands after the end of the program.
    ExtraToken { token: Span },
    /// The text has a part that is no token.
    User { error: LexError },
}

/// What a [`ParseError`] stands for.
pub enum ParseFault {
    InvalidToken { location: Location },
    UnrecognizedEOF { location: Location, expected: Seq<Seq<char>> },
    UnrecognizedToken { location: Location, token: TokenView, expected: Seq<Seq<char>> },
    ExtraToken { location: Location, token: TokenView },
    User { error: LexFault },
}

/// The texts that `xs` stands for.
pub open spec fn texts(xs: Seq<String>) -> Seq<Seq<char>> {
    Seq::new(xs.len(), |i: int| xs[i]@)
}

impl View for ParseError {
    type V = ParseFault;

    open spec fn view(&self) -> ParseFault {
        match *self {
            ParseError::InvalidToken { location } => ParseFault::InvalidToken { location },
            ParseError::UnrecognizedEOF { location, expected } => ParseFault::UnrecognizedEOF {
                location,
                expected: texts(expected@),
            },
            ParseError::UnrecognizedToken { token, expected } => ParseFault::UnrecognizedToken {
                location: token.0,
                token: token.1@,
                expected: texts(expected@),
            },
            ParseError::ExtraToken { token } => ParseFault::ExtraToken {
                location: token.0,
                token: token.1@,
            },
            ParseError::User { error } => ParseFault::User { error: error@ },
        }
    }
}

/// How a token is shown in a message: an identifier and a keyword between
/// backticks, an integer in decimal, a string literal between double
/// quotes, and a symbol as it is written.
pub open spec fn token_text(t: TokenView) -> Seq<char> {
    match t {
        TokenView::Ident(s) => "`"@ + s + "`"@,
        TokenView::IntLiteral(n) => int_text(n as int),
        TokenView::StrLiteral(s) => "\""@ + s + "\""@,
        TokenView::InterpStrLiteral(s, _) => "$\""@ + s + "\""@,
        TokenView::Break => "`break`"@,
        TokenView::Continue => "`continue`"@,
        TokenView::Else => "`else`"@,
        TokenView::False => "`false`"@,
        TokenView::Fn => "`fn`"@,
        TokenView::For => "`for`"@,
        TokenView::If => "`if`"@,
        TokenView::In => "`in`"@,
        TokenView::Null => "`null`"@,
        TokenView::Return => "`return`"@,
        TokenView::True => "`true`"@,
        TokenView::While => "`while`"@,
        TokenView::Bang => "!"@,
        TokenView::BraceClose => "}"@,
        TokenView::BraceOpen => "{"@,
        TokenView::BracketClose => "]"@,
        TokenView::BracketOpen => "["@,
        TokenView::Colon => ":"@,
        TokenView::Comma => ","@,
        TokenView::Div => "/"@,
        TokenView::Dot => "."@,
        TokenView::Equals => "="@,
        TokenView::GreaterThan => ">"@,
        TokenView::LessThan => "<"@,
        TokenView::Mod => "%"@,
        TokenView::Mul => "*"@,
        TokenView::ParenClose => ")"@,
        TokenView::ParenOpen => "("@,
        TokenView::Semicolon => ";"@,
        TokenView::Sub => "-"@,
        TokenView::Sum => "+"@,
        TokenView::AmpAmp => "&&"@,
        TokenView::BangEquals => "!="@,
        TokenView::ColonEquals => ":="@,
        TokenView::DashGreaterThan => "->"@,
        TokenView::DivEquals => "/="@,
        TokenView::DotDot => ".."@,
        TokenView::EqualsEquals => "=="@,
        TokenView::GreaterThanEquals => ">="@,
        TokenView::LessThanEquals => "<="@,
        TokenView::ModEquals => "%="@,
        TokenView::MulEquals => "*="@,
        TokenView::PipePipe => "||"@,
        TokenView::SubEquals => "-="@,
        TokenView::SumEquals => "+="@,
    }
}

pub fn render_token_as_char(t: Token) -> (s: String)
    ensures
        s@ == token_text(t@),
{
    match t {
        Token::Ident(name) => {
            let mut s = String::from_str("`");
            s.append(name.as_str());
            s.append("`");
            s
        },
        Token::IntLiteral(n) => i64_to_string(n),
        Token::StrLiteral(text) => {
            let mut s = String::from_str("\"");
            s.append(text.as_str());
            s.append("\"");
            s
        },
        Token::InterpStrLiteral(text, _) => {
            let mut s = String::from_str("$\"");
            s.append(text.as_str());
            s.append("\"");
            s
        },
        Token::Break => String::from_str("`break`"),
        Token::Continue => String::from_str("`continue`"),
        Token::Else => String::from_str("`else`"),
        Token::False => String::from_str("`false`"),
        Token::Fn => String::from_str("`fn`"),
        Token::For => String::from_str("`for`"),
        Token::If => String::from_str("`if`"),
        Token::In => String::from_str("`in`"),
        Token::Null => String::from_str("`null`"),
        Token::Return => String::from_str("`return`"),
        Token::True => String::from_str("`true`"),
        Token::While => String::from_str("`while`"),
        Token::Bang => String::from_str("!"),
        Token::BraceClose => String::from_str("}"),
        Token::BraceOpen => String::from_str("{"),
        Token::BracketClose => String::from_str("]"),
        Token::BracketOpen => String::from_str("["),
        Token::Colon => String::from_str(":"),
        Token::Comma => String::from_str(","),
        Token::Div => String::from_str("/"),
        Token::Dot => String::from_str("."),
        Token::Equals => String::from_str("="),
        Token::GreaterThan => String::from_str(">"),
        Token::LessThan => String::from_str("<"),
        Token::Mod => String::from_str("%"),
        Token::Mul => String::from_str("*"),
        Token::ParenClose => String::from_str(")"),
        Token::ParenOpen => String::from_str("("),
        Token::Semicolon => String::from_str(";"),
        Token::Sub => String::from_str("-"),
        Token::Sum => String::from_str("+"),
        Token::AmpAmp => String::from_str("&&"),
        Token::BangEquals => String::from_str("!="),
        Token::ColonEquals => String::from_str(":="),
        Token::DashGreaterThan => String::from_str("->"),
        Token::DivEquals => String::from_str("/="),
        Token::DotDot => String::from_str(".."),
        Token::EqualsEquals => String::from_str("=="),
        Token::GreaterThanEquals => String::from_str(">="),
        Token::LessThanEquals => String::from_str("<="),
        Token::ModEquals => String::from_str("%="),
        Token::MulEquals => String::from_str("*="),
        Token::PipePipe => String::from_str("||"),
        Token::SubEquals => String::from_str("-="),
        Token::SumEquals => String::from_str("+="),
    }
}

/// The texts of `xs`, each but the first after a comma and a space.
pub open spec fn comma_joined(xs: Seq<Seq<char>>) -> Seq<char>
    decreases xs.len(),
{
    if xs.len() == 0 {
        seq![]
    } else if xs.len() == 1 {
        xs[0]
    } else {
        comma_joined(xs.drop_last()) + ", "@ + xs.last()
    }
}

/// The texts of `xs` as a choice: `a`, `a or b`, `a, b or c`.
pub open spec fn join_text(xs: Seq<Seq<char>>) -> Seq<char> {
    if xs.len() == 0 {
        seq![]
    } else if xs.len() == 1 {
        xs[0]
    } else {
        comma_joined(xs.drop_last()) + " or "@ + xs.last()
    }
}

pub fn join_strings(xs: &[String]) -> (s: String)
    ensures
        s@ == join_text(texts(xs@)),
{
    let ghost all = texts(xs@);
    if xs.len() == 0 {
        String::new()
    } else if xs.len() == 1 {
        xs[0].clone()
    } else {
        let mut pre = xs[0].clone();
        let mut i: usize = 1;
        assert(all.take(1) =~= seq![all[0]]);
        while i < xs.len() - 1
            invariant
                1 <= i <= xs.len() - 1,
                all == texts(xs@),
                pre@ == comma_joined(all.take(i as int)),
            decreases xs.len() - i,
        {
            proof {
                let next = all.take(i + 1);
                assert(next.drop_last() =~= all.take(i as int));
                assert(next.last() == all[i as int]);
            }
            pre.append(", ");
            pre.append(xs[i].as_str());
            i = i + 1;
        }
        assert(all.take(i as int) =~= all.drop_last());
        pre.append(" or ");
        pre.append(xs[xs.len() - 1].as_str());
        pre
    }
}

/// What a failure of the lexer says, and where.
pub open spec fn lex_error_text(e: LexFault) -> (Location, Seq<char>) {
    match e {
        LexFault::Unexpected(loc, c) => (loc, "unexpected '"@ + seq![c] + "'"@),
        LexFault::IntTooHigh(loc, raw) => (loc, "integer '"@ + raw + "' is too high"@),
        LexFault::IntTooLow(loc, raw) => (loc, "integer '"@ + raw + "' is too low"@),
        LexFault::UnescapedDollar(loc) => (loc, "unescaped '$' in string"@),
        LexFault::InvalidInterpolationStart(loc, c) => (
            loc,
            "expected '{' after '$', found '"@ + seq![c] + "'"@,
        ),
        LexFault::InvalidEscapeChar(loc, c) => (
            loc,
            "invalid escape character '"@ + seq![c] + "'"@,
        ),
        LexFault::InvalidHexChar(loc, c) => (
            loc,
            "invalid hexadecimal character '"@ + seq![c] + "'"@,
        ),
    }
}

/// `before`, then `c`, then `after`.
fn around_char(before: &str, c: char, after: &str) -> (s: String)
    ensures
        s@ == before@ + seq![c] + after@,
{
    let mut s = String::from_str(before);
    push_char(&mut s, c);
    s.append(after);
    assert(s@ =~= before@ + seq![c] + after@);
    s
}

/// `before`, then `text`, then `after`.
fn around(before: &str, text: &str, after: &str) -> (s: String)
    ensures
        s@ == before@ + text@ + after@,
{
    let mut s = String::from_str(before);
    s.append(text);
    s.append(after);
    s
}

pub fn render_lex_error(error: LexError) -> (r: (Location, String))
    ensures
        (r.0, r.1@) == lex_error_text(error@),
{
    match error {
        LexError::Unexpected(loc, c) => (loc, around_char("unexpected '", c, "'")),
        LexError::IntTooHigh(loc, raw) => (loc, around("integer '", raw.as_str(), "' is too high")),
        LexError::IntTooLow(loc, raw) => (loc, around("integer '", raw.as_str(), "' is too low")),
        LexError::UnescapedDollar(loc) => (loc, String::from_str("unescaped '$' in string")),
        LexError::InvalidInterpolationStart(loc, c) => (
            loc,
            around_char("expected '{' after '$', found '", c, "'"),
        ),
        LexError::InvalidEscapeChar(loc, c) => (
            loc,
            around_char("invalid escape character '", c, "'"),
        ),
        LexError::InvalidHexChar(loc, c) => (
            loc,
            around_char("invalid hexadecimal character '", c, "'"),
        ),
    }
}

/// What a failure to parse says, and where.
pub open spec fn parse_error_text(e: ParseFault) -> (Location, Seq<char>) {
    match e {
        ParseFault::InvalidToken { location } => (location, "invalid token"@),
        ParseFault::UnrecognizedEOF { location, expected } => (
            location,
            "unexpected EOF; expected "@ + join_text(expected),
        ),
        ParseFault::UnrecognizedToken { location, token, expected } => (
            location,
            "unexpected '"@ + token_text(token) + "'; expected "@ + join_text(expected),
        ),
        ParseFault::ExtraToken { location, token } => (
            location,
            "encountered extra token '"@ + token_text(token) + "'"@,
        ),
        ParseFault::User { error } => lex_error_text(error),
    }
}

pub fn render_parse_error(error: ParseError) -> (r: (Location, String))
    ensures
        (r.0, r.1@) == parse_error_text(error@),
{
    match error {
        ParseError::InvalidToken { location } => (location, String::from_str("invalid token")),
        ParseError::UnrecognizedEOF { location, expected } => {
            let mut s = String::from_str("unexpected EOF; expected ");
            s.append(join_strings(expected.as_slice()).as_str());
            (location, s)
        },
        ParseError::UnrecognizedToken { token, expected } => {
            let (loc, tok, _) = token;
            let mut s = String::from_str("unexpected '");
            s.append(render_token_as_char(tok).as_str());
            s.append("'; expected ");
            s.append(join_strings(expected.as_slice()).as_str());
            (loc, s)
        },
        ParseError::ExtraToken { token } => {
            let (loc, tok, _) = token;
            (loc, around("encountered extra token '", render_token_as_char(tok).as_str(), "'"))
        },
        ParseError::User { error } => render_lex_error(error),
    }
}

/// `line`, a colon, `col`, a colon and a space.
pub open spec fn place_text(l: Location) -> Seq<char> {
    decimal(l.0 as nat) + ":"@ + decimal(l.1 as nat) + ": "@
}

/// What is reported of a failure to parse: its place, then what it says.
pub open spec fn parse_report(e: ParseFault) -> Seq<char> {
    place_text(parse_error_text(e).0) + parse_error_text(e).1
}

/// What is reported of an error of the evaluator: the place it was raised
/// at, if it has one, and what it says.
pub open spec fn eval_report(e: Failure) -> Seq<char> {
    match place_of(e) {
        Some(l) => place_text(l) + message_text(e),
        None => message_text(e),
    }
}

fn render_place(l: Location) -> (s: String)
    ensures
        s@ == place_text(l),
{
    let mut s = usize_to_string(l.0);
    s.append(":");
    s.append(usize_to_string(l.1).as_str());
    s.append(": ");
    s
}

/// The report of a failure to parse: see [`parse_report`].
pub fn render_parse_report(error: ParseError) -> (s: String)
    ensures
        s@ == parse_report(error@),
{
    let (loc, msg) = render_parse_error(error);
    let mut s = render_place(loc);
    s.append(msg.as_str());
    s
}

pub fn render_eval_error(error: Error) -> (s: String)
    ensures
        s@ == eval_report(error@),
{
    match error.place() {
        Some(l) => {
            let mut s = render_place(l);
            s.append(error.message().as_str());
            s
        },
        None => error.message(),
    }
}

/// An error that has a place is reported with its line and column in
/// front. Every error that the evaluator ends in has one: each of its
/// functions says so of its result.
pub proof fn placed_errors_report_their_place(e: Failure)
    requires
        placed(e),
    ensures
        ({
            let l = place_of(e)->0;
            eval_report(e) == decimal(l.0 as nat) + ":"@ + decimal(l.1 as nat) + ": "@
                + message_text(e)
        }),
{
}

/// The error `e` with each of `contexts` put around it, from the first to
/// the last of them.
pub open spec fn in_contexts(e: Failure, contexts: Seq<Context>) -> Failure
    decreases contexts.len(),
{
    if contexts.len() == 0 {
        e
    } else {
        in_contexts(e, contexts.drop_last()).within(contexts.last())
    }
}

/// An error raised at a place is reported as line, colon, column, colon,
/// space and what the error says, whatever the evaluator was doing around
/// it. The place is the one it was raised at, unless the error has a place
/// of its own within: then it is that one, the innermost.
pub proof fn errors_raised_at_a_place_report_it(e: Failure, loc: Location, contexts: Seq<Context>)
    ensures
        ({
            let l = match place_of(e) {
                Some(inner) => inner,
                None => loc,
            };
            eval_report(in_contexts(e.at(loc), contexts)) == decimal(l.0 as nat) + ":"@ + decimal(
                l.1 as nat,
            ) + ": "@ + message_text(e)
        }),
    decreases contexts.len(),
{
    if contexts.len() > 0 {
        errors_raised_at_a_place_report_it(e, loc, contexts.drop_last());
    }
}

} // verus!
