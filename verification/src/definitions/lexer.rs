//! Tokens and the lexer that cuts source text into them.

use vstd::prelude::*;
use crate::text::span::TextSpan;

verus! {

/// The classes of lexical units.
#[derive(Debug, Clone, Copy, PartialEq, Eq, Structural)]
pub enum TokenKind {
    Number(i64),
    Plus,
    Minus,
    Asterisk,
    Slash,
    Percent,
    Ampersand,
    Equals,
    Pipe,
    Caret,
    DoubleAsterisk,
    Tilde,
    Whitespace,
    DoubleEquals,
    LessThan,
    LessThanEquals,
    GreaterThan,
    GreaterThanEquals,
    Bang,
    BangEquals,
    Identifier,
    String,
    OpenParenthesis,
    CloseParenthesis,
    OpenBrace,
    CloseBrace,
    OpenBracket,
    CloseBracket,
    Comma,
    Colon,
    Semicolon,
    Arrow,
    FatArrow,
    True,
    False,
    Let,
    If,
    Else,
    While,
    For,
    In,
    Function,
    Return,
    Break,
    Continue,
    Null,
    Eof,
    Error,
}

/// The digits of `n` in base ten, without leading zeros.
pub open spec fn decimal_digits(n: nat) -> Seq<char>
    decreases n,
{
    if n < 10 {
        seq![digit_char(n)]
    } else {
        decimal_digits(n / 10).push(digit_char(n % 10))
    }
}

/// The character for a digit.
pub open spec fn digit_char(d: nat) -> char {
    if d == 0 {
        '0'
    } else if d == 1 {
        '1'
    } else if d == 2 {
        '2'
    } else if d == 3 {
        '3'
    } else if d == 4 {
        '4'
    } else if d == 5 {
        '5'
    } else if d == 6 {
        '6'
    } else if d == 7 {
        '7'
    } else if d == 8 {
        '8'
    } else {
        '9'
    }
}

/// A number as it is written in base ten, with a minus sign in front if it
/// is negative.
pub open spec fn decimal_text(n: int) -> Seq<char> {
    if n < 0 {
        seq!['-'] + decimal_digits((-n) as nat)
    } else {
        decimal_digits(n as nat)
    }
}

/// The characters for the digits in `digits`, last digit first.
pub open spec fn reversed_digits(digits: Seq<u8>) -> Seq<char>
    decreases digits.len(),
{
    if digits.len() == 0 {
        Seq::empty()
    } else {
        seq![digit_char(digits.last() as nat)] + reversed_digits(digits.drop_last())
    }
}

/// The text of one digit.
fn digit_text(digit: u8) -> (r: &'static str)
    requires
        digit < 10,
    ensures
        r@ == seq![digit_char(digit as nat)],
{
    proof {
        reveal_strlit("0");
        reveal_strlit("1");
        reveal_strlit("2");
        reveal_strlit("3");
        reveal_strlit("4");
        reveal_strlit("5");
        reveal_strlit("6");
        reveal_strlit("7");
        reveal_strlit("8");
        reveal_strlit("9");
    }
    let text = match digit {
        0 => "0",
        1 => "1",
        2 => "2",
        3 => "3",
        4 => "4",
        5 => "5",
        6 => "6",
        7 => "7",
        8 => "8",
        _ => "9",
    };
    assert(text@ =~= seq![digit_char(digit as nat)]);
    text
}

/// Writes a number in base ten.
fn number_text(value: i64) -> (r: String)
    ensures
        r@ == decimal_text(value as int),
{
    let mut text = String::new();
    // The magnitude, computed so that the least number has one too.
    let mut left: u64 = if value < 0 {
        proof {
            reveal_strlit("-");
        }
        text.append("-");
        (-(value + 1)) as u64 + 1
    } else {
        value as u64
    };
    let ghost sign = text@;
    let ghost magnitude = left as nat;
    assert(decimal_text(value as int) =~= sign + decimal_digits(magnitude));
    // The digits from the last to the second, then the first.
    let mut digits: Vec<u8> = Vec::new();
    assert(decimal_digits(left as nat) + reversed_digits(digits@) =~= decimal_digits(magnitude));
    while left >= 10
        invariant
            decimal_digits(magnitude) == decimal_digits(left as nat) + reversed_digits(digits@),
            forall|i: int| 0 <= i < digits.len() ==> digits[i] < 10,
        decreases left,
    {
        let digit: u8 = (left % 10) as u8;
        proof {
            let more = digits@.push(digit);
            assert(more.drop_last() =~= digits@);
            assert(decimal_digits((left / 10) as nat) + reversed_digits(more) =~= decimal_digits(
                left as nat,
            ) + reversed_digits(digits@));
        }
        digits.push(digit);
        left = left / 10;
    }
    text.append(digit_text(left as u8));
    let mut i: usize = digits.len();
    assert(digits@.take(i as int) =~= digits@);
    assert(text@ + reversed_digits(digits@) =~= sign + (decimal_digits(left as nat)
        + reversed_digits(digits@)));
    while i > 0
        invariant
            i <= digits.len(),
            forall|j: int| 0 <= j < digits.len() ==> digits[j] < 10,
            text@ + reversed_digits(digits@.take(i as int)) == sign + decimal_digits(magnitude),
        decreases i,
    {
        proof {
            let shown = digits@.take(i as int);
            assert(shown.drop_last() =~= digits@.take(i - 1));
            assert(shown.last() == digits[i - 1]);
            assert(text@ + seq![digit_char(digits[i - 1] as nat)] + reversed_digits(
                digits@.take(i - 1),
            ) =~= text@ + reversed_digits(shown));
        }
        i = i - 1;
        text.append(digit_text(digits[i]));
    }
    assert(text@ + reversed_digits(digits@.take(0)) =~= text@);
    text
}

/// The name of a token class; for a number, with the number in parentheses
/// behind it.
pub open spec fn kind_text(kind: TokenKind) -> Seq<char> {
    match kind {
        TokenKind::Number(value) => "Number("@ + decimal_text(value as int) + ")"@,
        TokenKind::Plus => "Plus"@,
        TokenKind::Minus => "Minus"@,
        TokenKind::Asterisk => "Asterisk"@,
        TokenKind::Slash => "Slash"@,
        TokenKind::Percent => "Percent"@,
        TokenKind::Ampersand => "Ampersand"@,
        TokenKind::Equals => "Equals"@,
        TokenKind::Pipe => "Pipe"@,
        TokenKind::Caret => "Caret"@,
        TokenKind::DoubleAsterisk => "DoubleAsterisk"@,
        TokenKind::Tilde => "Tilde"@,
        TokenKind::Whitespace => "Whitespace"@,
        TokenKind::DoubleEquals => "DoubleEquals"@,
        TokenKind::LessThan => "LessThan"@,
        TokenKind::LessThanEquals => "LessThanEquals"@,
        TokenKind::GreaterThan => "GreaterThan"@,
        TokenKind::GreaterThanEquals => "GreaterThanEquals"@,
        TokenKind::Bang => "Bang"@,
        TokenKind::BangEquals => "BangEquals"@,
        TokenKind::Identifier => "Identifier"@,
        TokenKind::String => "String"@,
        TokenKind::OpenParenthesis => "OpenParenthesis"@,
        TokenKind::CloseParenthesis => "CloseParenthesis"@,
        TokenKind::OpenBrace => "OpenBrace"@,
        TokenKind::CloseBrace => "CloseBrace"@,
        TokenKind::OpenBracket => "OpenBracket"@,
        TokenKind::CloseBracket => "CloseBracket"@,
        TokenKind::Comma => "Comma"@,
        TokenKind::Colon => "Colon"@,
        TokenKind::Semicolon => "Semicolon"@,
        TokenKind::Arrow => "Arrow"@,
        TokenKind::FatArrow => "FatArrow"@,
        TokenKind::True => "True"@,
        TokenKind::False => "False"@,
        TokenKind::Let => "Let"@,
        TokenKind::If => "If"@,
        TokenKind::Else => "Else"@,
        TokenKind::While => "While"@,
        TokenKind::For => "For"@,
        TokenKind::In => "In"@,
        TokenKind::Function => "Function"@,
        TokenKind::Return => "Return"@,
        TokenKind::Break => "Break"@,
        TokenKind::Continue => "Continue"@,
        TokenKind::Null => "Null"@,
        TokenKind::Eof => "Eof"@,
        TokenKind::Error => "Error"@,
    }
}

impl TokenKind {
    /// The text that stands for the class where tokens are shown.
    pub fn to_string(&self) -> (r: String)
        ensures
            r@ == kind_text(*self),
    {
        match self {
            TokenKind::Number(value) => {
                let mut text = String::from_str("Number(");
                text.append(number_text(*value).as_str());
                text.append(")");
                text
            },
            TokenKind::Plus => String::from_str("Plus"),
            TokenKind::Minus => String::from_str("Minus"),
            TokenKind::Asterisk => String::from_str("Asterisk"),
            TokenKind::Slash => String::from_str("Slash"),
            TokenKind::Percent => String::from_str("Percent"),
            TokenKind::Ampersand => String::from_str("Ampersand"),
            TokenKind::Equals => String::from_str("Equals"),
            TokenKind::Pipe => String::from_str("Pipe"),
            TokenKind::Caret => String::from_str("Caret"),
            TokenKind::DoubleAsterisk => String::from_str("DoubleAsterisk"),
            TokenKind::Tilde => String::from_str("Tilde"),
            TokenKind::Whitespace => String::from_str("Whitespace"),
            TokenKind::DoubleEquals => String::from_str("DoubleEquals"),
            TokenKind::LessThan => String::from_str("LessThan"),
            TokenKind::LessThanEquals => String::from_str("LessThanEquals"),
            TokenKind::GreaterThan => String::from_str("GreaterThan"),
            TokenKind::GreaterThanEquals => String::from_str("GreaterThanEquals"),
            TokenKind::Bang => String::from_str("Bang"),
            TokenKind::BangEquals => String::from_str("BangEquals"),
            TokenKind::Identifier => String::from_str("Identifier"),
            TokenKind::String => String::from_str("String"),
            TokenKind::OpenParenthesis => String::from_str("OpenParenthesis"),
            TokenKind::CloseParenthesis => String::from_str("CloseParenthesis"),
            TokenKind::OpenBrace => String::from_str("OpenBrace"),
            TokenKind::CloseBrace => String::from_str("CloseBrace"),
            TokenKind::OpenBracket => String::from_str("OpenBracket"),
            TokenKind::CloseBracket => String::from_str("CloseBracket"),
            TokenKind::Comma => String::from_str("Comma"),
            TokenKind::Colon => String::from_str("Colon"),
            TokenKind::Semicolon => String::from_str("Semicolon"),
            TokenKind::Arrow => String::from_str("Arrow"),
            TokenKind::FatArrow => String::from_str("FatArrow"),
            TokenKind::True => String::from_str("True"),
            TokenKind::False => String::from_str("False"),
            TokenKind::Let => String::from_str("Let"),
            TokenKind::If => String::from_str("If"),
            TokenKind::Else => String::from_str("Else"),
            TokenKind::While => String::from_str("While"),
            TokenKind::For => String::from_str("For"),
            TokenKind::In => String::from_str("In"),
            TokenKind::Function => String::from_str("Function"),
            TokenKind::Return => String::from_str("Return"),
            TokenKind::Break => String::from_str("Break"),
            TokenKind::Continue => String::from_str("Continue"),
            TokenKind::Null => String::from_str("Null"),
            TokenKind::Eof => String::from_str("Eof"),
            TokenKind::Error => String::from_str("Error"),
        }
    }
}

/// One lexical unit: its class and where it stands in the text.
#[derive(Debug)]
pub struct Token {
    pub kind: TokenKind,
    pub span: TextSpan,
}

impl Clone for Token {
    fn clone(&self) -> (r: Self)
        ensures
            r == *self,
    {
        Token { kind: self.kind, span: self.span.clone() }
    }
}

impl Token {
    pub fn new(kind: TokenKind, span: TextSpan) -> (r: Self)
        ensures
            r.kind == kind,
            r.span == span,
    {
        Self { kind, span }
    }
}

/// Whether `c` has the Unicode property Alphabetic, as `char::is_alphabetic`
/// decides it.
pub uninterp spec fn char_is_alphabetic(c: char) -> bool;

/// Whether `c` has the Unicode property White_Space, as `char::is_whitespace`
/// decides it.
pub uninterp spec fn char_is_whitespace(c: char) -> bool;

/// Whether `c` is one of the first 128 characters, those of ASCII.
pub open spec fn is_ascii(c: char) -> bool {
    c <= '\u{7f}'
}

/// The letters of ASCII: the only alphabetic characters among its 128.
pub open spec fn ascii_letter(c: char) -> bool {
    'a' <= c <= 'z' || 'A' <= c <= 'Z'
}

/// The white space of ASCII: the space, and the five control characters
/// from the tab to the carriage return.
pub open spec fn ascii_space(c: char) -> bool {
    c == ' ' || '\u{9}' <= c <= '\u{d}'
}

/// Whether `c` is a letter: written out for the characters of ASCII, and
/// for all others what `char::is_alphabetic` says.
pub open spec fn is_letter(c: char) -> bool {
    if is_ascii(c) {
        ascii_letter(c)
    } else {
        char_is_alphabetic(c)
    }
}

/// Whether `c` is white space: written out for the characters of ASCII,
/// and for all others what `char::is_whitespace` says.
pub open spec fn is_space(c: char) -> bool {
    if is_ascii(c) {
        ascii_space(c)
    } else {
        char_is_whitespace(c)
    }
}

/// Calls `char::is_alphabetic`. The result is named: it is the Unicode
/// property Alphabetic of `c`. Of a character of ASCII it is stated as
/// well: such a character is alphabetic if and only if it is one of the
/// letters `a` to `z` and `A` to `Z`.
#[verifier::external_body]
fn alphabetic(c: char) -> (r: bool)
    ensures
        r == char_is_alphabetic(c),
        is_ascii(c) ==> r == ascii_letter(c),
{
    c.is_alphabetic()
}

/// Calls `char::is_whitespace`. The result is named: it is the Unicode
/// property White_Space of `c`. Of a character of ASCII it is stated as
/// well: such a character is white space if and only if it is the space or
/// one of U+0009 to U+000D.
#[verifier::external_body]
fn whitespace(c: char) -> (r: bool)
    ensures
        r == char_is_whitespace(c),
        is_ascii(c) ==> r == ascii_space(c),
{
    c.is_whitespace()
}

/// What the first character of a token says about the token.
#[derive(Debug, Clone, Copy, PartialEq, Eq, Structural)]
pub enum CharClass {
    Digit,
    Whitespace,
    Identifier,
    Punctuation,
}

pub open spec fn is_digit(c: char) -> bool {
    '0' <= c <= '9'
}

pub open spec fn digit_value(c: char) -> int {
    c as int - '0' as int
}

/// The class of a character, given whether it is white space and whether it
/// is alphabetic. A digit is a digit whatever else it is; white space comes
/// before letters; `_` counts as a letter.
pub open spec fn class_of(c: char, is_space: bool, is_letter: bool) -> CharClass {
    if is_digit(c) {
        CharClass::Digit
    } else if is_space {
        CharClass::Whitespace
    } else if is_letter || c == '_' {
        CharClass::Identifier
    } else {
        CharClass::Punctuation
    }
}

pub fn classify(c: char, is_space: bool, is_letter: bool) -> (r: CharClass)
    ensures
        r == class_of(c, is_space, is_letter),
{
    if c >= '0' && c <= '9' {
        CharClass::Digit
    } else if is_space {
        CharClass::Whitespace
    } else if is_letter || c == '_' {
        CharClass::Identifier
    } else {
        CharClass::Punctuation
    }
}

/// Whether `c` may stand in an identifier.
pub open spec fn is_identifier_char(c: char) -> bool {
    is_letter(c) || c == '_'
}

/// The end of the run of digits that starts at `pos`.
pub open spec fn digits_end(input: Seq<char>, pos: int) -> int
    decreases input.len() - pos,
{
    if 0 <= pos < input.len() && is_digit(input[pos]) {
        digits_end(input, pos + 1)
    } else {
        pos
    }
}

/// The end of the run of identifier characters that starts at `pos`.
pub open spec fn identifier_end(input: Seq<char>, pos: int) -> int
    decreases input.len() - pos,
{
    if 0 <= pos < input.len() && is_identifier_char(input[pos]) {
        identifier_end(input, pos + 1)
    } else {
        pos
    }
}

/// The number that a sequence of digits writes in base ten.
pub open spec fn decimal_value(digits: Seq<char>) -> int
    decreases digits.len(),
{
    if digits.len() == 0 {
        0
    } else {
        decimal_value(digits.drop_last()) * 10 + digit_value(digits.last())
    }
}

/// The class of a number literal: its value where an `i64` holds it.
pub open spec fn number_kind(digits: Seq<char>) -> TokenKind {
    if decimal_value(digits) <= i64::MAX {
        TokenKind::Number(decimal_value(digits) as i64)
    } else {
        TokenKind::Error
    }
}

/// The class of a word: a keyword's own class, or `Identifier`.
pub open spec fn word_kind(word: Seq<char>) -> TokenKind {
    if word == "let"@ {
        TokenKind::Let
    } else if word == "if"@ {
        TokenKind::If
    } else if word == "else"@ {
        TokenKind::Else
    } else if word == "true"@ {
        TokenKind::True
    } else if word == "false"@ {
        TokenKind::False
    } else if word == "while"@ {
        TokenKind::While
    } else if word == "func"@ {
        TokenKind::Function
    } else if word == "return"@ {
        TokenKind::Return
    } else if word == "break"@ {
        TokenKind::Break
    } else if word == "continue"@ {
        TokenKind::Continue
    } else {
        TokenKind::Identifier
    }
}

/// The class and length of an operator that may have a second character:
/// `double` and two characters where `expected` follows, else `single` and
/// one.
pub open spec fn one_or_two(
    input: Seq<char>,
    pos: int,
    expected: char,
    single: TokenKind,
    double: TokenKind,
) -> (TokenKind, int) {
    if pos + 1 < input.len() && input[pos + 1] == expected {
        (double, 2)
    } else {
        (single, 1)
    }
}

/// The class and length of the punctuation token at `pos`.
pub open spec fn punctuation_at(input: Seq<char>, pos: int) -> (TokenKind, int) {
    let c = input[pos];
    if c == '+' {
        (TokenKind::Plus, 1)
    } else if c == '-' {
        one_or_two(input, pos, '>', TokenKind::Minus, TokenKind::Arrow)
    } else if c == '*' {
        one_or_two(input, pos, '*', TokenKind::Asterisk, TokenKind::DoubleAsterisk)
    } else if c == '%' {
        (TokenKind::Percent, 1)
    } else if c == '/' {
        (TokenKind::Slash, 1)
    } else if c == '(' {
        (TokenKind::OpenParenthesis, 1)
    } else if c == ')' {
        (TokenKind::CloseParenthesis, 1)
    } else if c == '=' {
        one_or_two(input, pos, '=', TokenKind::Equals, TokenKind::DoubleEquals)
    } else if c == '&' {
        (TokenKind::Ampersand, 1)
    } else if c == '|' {
        (TokenKind::Pipe, 1)
    } else if c == '^' {
        (TokenKind::Caret, 1)
    } else if c == '~' {
        (TokenKind::Tilde, 1)
    } else if c == '>' {
        one_or_two(input, pos, '=', TokenKind::GreaterThan, TokenKind::GreaterThanEquals)
    } else if c == '<' {
        one_or_two(input, pos, '=', TokenKind::LessThan, TokenKind::LessThanEquals)
    } else if c == '!' {
        one_or_two(input, pos, '=', TokenKind::Error, TokenKind::BangEquals)
    } else if c == '{' {
        (TokenKind::OpenBrace, 1)
    } else if c == '}' {
        (TokenKind::CloseBrace, 1)
    } else if c == ',' {
        (TokenKind::Comma, 1)
    } else if c == ':' {
        (TokenKind::Colon, 1)
    } else if c == ';' {
        (TokenKind::Semicolon, 1)
    } else {
        (TokenKind::Error, 1)
    }
}

/// A token as a mathematical value.
pub struct Lexeme {
    pub kind: TokenKind,
    pub start: int,
    pub end: int,
    pub literal: Seq<char>,
    /// Where the lexer stands once it has produced the token.
    pub next: int,
}

/// The token that starts at `pos`, if the lexer has one to give there.
///
/// At the end of the text this is the end-of-file token, whose span is
/// `0..0` with a NUL character as its literal; behind that there is none.
pub open spec fn lex_at(input: Seq<char>, pos: int) -> Option<Lexeme> {
    if pos == input.len() {
        Some(Lexeme { kind: TokenKind::Eof, start: 0, end: 0, literal: seq!['\0'], next: pos + 1 })
    } else if 0 <= pos < input.len() {
        let c = input[pos];
        let (kind, end) = match class_of(c, is_space(c), is_letter(c)) {
            CharClass::Digit => {
                let end = digits_end(input, pos);
                (number_kind(input.subrange(pos, end)), end)
            },
            CharClass::Whitespace => (TokenKind::Whitespace, pos + 1),
            CharClass::Identifier => {
                let end = identifier_end(input, pos);
                (word_kind(input.subrange(pos, end)), end)
            },
            CharClass::Punctuation => {
                let (kind, len) = punctuation_at(input, pos);
                (kind, pos + len)
            },
        };
        Some(Lexeme { kind, start: pos, end, literal: input.subrange(pos, end), next: end })
    } else {
        None
    }
}

pub proof fn lemma_digits_end_bounds(input: Seq<char>, pos: int)
    requires
        0 <= pos <= input.len(),
    ensures
        pos <= digits_end(input, pos) <= input.len(),
    decreases input.len() - pos,
{
    if pos < input.len() && is_digit(input[pos]) {
        lemma_digits_end_bounds(input, pos + 1);
    }
}

pub proof fn lemma_identifier_end_bounds(input: Seq<char>, pos: int)
    requires
        0 <= pos <= input.len(),
    ensures
        pos <= identifier_end(input, pos) <= input.len(),
    decreases input.len() - pos,
{
    if pos < input.len() && is_identifier_char(input[pos]) {
        lemma_identifier_end_bounds(input, pos + 1);
    }
}

/// A token in front of the end of the text covers at least one character
/// and ends within the text; the next token starts where it ends. So the
/// tokens of a text are finitely many, and their spans lie side by side.
pub proof fn lemma_lexeme_moves_on(input: Seq<char>, pos: int)
    requires
        0 <= pos < input.len(),
    ensures
        lex_at(input, pos) matches Some(lexeme) && lexeme.start == pos && pos < lexeme.end
            <= input.len() && lexeme.next == lexeme.end,
{
    lemma_digits_end_bounds(input, pos);
    lemma_identifier_end_bounds(input, pos);
    lemma_digits_end_bounds(input, pos + 1);
    lemma_identifier_end_bounds(input, pos + 1);
}

/// Cuts a text into tokens, one call at a time.
pub struct Lexer<'a> {
    input: &'a str,
    current_pos: usize,
    /// Set once the end-of-file token has been given.
    finished: bool,
}

impl<'a> Lexer<'a> {
    /// The text being cut.
    pub closed spec fn text(&self) -> Seq<char> {
        self.input@
    }

    /// The character position of the next token; one behind the end of the
    /// text once the end-of-file token has been given.
    pub closed spec fn position(&self) -> int {
        if self.finished {
            self.input@.len() as int + 1
        } else {
            self.current_pos as int
        }
    }

    pub fn new(input: &'a str) -> (r: Self)
        ensures
            r.text() == input@,
            r.position() == 0,
    {
        Self { input, current_pos: 0, finished: false }
    }

    /// Produces the token at the current position and moves behind it; at
    /// the end of the text, the end-of-file token, once.
    pub fn next_token(&mut self) -> (r: Option<Token>)
        ensures
            final(self).text() == old(self).text(),
            match lex_at(old(self).text(), old(self).position()) {
                Some(lexeme) => {
                    &&& r matches Some(token)
                    &&& token.kind == lexeme.kind
                    &&& token.span.start == lexeme.start
                    &&& token.span.end == lexeme.end
                    &&& token.span.literal@ == lexeme.literal
                    &&& final(self).position() == lexeme.next
                },
                None => r is None && final(self).position() == old(self).position(),
            },
    {
        if self.finished {
            return None;
        }
        let len = self.input.unicode_len();
        if self.current_pos == len {
            self.finished = true;
            let literal = String::from_str("\0");
            proof {
                reveal_strlit("\0");
                assert(literal@ == seq!['\0']);
            }
            return Some(Token::new(TokenKind::Eof, TextSpan::new(0, 0, literal)));
        }
        match self.current_char() {
            None => None,
            Some(c) => {
                let start = self.current_pos;
                proof {
                    lemma_digits_end_bounds(self.input@, start as int);
                    lemma_identifier_end_bounds(self.input@, start as int);
                }
                let kind = match classify(c, Self::is_whitespace(&c), alphabetic(c)) {
                    CharClass::Digit => {
                        match self.consume_number() {
                            Some(number) => TokenKind::Number(number),
                            None => TokenKind::Error,
                        }
                    },
                    CharClass::Whitespace => {
                        self.consume();
                        TokenKind::Whitespace
                    },
                    CharClass::Identifier => {
                        let identifier = self.consume_identifier();
                        Self::keyword_or_identifier(&identifier)
                    },
                    CharClass::Punctuation => self.consume_punctuation(),
                };
                let end = self.current_pos;
                let literal = self.input.substring_char(start, end).to_owned();
                let span = TextSpan::new(start, end, literal);
                Some(Token::new(kind, span))
            },
        }
    }

    fn keyword_or_identifier(word: &String) -> (r: TokenKind)
        ensures
            r == word_kind(word@),
    {
        if Self::is_word(word, "let") {
            TokenKind::Let
        } else if Self::is_word(word, "if") {
            TokenKind::If
        } else if Self::is_word(word, "else") {
            TokenKind::Else
        } else if Self::is_word(word, "true") {
            TokenKind::True
        } else if Self::is_word(word, "false") {
            TokenKind::False
        } else if Self::is_word(word, "while") {
            TokenKind::While
        } else if Self::is_word(word, "func") {
            TokenKind::Function
        } else if Self::is_word(word, "return") {
            TokenKind::Return
        } else if Self::is_word(word, "break") {
            TokenKind::Break
        } else if Self::is_word(word, "continue") {
            TokenKind::Continue
        } else {
            TokenKind::Identifier
        }
    }

    fn is_word(text: &String, word: &str) -> (r: bool)
        ensures
            r == (text@ == word@),
    {
        let owned = word.to_owned();
        *text == owned
    }

    fn consume_punctuation(&mut self) -> (r: TokenKind)
        requires
            0 <= old(self).position() < old(self).text().len() <= usize::MAX,
            !old(self).finished,
        ensures
            !final(self).finished,
            final(self).text() == old(self).text(),
            r == punctuation_at(old(self).text(), old(self).position()).0,
            final(self).position() == old(self).position() + punctuation_at(
                old(self).text(),
                old(self).position(),
            ).1,
    {
        let c = self.input.get_char(self.current_pos);
        self.current_pos = self.current_pos + 1;
        if c == '+' {
            TokenKind::Plus
        } else if c == '-' {
            self.lex_potential_double_char_operator('>', TokenKind::Minus, TokenKind::Arrow)
        } else if c == '*' {
            self.lex_potential_double_char_operator(
                '*',
                TokenKind::Asterisk,
                TokenKind::DoubleAsterisk,
            )
        } else if c == '%' {
            TokenKind::Percent
        } else if c == '/' {
            TokenKind::Slash
        } else if c == '(' {
            TokenKind::OpenParenthesis
        } else if c == ')' {
            TokenKind::CloseParenthesis
        } else if c == '=' {
            self.lex_potential_double_char_operator(
                '=',
                TokenKind::Equals,
                TokenKind::DoubleEquals,
            )
        } else if c == '&' {
            TokenKind::Ampersand
        } else if c == '|' {
            TokenKind::Pipe
        } else if c == '^' {
            TokenKind::Caret
        } else if c == '~' {
            TokenKind::Tilde
        } else if c == '>' {
            self.lex_potential_double_char_operator(
                '=',
                TokenKind::GreaterThan,
                TokenKind::GreaterThanEquals,
            )
        } else if c == '<' {
            self.lex_potential_double_char_operator(
                '=',
                TokenKind::LessThan,
                TokenKind::LessThanEquals,
            )
        } else if c == '!' {
            self.lex_potential_double_char_operator('=', TokenKind::Error, TokenKind::BangEquals)
        } else if c == '{' {
            TokenKind::OpenBrace
        } else if c == '}' {
            TokenKind::CloseBrace
        } else if c == ',' {
            TokenKind::Comma
        } else if c == ':' {
            TokenKind::Colon
        } else if c == ';' {
            TokenKind::Semicolon
        } else {
            TokenKind::Error
        }
    }

    /// With the first character of an operator consumed: consumes the
    /// second if it is `expected`, and says which operator it was.
    fn lex_potential_double_char_operator(
        &mut self,
        expected: char,
        one_char_kind: TokenKind,
        double_char_kind: TokenKind,
    ) -> (r: TokenKind)
        requires
            1 <= old(self).position() <= old(self).text().len(),
            !old(self).finished,
        ensures
            !final(self).finished,
            final(self).text() == old(self).text(),
            (r, final(self).position() - old(self).position() + 1) == one_or_two(
                old(self).text(),
                old(self).position() - 1,
                expected,
                one_char_kind,
                double_char_kind,
            ),
    {
        match self.current_char() {
            Some(next) => {
                if next == expected {
                    self.consume();
                    double_char_kind
                } else {
                    one_char_kind
                }
            },
            None => one_char_kind,
        }
    }

    fn is_number_start(c: &char) -> (r: bool)
        ensures
            r == is_digit(*c),
    {
        *c >= '0' && *c <= '9'
    }

    fn is_identifier_start(c: &char) -> (r: bool)
        ensures
            r == is_identifier_char(*c),
    {
        alphabetic(*c) || *c == '_'
    }

    fn is_whitespace(c: &char) -> (r: bool)
        ensures
            r == is_space(*c),
    {
        whitespace(*c)
    }

    fn current_char(&self) -> (r: Option<char>)
        requires
            !self.finished,
        ensures
            r == (if 0 <= self.position() < self.text().len() {
                Some(self.text()[self.position()])
            } else {
                None
            }),
    {
        if self.current_pos < self.input.unicode_len() {
            Some(self.input.get_char(self.current_pos))
        } else {
            None
        }
    }

    fn consume(&mut self) -> (r: Option<char>)
        requires
            !old(self).finished,
        ensures
            !final(self).finished,
            final(self).text() == old(self).text(),
            r == (if 0 <= old(self).position() < old(self).text().len() {
                Some(old(self).text()[old(self).position()])
            } else {
                None
            }),
            final(self).position() == (if r is Some {
                old(self).position() + 1
            } else {
                old(self).position()
            }),
    {
        if self.current_pos >= self.input.unicode_len() {
            return None;
        }
        let c = self.current_char();
        self.current_pos = self.current_pos + 1;
        c
    }

    fn consume_identifier(&mut self) -> (r: String)
        requires
            0 <= old(self).position() <= old(self).text().len(),
            !old(self).finished,
        ensures
            !final(self).finished,
            final(self).text() == old(self).text(),
            final(self).position() == identifier_end(old(self).text(), old(self).position()),
            r@ == old(self).text().subrange(old(self).position(), final(self).position()),
    {
        let start = self.current_pos;
        let len = self.input.unicode_len();
        while self.current_pos < len && Self::is_identifier_start(
            &self.input.get_char(self.current_pos),
        )
            invariant
                !self.finished,
                self.input == old(self).input,
                len == self.input@.len(),
                start == old(self).current_pos,
                start <= self.current_pos <= len,
                identifier_end(self.input@, start as int) == identifier_end(
                    self.input@,
                    self.current_pos as int,
                ),
            decreases len - self.current_pos,
        {
            self.current_pos = self.current_pos + 1;
        }
        self.input.substring_char(start, self.current_pos).to_owned()
    }

    /// Consumes a run of digits. Its value, unless that is too large for an
    /// `i64`.
    fn consume_number(&mut self) -> (r: Option<i64>)
        requires
            0 <= old(self).position() <= old(self).text().len(),
            !old(self).finished,
        ensures
            !final(self).finished,
            final(self).text() == old(self).text(),
            final(self).position() == digits_end(old(self).text(), old(self).position()),
            number_kind(old(self).text().subrange(old(self).position(), final(self).position()))
                == (match r {
                Some(number) => TokenKind::Number(number),
                None => TokenKind::Error,
            }),
    {
        let start = self.current_pos;
        let len = self.input.unicode_len();
        let mut number: Option<i64> = Some(0);
        assert(self.input@.subrange(start as int, start as int) == Seq::<char>::empty());
        while self.current_pos < len && Self::is_number_start(
            &self.input.get_char(self.current_pos),
        )
            invariant
                !self.finished,
                self.input == old(self).input,
                len == self.input@.len(),
                start == old(self).current_pos,
                start <= self.current_pos <= len,
                digits_end(self.input@, start as int) == digits_end(
                    self.input@,
                    self.current_pos as int,
                ),
                decimal_value(self.input@.subrange(start as int, self.current_pos as int)) >= 0,
                match number {
                    Some(n) => n == decimal_value(
                        self.input@.subrange(start as int, self.current_pos as int),
                    ),
                    None => decimal_value(
                        self.input@.subrange(start as int, self.current_pos as int),
                    ) > i64::MAX,
                },
            decreases len - self.current_pos,
        {
            let c = self.input.get_char(self.current_pos);
            let digit: i64 = (c as u32 - '0' as u32) as i64;
            proof {
                let longer = self.input@.subrange(start as int, self.current_pos + 1);
                assert(longer.drop_last() == self.input@.subrange(
                    start as int,
                    self.current_pos as int,
                ));
                assert(longer.last() == c);
            }
            number = match number {
                Some(n) => match n.checked_mul(10) {
                    Some(tens) => tens.checked_add(digit),
                    None => None,
                },
                None => None,
            };
            self.current_pos = self.current_pos + 1;
        }
        number
    }
}

} // verus!
