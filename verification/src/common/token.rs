use crate::common::text::{decimal, owned, push_decimal};
use vstd::prelude::*;

verus! {

/// What a token is, without its payload.
#[derive(Clone, Copy, Debug, PartialEq, Eq, Structural)]
pub enum TokenKind {
    LeftBracket,
    RightBracket,
    LeftParen,
    RightParen,
    LeftBrace,
    RightBrace,
    Comma,
    Dot,
    Semicolon,
    Tilde,
    Bang,
    BangEqual,
    Equal,
    EqualEqual,
    Less,
    LessEqual,
    LessLess,
    LessLessEqual,
    Greater,
    GreaterEqual,
    GreaterGreater,
    GreaterGreaterEqual,
    Plus,
    PlusPlus,
    PlusEqual,
    Minus,
    MinusMinus,
    MinusEqual,
    Star,
    StarEqual,
    Slash,
    SlashEqual,
    Mod,
    ModEqual,
    Amp,
    AmpAmp,
    AmpEqual,
    Pipe,
    PipePipe,
    PipeEqual,
    Xor,
    XorEqual,
    Void,
    Char,
    Int,
    Long,
    If,
    Else,
    For,
    While,
    Return,
    String,
    Number,
    CharLit,
    Ident,
}

/// A token as the scanner produces it: punctuation, operator, keyword or
/// literal, the literals with their payload.
#[derive(Debug, PartialEq)]
pub enum TokenType {
    LeftBracket,
    RightBracket,
    LeftParen,
    RightParen,
    LeftBrace,
    RightBrace,
    Comma,
    Dot,
    Semicolon,
    Tilde,
    Bang,
    BangEqual,
    Equal,
    EqualEqual,
    Less,
    LessEqual,
    LessLess,
    LessLessEqual,
    Greater,
    GreaterEqual,
    GreaterGreater,
    GreaterGreaterEqual,
    Plus,
    PlusPlus,
    PlusEqual,
    Minus,
    MinusMinus,
    MinusEqual,
    Star,
    StarEqual,
    Slash,
    SlashEqual,
    Mod,
    ModEqual,
    Amp,
    AmpAmp,
    AmpEqual,
    Pipe,
    PipePipe,
    PipeEqual,
    Xor,
    XorEqual,
    Void,
    Char,
    Int,
    Long,
    If,
    Else,
    For,
    While,
    Return,
    String(String),
    Number(i32),
    CharLit(i8),
    Ident(String),
}

/// Mathematical content of a `TokenType`: its kind, the text of an
/// identifier or string literal (empty otherwise) and the value of a number
/// or character literal (0 otherwise).
pub struct TokenTypeView {
    pub kind: TokenKind,
    pub text: Seq<char>,
    pub number: int,
}

impl TokenTypeView {
    pub open spec fn plain(kind: TokenKind) -> TokenTypeView {
        TokenTypeView { kind, text: Seq::empty(), number: 0 }
    }

    pub open spec fn ident(text: Seq<char>) -> TokenTypeView {
        TokenTypeView { kind: TokenKind::Ident, text, number: 0 }
    }

    pub open spec fn string(text: Seq<char>) -> TokenTypeView {
        TokenTypeView { kind: TokenKind::String, text, number: 0 }
    }

    pub open spec fn number(n: int) -> TokenTypeView {
        TokenTypeView { kind: TokenKind::Number, text: Seq::empty(), number: n }
    }

    pub open spec fn char_lit(n: int) -> TokenTypeView {
        TokenTypeView { kind: TokenKind::CharLit, text: Seq::empty(), number: n }
    }

    /// How the token reads in a diagnostic: its spelling, the text of an
    /// identifier or string, the decimal value of a number or character.
    pub open spec fn text_of(self) -> Seq<char> {
        match self.kind {
            TokenKind::String | TokenKind::Ident => self.text,
            TokenKind::Number | TokenKind::CharLit => signed_decimal(self.number),
            _ => self.kind.spelling(),
        }
    }
}

pub open spec fn signed_decimal(n: int) -> Seq<char> {
    if n < 0 {
        seq!['-'] + decimal((-n) as nat)
    } else {
        decimal(n as nat)
    }
}

impl TokenKind {
    /// Spelling of a punctuation, operator or keyword token; empty for the
    /// four literal kinds.
    pub open spec fn spelling(self) -> Seq<char> {
        match self {
            TokenKind::LeftBracket => "["@,
            TokenKind::RightBracket => "]"@,
            TokenKind::LeftParen => "("@,
            TokenKind::RightParen => ")"@,
            TokenKind::LeftBrace => "{"@,
            TokenKind::RightBrace => "}"@,
            TokenKind::Comma => ","@,
            TokenKind::Dot => "."@,
            TokenKind::Semicolon => ";"@,
            TokenKind::Tilde => "~"@,
            TokenKind::Bang => "!"@,
            TokenKind::BangEqual => "!="@,
            TokenKind::Equal => "="@,
            TokenKind::EqualEqual => "=="@,
            TokenKind::Less => "<"@,
            TokenKind::LessEqual => "<="@,
            TokenKind::LessLess => "<<"@,
            TokenKind::LessLessEqual => "<<="@,
            TokenKind::Greater => ">"@,
            TokenKind::GreaterEqual => ">="@,
            TokenKind::GreaterGreater => ">>"@,
            TokenKind::GreaterGreaterEqual => ">>="@,
            TokenKind::Plus => "+"@,
            TokenKind::PlusPlus => "++"@,
            TokenKind::PlusEqual => "+="@,
            TokenKind::Minus => "-"@,
            TokenKind::MinusMinus => "--"@,
            TokenKind::MinusEqual => "-="@,
            TokenKind::Star => "*"@,
            TokenKind::StarEqual => "*="@,
            TokenKind::Slash => "/"@,
            TokenKind::SlashEqual => "/="@,
            TokenKind::Mod => "%"@,
            TokenKind::ModEqual => "%="@,
            TokenKind::Amp => "&"@,
            TokenKind::AmpAmp => "&&"@,
            TokenKind::AmpEqual => "&="@,
            TokenKind::Pipe => "|"@,
            TokenKind::PipePipe => "||"@,
            TokenKind::PipeEqual => "|="@,
            TokenKind::Xor => "^"@,
            TokenKind::XorEqual => "^="@,
            TokenKind::Void => "void"@,
            TokenKind::Char => "char"@,
            TokenKind::Int => "int"@,
            TokenKind::Long => "long"@,
            TokenKind::If => "if"@,
            TokenKind::Else => "else"@,
            TokenKind::For => "for"@,
            TokenKind::While => "while"@,
            TokenKind::Return => "return"@,
            _ => Seq::empty(),
        }
    }

    pub open spec fn is_literal(self) -> bool {
        self == TokenKind::String || self == TokenKind::Number || self == TokenKind::CharLit
            || self == TokenKind::Ident
    }

    /// Spelling of a token without payload, as a string.
    pub fn spelled(self) -> (r: String)
        ensures
            r@ == self.spelling(),
    {
        match self {
            TokenKind::LeftBracket => owned("["),
            TokenKind::RightBracket => owned("]"),
            TokenKind::LeftParen => owned("("),
            TokenKind::RightParen => owned(")"),
            TokenKind::LeftBrace => owned("{"),
            TokenKind::RightBrace => owned("}"),
            TokenKind::Comma => owned(","),
            TokenKind::Dot => owned("."),
            TokenKind::Semicolon => owned(";"),
            TokenKind::Tilde => owned("~"),
            TokenKind::Bang => owned("!"),
            TokenKind::BangEqual => owned("!="),
            TokenKind::Equal => owned("="),
            TokenKind::EqualEqual => owned("=="),
            TokenKind::Less => owned("<"),
            TokenKind::LessEqual => owned("<="),
            TokenKind::LessLess => owned("<<"),
            TokenKind::LessLessEqual => owned("<<="),
            TokenKind::Greater => owned(">"),
            TokenKind::GreaterEqual => owned(">="),
            TokenKind::GreaterGreater => owned(">>"),
            TokenKind::GreaterGreaterEqual => owned(">>="),
            TokenKind::Plus => owned("+"),
            TokenKind::PlusPlus => owned("++"),
            TokenKind::PlusEqual => owned("+="),
            TokenKind::Minus => owned("-"),
            TokenKind::MinusMinus => owned("--"),
            TokenKind::MinusEqual => owned("-="),
            TokenKind::Star => owned("*"),
            TokenKind::StarEqual => owned("*="),
            TokenKind::Slash => owned("/"),
            TokenKind::SlashEqual => owned("/="),
            TokenKind::Mod => owned("%"),
            TokenKind::ModEqual => owned("%="),
            TokenKind::Amp => owned("&"),
            TokenKind::AmpAmp => owned("&&"),
            TokenKind::AmpEqual => owned("&="),
            TokenKind::Pipe => owned("|"),
            TokenKind::PipePipe => owned("||"),
            TokenKind::PipeEqual => owned("|="),
            TokenKind::Xor => owned("^"),
            TokenKind::XorEqual => owned("^="),
            TokenKind::Void => owned("void"),
            TokenKind::Char => owned("char"),
            TokenKind::Int => owned("int"),
            TokenKind::Long => owned("long"),
            TokenKind::If => owned("if"),
            TokenKind::Else => owned("else"),
            TokenKind::For => owned("for"),
            TokenKind::While => owned("while"),
            TokenKind::Return => owned("return"),
            _ => String::new(),
        }
    }
}

impl View for TokenType {
    type V = TokenTypeView;

    open spec fn view(&self) -> TokenTypeView {
        match self {
            TokenType::LeftBracket => TokenTypeView::plain(TokenKind::LeftBracket),
            TokenType::RightBracket => TokenTypeView::plain(TokenKind::RightBracket),
            TokenType::LeftParen => TokenTypeView::plain(TokenKind::LeftParen),
            TokenType::RightParen => TokenTypeView::plain(TokenKind::RightParen),
            TokenType::LeftBrace => TokenTypeView::plain(TokenKind::LeftBrace),
            TokenType::RightBrace => TokenTypeView::plain(TokenKind::RightBrace),
            TokenType::Comma => TokenTypeView::plain(TokenKind::Comma),
            TokenType::Dot => TokenTypeView::plain(TokenKind::Dot),
            TokenType::Semicolon => TokenTypeView::plain(TokenKind::Semicolon),
            TokenType::Tilde => TokenTypeView::plain(TokenKind::Tilde),
            TokenType::Bang => TokenTypeView::plain(TokenKind::Bang),
            TokenType::BangEqual => TokenTypeView::plain(TokenKind::BangEqual),
            TokenType::Equal => TokenTypeView::plain(TokenKind::Equal),
            TokenType::EqualEqual => TokenTypeView::plain(TokenKind::EqualEqual),
            TokenType::Less => TokenTypeView::plain(TokenKind::Less),
            TokenType::LessEqual => TokenTypeView::plain(TokenKind::LessEqual),
            TokenType::LessLess => TokenTypeView::plain(TokenKind::LessLess),
            TokenType::LessLessEqual => TokenTypeView::plain(TokenKind::LessLessEqual),
            TokenType::Greater => TokenTypeView::plain(TokenKind::Greater),
            TokenType::GreaterEqual => TokenTypeView::plain(TokenKind::GreaterEqual),
            TokenType::GreaterGreater => TokenTypeView::plain(TokenKind::GreaterGreater),
            TokenType::GreaterGreaterEqual => TokenTypeView::plain(TokenKind::GreaterGreaterEqual),
            TokenType::Plus => TokenTypeView::plain(TokenKind::Plus),
            TokenType::PlusPlus => TokenTypeView::plain(TokenKind::PlusPlus),
            TokenType::PlusEqual => TokenTypeView::plain(TokenKind::PlusEqual),
            TokenType::Minus => TokenTypeView::plain(TokenKind::Minus),
            TokenType::MinusMinus => TokenTypeView::plain(TokenKind::MinusMinus),
            TokenType::MinusEqual => TokenTypeView::plain(TokenKind::MinusEqual),
            TokenType::Star => TokenTypeView::plain(TokenKind::Star),
            TokenType::StarEqual => TokenTypeView::plain(TokenKind::StarEqual),
            TokenType::Slash => TokenTypeView::plain(TokenKind::Slash),
            TokenType::SlashEqual => TokenTypeView::plain(TokenKind::SlashEqual),
            TokenType::Mod => TokenTypeView::plain(TokenKind::Mod),
            TokenType::ModEqual => TokenTypeView::plain(TokenKind::ModEqual),
            TokenType::Amp => TokenTypeView::plain(TokenKind::Amp),
            TokenType::AmpAmp => TokenTypeView::plain(TokenKind::AmpAmp),
            TokenType::AmpEqual => TokenTypeView::plain(TokenKind::AmpEqual),
            TokenType::Pipe => TokenTypeView::plain(TokenKind::Pipe),
            TokenType::PipePipe => TokenTypeView::plain(TokenKind::PipePipe),
            TokenType::PipeEqual => TokenTypeView::plain(TokenKind::PipeEqual),
            TokenType::Xor => TokenTypeView::plain(TokenKind::Xor),
            TokenType::XorEqual => TokenTypeView::plain(TokenKind::XorEqual),
            TokenType::Void => TokenTypeView::plain(TokenKind::Void),
            TokenType::Char => TokenTypeView::plain(TokenKind::Char),
            TokenType::Int => TokenTypeView::plain(TokenKind::Int),
            TokenType::Long => TokenTypeView::plain(TokenKind::Long),
            TokenType::If => TokenTypeView::plain(TokenKind::If),
            TokenType::Else => TokenTypeView::plain(TokenKind::Else),
            TokenType::For => TokenTypeView::plain(TokenKind::For),
            TokenType::While => TokenTypeView::plain(TokenKind::While),
            TokenType::Return => TokenTypeView::plain(TokenKind::Return),
            TokenType::String(s) => TokenTypeView::string(s@),
            TokenType::Number(n) => TokenTypeView::number(*n as int),
            TokenType::CharLit(c) => TokenTypeView::char_lit(*c as int),
            TokenType::Ident(s) => TokenTypeView::ident(s@),
        }
    }
}

impl Clone for TokenType {
    fn clone(&self) -> (r: Self)
        ensures
            r == *self,
    {
        match self {
            TokenType::LeftBracket => TokenType::LeftBracket,
            TokenType::RightBracket => TokenType::RightBracket,
            TokenType::LeftParen => TokenType::LeftParen,
            TokenType::RightParen => TokenType::RightParen,
            TokenType::LeftBrace => TokenType::LeftBrace,
            TokenType::RightBrace => TokenType::RightBrace,
            TokenType::Comma => TokenType::Comma,
            TokenType::Dot => TokenType::Dot,
            TokenType::Semicolon => TokenType::Semicolon,
            TokenType::Tilde => TokenType::Tilde,
            TokenType::Bang => TokenType::Bang,
            TokenType::BangEqual => TokenType::BangEqual,
            TokenType::Equal => TokenType::Equal,
            TokenType::EqualEqual => TokenType::EqualEqual,
            TokenType::Less => TokenType::Less,
            TokenType::LessEqual => TokenType::LessEqual,
            TokenType::LessLess => TokenType::LessLess,
            TokenType::LessLessEqual => TokenType::LessLessEqual,
            TokenType::Greater => TokenType::Greater,
            TokenType::GreaterEqual => TokenType::GreaterEqual,
            TokenType::GreaterGreater => TokenType::GreaterGreater,
            TokenType::GreaterGreaterEqual => TokenType::GreaterGreaterEqual,
            TokenType::Plus => TokenType::Plus,
            TokenType::PlusPlus => TokenType::PlusPlus,
            TokenType::PlusEqual => TokenType::PlusEqual,
            TokenType::Minus => TokenType::Minus,
            TokenType::MinusMinus => TokenType::MinusMinus,
            TokenType::MinusEqual => TokenType::MinusEqual,
            TokenType::Star => TokenType::Star,
            TokenType::StarEqual => TokenType::StarEqual,
            TokenType::Slash => TokenType::Slash,
            TokenType::SlashEqual => TokenType::SlashEqual,
            TokenType::Mod => TokenType::Mod,
            TokenType::ModEqual => TokenType::ModEqual,
            TokenType::Amp => TokenType::Amp,
            TokenType::AmpAmp => TokenType::AmpAmp,
            TokenType::AmpEqual => TokenType::AmpEqual,
            TokenType::Pipe => TokenType::Pipe,
            TokenType::PipePipe => TokenType::PipePipe,
            TokenType::PipeEqual => TokenType::PipeEqual,
            TokenType::Xor => TokenType::Xor,
            TokenType::XorEqual => TokenType::XorEqual,
            TokenType::Void => TokenType::Void,
            TokenType::Char => TokenType::Char,
            TokenType::Int => TokenType::Int,
            TokenType::Long => TokenType::Long,
            TokenType::If => TokenType::If,
            TokenType::Else => TokenType::Else,
            TokenType::For => TokenType::For,
            TokenType::While => TokenType::While,
            TokenType::Return => TokenType::Return,
            TokenType::String(s) => TokenType::String(s.clone()),
            TokenType::Number(n) => TokenType::Number(*n),
            TokenType::CharLit(c) => TokenType::CharLit(*c),
            TokenType::Ident(s) => TokenType::Ident(s.clone()),
        }
    }
}

impl TokenType {
    pub fn kind(&self) -> (k: TokenKind)
        ensures
            k == self@.kind,
    {
        match self {
            TokenType::LeftBracket => TokenKind::LeftBracket,
            TokenType::RightBracket => TokenKind::RightBracket,
            TokenType::LeftParen => TokenKind::LeftParen,
            TokenType::RightParen => TokenKind::RightParen,
            TokenType::LeftBrace => TokenKind::LeftBrace,
            TokenType::RightBrace => TokenKind::RightBrace,
            TokenType::Comma => TokenKind::Comma,
            TokenType::Dot => TokenKind::Dot,
            TokenType::Semicolon => TokenKind::Semicolon,
            TokenType::Tilde => TokenKind::Tilde,
            TokenType::Bang => TokenKind::Bang,
            TokenType::BangEqual => TokenKind::BangEqual,
            TokenType::Equal => TokenKind::Equal,
            TokenType::EqualEqual => TokenKind::EqualEqual,
            TokenType::Less => TokenKind::Less,
            TokenType::LessEqual => TokenKind::LessEqual,
            TokenType::LessLess => TokenKind::LessLess,
            TokenType::LessLessEqual => TokenKind::LessLessEqual,
            TokenType::Greater => TokenKind::Greater,
            TokenType::GreaterEqual => TokenKind::GreaterEqual,
            TokenType::GreaterGreater => TokenKind::GreaterGreater,
            TokenType::GreaterGreaterEqual => TokenKind::GreaterGreaterEqual,
            TokenType::Plus => TokenKind::Plus,
            TokenType::PlusPlus => TokenKind::PlusPlus,
            TokenType::PlusEqual => TokenKind::PlusEqual,
            TokenType::Minus => TokenKind::Minus,
            TokenType::MinusMinus => TokenKind::MinusMinus,
            TokenType::MinusEqual => TokenKind::MinusEqual,
            TokenType::Star => TokenKind::Star,
            TokenType::StarEqual => TokenKind::StarEqual,
            TokenType::Slash => TokenKind::Slash,
            TokenType::SlashEqual => TokenKind::SlashEqual,
            TokenType::Mod => TokenKind::Mod,
            TokenType::ModEqual => TokenKind::ModEqual,
            TokenType::Amp => TokenKind::Amp,
            TokenType::AmpAmp => TokenKind::AmpAmp,
            TokenType::AmpEqual => TokenKind::AmpEqual,
            TokenType::Pipe => TokenKind::Pipe,
            TokenType::PipePipe => TokenKind::PipePipe,
            TokenType::PipeEqual => TokenKind::PipeEqual,
            TokenType::Xor => TokenKind::Xor,
            TokenType::XorEqual => TokenKind::XorEqual,
            TokenType::Void => TokenKind::Void,
            TokenType::Char => TokenKind::Char,
            TokenType::Int => TokenKind::Int,
            TokenType::Long => TokenKind::Long,
            TokenType::If => TokenKind::If,
            TokenType::Else => TokenKind::Else,
            TokenType::For => TokenKind::For,
            TokenType::While => TokenKind::While,
            TokenType::Return => TokenKind::Return,
            TokenType::String(_) => TokenKind::String,
            TokenType::Number(_) => TokenKind::Number,
            TokenType::CharLit(_) => TokenKind::CharLit,
            TokenType::Ident(_) => TokenKind::Ident,
        }
    }

    /// The token without payload that has the given kind; for a literal
    /// kind, the literal with an empty or zero payload.
    pub fn of_kind(kind: TokenKind) -> (r: TokenType)
        ensures
            r@.kind == kind,
            !kind.is_literal() ==> r@ == TokenTypeView::plain(kind),
            r@.text == Seq::<char>::empty(),
            r@.number == 0,
    {
        match kind {
            TokenKind::LeftBracket => TokenType::LeftBracket,
            TokenKind::RightBracket => TokenType::RightBracket,
            TokenKind::LeftParen => TokenType::LeftParen,
            TokenKind::RightParen => TokenType::RightParen,
            TokenKind::LeftBrace => TokenType::LeftBrace,
            TokenKind::RightBrace => TokenType::RightBrace,
            TokenKind::Comma => TokenType::Comma,
            TokenKind::Dot => TokenType::Dot,
            TokenKind::Semicolon => TokenType::Semicolon,
            TokenKind::Tilde => TokenType::Tilde,
            TokenKind::Bang => TokenType::Bang,
            TokenKind::BangEqual => TokenType::BangEqual,
            TokenKind::Equal => TokenType::Equal,
            TokenKind::EqualEqual => TokenType::EqualEqual,
            TokenKind::Less => TokenType::Less,
            TokenKind::LessEqual => TokenType::LessEqual,
            TokenKind::LessLess => TokenType::LessLess,
            TokenKind::LessLessEqual => TokenType::LessLessEqual,
            TokenKind::Greater => TokenType::Greater,
            TokenKind::GreaterEqual => TokenType::GreaterEqual,
            TokenKind::GreaterGreater => TokenType::GreaterGreater,
            TokenKind::GreaterGreaterEqual => TokenType::GreaterGreaterEqual,
            TokenKind::Plus => TokenType::Plus,
            TokenKind::PlusPlus => TokenType::PlusPlus,
            TokenKind::PlusEqual => TokenType::PlusEqual,
            TokenKind::Minus => TokenType::Minus,
            TokenKind::MinusMinus => TokenType::MinusMinus,
            TokenKind::MinusEqual => TokenType::MinusEqual,
            TokenKind::Star => TokenType::Star,
            TokenKind::StarEqual => TokenType::StarEqual,
            TokenKind::Slash => TokenType::Slash,
            TokenKind::SlashEqual => TokenType::SlashEqual,
            TokenKind::Mod => TokenType::Mod,
            TokenKind::ModEqual => TokenType::ModEqual,
            TokenKind::Amp => TokenType::Amp,
            TokenKind::AmpAmp => TokenType::AmpAmp,
            TokenKind::AmpEqual => TokenType::AmpEqual,
            TokenKind::Pipe => TokenType::Pipe,
            TokenKind::PipePipe => TokenType::PipePipe,
            TokenKind::PipeEqual => TokenType::PipeEqual,
            TokenKind::Xor => TokenType::Xor,
            TokenKind::XorEqual => TokenType::XorEqual,
            TokenKind::Void => TokenType::Void,
            TokenKind::Char => TokenType::Char,
            TokenKind::Int => TokenType::Int,
            TokenKind::Long => TokenType::Long,
            TokenKind::If => TokenType::If,
            TokenKind::Else => TokenType::Else,
            TokenKind::For => TokenType::For,
            TokenKind::While => TokenType::While,
            TokenKind::Return => TokenType::Return,
            TokenKind::String => TokenType::String(String::new()),
            TokenKind::Number => TokenType::Number(0),
            TokenKind::CharLit => TokenType::CharLit(0),
            TokenKind::Ident => TokenType::Ident(String::new()),
        }
    }

    /// How the token reads in a diagnostic.
    pub fn text(&self) -> (r: String)
        ensures
            r@ == self@.text_of(),
    {
        match self {
            TokenType::String(s) => s.clone(),
            TokenType::Ident(s) => s.clone(),
            TokenType::Number(n) => signed_text(*n as i64),
            TokenType::CharLit(c) => signed_text(*c as i64),
            _ => self.kind().spelled(),
        }
    }
}

/// The decimal digits of `n`, behind a `-` if `n` is negative.
pub fn signed_text(n: i64) -> (r: String)
    requires
        -0x8000_0000 <= n < 0x8000_0000,
    ensures
        r@ == signed_decimal(n as int),
{
    let mut out = String::new();
    if n < 0 {
        out.push('-');
        push_decimal(&mut out, (-n) as usize);
        assert(out@ =~= signed_decimal(n as int));
    } else {
        push_decimal(&mut out, n as usize);
        assert(out@ =~= signed_decimal(n as int));
    }
    out
}

/// A token with its place in the source: line and column count from 1, and
/// `line_string` is the text of the line the token stands on.
#[derive(Debug, PartialEq)]
pub struct Token {
    pub token: TokenType,
    pub line_index: i32,
    pub column: i32,
    pub line_string: String,
}

pub struct TokenView {
    pub token: TokenTypeView,
    pub line_index: int,
    pub column: int,
    pub line_string: Seq<char>,
}

impl View for Token {
    type V = TokenView;

    open spec fn view(&self) -> TokenView {
        TokenView {
            token: self.token@,
            line_index: self.line_index as int,
            column: self.column as int,
            line_string: self.line_string@,
        }
    }
}

impl Clone for Token {
    fn clone(&self) -> (r: Self)
        ensures
            r == *self,
    {
        Token {
            token: self.token.clone(),
            line_index: self.line_index,
            column: self.column,
            line_string: self.line_string.clone(),
        }
    }
}

/// The views of a sequence of tokens, in order.
pub open spec fn token_views(tokens: Seq<Token>) -> Seq<TokenView> {
    tokens.map_values(|t: Token| t@)
}

impl TokenView {
    /// The same place in the source, with another token standing there.
    pub open spec fn with_kind(self, kind: TokenKind) -> TokenView {
        TokenView { token: TokenTypeView::plain(kind), ..self }
    }
}

impl Token {
    pub fn new(token: TokenType, line_index: i32, column: i32, line_string: String) -> (r: Self)
        ensures
            r == (Token { token, line_index, column, line_string }),
    {
        Token { token, line_index, column, line_string }
    }

    pub fn kind(&self) -> (k: TokenKind)
        ensures
            k == self@.token.kind,
    {
        self.token.kind()
    }

    /// Text of an identifier or of a string literal; empty for any other
    /// token.
    pub fn unwrap_string(&self) -> (r: String)
        ensures
            r@ == self@.token.text,
    {
        match &self.token {
            TokenType::Ident(s) => s.clone(),
            TokenType::String(s) => s.clone(),
            _ => String::new(),
        }
    }

    /// Value of a number or character literal; 0 for any other token.
    pub fn unwrap_num(&self) -> (r: i32)
        ensures
            r == self@.token.number,
    {
        match &self.token {
            TokenType::Number(n) => *n,
            TokenType::CharLit(c) => *c as i32,
            _ => 0,
        }
    }

    /// A token at the same place that stands for `kind`.
    pub fn at_place_of(&self, kind: TokenKind) -> (r: Token)
        requires
            !kind.is_literal(),
        ensures
            r@ == self@.with_kind(kind),
    {
        Token {
            token: TokenType::of_kind(kind),
            line_index: self.line_index,
            column: self.column,
            line_string: self.line_string.clone(),
        }
    }

    /// The binary operator that a compound assignment applies: `+` for `+=`
    /// and so on.
    pub fn comp_to_binary(&self) -> (r: TokenType)
        requires
            binary_of_compound(self@.token.kind) is Some,
        ensures
            r@ == TokenTypeView::plain(binary_of_compound(self@.token.kind)->Some_0),
    {
        match &self.token {
            TokenType::PlusEqual => TokenType::Plus,
            TokenType::MinusEqual => TokenType::Minus,
            TokenType::StarEqual => TokenType::Star,
            TokenType::SlashEqual => TokenType::Slash,
            TokenType::ModEqual => TokenType::Mod,
            TokenType::AmpEqual => TokenType::Amp,
            TokenType::PipeEqual => TokenType::Pipe,
            TokenType::XorEqual => TokenType::Xor,
            TokenType::LessLessEqual => TokenType::LessLess,
            _ => TokenType::GreaterGreater,
        }
    }
}

/// The binary operator behind a compound-assignment operator.
pub open spec fn binary_of_compound(kind: TokenKind) -> Option<TokenKind> {
    match kind {
        TokenKind::PlusEqual => Some(TokenKind::Plus),
        TokenKind::MinusEqual => Some(TokenKind::Minus),
        TokenKind::StarEqual => Some(TokenKind::Star),
        TokenKind::SlashEqual => Some(TokenKind::Slash),
        TokenKind::ModEqual => Some(TokenKind::Mod),
        TokenKind::AmpEqual => Some(TokenKind::Amp),
        TokenKind::PipeEqual => Some(TokenKind::Pipe),
        TokenKind::XorEqual => Some(TokenKind::Xor),
        TokenKind::LessLessEqual => Some(TokenKind::LessLess),
        TokenKind::GreaterGreaterEqual => Some(TokenKind::GreaterGreater),
        _ => None,
    }
}

pub fn compound_operator(kind: TokenKind) -> (r: Option<TokenKind>)
    ensures
        r == binary_of_compound(kind),
{
    match kind {
        TokenKind::PlusEqual => Some(TokenKind::Plus),
        TokenKind::MinusEqual => Some(TokenKind::Minus),
        TokenKind::StarEqual => Some(TokenKind::Star),
        TokenKind::SlashEqual => Some(TokenKind::Slash),
        TokenKind::ModEqual => Some(TokenKind::Mod),
        TokenKind::AmpEqual => Some(TokenKind::Amp),
        TokenKind::PipeEqual => Some(TokenKind::Pipe),
        TokenKind::XorEqual => Some(TokenKind::Xor),
        TokenKind::LessLessEqual => Some(TokenKind::LessLess),
        TokenKind::GreaterGreaterEqual => Some(TokenKind::GreaterGreater),
        _ => None,
    }
}

} // verus!
