use crate::common::error::{error_views, Error, ErrorView};
use crate::common::text::{
    char_is_ascii, char_is_digit, char_width, chars_of, decimal, is_ascii, is_digit,
    lemma_utf8_len_bounds, lemma_utf8_len_push, owned, string_of, utf8_len,
};
use crate::common::token::{token_views, Token, TokenKind, TokenType, TokenTypeView, TokenView};
use vstd::prelude::*;

verus! {

/// Whether `c` has the Unicode property `Alphabetic`.
pub uninterp spec fn unicode_alphabetic(c: char) -> bool;

/// `char::is_alphabetic` tells whether the character has the Unicode
/// property `Alphabetic`; the result depends on the character alone.
pub assume_specification[ char::is_alphabetic ](c: char) -> (r: bool)
    ensures
        r == unicode_alphabetic(c),
;

/// The longest source that the scanner takes: every column then fits the
/// 32-bit position of a token.
pub const MAX_SOURCE_CHARS: usize = 0x1fff_ffff;

/// The lines of a text: the pieces between its line feeds.
pub open spec fn split_lines(s: Seq<char>) -> Seq<Seq<char>>
    decreases s.len(),
{
    if s.len() == 0 {
        seq![Seq::empty()]
    } else {
        let before = split_lines(s.drop_last());
        if s.last() == '\n' {
            before.push(Seq::empty())
        } else {
            before.drop_last().push(before.last().push(s.last()))
        }
    }
}

/// Number of line feeds in a text.
pub open spec fn newlines(s: Seq<char>) -> nat
    decreases s.len(),
{
    if s.len() == 0 {
        0
    } else if s.last() == '\n' {
        newlines(s.drop_last()) + 1
    } else {
        newlines(s.drop_last())
    }
}

pub proof fn lemma_split_lines_len(s: Seq<char>)
    ensures
        split_lines(s).len() == newlines(s) + 1,
    decreases s.len(),
{
    if s.len() > 0 {
        lemma_split_lines_len(s.drop_last());
    }
}

pub proof fn lemma_newlines_prefix(s: Seq<char>, i: int, j: int)
    requires
        0 <= i <= j <= s.len(),
    ensures
        newlines(s.take(i)) <= newlines(s.take(j)),
        i < j && s[i] == '\n' ==> newlines(s.take(i)) < newlines(s.take(j)),
    decreases j - i,
{
    if i < j {
        assert(s.take(j).drop_last() =~= s.take(j - 1));
        lemma_newlines_prefix(s, i, j - 1);
        if i == j - 1 {
            assert(s.take(j).last() == s[i]);
        }
    }
}

/// The views of the lines that a scanner holds.
pub open spec fn line_views(lines: Seq<String>) -> Seq<Seq<char>> {
    lines.map_values(|l: String| l@)
}

/// Whether character `c` stands at place `i` of `src`.
pub open spec fn found(src: Seq<char>, i: int, c: char) -> bool {
    0 <= i < src.len() && src[i] == c
}

/// The runs of characters that the scanner reads as one piece.
#[derive(Clone, Copy)]
pub enum Run {
    /// Decimal digits.
    Digits,
    /// What a keyword or identifier is made of.
    Word,
    /// The rest of a line.
    Line,
    /// The inside of a character literal: all but `'`.
    Quoted,
    /// The inside of a string literal: all but `"` and the line feed.
    Text,
}

impl Run {
    /// Whether character `c` belongs to the run.
    pub open spec fn keeps(self, c: char) -> bool {
        match self {
            Run::Digits => is_digit(c),
            Run::Word => is_word_part(c),
            Run::Line => c != '\n',
            Run::Quoted => c != '\'',
            Run::Text => c != '"' && c != '\n',
        }
    }
}

/// First place at or after `pos` whose character does not belong to the
/// run; the length of `src` if there is none.
pub open spec fn run_end(src: Seq<char>, pos: int, run: Run) -> int
    decreases src.len() - pos,
{
    if 0 <= pos < src.len() && run.keeps(src[pos]) {
        run_end(src, pos + 1, run)
    } else {
        pos
    }
}

pub proof fn lemma_run_end(src: Seq<char>, pos: int, run: Run)
    requires
        0 <= pos <= src.len(),
    ensures
        pos <= run_end(src, pos, run) <= src.len(),
        forall|i: int| pos <= i < run_end(src, pos, run) ==> run.keeps(#[trigger] src[i]),
        run_end(src, pos, run) < src.len() ==> !run.keeps(src[run_end(src, pos, run)]),
    decreases src.len() - pos,
{
    if pos < src.len() && run.keeps(src[pos]) {
        lemma_run_end(src, pos + 1, run);
    }
}

pub proof fn lemma_newlines_len(s: Seq<char>)
    ensures
        newlines(s) <= s.len(),
    decreases s.len(),
{
    if s.len() > 0 {
        lemma_newlines_len(s.drop_last());
    }
}

pub open spec fn is_word_start(c: char) -> bool {
    unicode_alphabetic(c) || c == '_'
}

pub open spec fn is_word_part(c: char) -> bool {
    unicode_alphabetic(c) || c == '_' || is_digit(c)
}

pub open spec fn digit_value(c: char) -> nat {
    (c as u32 - '0' as u32) as nat
}

/// Value of a run of decimal digits.
pub open spec fn decimal_value(digits: Seq<char>) -> nat
    decreases digits.len(),
{
    if digits.len() == 0 {
        0
    } else {
        decimal_value(digits.drop_last()) * 10 + digit_value(digits.last())
    }
}

/// The keyword that `text` spells, if it spells one.
pub open spec fn keyword(text: Seq<char>) -> Option<TokenKind> {
    if text == "void"@ {
        Some(TokenKind::Void)
    } else if text == "int"@ {
        Some(TokenKind::Int)
    } else if text == "long"@ {
        Some(TokenKind::Long)
    } else if text == "char"@ {
        Some(TokenKind::Char)
    } else if text == "if"@ {
        Some(TokenKind::If)
    } else if text == "else"@ {
        Some(TokenKind::Else)
    } else if text == "for"@ {
        Some(TokenKind::For)
    } else if text == "while"@ {
        Some(TokenKind::While)
    } else if text == "return"@ {
        Some(TokenKind::Return)
    } else {
        None
    }
}

/// What the scanner finds at one place of the source.
pub enum Lexeme {
    Token(TokenTypeView),
    /// A blank, a tab or a carriage return.
    Blank,
    Newline,
    Comment,
    /// Text that is no token, with the message of its diagnostic.
    Invalid(Seq<char>),
}

/// One step of the scanner: what stands at a place, how many characters it
/// takes, and by how much the column grows.
pub struct Step {
    pub lexeme: Lexeme,
    pub len: int,
    pub advance: int,
}

/// A punctuation or operator token of `len` characters.
pub open spec fn fixed(kind: TokenKind, len: int) -> Step {
    Step { lexeme: Lexeme::Token(TokenTypeView::plain(kind)), len, advance: len }
}

/// With `c` at `pos`: `two` if `second` follows, else `one`.
pub open spec fn one_or_two(
    src: Seq<char>,
    pos: int,
    second: char,
    two: TokenKind,
    one: TokenKind,
) -> Step {
    if found(src, pos + 1, second) {
        fixed(two, 2)
    } else {
        fixed(one, 1)
    }
}

/// With `c` at `pos`: `doubled` if `c` follows again, `assign` if `=`
/// follows, else `single`.
pub open spec fn one_of_three(
    src: Seq<char>,
    pos: int,
    doubled: TokenKind,
    assign: TokenKind,
    single: TokenKind,
) -> Step {
    if found(src, pos + 1, src[pos]) {
        fixed(doubled, 2)
    } else if found(src, pos + 1, '=') {
        fixed(assign, 2)
    } else {
        fixed(single, 1)
    }
}

/// With `<` or `>` at `pos`: the shift, the shift assignment, the
/// comparison with `=`, or the plain comparison, by maximal munch.
pub open spec fn angle(
    src: Seq<char>,
    pos: int,
    shift_assign: TokenKind,
    shift: TokenKind,
    or_equal: TokenKind,
    plain: TokenKind,
) -> Step {
    if found(src, pos + 1, src[pos]) {
        if found(src, pos + 2, '=') {
            fixed(shift_assign, 3)
        } else {
            fixed(shift, 2)
        }
    } else if found(src, pos + 1, '=') {
        fixed(or_equal, 2)
    } else {
        fixed(plain, 1)
    }
}

/// The punctuation or operator token that starts at `pos`, if one does.
/// A `/` that starts a comment is none.
pub open spec fn operator_at(src: Seq<char>, pos: int) -> Option<Step> {
    let c = src[pos];
    if c == '[' {
        Some(fixed(TokenKind::LeftBracket, 1))
    } else if c == ']' {
        Some(fixed(TokenKind::RightBracket, 1))
    } else if c == '(' {
        Some(fixed(TokenKind::LeftParen, 1))
    } else if c == ')' {
        Some(fixed(TokenKind::RightParen, 1))
    } else if c == '{' {
        Some(fixed(TokenKind::LeftBrace, 1))
    } else if c == '}' {
        Some(fixed(TokenKind::RightBrace, 1))
    } else if c == ',' {
        Some(fixed(TokenKind::Comma, 1))
    } else if c == '.' {
        Some(fixed(TokenKind::Dot, 1))
    } else if c == ';' {
        Some(fixed(TokenKind::Semicolon, 1))
    } else if c == '~' {
        Some(fixed(TokenKind::Tilde, 1))
    } else if c == '-' {
        Some(one_of_three(src, pos, TokenKind::MinusMinus, TokenKind::MinusEqual, TokenKind::Minus))
    } else if c == '+' {
        Some(one_of_three(src, pos, TokenKind::PlusPlus, TokenKind::PlusEqual, TokenKind::Plus))
    } else if c == '|' {
        Some(one_of_three(src, pos, TokenKind::PipePipe, TokenKind::PipeEqual, TokenKind::Pipe))
    } else if c == '&' {
        Some(one_of_three(src, pos, TokenKind::AmpAmp, TokenKind::AmpEqual, TokenKind::Amp))
    } else if c == '<' {
        Some(
            angle(
                src,
                pos,
                TokenKind::LessLessEqual,
                TokenKind::LessLess,
                TokenKind::LessEqual,
                TokenKind::Less,
            ),
        )
    } else if c == '>' {
        Some(
            angle(
                src,
                pos,
                TokenKind::GreaterGreaterEqual,
                TokenKind::GreaterGreater,
                TokenKind::GreaterEqual,
                TokenKind::Greater,
            ),
        )
    } else if c == '^' {
        Some(one_or_two(src, pos, '=', TokenKind::XorEqual, TokenKind::Xor))
    } else if c == '*' {
        Some(one_or_two(src, pos, '=', TokenKind::StarEqual, TokenKind::Star))
    } else if c == '%' {
        Some(one_or_two(src, pos, '=', TokenKind::ModEqual, TokenKind::Mod))
    } else if c == '!' {
        Some(one_or_two(src, pos, '=', TokenKind::BangEqual, TokenKind::Bang))
    } else if c == '=' {
        Some(one_or_two(src, pos, '=', TokenKind::EqualEqual, TokenKind::Equal))
    } else if c == '/' && !found(src, pos + 1, '/') {
        Some(one_or_two(src, pos, '=', TokenKind::SlashEqual, TokenKind::Slash))
    } else {
        None
    }
}

/// The comment that starts with `//` at `pos`: it ends in front of the next
/// line feed.
pub open spec fn comment_at(src: Seq<char>, pos: int) -> Step {
    Step {
        lexeme: Lexeme::Comment,
        len: run_end(src, pos + 2, Run::Line) - pos,
        advance: 0,
    }
}

/// The string literal that starts with `"` at `pos`. It ends with the next
/// `"`; a line feed or the end of the source in front of that leaves it
/// unterminated.
pub open spec fn string_at(src: Seq<char>, pos: int) -> Step {
    let end = run_end(src, pos + 1, Run::Text);
    if found(src, end, '"') {
        let text = src.subrange(pos + 1, end);
        Step {
            lexeme: Lexeme::Token(TokenTypeView::string(text)),
            len: end + 1 - pos,
            advance: utf8_len(text) + 2,
        }
    } else {
        Step { lexeme: Lexeme::Invalid("Unterminated string"@), len: end - pos, advance: 0 }
    }
}

/// The character literal that starts with `'` at `pos`: one ASCII
/// character between two quotes.
pub open spec fn char_at(src: Seq<char>, pos: int) -> Step {
    let end = run_end(src, pos + 1, Run::Quoted);
    if !found(src, end, '\'') {
        Step { lexeme: Lexeme::Invalid("unterminated char literal"@), len: end - pos, advance: 0 }
    } else if end != pos + 2 {
        Step {
            lexeme: Lexeme::Invalid("char literal must contain single character"@),
            len: end + 1 - pos,
            advance: 0,
        }
    } else if !is_ascii(src[pos + 1]) {
        Step {
            lexeme: Lexeme::Invalid("char literal must be valid ascii value"@),
            len: end + 1 - pos,
            advance: 0,
        }
    } else {
        Step {
            lexeme: Lexeme::Token(TokenTypeView::char_lit(src[pos + 1] as int)),
            len: 3,
            advance: 3,
        }
    }
}

/// The number that starts with a digit at `pos`: the longest run of digits,
/// read in decimal. A value over `i32::MAX` is no token.
pub open spec fn number_at(src: Seq<char>, pos: int) -> Step {
    let end = run_end(src, pos, Run::Digits);
    let value = decimal_value(src.subrange(pos, end));
    Step {
        lexeme: if value <= i32::MAX {
            Lexeme::Token(TokenTypeView::number(value as int))
        } else {
            Lexeme::Invalid("number literal doesn't fit into an int"@)
        },
        len: end - pos,
        advance: end - pos,
    }
}

/// The keyword or identifier that starts at `pos`.
pub open spec fn word_at(src: Seq<char>, pos: int) -> Step {
    let end = run_end(src, pos, Run::Word);
    let text = src.subrange(pos, end);
    Step {
        lexeme: Lexeme::Token(
            match keyword(text) {
                Some(kind) => TokenTypeView::plain(kind),
                None => TokenTypeView::ident(text),
            },
        ),
        len: end - pos,
        advance: utf8_len(text),
    }
}

/// What the scanner finds at place `pos` of `src`, for `0 <= pos < src.len()`.
pub open spec fn step(src: Seq<char>, pos: int) -> Step {
    let c = src[pos];
    match operator_at(src, pos) {
        Some(s) => s,
        None => if c == '/' {
            comment_at(src, pos)
        } else if c == ' ' || c == '\r' || c == '\t' {
            Step { lexeme: Lexeme::Blank, len: 1, advance: 1 }
        } else if c == '\n' {
            Step { lexeme: Lexeme::Newline, len: 1, advance: 0 }
        } else if c == '"' {
            string_at(src, pos)
        } else if c == '\'' {
            char_at(src, pos)
        } else if is_digit(c) {
            number_at(src, pos)
        } else if is_word_start(c) {
            word_at(src, pos)
        } else {
            Step {
                lexeme: Lexeme::Invalid("Unexpected character: "@.push(c)),
                len: 1,
                advance: 1,
            }
        },
    }
}

pub proof fn lemma_step_bounds(src: Seq<char>, pos: int)
    requires
        0 <= pos < src.len(),
    ensures
        1 <= step(src, pos).len <= src.len() - pos,
        0 <= step(src, pos).advance <= 4 * step(src, pos).len,
{
    if pos + 2 <= src.len() {
        lemma_run_end(src, pos + 2, Run::Line);
    }
    lemma_run_end(src, pos + 1, Run::Text);
    lemma_run_end(src, pos + 1, Run::Quoted);
    lemma_run_end(src, pos, Run::Digits);
    lemma_run_end(src, pos, Run::Word);
    let end = run_end(src, pos + 1, Run::Text);
    if pos + 1 <= end {
        lemma_utf8_len_bounds(src.subrange(pos + 1, end));
    }
    let wend = run_end(src, pos, Run::Word);
    lemma_utf8_len_bounds(src.subrange(pos, wend));
}

/// The place in the source where the scanner stands.
pub struct Place {
    pub pos: int,
    pub line: int,
    pub column: int,
}

/// The place after the step that starts at `at`.
pub open spec fn place_after(src: Seq<char>, at: Place) -> Place {
    let s = step(src, at.pos);
    Place {
        pos: if s.len >= 1 {
            at.pos + s.len
        } else {
            at.pos + 1
        },
        line: if s.lexeme is Newline {
            at.line + 1
        } else {
            at.line
        },
        column: if s.lexeme is Newline {
            1
        } else {
            at.column + s.advance
        },
    }
}

/// Number of characters from place `at` to the end of `src`.
pub open spec fn left_to_scan(src: Seq<char>, at: Place) -> nat {
    if at.pos < src.len() {
        (src.len() - at.pos) as nat
    } else {
        0
    }
}

/// Text of line `line` (counted from 1) among `lines`.
pub open spec fn line_text(lines: Seq<Seq<char>>, line: int) -> Seq<char> {
    if 1 <= line <= lines.len() {
        lines[line - 1]
    } else {
        Seq::empty()
    }
}

/// What the scanner makes of a source.
pub struct Scanned {
    pub tokens: Seq<TokenView>,
    pub errors: Seq<ErrorView>,
    pub end: Place,
}

/// The tokens and diagnostics that the scanner finds from place `at` to
/// the end of `src`, and the place where it stops. `lines` holds the text
/// of the lines that tokens and diagnostics cite.
pub open spec fn scan_from(src: Seq<char>, lines: Seq<Seq<char>>, at: Place) -> Scanned
    decreases left_to_scan(src, at),
{
    if !(0 <= at.pos < src.len()) {
        Scanned { tokens: Seq::empty(), errors: Seq::empty(), end: at }
    } else {
        let rest = scan_from(src, lines, place_after(src, at));
        match step(src, at.pos).lexeme {
            Lexeme::Token(t) => Scanned {
                tokens: seq![
                    TokenView {
                        token: t,
                        line_index: at.line,
                        column: at.column,
                        line_string: line_text(lines, at.line),
                    },
                ] + rest.tokens,
                ..rest
            },
            Lexeme::Invalid(msg) => Scanned {
                errors: seq![
                    ErrorView {
                        line_index: at.line,
                        line_string: line_text(lines, at.line),
                        column: at.column,
                        msg,
                    },
                ] + rest.errors,
                ..rest
            },
            _ => rest,
        }
    }
}

/// What scanning a whole source from its start gives: the lines are those
/// of the source, and the scanner starts at line 1, column 1.
pub open spec fn scan(src: Seq<char>) -> Scanned {
    scan_from(src, split_lines(src), Place { pos: 0, line: 1, column: 1 })
}

/// Number of bytes that a punctuation, operator or keyword token takes.
pub open spec fn kind_width(kind: TokenKind) -> int {
    match kind {
        TokenKind::LessLessEqual | TokenKind::GreaterGreaterEqual => 3,
        TokenKind::BangEqual
        | TokenKind::EqualEqual
        | TokenKind::LessEqual
        | TokenKind::LessLess
        | TokenKind::GreaterEqual
        | TokenKind::GreaterGreater
        | TokenKind::PlusPlus
        | TokenKind::PlusEqual
        | TokenKind::MinusMinus
        | TokenKind::MinusEqual
        | TokenKind::StarEqual
        | TokenKind::SlashEqual
        | TokenKind::ModEqual
        | TokenKind::AmpAmp
        | TokenKind::AmpEqual
        | TokenKind::PipePipe
        | TokenKind::PipeEqual
        | TokenKind::XorEqual
        | TokenKind::If => 2,
        TokenKind::Int | TokenKind::For => 3,
        TokenKind::Void | TokenKind::Char | TokenKind::Long | TokenKind::Else => 4,
        TokenKind::While => 5,
        TokenKind::Return => 6,
        _ => 1,
    }
}

/// Number of bytes that a token takes in the source, as far as the token
/// tells: a number is taken without zeros in front of it.
pub open spec fn token_width(t: TokenTypeView) -> int {
    match t.kind {
        TokenKind::String => utf8_len(t.text) + 2,
        TokenKind::Ident => utf8_len(t.text),
        TokenKind::Number => if t.number >= 0 {
            decimal(t.number as nat).len() as int
        } else {
            1
        },
        TokenKind::CharLit => 3,
        _ => kind_width(t.kind),
    }
}

/// Token `b` stands behind token `a`: on a later line, or on the same line
/// behind the last byte of `a`.
pub open spec fn follows(a: TokenView, b: TokenView) -> bool {
    a.line_index < b.line_index || (a.line_index == b.line_index && a.column + token_width(
        a.token,
    ) <= b.column)
}

/// Each token stands behind the one in front of it.
pub open spec fn ordered(tokens: Seq<TokenView>) -> bool {
    forall|i: int| 0 <= i < tokens.len() - 1 ==> follows(#[trigger] tokens[i], tokens[i + 1])
}

/// Token `t` stands at place `at` or behind it.
pub open spec fn not_before(at: Place, t: TokenView) -> bool {
    at.line < t.line_index || (at.line == t.line_index && at.column <= t.column)
}

proof fn lemma_keyword_width(text: Seq<char>)
    requires
        keyword(text) is Some,
    ensures
        utf8_len(text) == kind_width(keyword(text)->Some_0),
{
    reveal_strlit("void");
    reveal_strlit("int");
    reveal_strlit("long");
    reveal_strlit("char");
    reveal_strlit("if");
    reveal_strlit("else");
    reveal_strlit("for");
    reveal_strlit("while");
    reveal_strlit("return");
    reveal_with_fuel(utf8_len, 8);
    assert(text.len() <= 6);
    if text.len() >= 6 {
        assert(text.drop_last().drop_last().drop_last().drop_last().drop_last().drop_last().len() == 0);
    }
}

proof fn lemma_decimal_width(digits: Seq<char>)
    requires
        digits.len() >= 1,
        forall|i: int| 0 <= i < digits.len() ==> is_digit(#[trigger] digits[i]),
    ensures
        decimal(decimal_value(digits)).len() <= digits.len(),
    decreases digits.len(),
{
    let v = decimal_value(digits);
    let d = digit_value(digits.last());
    assert(is_digit(digits[digits.len() - 1]));
    assert(d < 10);
    if digits.len() > 1 {
        assert forall|i: int| 0 <= i < digits.drop_last().len() implies is_digit(
            #[trigger] digits.drop_last()[i],
        ) by {
            assert(digits.drop_last()[i] == digits[i]);
        }
        lemma_decimal_width(digits.drop_last());
        if v >= 10 {
            assert(v / 10 == decimal_value(digits.drop_last()));
        }
    } else {
        assert(decimal_value(digits.drop_last()) == 0);
    }
}

/// A token takes no more bytes than the scanner moves on behind it.
proof fn lemma_step_width(src: Seq<char>, pos: int)
    requires
        0 <= pos < src.len(),
    ensures
        step(src, pos).lexeme matches Lexeme::Token(t) ==> token_width(t) <= step(src, pos).advance,
        0 <= step(src, pos).advance,
        1 <= step(src, pos).len,
{
    lemma_step_bounds(src, pos);
    let c = src[pos];
    if operator_at(src, pos) is None && c != '/' && c != ' ' && c != '\r' && c != '\t' && c != '\n'
        && c != '"' && c != '\'' {
        if is_digit(c) {
            lemma_run_end(src, pos, Run::Digits);
            let end = run_end(src, pos, Run::Digits);
            assert(end > pos);
            lemma_decimal_width(src.subrange(pos, end));
        } else if is_word_start(c) {
            let end = run_end(src, pos, Run::Word);
            if keyword(src.subrange(pos, end)) is Some {
                lemma_keyword_width(src.subrange(pos, end));
            }
        }
    }
}

/// The tokens that the scanner finds stand one behind the other: on one
/// line none starts in front of the end of the one before it.
pub proof fn lemma_tokens_are_ordered(src: Seq<char>, lines: Seq<Seq<char>>, at: Place)
    ensures
        ordered(scan_from(src, lines, at).tokens),
        forall|i: int|
            0 <= i < scan_from(src, lines, at).tokens.len() ==> not_before(
                at,
                #[trigger] scan_from(src, lines, at).tokens[i],
            ),
    decreases left_to_scan(src, at),
{
    if 0 <= at.pos < src.len() {
        lemma_step_width(src, at.pos);
        let next = place_after(src, at);
        lemma_tokens_are_ordered(src, lines, next);
        let rest = scan_from(src, lines, next).tokens;
        let all = scan_from(src, lines, at).tokens;
        match step(src, at.pos).lexeme {
            Lexeme::Token(t) => {
                assert forall|i: int| 0 <= i < all.len() - 1 implies follows(
                    #[trigger] all[i],
                    all[i + 1],
                ) by {
                    if i == 0 {
                        assert(all[1] == rest[0]);
                        assert(not_before(next, rest[0]));
                    } else {
                        assert(all[i] == rest[i - 1]);
                        assert(all[i + 1] == rest[i]);
                    }
                }
                assert forall|i: int| 0 <= i < all.len() implies not_before(at, #[trigger] all[i]) by {
                    if i > 0 {
                        assert(all[i] == rest[i - 1]);
                        assert(not_before(next, rest[i - 1]));
                    }
                }
            },
            _ => {
                assert(all == rest);
                assert forall|i: int| 0 <= i < all.len() implies not_before(at, #[trigger] all[i]) by {
                    assert(not_before(next, rest[i]));
                }
            },
        }
    }
}

/// What the scanner found at one place, as it is handed on.
pub enum Lexed {
    Token(TokenType),
    Blank,
    Newline,
    Comment,
    Invalid(String),
}

impl View for Lexed {
    type V = Lexeme;

    open spec fn view(&self) -> Lexeme {
        match self {
            Lexed::Token(t) => Lexeme::Token(t@),
            Lexed::Blank => Lexeme::Blank,
            Lexed::Newline => Lexeme::Newline,
            Lexed::Comment => Lexeme::Comment,
            Lexed::Invalid(msg) => Lexeme::Invalid(msg@),
        }
    }
}

/// The scanner: the source, the place where it stands, and whether it has
/// met an error.
pub struct Scanner {
    /// The characters of the source.
    pub source: Vec<char>,
    /// How many of them have been scanned.
    pub pos: usize,
    /// The lines of the source, which tokens and diagnostics cite.
    pub raw_source: Vec<String>,
    pub line: i32,
    pub column: i32,
    /// Whether a call of `scan_token` has met an error.
    pub err: bool,
}

pub struct ScannerView {
    pub src: Seq<char>,
    pub lines: Seq<Seq<char>>,
    pub at: Place,
    pub err: bool,
}

impl View for Scanner {
    type V = ScannerView;

    open spec fn view(&self) -> ScannerView {
        ScannerView {
            src: self.source@,
            lines: line_views(self.raw_source@),
            at: Place { pos: self.pos as int, line: self.line as int, column: self.column as int },
            err: self.err,
        }
    }
}

impl ScannerView {
    /// The scanner stands inside its source, on a line that it holds, and
    /// no column of what is left to scan leaves the 32-bit range.
    pub open spec fn wf(self) -> bool {
        &&& 0 <= self.at.pos <= self.src.len()
        &&& newlines(self.src) < self.lines.len()
        &&& 1 <= self.at.line <= newlines(self.src.take(self.at.pos)) + 1
        &&& self.src.len() < i32::MAX
        &&& 1 <= self.at.column
        &&& self.at.column + 4 * (self.src.len() - self.at.pos) <= i32::MAX
    }
}

fn matches_keyword(text: &String) -> (r: Option<TokenKind>)
    ensures
        r == keyword(text@),
{
    if *text == owned("void") {
        Some(TokenKind::Void)
    } else if *text == owned("int") {
        Some(TokenKind::Int)
    } else if *text == owned("long") {
        Some(TokenKind::Long)
    } else if *text == owned("char") {
        Some(TokenKind::Char)
    } else if *text == owned("if") {
        Some(TokenKind::If)
    } else if *text == owned("else") {
        Some(TokenKind::Else)
    } else if *text == owned("for") {
        Some(TokenKind::For)
    } else if *text == owned("while") {
        Some(TokenKind::While)
    } else if *text == owned("return") {
        Some(TokenKind::Return)
    } else {
        None
    }
}

/// The code of an ASCII character.
fn ascii_code(c: char) -> (r: i8)
    requires
        is_ascii(c),
    ensures
        r as int == c as int,
{
    let code: u8 = c as u8;
    code as i8
}

/// Value of a decimal digit.
fn digit_of(c: char) -> (r: u32)
    requires
        is_digit(c),
    ensures
        r == digit_value(c),
        r <= 9,
{
    c as u32 - '0' as u32
}

fn is_word_char(c: char) -> (r: bool)
    ensures
        r == is_word_part(c),
{
    c.is_alphabetic() || c == '_' || char_is_digit(c)
}

/// Splits a text into its lines.
fn lines_of(source: &Vec<char>) -> (r: Vec<String>)
    ensures
        line_views(r@) == split_lines(source@),
{
    let mut lines: Vec<String> = Vec::new();
    let mut current = String::new();
    let mut i: usize = 0;
    while i < source.len()
        invariant
            i <= source.len(),
            line_views(lines@).push(current@) == split_lines(source@.take(i as int)),
        decreases source.len() - i,
    {
        let c = source[i];
        proof {
            assert(source@.take(i + 1).drop_last() =~= source@.take(i as int));
        }
        if c == '\n' {
            lines.push(current);
            current = String::new();
            assert(line_views(lines@).push(current@) =~= split_lines(source@.take(i + 1)));
        } else {
            current.push(c);
            assert(line_views(lines@).push(current@) =~= split_lines(source@.take(i + 1)));
        }
        i = i + 1;
    }
    lines.push(current);
    assert(source@.take(i as int) =~= source@);
    assert(line_views(lines@) =~= split_lines(source@));
    lines
}

impl Scanner {
    /// A scanner at the start of `source`.
    pub fn new(source: &str) -> (r: Self)
        requires
            source@.len() <= MAX_SOURCE_CHARS,
        ensures
            r@ == (ScannerView {
                src: source@,
                lines: split_lines(source@),
                at: Place { pos: 0, line: 1, column: 1 },
                err: false,
            }),
            r@.wf(),
    {
        let chars = chars_of(source);
        let raw_source = lines_of(&chars);
        proof {
            lemma_split_lines_len(source@);
            assert(source@.take(0) =~= Seq::<char>::empty());
        }
        Scanner { source: chars, pos: 0, raw_source, line: 1, column: 1, err: false }
    }

    /// Whether `expected` stands at place `at`.
    fn matches(&self, at: usize, expected: char) -> (r: bool)
        ensures
            r == found(self.source@, at as int, expected),
    {
        at < self.source.len() && self.source[at] == expected
    }

    /// `if_match` with 2 characters if `expected` follows the character at
    /// `at`, else `if_not` with 1.
    fn match_next(&self, at: usize, expected: char, if_match: TokenKind, if_not: TokenKind) -> (r:
        (TokenKind, usize))
        requires
            at < self.source@.len() < i32::MAX,
        ensures
            fixed(r.0, r.1 as int) == one_or_two(self.source@, at as int, expected, if_match, if_not),
            1 <= r.1 <= 2,
    {
        if self.matches(at + 1, expected) {
            (if_match, 2)
        } else {
            (if_not, 1)
        }
    }

    fn match_three(&self, at: usize, doubled: TokenKind, assign: TokenKind, single: TokenKind) -> (r:
        (TokenKind, usize))
        requires
            at < self.source@.len() < i32::MAX,
        ensures
            fixed(r.0, r.1 as int) == one_of_three(self.source@, at as int, doubled, assign, single),
            1 <= r.1 <= 2,
    {
        let c = self.source[at];
        if self.matches(at + 1, c) {
            (doubled, 2)
        } else if self.matches(at + 1, '=') {
            (assign, 2)
        } else {
            (single, 1)
        }
    }

    fn match_angle(
        &self,
        at: usize,
        shift_assign: TokenKind,
        shift: TokenKind,
        or_equal: TokenKind,
        plain: TokenKind,
    ) -> (r: (TokenKind, usize))
        requires
            at < self.source@.len() < i32::MAX,
        ensures
            fixed(r.0, r.1 as int) == angle(
                self.source@,
                at as int,
                shift_assign,
                shift,
                or_equal,
                plain,
            ),
            1 <= r.1 <= 3,
    {
        let c = self.source[at];
        if self.matches(at + 1, c) {
            if self.matches(at + 2, '=') {
                (shift_assign, 3)
            } else {
                (shift, 2)
            }
        } else if self.matches(at + 1, '=') {
            (or_equal, 2)
        } else {
            (plain, 1)
        }
    }

    /// The punctuation or operator token at `at`, with its length.
    fn operator(&self, at: usize) -> (r: Option<(TokenKind, usize)>)
        requires
            at < self.source@.len() < i32::MAX,
        ensures
            match r {
                Some((kind, len)) => operator_at(self.source@, at as int) == Some(
                    fixed(kind, len as int),
                ) && 1 <= len <= 3,
                None => operator_at(self.source@, at as int) is None,
            },
    {
        let c = self.source[at];
        if c == '[' {
            Some((TokenKind::LeftBracket, 1))
        } else if c == ']' {
            Some((TokenKind::RightBracket, 1))
        } else if c == '(' {
            Some((TokenKind::LeftParen, 1))
        } else if c == ')' {
            Some((TokenKind::RightParen, 1))
        } else if c == '{' {
            Some((TokenKind::LeftBrace, 1))
        } else if c == '}' {
            Some((TokenKind::RightBrace, 1))
        } else if c == ',' {
            Some((TokenKind::Comma, 1))
        } else if c == '.' {
            Some((TokenKind::Dot, 1))
        } else if c == ';' {
            Some((TokenKind::Semicolon, 1))
        } else if c == '~' {
            Some((TokenKind::Tilde, 1))
        } else if c == '-' {
            Some(
                self.match_three(
                    at,
                    TokenKind::MinusMinus,
                    TokenKind::MinusEqual,
                    TokenKind::Minus,
                ),
            )
        } else if c == '+' {
            Some(self.match_three(at, TokenKind::PlusPlus, TokenKind::PlusEqual, TokenKind::Plus))
        } else if c == '|' {
            Some(self.match_three(at, TokenKind::PipePipe, TokenKind::PipeEqual, TokenKind::Pipe))
        } else if c == '&' {
            Some(self.match_three(at, TokenKind::AmpAmp, TokenKind::AmpEqual, TokenKind::Amp))
        } else if c == '<' {
            Some(
                self.match_angle(
                    at,
                    TokenKind::LessLessEqual,
                    TokenKind::LessLess,
                    TokenKind::LessEqual,
                    TokenKind::Less,
                ),
            )
        } else if c == '>' {
            Some(
                self.match_angle(
                    at,
                    TokenKind::GreaterGreaterEqual,
                    TokenKind::GreaterGreater,
                    TokenKind::GreaterEqual,
                    TokenKind::Greater,
                ),
            )
        } else if c == '^' {
            Some(self.match_next(at, '=', TokenKind::XorEqual, TokenKind::Xor))
        } else if c == '*' {
            Some(self.match_next(at, '=', TokenKind::StarEqual, TokenKind::Star))
        } else if c == '%' {
            Some(self.match_next(at, '=', TokenKind::ModEqual, TokenKind::Mod))
        } else if c == '!' {
            Some(self.match_next(at, '=', TokenKind::BangEqual, TokenKind::Bang))
        } else if c == '=' {
            Some(self.match_next(at, '=', TokenKind::EqualEqual, TokenKind::Equal))
        } else if c == '/' && !self.matches(at + 1, '/') {
            Some(self.match_next(at, '=', TokenKind::SlashEqual, TokenKind::Slash))
        } else {
            None
        }
    }

    /// Whether character `c` belongs to the run.
    fn keeps(run: Run, c: char) -> (r: bool)
        ensures
            r == run.keeps(c),
    {
        match run {
            Run::Digits => char_is_digit(c),
            Run::Word => is_word_char(c),
            Run::Line => c != '\n',
            Run::Quoted => c != '\'',
            Run::Text => c != '"' && c != '\n',
        }
    }

    /// The place where the run that starts at `from` ends.
    fn run(&self, from: usize, run: Run) -> (end: usize)
        requires
            from <= self.source@.len(),
        ensures
            end == run_end(self.source@, from as int, run),
            from <= end <= self.source@.len(),
    {
        let mut end: usize = from;
        while end < self.source.len() && Self::keeps(run, self.source[end])
            invariant
                from <= end <= self.source@.len(),
                run_end(self.source@, from as int, run) == run_end(self.source@, end as int, run),
            decreases self.source@.len() - end,
        {
            end = end + 1;
        }
        end
    }

    /// Number of bytes that the characters from `from` to `to` take in
    /// UTF-8.
    fn width(&self, from: usize, to: usize) -> (w: u64)
        requires
            from <= to <= self.source@.len() < i32::MAX,
        ensures
            w == utf8_len(self.source@.subrange(from as int, to as int)),
            w <= 4 * (to - from),
    {
        let mut w: u64 = 0;
        let mut i: usize = from;
        while i < to
            invariant
                from <= i <= to <= self.source@.len() < i32::MAX,
                w == utf8_len(self.source@.subrange(from as int, i as int)),
                w <= 4 * (i - from),
            decreases to - i,
        {
            proof {
                lemma_utf8_len_push(
                    self.source@.subrange(from as int, i as int),
                    self.source@[i as int],
                );
                assert(self.source@.subrange(from as int, i + 1) =~= self.source@.subrange(
                    from as int,
                    i as int,
                ).push(self.source@[i as int]));
            }
            w = w + char_width(self.source[i]) as u64;
            i = i + 1;
        }
        w
    }

    /// The string literal whose opening quote stands at `at`.
    fn string(&self, at: usize) -> (r: (Lexed, usize, u64))
        requires
            at < self.source@.len() < i32::MAX,
        ensures
            (Step { lexeme: r.0@, len: r.1 as int, advance: r.2 as int }) == string_at(
                self.source@,
                at as int,
            ),
    {
        let end = self.run(at + 1, Run::Text);
        if self.matches(end, '"') {
            let text = string_of(&self.source, at + 1, end);
            let width = self.width(at + 1, end);
            (Lexed::Token(TokenType::String(text)), end + 1 - at, width + 2)
        } else {
            (Lexed::Invalid(owned("Unterminated string")), end - at, 0)
        }
    }

    /// The character literal whose opening quote stands at `at`.
    fn char_lit(&self, at: usize) -> (r: (Lexed, usize, u64))
        requires
            at < self.source@.len() < i32::MAX,
        ensures
            (Step { lexeme: r.0@, len: r.1 as int, advance: r.2 as int }) == char_at(
                self.source@,
                at as int,
            ),
    {
        let end = self.run(at + 1, Run::Quoted);
        if !self.matches(end, '\'') {
            (Lexed::Invalid(owned("unterminated char literal")), end - at, 0)
        } else if end != at + 2 {
            (Lexed::Invalid(owned("char literal must contain single character")), end + 1 - at, 0)
        } else if !char_is_ascii(self.source[at + 1]) {
            (Lexed::Invalid(owned("char literal must be valid ascii value")), end + 1 - at, 0)
        } else {
            let c = self.source[at + 1];
            (Lexed::Token(TokenType::CharLit(ascii_code(c))), 3, 3)
        }
    }

    /// Value of the digits from `from` to `to`, if an `i32` holds it.
    fn value(&self, from: usize, to: usize) -> (r: Option<i32>)
        requires
            from <= to <= self.source@.len(),
            forall|i: int| from <= i < to ==> is_digit(#[trigger] self.source@[i]),
        ensures
            match r {
                Some(v) => v == decimal_value(self.source@.subrange(from as int, to as int)),
                None => decimal_value(self.source@.subrange(from as int, to as int)) > i32::MAX,
            },
    {
        let mut i: usize = from;
        let mut value: u32 = 0;
        let mut fits = true;
        while i < to
            invariant
                from <= i <= to <= self.source@.len(),
                forall|i: int| from <= i < to ==> is_digit(#[trigger] self.source@[i]),
                fits ==> value == decimal_value(self.source@.subrange(from as int, i as int)),
                fits ==> value <= i32::MAX,
                !fits ==> decimal_value(self.source@.subrange(from as int, i as int)) > i32::MAX,
            decreases to - i,
        {
            let c = self.source[i];
            assert(is_digit(self.source@[i as int]));
            let digit: u32 = digit_of(c);
            proof {
                assert(self.source@.subrange(from as int, i + 1).drop_last()
                    =~= self.source@.subrange(from as int, i as int));
            }
            if fits {
                let wide: u64 = value as u64 * 10 + digit as u64;
                if wide <= 0x7fff_ffff {
                    value = wide as u32;
                } else {
                    fits = false;
                }
            }
            i = i + 1;
        }
        if fits {
            Some(value as i32)
        } else {
            None
        }
    }

    /// The number whose first digit stands at `at`.
    fn number(&self, at: usize) -> (r: (Lexed, usize, u64))
        requires
            at < self.source@.len() < i32::MAX,
        ensures
            (Step { lexeme: r.0@, len: r.1 as int, advance: r.2 as int }) == number_at(
                self.source@,
                at as int,
            ),
    {
        let end = self.run(at, Run::Digits);
        proof {
            lemma_run_end(self.source@, at as int, Run::Digits);
        }
        match self.value(at, end) {
            Some(v) => (Lexed::Token(TokenType::Number(v)), end - at, (end - at) as u64),
            None => (
                Lexed::Invalid(owned("number literal doesn't fit into an int")),
                end - at,
                (end - at) as u64,
            ),
        }
    }

    /// The keyword or identifier whose first character stands at `at`.
    fn word(&self, at: usize) -> (r: (Lexed, usize, u64))
        requires
            at < self.source@.len() < i32::MAX,
        ensures
            (Step { lexeme: r.0@, len: r.1 as int, advance: r.2 as int }) == word_at(
                self.source@,
                at as int,
            ),
    {
        let end = self.run(at, Run::Word);
        let text = string_of(&self.source, at, end);
        let width = self.width(at, end);
        match matches_keyword(&text) {
            Some(kind) => (Lexed::Token(TokenType::of_kind(kind)), end - at, width),
            None => (Lexed::Token(TokenType::Ident(text)), end - at, width),
        }
    }

    /// The comment whose first `/` stands at `at`.
    fn comment(&self, at: usize) -> (r: (Lexed, usize, u64))
        requires
            at + 1 < self.source@.len() < i32::MAX,
        ensures
            (Step { lexeme: r.0@, len: r.1 as int, advance: r.2 as int }) == comment_at(
                self.source@,
                at as int,
            ),
    {
        let end = self.run(at + 2, Run::Line);
        (Lexed::Comment, end - at, 0)
    }

    /// What stands at place `at`.
    fn lex(&self, at: usize) -> (r: (Lexed, usize, u64))
        requires
            at < self.source@.len() < i32::MAX,
        ensures
            (Step { lexeme: r.0@, len: r.1 as int, advance: r.2 as int }) == step(
                self.source@,
                at as int,
            ),
    {
        let c = self.source[at];
        match self.operator(at) {
            Some((kind, len)) => (Lexed::Token(TokenType::of_kind(kind)), len, len as u64),
            None => if c == '/' {
                self.comment(at)
            } else if c == ' ' || c == '\r' || c == '\t' {
                (Lexed::Blank, 1, 1)
            } else if c == '\n' {
                (Lexed::Newline, 1, 0)
            } else if c == '"' {
                self.string(at)
            } else if c == '\'' {
                self.char_lit(at)
            } else if char_is_digit(c) {
                self.number(at)
            } else if c.is_alphabetic() || c == '_' {
                self.word(at)
            } else {
                let mut msg = owned("Unexpected character: ");
                msg.push(c);
                (Lexed::Invalid(msg), 1, 1)
            },
        }
    }

    /// Appends `current_token`, placed where the scanner stands.
    fn add_token(&self, tokens: &mut Vec<Token>, current_token: TokenType)
        requires
            1 <= self.line <= self.raw_source@.len(),
        ensures
            final(tokens)@ == old(tokens)@.push(
                Token {
                    token: current_token,
                    line_index: self.line,
                    column: self.column,
                    line_string: self.raw_source@[self.line - 1],
                },
            ),
    {
        tokens.push(
            Token {
                token: current_token,
                line_index: self.line,
                column: self.column,
                line_string: self.raw_source[(self.line - 1) as usize].clone(),
            },
        );
    }

    /// Scans what is left of the source. Gives the tokens if the scanner
    /// met no error, now or before, and else the diagnostics of this call.
    #[verifier::rlimit(40)]
    pub fn scan_token(&mut self) -> (r: Result<Vec<Token>, Vec<Error>>)
        requires
            old(self)@.wf(),
        ensures
            ({
                let found = scan_from(old(self)@.src, old(self)@.lines, old(self)@.at);
                &&& final(self)@ == (ScannerView {
                    at: found.end,
                    err: old(self)@.err || found.errors.len() > 0,
                    ..old(self)@
                })
                &&& final(self)@.wf()
                &&& final(self)@.at.pos == final(self)@.src.len()
                &&& match r {
                    Ok(tokens) => !final(self)@.err && token_views(tokens@) == found.tokens
                        && ordered(token_views(tokens@)),
                    Err(errors) => final(self)@.err && error_views(errors@) == found.errors,
                }
            }),
    {
        let mut errors: Vec<Error> = Vec::new();
        let mut tokens: Vec<Token> = Vec::new();
        let ghost src = self.source@;
        let ghost lines = line_views(self.raw_source@);
        let ghost whole = scan_from(src, lines, self@.at);
        while self.pos < self.source.len()
            invariant
                self.source@ == src,
                line_views(self.raw_source@) == lines,
                self@.wf(),
                self.err == (old(self).err || errors@.len() > 0),
                ({
                    let rest = scan_from(src, lines, self@.at);
                    &&& whole.tokens == token_views(tokens@) + rest.tokens
                    &&& whole.errors == error_views(errors@) + rest.errors
                    &&& whole.end == rest.end
                }),
            decreases self.source@.len() - self.pos,
        {
            let ghost at = self@.at;
            let ghost rest = scan_from(src, lines, at);
            let (lexed, len, advance) = self.lex(self.pos);
            proof {
                lemma_step_bounds(src, at.pos);
                lemma_newlines_len(src);
                lemma_newlines_prefix(src, at.pos, at.pos + len);
                lemma_newlines_prefix(src, at.pos + len, src.len() as int);
                assert(src.take(src.len() as int) =~= src);
                assert(lines[self.line - 1] == self.raw_source@[self.line - 1]@);
            }
            match lexed {
                Lexed::Token(t) => {
                    let ghost before = tokens@;
                    self.add_token(&mut tokens, t);
                    self.column = self.column + advance as i32;
                    assert(token_views(tokens@) =~= token_views(before).push(tokens@.last()@));
                },
                Lexed::Invalid(msg) => {
                    self.err = true;
                    let ghost before = errors@;
                    errors.push(
                        Error {
                            line_index: self.line,
                            line_string: self.raw_source[(self.line - 1) as usize].clone(),
                            column: self.column,
                            msg,
                        },
                    );
                    self.column = self.column + advance as i32;
                    assert(error_views(errors@) =~= error_views(before).push(errors@.last()@));
                },
                Lexed::Newline => {
                    self.line = self.line + 1;
                    self.column = 1;
                },
                _ => {
                    self.column = self.column + advance as i32;
                },
            }
            self.pos = self.pos + len;
        }
        proof {
            lemma_tokens_are_ordered(src, lines, old(self)@.at);
        }
        if self.err {
            Err(errors)
        } else {
            Ok(tokens)
        }
    }
}

} // verus!
