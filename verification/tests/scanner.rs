use rucc::common::error::Error;
use rucc::common::token::{Token, TokenType};
use rucc::scanner::Scanner;

#[test]
fn basic_single_and_double_tokens() {
    let source = "!= = > == \n\n    ;";
    let mut scanner = Scanner::new(source);
    let result = match scanner.scan_token() {
        Ok(v) => v,
        Err(_) => panic!("test"),
    };
    let expected = vec![
        Token::new(TokenType::BangEqual, 1, 1, "!= = > == ".to_string()),
        Token::new(TokenType::Equal, 1, 4, "!= = > == ".to_string()),
        Token::new(TokenType::Greater, 1, 6, "!= = > == ".to_string()),
        Token::new(TokenType::EqualEqual, 1, 8, "!= = > == ".to_string()),
        Token::new(TokenType::Semicolon, 3, 5, "    ;".to_string()),
    ];
    assert_eq!(result, expected);
}
#[test]
fn ignores_comments() {
    let source = "// this is a    comment\n\n!this";
    let mut scanner = Scanner::new(source);
    let result = match scanner.scan_token() {
        Ok(v) => v,
        Err(_) => panic!("test"),
    };
    let expected = vec![
        Token::new(TokenType::Bang, 3, 1, "!this".to_string()),
        Token::new(
            TokenType::Ident("this".to_string()),
            3,
            2,
            "!this".to_string(),
        ),
    ];
    assert_eq!(result, expected);
}
#[test]
fn token_basic_math_expression() {
    let source = "3 + 1 / 4";
    let mut scanner = Scanner::new(source);
    let result = match scanner.scan_token() {
        Ok(v) => v,
        Err(_) => panic!("test"),
    };
    let expected = vec![
        Token::new(TokenType::Number(3), 1, 1, "3 + 1 / 4".to_string()),
        Token::new(TokenType::Plus, 1, 3, "3 + 1 / 4".to_string()),
        Token::new(TokenType::Number(1), 1, 5, "3 + 1 / 4".to_string()),
        Token::new(TokenType::Slash, 1, 7, "3 + 1 / 4".to_string()),
        Token::new(TokenType::Number(4), 1, 9, "3 + 1 / 4".to_string()),
    ];
    assert_eq!(result, expected);
}
#[test]
fn basic_math_double_digit_nums() {
    let source = "300 - 11 * 41";
    let mut scanner = Scanner::new(source);
    let result = match scanner.scan_token() {
        Ok(v) => v,
        Err(_) => panic!("test"),
    };
    let expected = vec![
        Token::new(TokenType::Number(300), 1, 1, "300 - 11 * 41".to_string()),
        Token::new(TokenType::Minus, 1, 5, "300 - 11 * 41".to_string()),
        Token::new(TokenType::Number(11), 1, 7, "300 - 11 * 41".to_string()),
        Token::new(TokenType::Star, 1, 10, "300 - 11 * 41".to_string()),
        Token::new(TokenType::Number(41), 1, 12, "300 - 11 * 41".to_string()),
    ];
    assert_eq!(result, expected);
}
#[test]
fn matches_keywords_and_strings() {
    let source = "int some = \"this is a string\"";
    let mut scanner = Scanner::new(source);
    let result = match scanner.scan_token() {
        Ok(v) => v,
        Err(_) => panic!("test"),
    };
    let expected = vec![
        Token::new(
            TokenType::Int,
            1,
            1,
            "int some = \"this is a string\"".to_string(),
        ),
        Token::new(
            TokenType::Ident("some".to_string()),
            1,
            5,
            "int some = \"this is a string\"".to_string(),
        ),
        Token::new(
            TokenType::Equal,
            1,
            10,
            "int some = \"this is a string\"".to_string(),
        ),
        Token::new(
            TokenType::String("this is a string".to_string()),
            1,
            12,
            "int some = \"this is a string\"".to_string(),
        ),
    ];
    assert_eq!(result, expected);
}
#[test]
fn errors_on_unterminated_string() {
    let source = "int some = \"this is a string";
    let mut scanner = Scanner::new(source);

    let result = match scanner.scan_token() {
        Ok(_) => panic!(),
        Err(e) => e,
    };
    let expected = vec![Error {
        line_index: 1,
        line_string: "int some = \"this is a string".to_string(),
        column: 12,
        msg: "Unterminated string".to_string(),
    }];
    assert_eq!(result, expected);
}
#[test]
fn matches_complex_keywords() {
    let source = "int some_long;\nwhile (val >= 12) {*p = val}";
    let mut scanner = Scanner::new(source);
    let result = match scanner.scan_token() {
        Ok(v) => v,
        Err(_) => panic!("test"),
    };
    let expected = vec![
        Token::new(TokenType::Int, 1, 1, "int some_long;".to_string()),
        Token::new(
            TokenType::Ident("some_long".to_string()),
            1,
            5,
            "int some_long;".to_string(),
        ),
        Token::new(TokenType::Semicolon, 1, 14, "int some_long;".to_string()),
        Token::new(
            TokenType::While,
            2,
            1,
            "while (val >= 12) {*p = val}".to_string(),
        ),
        Token::new(
            TokenType::LeftParen,
            2,
            7,
            "while (val >= 12) {*p = val}".to_string(),
        ),
        Token::new(
            TokenType::Ident("val".to_string()),
            2,
            8,
            "while (val >= 12) {*p = val}".to_string(),
        ),
        Token::new(
            TokenType::GreaterEqual,
            2,
            12,
            "while (val >= 12) {*p = val}".to_string(),
        ),
        Token::new(
            TokenType::Number(12),
            2,
            15,
            "while (val >= 12) {*p = val}".to_string(),
        ),
        Token::new(
            TokenType::RightParen,
            2,
            17,
            "while (val >= 12) {*p = val}".to_string(),
        ),
        Token::new(
            TokenType::LeftBrace,
            2,
            19,
            "while (val >= 12) {*p = val}".to_string(),
        ),
        Token::new(
            TokenType::Star,
            2,
            20,
            "while (val >= 12) {*p = val}".to_string(),
        ),
        Token::new(
            TokenType::Ident("p".to_string()),
            2,
            21,
            "while (val >= 12) {*p = val}".to_string(),
        ),
        Token::new(
            TokenType::Equal,
            2,
            23,
            "while (val >= 12) {*p = val}".to_string(),
        ),
        Token::new(
            TokenType::Ident("val".to_string()),
            2,
            25,
            "while (val >= 12) {*p = val}".to_string(),
        ),
        Token::new(
            TokenType::RightBrace,
            2,
            28,
            "while (val >= 12) {*p = val}".to_string(),
        ),
    ];
    assert_eq!(result, expected);
}
#[test]
fn detects_single_on_invalid_char() {
    let source = "int c = 0$";
    let mut scanner = Scanner::new(source);
    let result = match scanner.scan_token() {
        Ok(_v) => panic!(),
        Err(e) => e,
    };
    let expected = vec![Error {
        line_index: 1,
        column: 10,
        line_string: "int c = 0$".to_string(),
        msg: "Unexpected character: $".to_string(),
    }];
    assert_eq!(result, expected);
}
#[test]
fn detects_mutliple_on_invalid_chars() {
    let source = "int c = 0$\n\n€ €";
    let mut scanner = Scanner::new(source);
    let result = match scanner.scan_token() {
        Ok(_) => panic!(),
        Err(e) => e,
    };
    let expected = vec![
        Error {
            line_index: 1,
            column: 10,
            line_string: "int c = 0$".to_string(),
            msg: "Unexpected character: $".to_string(),
        },
        Error {
            line_index: 3,
            column: 1,
            line_string: "€ €".to_string(),
            msg: "Unexpected character: €".to_string(),
        },
        Error {
            line_index: 3,
            column: 3,
            line_string: "€ €".to_string(),
            msg: "Unexpected character: €".to_string(),
        },
    ];
    assert_eq!(result, expected);
}
#[test]
fn can_handle_non_ascii_alphabet() {
    let source = "\nint ä = 123";
    let mut scanner = Scanner::new(source);
    let result = match scanner.scan_token() {
        Ok(v) => v,
        Err(_) => panic!(),
    };
    let expected = vec![
        Token::new(TokenType::Int, 2, 1, "int ä = 123".to_string()),
        Token::new(
            TokenType::Ident("ä".to_string()),
            2,
            5,
            "int ä = 123".to_string(),
        ),
        Token::new(TokenType::Equal, 2, 8, "int ä = 123".to_string()), // the identifier takes 2 bytes, and columns count bytes
        Token::new(TokenType::Number(123), 2, 10, "int ä = 123".to_string()),
    ];
    assert_eq!(result, expected);
}
#[test]
fn errors_on_non_ascii_non_letters() {
    let source = "\nint ä @ = 123";
    let mut scanner = Scanner::new(source);
    let result = match scanner.scan_token() {
        Ok(_) => panic!(),
        Err(e) => e,
    };
    let expected = vec![Error {
        line_index: 2,
        column: 8,
        line_string: "int ä @ = 123".to_string(),
        msg: "Unexpected character: @".to_string(),
    }];
    assert_eq!(result, expected);
}
#[test]
fn char_literal() {
    let source = "char some = '1'";
    let mut scanner = Scanner::new(source);
    let result = match scanner.scan_token() {
        Ok(v) => v,
        Err(_) => panic!(),
    };
    let expected = vec![
        Token::new(TokenType::Char, 1, 1, "char some = '1'".to_string()),
        Token::new(
            TokenType::Ident("some".to_string()),
            1,
            6,
            "char some = '1'".to_string(),
        ),
        Token::new(TokenType::Equal, 1, 11, "char some = '1'".to_string()),
        Token::new(
            TokenType::CharLit('1' as i8),
            1,
            13,
            "char some = '1'".to_string(),
        ),
    ];
    assert_eq!(result, expected);
}
#[test]
fn char_literal_len_greater_1() {
    let source = "char some = '12'";
    let mut scanner = Scanner::new(source);
    let result = match scanner.scan_token() {
        Ok(_) => panic!(),
        Err(e) => e,
    };
    let expected = vec![Error {
        line_index: 1,
        column: 13,
        line_string: "char some = '12'".to_string(),
        msg: "char literal must contain single character".to_string(),
    }];
    assert_eq!(result, expected);
}
#[test]
fn char_literal_empty() {
    let source = "char some = ''";
    let mut scanner = Scanner::new(source);
    let result = match scanner.scan_token() {
        Ok(_) => panic!(),
        Err(e) => e,
    };
    let expected = vec![Error {
        line_index: 1,
        column: 13,
        line_string: "char some = ''".to_string(),
        msg: "char literal must contain single character".to_string(),
    }];
    assert_eq!(result, expected);
}

fn kinds(source: &str) -> Vec<TokenType> {
    Scanner::new(source)
        .scan_token()
        .unwrap()
        .into_iter()
        .map(|t| t.token)
        .collect()
}

fn columns(source: &str) -> Vec<(i32, i32)> {
    Scanner::new(source)
        .scan_token()
        .unwrap()
        .into_iter()
        .map(|t| (t.line_index, t.column))
        .collect()
}

fn errors(source: &str) -> Vec<(i32, i32, String)> {
    Scanner::new(source)
        .scan_token()
        .unwrap_err()
        .into_iter()
        .map(|e| (e.line_index, e.column, e.msg))
        .collect()
}

#[test]
fn empty_source_has_no_tokens() {
    assert_eq!(Scanner::new("").scan_token(), Ok(vec![]));
}

#[test]
fn punctuation() {
    assert_eq!(
        kinds("[](){},.;~"),
        vec![
            TokenType::LeftBracket,
            TokenType::RightBracket,
            TokenType::LeftParen,
            TokenType::RightParen,
            TokenType::LeftBrace,
            TokenType::RightBrace,
            TokenType::Comma,
            TokenType::Dot,
            TokenType::Semicolon,
            TokenType::Tilde,
        ]
    );
}

#[test]
fn operators_by_maximal_munch() {
    assert_eq!(
        kinds("! != = == < <= << <<= > >= >> >>= + ++ += - -- -= * *= / /= % %= & && &= | || |= ^ ^="),
        vec![
            TokenType::Bang,
            TokenType::BangEqual,
            TokenType::Equal,
            TokenType::EqualEqual,
            TokenType::Less,
            TokenType::LessEqual,
            TokenType::LessLess,
            TokenType::LessLessEqual,
            TokenType::Greater,
            TokenType::GreaterEqual,
            TokenType::GreaterGreater,
            TokenType::GreaterGreaterEqual,
            TokenType::Plus,
            TokenType::PlusPlus,
            TokenType::PlusEqual,
            TokenType::Minus,
            TokenType::MinusMinus,
            TokenType::MinusEqual,
            TokenType::Star,
            TokenType::StarEqual,
            TokenType::Slash,
            TokenType::SlashEqual,
            TokenType::Mod,
            TokenType::ModEqual,
            TokenType::Amp,
            TokenType::AmpAmp,
            TokenType::AmpEqual,
            TokenType::Pipe,
            TokenType::PipePipe,
            TokenType::PipeEqual,
            TokenType::Xor,
            TokenType::XorEqual,
        ]
    );
    assert_eq!(
        kinds("+++ ---- <<<= >>>"),
        vec![
            TokenType::PlusPlus,
            TokenType::Plus,
            TokenType::MinusMinus,
            TokenType::MinusMinus,
            TokenType::LessLess,
            TokenType::LessEqual,
            TokenType::GreaterGreater,
            TokenType::Greater,
        ]
    );
}

#[test]
fn keywords_and_identifiers() {
    assert_eq!(
        kinds("void char int long if else for while return"),
        vec![
            TokenType::Void,
            TokenType::Char,
            TokenType::Int,
            TokenType::Long,
            TokenType::If,
            TokenType::Else,
            TokenType::For,
            TokenType::While,
            TokenType::Return,
        ]
    );
    assert_eq!(
        kinds("voids _int int_ i2 Return"),
        vec![
            TokenType::Ident("voids".to_string()),
            TokenType::Ident("_int".to_string()),
            TokenType::Ident("int_".to_string()),
            TokenType::Ident("i2".to_string()),
            TokenType::Ident("Return".to_string()),
        ]
    );
}

#[test]
fn columns_grow_by_the_width_of_each_token() {
    assert_eq!(
        columns("void f(){return x<<=12;}"),
        vec![
            (1, 1),
            (1, 6),
            (1, 7),
            (1, 8),
            (1, 9),
            (1, 10),
            (1, 17),
            (1, 18),
            (1, 21),
            (1, 23),
            (1, 24),
        ]
    );
    assert_eq!(
        columns("\"ab\" 'c' ++x\n\ty && 007 z"),
        vec![(1, 1), (1, 6), (1, 10), (1, 12), (2, 2), (2, 4), (2, 7), (2, 11)]
    );
}

#[test]
fn numbers() {
    assert_eq!(
        kinds("0 007 2147483647"),
        vec![
            TokenType::Number(0),
            TokenType::Number(7),
            TokenType::Number(2147483647),
        ]
    );
    assert_eq!(
        errors("1 2147483648 x"),
        vec![(1, 3, "number literal doesn't fit into an int".to_string())]
    );
    assert_eq!(
        errors("99999999999999999999999999 $"),
        vec![
            (1, 1, "number literal doesn't fit into an int".to_string()),
            (1, 28, "Unexpected character: $".to_string()),
        ]
    );
}

#[test]
fn strings_end_with_their_line() {
    assert_eq!(
        kinds("\"\" \"a//b\""),
        vec![
            TokenType::String("".to_string()),
            TokenType::String("a//b".to_string()),
        ]
    );
    assert_eq!(
        errors("\"ab\ncd\" $"),
        vec![
            (1, 1, "Unterminated string".to_string()),
            (2, 3, "Unterminated string".to_string()),
        ]
    );
}

#[test]
fn char_literals() {
    assert_eq!(
        kinds("'a' ' ' '\"'"),
        vec![
            TokenType::CharLit(97),
            TokenType::CharLit(32),
            TokenType::CharLit(34),
        ]
    );
    assert_eq!(
        errors("'a"),
        vec![(1, 1, "unterminated char literal".to_string())]
    );
    assert_eq!(
        errors("'ä'"),
        vec![(1, 1, "char literal must be valid ascii value".to_string())]
    );
}

#[test]
fn comment_ends_with_its_line() {
    assert_eq!(
        kinds("a // b c\n// d\ne / f //"),
        vec![
            TokenType::Ident("a".to_string()),
            TokenType::Ident("e".to_string()),
            TokenType::Slash,
            TokenType::Ident("f".to_string()),
        ]
    );
    assert_eq!(columns("a // b\n  c"), vec![(1, 1), (2, 3)]);
}

#[test]
fn tokens_cite_their_line() {
    let tokens = Scanner::new("a\r\nb c\n\nd").scan_token().unwrap();
    let lines: Vec<&str> = tokens.iter().map(|t| t.line_string.as_str()).collect();
    assert_eq!(lines, vec!["a\r", "b c", "b c", "d"]);
}

#[test]
fn positions_on_a_line_do_not_overlap() {
    let source = "int main() { char *s = \"héllo\"; return s[0] <<= 12 + 'a'; }\nlong äöü = 007;";
    let tokens = Scanner::new(source).scan_token().unwrap();
    for pair in tokens.windows(2) {
        if pair[0].line_index == pair[1].line_index {
            let width = match &pair[0].token {
                TokenType::String(s) => s.len() + 2,
                TokenType::CharLit(_) => 3,
                other => other.text().len(),
            };
            assert!(pair[0].column + width as i32 <= pair[1].column);
        } else {
            assert!(pair[0].line_index < pair[1].line_index);
        }
    }
}

#[test]
fn scanner_keeps_its_error() {
    let mut scanner = Scanner::new("$");
    assert!(scanner.scan_token().is_err());
    // nothing is left to scan, but the scanner has met an error
    assert_eq!(scanner.scan_token(), Err(vec![]));
}
