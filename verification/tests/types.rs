use rucc::common::error::Error;
use rucc::common::expr::{Expr, ExprKind, ValueKind};
use rucc::common::token::{Token, TokenKind, TokenType};
use rucc::common::types::Types;
use rucc::scanner::Scanner;

fn pointer(t: Types) -> Types {
    Types::Pointer(Box::new(t))
}

fn array(t: Types, amount: usize) -> Types {
    Types::Array {
        of: Box::new(t),
        amount,
    }
}

#[test]
fn type_keywords() {
    assert_eq!(
        Types::into_vec(),
        vec![
            TokenKind::Char,
            TokenKind::Int,
            TokenKind::Void,
            TokenKind::Long
        ]
    );
}

#[test]
fn sizes_of_types() {
    assert_eq!(Types::Void.size(), 0);
    assert_eq!(Types::Char.size(), 1);
    assert_eq!(Types::Int.size(), 4);
    assert_eq!(Types::Long.size(), 8);
    assert_eq!(pointer(Types::Char).size(), 8);
    assert_eq!(array(Types::Int, 5).size(), 20);
    assert_eq!(array(pointer(Types::Void), 3).size(), 24);
}

#[test]
fn alignment_of_types() {
    assert_eq!(Types::Int.alignment(), 4);
    assert_eq!(pointer(Types::Char).alignment(), 8);
    assert_eq!(array(Types::Int, 5).alignment(), 4);
}

#[test]
fn suffixes_and_registers() {
    assert_eq!(Types::Char.reg_suffix(), "b");
    assert_eq!(Types::Int.reg_suffix(), "d");
    assert_eq!(Types::Long.reg_suffix(), "");
    assert_eq!(pointer(Types::Int).reg_suffix(), "");
    assert_eq!(Types::Char.suffix(), "b");
    assert_eq!(Types::Int.suffix(), "l");
    assert_eq!(Types::Long.suffix(), "q");
    assert_eq!(pointer(Types::Int).suffix(), "q");
    assert_eq!(Types::Char.return_reg(), "%al");
    assert_eq!(Types::Int.return_reg(), "%eax");
    assert_eq!(Types::Long.return_reg(), "%rax");
    assert_eq!(pointer(Types::Int).return_reg(), "%rax");
}

#[test]
fn pointer_to_and_back() {
    let mut t = Types::Int;
    t.pointer_to();
    assert_eq!(t, pointer(Types::Int));
    t.pointer_to();
    assert_eq!(t, pointer(pointer(Types::Int)));
    assert_eq!(t.deref_at(), Some(pointer(Types::Int)));
    assert_eq!(Types::Int.deref_at(), None);
    assert_eq!(array(Types::Int, 2).deref_at(), None);
}

#[test]
fn compatible_types() {
    assert!(Types::Int.type_compatible(&Types::Int));
    assert!(Types::Char.type_compatible(&Types::Long));
    assert!(Types::Long.type_compatible(&Types::Char));
    assert!(Types::Void.type_compatible(&Types::Void));
    assert!(!Types::Void.type_compatible(&Types::Int));
    assert!(!Types::Int.type_compatible(&Types::Void));
    assert!(!Types::Long.type_compatible(&pointer(Types::Int)));
    assert!(!pointer(Types::Int).type_compatible(&Types::Long));
    assert!(pointer(Types::Int).type_compatible(&pointer(Types::Int)));
    assert!(pointer(Types::Int).type_compatible(&pointer(Types::Char)));
    assert!(!pointer(Types::Int).type_compatible(&pointer(Types::Void)));
    assert!(!pointer(Types::Int).type_compatible(&pointer(pointer(Types::Int))));
    assert!(array(Types::Int, 2).type_compatible(&array(Types::Int, 2)));
    assert!(!array(Types::Int, 2).type_compatible(&array(Types::Int, 3)));
    assert!(!array(Types::Int, 2).type_compatible(&pointer(Types::Int)));
}

#[test]
fn types_as_text() {
    assert_eq!(Types::Void.to_string(), "void");
    assert_eq!(Types::Char.to_string(), "char");
    assert_eq!(Types::Int.to_string(), "int");
    assert_eq!(Types::Long.to_string(), "long");
    assert_eq!(pointer(pointer(Types::Char)).to_string(), "char**");
    assert_eq!(array(Types::Int, 120).to_string(), "int[120]");
}

#[test]
fn tokens_as_text() {
    assert_eq!(TokenType::LessLessEqual.text(), "<<=");
    assert_eq!(TokenType::Return.text(), "return");
    assert_eq!(TokenType::Ident("abc".to_string()).text(), "abc");
    assert_eq!(TokenType::String("a b".to_string()).text(), "a b");
    assert_eq!(TokenType::Number(0).text(), "0");
    assert_eq!(TokenType::Number(2147483647).text(), "2147483647");
    assert_eq!(TokenType::Number(-2147483648).text(), "-2147483648");
    assert_eq!(TokenType::CharLit(97).text(), "97");
}

#[test]
fn compound_operators() {
    let at = |t: TokenType| Token::new(t, 3, 4, "line".to_string());
    assert_eq!(at(TokenType::PlusEqual).comp_to_binary(), TokenType::Plus);
    assert_eq!(at(TokenType::MinusEqual).comp_to_binary(), TokenType::Minus);
    assert_eq!(at(TokenType::StarEqual).comp_to_binary(), TokenType::Star);
    assert_eq!(at(TokenType::SlashEqual).comp_to_binary(), TokenType::Slash);
    assert_eq!(at(TokenType::ModEqual).comp_to_binary(), TokenType::Mod);
    assert_eq!(at(TokenType::AmpEqual).comp_to_binary(), TokenType::Amp);
    assert_eq!(at(TokenType::PipeEqual).comp_to_binary(), TokenType::Pipe);
    assert_eq!(at(TokenType::XorEqual).comp_to_binary(), TokenType::Xor);
    assert_eq!(
        at(TokenType::LessLessEqual).comp_to_binary(),
        TokenType::LessLess
    );
    assert_eq!(
        at(TokenType::GreaterGreaterEqual).comp_to_binary(),
        TokenType::GreaterGreater
    );
}

#[test]
fn token_payloads() {
    let t = Token::new(TokenType::Ident("x".to_string()), 1, 2, "l".to_string());
    assert_eq!(t.unwrap_string(), "x");
    assert_eq!(t.kind(), TokenKind::Ident);
    let t = Token::new(TokenType::Number(12), 1, 2, "l".to_string());
    assert_eq!(t.unwrap_num(), 12);
    assert_eq!(t.unwrap_string(), "");
}

#[test]
fn new_expression_has_no_type() {
    let e = Expr::new(ExprKind::Number(1), ValueKind::Rvalue);
    assert_eq!(e.kind, ExprKind::Number(1));
    assert_eq!(e.type_decl, None);
    assert_eq!(e.value_kind, ValueKind::Rvalue);
}

#[test]
fn error_at_a_token() {
    let t = Token::new(TokenType::Plus, 7, 3, "a + b".to_string());
    assert_eq!(
        Error::new(&t, "bad"),
        Error {
            line_index: 7,
            line_string: "a + b".to_string(),
            column: 3,
            msg: "bad".to_string(),
        }
    );
}

#[test]
fn error_where_the_scanner_stands() {
    let mut scanner = Scanner::new("ab\n  cd e");
    assert_eq!(
        Error::new_scan_error(&scanner, "first"),
        Error {
            line_index: 1,
            line_string: "ab".to_string(),
            column: 1,
            msg: "first".to_string(),
        }
    );
    scanner.scan_token().unwrap();
    assert_eq!(
        Error::new_scan_error(&scanner, "last"),
        Error {
            line_index: 2,
            line_string: "  cd e".to_string(),
            column: 7,
            msg: "last".to_string(),
        }
    );
}

#[test]
fn missing_entry_point() {
    assert_eq!(
        Error::missing_entrypoint(),
        Error {
            line_index: -1,
            line_string: "".to_string(),
            column: -1,
            msg: "Can't find main() entrypoint to program.".to_string(),
        }
    );
}

#[test]
fn error_is_shown_with_a_caret() {
    let e = Error {
        line_index: 12,
        line_string: "int c = 0$".to_string(),
        column: 10,
        msg: "Unexpected character: $".to_string(),
    };
    assert_eq!(
        e.render(),
        "Error: Unexpected character: $\n|\n12 int c = 0$\n|           ^\n"
    );
    assert_eq!(
        Error::missing_entrypoint().render(),
        "Error: Can't find main() entrypoint to program.\n"
    );
}
