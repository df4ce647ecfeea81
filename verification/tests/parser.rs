use rucc::common::error::Error;
use rucc::common::expr::{Expr, ExprKind, ValueKind};
use rucc::common::stmt::Stmt;
use rucc::common::token::{Token, TokenKind, TokenType};
use rucc::common::types::Types;
use rucc::parser::Parser;
use rucc::scanner::Scanner;

fn token_default(token_type: TokenType) -> Token {
    Token::new(token_type, 1, 1, "".to_string())
}

fn tok_vec(token_types: Vec<TokenType>) -> Vec<Token> {
    let mut v: Vec<Token> = Vec::new();
    for token_type in token_types {
        v.push(token_default(token_type));
    }
    v
}

fn number(n: i32) -> Box<Expr> {
    Box::new(Expr::new(ExprKind::Number(n), ValueKind::Rvalue))
}

fn binary(left: Box<Expr>, token: TokenType, right: Box<Expr>) -> Box<Expr> {
    Box::new(Expr::new(
        ExprKind::Binary {
            left,
            token: token_default(token),
            right,
        },
        ValueKind::Rvalue,
    ))
}

fn grouping(expr: Box<Expr>) -> Box<Expr> {
    let value_kind = expr.value_kind;
    Box::new(Expr::new(ExprKind::Grouping { expr }, value_kind))
}

fn tokens_of(source: &str) -> Vec<Token> {
    match Scanner::new(source).scan_token() {
        Ok(tokens) => tokens,
        Err(errors) => panic!("scan errors: {:?}", errors),
    }
}

fn parse(source: &str) -> Result<Vec<Stmt>, Vec<Error>> {
    Parser::new(tokens_of(source)).parse()
}

fn expression(source: &str) -> Expr {
    Parser::new(tokens_of(source)).expression().unwrap()
}

#[test]
fn creates_ast_for_expression() {
    let tokens = tok_vec(vec![
        TokenType::Number(32),
        TokenType::Plus,
        TokenType::Number(1),
        TokenType::Star,
        TokenType::Number(2),
    ]);
    let mut p = Parser::new(tokens);

    let result = p.expression();
    let expected = binary(
        number(32),
        TokenType::Plus,
        binary(number(1), TokenType::Star, number(2)),
    );
    assert_eq!(result.unwrap(), *expected);
}
#[test]
fn matches_works_on_enums_with_values() {
    let tokens = vec![
        token_default(TokenType::Number(2)),
        token_default(TokenType::Plus),
    ];
    let mut p = Parser::new(tokens);

    let result = p.matches(vec![TokenKind::Number, TokenKind::String]);
    let expected = Some(token_default(TokenType::Number(2)));
    assert_eq!(result, expected);
}
#[test]
fn nested_groupings() {
    let tokens = tok_vec(vec![
        TokenType::LeftParen,
        TokenType::Number(3),
        TokenType::Slash,
        TokenType::LeftParen,
        TokenType::Number(6),
        TokenType::Minus,
        TokenType::Number(7),
        TokenType::RightParen,
        TokenType::Star,
        TokenType::Number(2),
        TokenType::RightParen,
        TokenType::Plus,
        TokenType::Number(1),
    ]);
    let mut p = Parser::new(tokens);

    let result = p.expression();
    let expected = binary(
        grouping(binary(
            binary(
                number(3),
                TokenType::Slash,
                grouping(binary(number(6), TokenType::Minus, number(7))),
            ),
            TokenType::Star,
            number(2),
        )),
        TokenType::Plus,
        number(1),
    );

    assert_eq!(result.unwrap(), *expected);
}

#[test]
fn matches_leaves_other_tokens() {
    let mut p = Parser::new(tok_vec(vec![TokenType::Plus, TokenType::Number(2)]));
    assert_eq!(p.matches(vec![TokenKind::Number, TokenKind::String]), None);
    assert_eq!(
        p.matches(vec![TokenKind::Plus]),
        Some(token_default(TokenType::Plus))
    );
    assert_eq!(
        p.matches(vec![TokenKind::Number]),
        Some(token_default(TokenType::Number(2)))
    );
    assert_eq!(p.matches(vec![TokenKind::Number]), None);
}

#[test]
fn empty_program_parses_to_nothing() {
    assert_eq!(parse(""), Ok(vec![]));
}

#[test]
fn assignment_is_right_associative() {
    let e = expression("a = b = 1");
    match e.kind {
        ExprKind::Assign { l_expr, r_expr, .. } => {
            assert!(matches!(l_expr.kind, ExprKind::Ident(_)));
            assert!(matches!(r_expr.kind, ExprKind::Assign { .. }));
        }
        other => panic!("unexpected expression: {:?}", other),
    }
}

#[test]
fn binary_operators_are_left_associative() {
    let e = expression("1 - 2 - 3");
    match e.kind {
        ExprKind::Binary { left, right, .. } => {
            assert!(matches!(left.kind, ExprKind::Binary { .. }));
            assert_eq!(right.kind, ExprKind::Number(3));
        }
        other => panic!("unexpected expression: {:?}", other),
    }
}

#[test]
fn precedence_runs_from_logical_or_to_multiplication() {
    // a || b && c | d ^ e & f == g < h << i + j * k
    let e = expression("a || b && c | d ^ e & f == g < h << i + j * k");
    let mut kinds = Vec::new();
    let mut current = e;
    loop {
        match current.kind {
            ExprKind::Logical { token, right, .. } | ExprKind::Binary { token, right, .. } => {
                kinds.push(token.kind());
                current = *right;
            }
            _ => break,
        }
    }
    assert_eq!(
        kinds,
        vec![
            TokenKind::PipePipe,
            TokenKind::AmpAmp,
            TokenKind::Pipe,
            TokenKind::Xor,
            TokenKind::Amp,
            TokenKind::EqualEqual,
            TokenKind::Less,
            TokenKind::LessLess,
            TokenKind::Plus,
            TokenKind::Star,
        ]
    );
}

#[test]
fn logical_operators_make_logical_nodes() {
    assert!(matches!(expression("a && b").kind, ExprKind::Logical { .. }));
    assert!(matches!(expression("a || b").kind, ExprKind::Logical { .. }));
    assert!(matches!(expression("a | b").kind, ExprKind::Binary { .. }));
}

#[test]
fn value_kinds_of_parsed_expressions() {
    assert_eq!(expression("1").value_kind, ValueKind::Rvalue);
    assert_eq!(expression("'a'").value_kind, ValueKind::Rvalue);
    assert_eq!(expression("\"a\"").value_kind, ValueKind::Lvalue);
    assert_eq!(expression("a").value_kind, ValueKind::Lvalue);
    assert_eq!(expression("(a)").value_kind, ValueKind::Lvalue);
    assert_eq!(expression("(1)").value_kind, ValueKind::Rvalue);
    assert_eq!(expression("*a").value_kind, ValueKind::Lvalue);
    assert_eq!(expression("&a").value_kind, ValueKind::Rvalue);
    assert_eq!(expression("-a").value_kind, ValueKind::Rvalue);
    assert_eq!(expression("a + 1").value_kind, ValueKind::Rvalue);
    assert_eq!(expression("a = 1").value_kind, ValueKind::Rvalue);
    assert_eq!(expression("a++").value_kind, ValueKind::Rvalue);
    assert_eq!(expression("f()").value_kind, ValueKind::Rvalue);
}

#[test]
fn prefix_increment_is_a_compound_assignment() {
    let e = expression("++x");
    match e.kind {
        ExprKind::CompoundAssign {
            l_expr,
            token,
            r_expr,
        } => {
            assert!(matches!(l_expr.kind, ExprKind::Ident(_)));
            assert_eq!(token.token, TokenType::PlusEqual);
            assert_eq!(token.column, 1);
            assert_eq!(r_expr.kind, ExprKind::Number(1));
        }
        other => panic!("unexpected expression: {:?}", other),
    }
    let e = expression("--x");
    match e.kind {
        ExprKind::CompoundAssign { token, .. } => assert_eq!(token.token, TokenType::MinusEqual),
        other => panic!("unexpected expression: {:?}", other),
    }
}

#[test]
fn postfix_increment_steps_by_one() {
    match expression("x++").kind {
        ExprKind::PostUnary {
            token, by_amount, ..
        } => {
            assert_eq!(token.token, TokenType::PlusPlus);
            assert_eq!(by_amount, 1);
        }
        other => panic!("unexpected expression: {:?}", other),
    }
}

#[test]
fn subscript_reads_as_dereferenced_sum() {
    match expression("s[2]").kind {
        ExprKind::Unary { token, right } => {
            assert_eq!(token.token, TokenType::Star);
            match right.kind {
                ExprKind::Grouping { expr } => match expr.kind {
                    ExprKind::Binary { left, token, right } => {
                        assert!(matches!(left.kind, ExprKind::Ident(_)));
                        assert_eq!(token.token, TokenType::Plus);
                        assert_eq!(right.kind, ExprKind::Number(2));
                    }
                    other => panic!("unexpected expression: {:?}", other),
                },
                other => panic!("unexpected expression: {:?}", other),
            }
        }
        other => panic!("unexpected expression: {:?}", other),
    }
}

#[test]
fn call_collects_its_arguments() {
    match expression("f(1, a, g())").kind {
        ExprKind::Call { callee, args, .. } => {
            assert!(matches!(callee.kind, ExprKind::Ident(_)));
            assert_eq!(args.len(), 3);
            assert_eq!(args[0].kind, ExprKind::Number(1));
            assert!(matches!(args[2].kind, ExprKind::Call { .. }));
        }
        other => panic!("unexpected expression: {:?}", other),
    }
}

#[test]
fn assignment_to_rvalue_is_a_parse_error() {
    let errors = parse("int main() { 1 = 2; }").unwrap_err();
    assert_eq!(errors.len(), 1);
    assert_eq!(errors[0].msg, "Expect Lvalue left of assignment");
    assert_eq!(errors[0].column, 16);
}

#[test]
fn missing_expression_is_reported_with_the_token() {
    let errors = parse("int a = ;").unwrap_err();
    assert_eq!(errors.len(), 1);
    assert_eq!(errors[0].msg, "Expected expression found: ;");
    assert_eq!(errors[0].column, 9);
}

#[test]
fn missing_expression_at_the_end_has_no_place() {
    let mut p = Parser::new(tokens_of("1 +"));
    let error = p.expression().unwrap_err();
    assert_eq!(error.msg, "Expected expression found end of file");
    assert_eq!(error.line_index, -1);
    assert_eq!(error.column, -1);
}

#[test]
fn declarations_of_variables() {
    let stmts = parse("int a; char *b = 0; long **c;").unwrap();
    assert_eq!(stmts.len(), 3);
    match &stmts[0] {
        Stmt::DeclareVar(t, name, is_global) => {
            assert_eq!(*t, Types::Int);
            assert_eq!(name.unwrap_string(), "a");
            assert!(!is_global);
        }
        other => panic!("unexpected statement: {:?}", other),
    }
    match &stmts[1] {
        Stmt::InitVar(t, name, e, _) => {
            assert_eq!(*t, Types::Pointer(Box::new(Types::Char)));
            assert_eq!(name.unwrap_string(), "b");
            assert_eq!(e.kind, ExprKind::Number(0));
        }
        other => panic!("unexpected statement: {:?}", other),
    }
    match &stmts[2] {
        Stmt::DeclareVar(t, _, _) => {
            assert_eq!(
                *t,
                Types::Pointer(Box::new(Types::Pointer(Box::new(Types::Long))))
            );
        }
        other => panic!("unexpected statement: {:?}", other),
    }
}

#[test]
fn array_declarator() {
    let stmts = parse("int a[3];").unwrap();
    match &stmts[0] {
        Stmt::DeclareVar(t, _, _) => assert_eq!(
            *t,
            Types::Array {
                of: Box::new(Types::Int),
                amount: 3
            }
        ),
        other => panic!("unexpected statement: {:?}", other),
    }
}

#[test]
fn array_of_no_elements_is_a_bad_declarator() {
    let errors = parse("int a[0];").unwrap_err();
    assert_eq!(errors[0].msg, "Can't initialize array with size <= 0");
    assert_eq!(errors[0].column, 7);
}

#[test]
fn initializer_list_assigns_element_by_element() {
    let stmts = parse("int a[2] = {7, 8};").unwrap();
    match &stmts[0] {
        Stmt::InitList(_, name, exprs, _) => {
            assert_eq!(name.unwrap_string(), "a");
            assert_eq!(exprs.len(), 2);
            match &exprs[1].kind {
                ExprKind::Assign {
                    l_expr,
                    token,
                    r_expr,
                } => {
                    assert_eq!(token.token, TokenType::Equal);
                    assert_eq!(r_expr.kind, ExprKind::Number(8));
                    assert_eq!(l_expr.value_kind, ValueKind::Lvalue);
                    match &l_expr.kind {
                        ExprKind::Unary { right, .. } => match &right.kind {
                            ExprKind::Grouping { expr } => match &expr.kind {
                                ExprKind::Binary { right, .. } => {
                                    assert_eq!(right.kind, ExprKind::Number(1))
                                }
                                other => panic!("unexpected expression: {:?}", other),
                            },
                            other => panic!("unexpected expression: {:?}", other),
                        },
                        other => panic!("unexpected expression: {:?}", other),
                    }
                }
                other => panic!("unexpected expression: {:?}", other),
            }
        }
        other => panic!("unexpected statement: {:?}", other),
    }
}

#[test]
fn function_declaration_and_definition() {
    let stmts = parse("int f(int a, char *b); void g() { return; }").unwrap();
    match &stmts[0] {
        Stmt::FunctionDeclaration(t, name, params) => {
            assert_eq!(*t, Types::Int);
            assert_eq!(name.unwrap_string(), "f");
            assert_eq!(params.len(), 2);
            assert_eq!(params[0].0, Types::Int);
            assert_eq!(params[1].0, Types::Pointer(Box::new(Types::Char)));
            assert_eq!(params[1].1.unwrap_string(), "b");
        }
        other => panic!("unexpected statement: {:?}", other),
    }
    match &stmts[1] {
        Stmt::Function(t, name, params, body) => {
            assert_eq!(*t, Types::Void);
            assert_eq!(name.unwrap_string(), "g");
            assert!(params.is_empty());
            assert_eq!(body.len(), 1);
            assert!(matches!(body[0], Stmt::Return(_, None)));
        }
        other => panic!("unexpected statement: {:?}", other),
    }
}

#[test]
fn if_with_and_without_else() {
    let stmts = parse("int main() { if (a) b; if (a) b; else c; }").unwrap();
    match &stmts[0] {
        Stmt::Function(_, _, _, body) => {
            assert!(matches!(body[0], Stmt::If(_, _, _, None)));
            assert!(matches!(body[1], Stmt::If(_, _, _, Some(_))));
        }
        other => panic!("unexpected statement: {:?}", other),
    }
}

#[test]
fn for_loop_becomes_a_block_around_a_while() {
    let stmts = parse("int main() { for (int i = 0; i < 3; i++) f(i); }").unwrap();
    let body = match &stmts[0] {
        Stmt::Function(_, _, _, body) => body,
        other => panic!("unexpected statement: {:?}", other),
    };
    match &body[0] {
        Stmt::Block(items) => {
            assert_eq!(items.len(), 2);
            assert!(matches!(items[0], Stmt::InitVar(..)));
            match &items[1] {
                Stmt::While(keyword, cond, inner) => {
                    assert_eq!(keyword.token, TokenType::For);
                    assert!(matches!(cond.kind, ExprKind::Binary { .. }));
                    match &**inner {
                        Stmt::Block(steps) => {
                            assert_eq!(steps.len(), 2);
                            assert!(matches!(steps[0], Stmt::Expr(_)));
                            match &steps[1] {
                                Stmt::Expr(e) => {
                                    assert!(matches!(e.kind, ExprKind::PostUnary { .. }))
                                }
                                other => panic!("unexpected statement: {:?}", other),
                            }
                        }
                        other => panic!("unexpected statement: {:?}", other),
                    }
                }
                other => panic!("unexpected statement: {:?}", other),
            }
        }
        other => panic!("unexpected statement: {:?}", other),
    }
}

#[test]
fn for_loop_without_pieces_loops_on_one() {
    let stmts = parse("int main() { for (;;) f(); }").unwrap();
    let body = match &stmts[0] {
        Stmt::Function(_, _, _, body) => body,
        other => panic!("unexpected statement: {:?}", other),
    };
    match &body[0] {
        Stmt::While(_, cond, inner) => {
            assert_eq!(cond.kind, ExprKind::Number(1));
            assert!(matches!(**inner, Stmt::Expr(_)));
        }
        other => panic!("unexpected statement: {:?}", other),
    }
}

#[test]
fn parser_goes_on_after_an_error() {
    // two bad declarations, each followed by a `;` and a type keyword
    let errors = parse("int a = ; int b = 1; int c = ; int main() { return 0; }").unwrap_err();
    assert_eq!(errors.len(), 2);
    assert_eq!(errors[0].column, 9);
    assert_eq!(errors[1].column, 30);
}

#[test]
fn statement_at_top_level_is_refused() {
    let errors = parse("return 1;").unwrap_err();
    assert_eq!(errors[0].msg, "Expected type-declaration or function");
    assert_eq!(errors[0].column, 1);
}

#[test]
fn unclosed_block_is_reported() {
    let errors = parse("int main() { return 0;").unwrap_err();
    assert_eq!(errors.len(), 1);
    assert_eq!(errors[0].msg, "Expect '}' after Block");
    assert_eq!(errors[0].line_index, -1);
}
