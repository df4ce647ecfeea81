use rucc::common::error::Error;
use rucc::common::expr::{Expr, ExprKind, ValueKind};
use rucc::common::stmt::Stmt;
use rucc::common::token::{Token, TokenType};
use rucc::common::types::Types;
use rucc::parser::Parser;
use rucc::scanner::Scanner;
use rucc::typechecker::{align_by, create_label, log_2, TypeChecker};

fn program(source: &str) -> Vec<Stmt> {
    let tokens = Scanner::new(source).scan_token().unwrap();
    Parser::new(tokens).parse().unwrap()
}

/// Checks `source` and gives the annotated statements with the frame size of
/// `main` and the label of `literal`, or the diagnostics.
fn checked(source: &str, literal: &str) -> Result<(Vec<Stmt>, Option<usize>, Option<usize>), Vec<Error>> {
    let mut stmts = program(source);
    let mut checker = TypeChecker::new();
    let (size, label) = match checker.check(&mut stmts) {
        Ok((sizes, labels)) => (
            sizes.get(&"main".to_string()).copied(),
            labels.get(&literal.to_string()).copied(),
        ),
        Err(errors) => return Err(errors),
    };
    Ok((stmts, size, label))
}

fn messages(source: &str) -> Vec<String> {
    match checked(source, "") {
        Ok(_) => vec![],
        Err(errors) => errors.into_iter().map(|e| e.msg).collect(),
    }
}

fn body_of<'a>(stmts: &'a [Stmt], name: &str) -> Vec<&'a Stmt> {
    for s in stmts {
        if let Stmt::Function(_, n, _, body) = s {
            if n.unwrap_string() == name {
                return body.iter().collect();
            }
        }
    }
    panic!("no function {}", name)
}

fn returned(stmt: &Stmt) -> &Expr {
    match stmt {
        Stmt::Return(_, Some(e)) => e,
        other => panic!("unexpected statement: {:?}", other),
    }
}

fn int_pointer() -> Types {
    Types::Pointer(Box::new(Types::Int))
}

#[test]
fn alignes_stack1() {
    let offset = 12;
    let result = align_by(offset, 8);

    assert_eq!(result, 16);
}
#[test]
fn alignes_stack2() {
    let offset = 9;
    let result = align_by(offset, 4);

    assert_eq!(result, 12);
}
#[test]
fn alignes_stackpointer1() {
    let offset = 31;
    let result = align_by(offset, 16);

    assert_eq!(result, 32);
}
#[test]
fn alignes_stackpointer2() {
    let offset = 5;
    let result = align_by(offset, 16);

    assert_eq!(result, 16);
}

#[test]
fn aligned_offset_stays() {
    assert_eq!(align_by(0, 16), 0);
    assert_eq!(align_by(32, 16), 32);
    assert_eq!(align_by(7, 1), 7);
}

#[test]
fn labels_count_up() {
    let mut index = 0;
    assert_eq!(create_label(&mut index), 0);
    assert_eq!(create_label(&mut index), 1);
    assert_eq!(index, 2);
}

#[test]
fn logarithm_rounds_down() {
    assert_eq!(log_2(0), 0);
    assert_eq!(log_2(1), 0);
    assert_eq!(log_2(2), 1);
    assert_eq!(log_2(4), 2);
    assert_eq!(log_2(8), 3);
    assert_eq!(log_2(12), 3);
}

#[test]
fn empty_source_has_no_entry_point() {
    let tokens = Scanner::new("").scan_token().unwrap();
    assert!(tokens.is_empty());
    let mut stmts = Parser::new(tokens).parse().unwrap();
    assert!(stmts.is_empty());
    let mut checker = TypeChecker::new();
    let errors = match checker.check(&mut stmts) {
        Ok(_) => panic!("an empty program has no main"),
        Err(errors) => errors,
    };
    assert_eq!(errors, vec![Error::missing_entrypoint()]);
    assert_eq!(errors[0].msg, "Can't find main() entrypoint to program.");
    assert_eq!(errors[0].line_index, -1);
}

#[test]
fn literals_have_type_int() {
    let mut checker = TypeChecker::new();
    let mut e = Expr::new(
        ExprKind::Binary {
            left: Box::new(Expr::new(ExprKind::Number(2), ValueKind::Rvalue)),
            token: Token::new(TokenType::Plus, 1, 3, "2 + 3".to_string()),
            right: Box::new(Expr::new(ExprKind::Number(3), ValueKind::Rvalue)),
        },
        ValueKind::Rvalue,
    );
    assert_eq!(checker.expr_type(&mut e), Ok(Types::Int));
    assert_eq!(e.type_decl, Some(Types::Int));
    match e.kind {
        ExprKind::Binary { left, right, .. } => {
            assert_eq!(left.type_decl, Some(Types::Int));
            assert_eq!(right.type_decl, Some(Types::Int));
        }
        other => panic!("unexpected expression: {:?}", other),
    }
}

#[test]
fn char_literal_is_promoted_in_arithmetic() {
    let mut checker = TypeChecker::new();
    let mut e = Expr::new(
        ExprKind::Binary {
            left: Box::new(Expr::new(ExprKind::CharLit(97), ValueKind::Rvalue)),
            token: Token::new(TokenType::Plus, 1, 5, "'a' + 1".to_string()),
            right: Box::new(Expr::new(ExprKind::Number(1), ValueKind::Rvalue)),
        },
        ValueKind::Rvalue,
    );
    assert_eq!(checker.expr_type(&mut e), Ok(Types::Int));
    match e.kind {
        ExprKind::Binary { left, .. } => {
            assert_eq!(left.type_decl, Some(Types::Int));
            match left.kind {
                ExprKind::CastUp { expr } => {
                    assert_eq!(expr.kind, ExprKind::CharLit(97));
                    assert_eq!(expr.type_decl, Some(Types::Char));
                }
                other => panic!("unexpected expression: {:?}", other),
            }
        }
        other => panic!("unexpected expression: {:?}", other),
    }
}

#[test]
fn char_is_widened_when_assigned_to_int() {
    let (stmts, _, _) =
        checked("int main() { char c = 'a'; int i = c; return 0; }", "").unwrap();
    let body = body_of(&stmts, "main");
    match body[1] {
        Stmt::InitVar(t, _, e, is_global) => {
            assert_eq!(*t, Types::Int);
            assert!(!is_global);
            assert_eq!(e.type_decl, Some(Types::Int));
            match &e.kind {
                ExprKind::CastUp { expr } => {
                    assert!(matches!(expr.kind, ExprKind::Ident(_)));
                    assert_eq!(expr.type_decl, Some(Types::Char));
                }
                other => panic!("unexpected expression: {:?}", other),
            }
        }
        other => panic!("unexpected statement: {:?}", other),
    }
}

#[test]
fn long_is_narrowed_when_assigned_to_char() {
    let (stmts, _, _) = checked("int main() { long l = 1; char c = l; return 0; }", "").unwrap();
    let body = body_of(&stmts, "main");
    match body[0] {
        Stmt::InitVar(_, _, e, _) => assert!(matches!(e.kind, ExprKind::CastUp { .. })),
        other => panic!("unexpected statement: {:?}", other),
    }
    match body[1] {
        Stmt::InitVar(_, _, e, _) => {
            assert_eq!(e.type_decl, Some(Types::Char));
            assert!(matches!(e.kind, ExprKind::CastDown { .. }));
        }
        other => panic!("unexpected statement: {:?}", other),
    }
}

#[test]
fn integer_added_to_pointer_is_scaled() {
    let (stmts, _, _) = checked("int main() { int *p; p + 1; 1 + p; return 0; }", "").unwrap();
    let body = body_of(&stmts, "main");
    match body[1] {
        Stmt::Expr(e) => {
            assert_eq!(e.type_decl, Some(int_pointer()));
            match &e.kind {
                ExprKind::Binary { left, right, .. } => {
                    assert_eq!(left.type_decl, Some(int_pointer()));
                    assert_eq!(right.type_decl, Some(Types::Int));
                    match &right.kind {
                        ExprKind::ScaleUp { by, expr } => {
                            assert_eq!(*by, 4);
                            assert_eq!(expr.kind, ExprKind::Number(1));
                        }
                        other => panic!("unexpected expression: {:?}", other),
                    }
                }
                other => panic!("unexpected expression: {:?}", other),
            }
        }
        other => panic!("unexpected statement: {:?}", other),
    }
    match body[2] {
        Stmt::Expr(e) => match &e.kind {
            ExprKind::Binary { left, .. } => {
                assert!(matches!(left.kind, ExprKind::ScaleUp { by: 4, .. }))
            }
            other => panic!("unexpected expression: {:?}", other),
        },
        other => panic!("unexpected statement: {:?}", other),
    }
}

#[test]
fn integer_added_to_char_pointer_is_not_scaled() {
    let (stmts, _, _) = checked("int main() { char *p; p + 1; return 0; }", "").unwrap();
    match body_of(&stmts, "main")[1] {
        Stmt::Expr(e) => match &e.kind {
            ExprKind::Binary { right, .. } => assert_eq!(right.kind, ExprKind::Number(1)),
            other => panic!("unexpected expression: {:?}", other),
        },
        other => panic!("unexpected statement: {:?}", other),
    }
}

#[test]
fn pointer_difference_is_scaled_down() {
    let (stmts, _, _) =
        checked("int main() { int *p; int *q; p - q; return 0; }", "").unwrap();
    match body_of(&stmts, "main")[2] {
        Stmt::Expr(e) => {
            assert_eq!(e.type_decl, Some(Types::Long));
            match &e.kind {
                ExprKind::ScaleDown { shift_amount, expr } => {
                    assert_eq!(*shift_amount, 2);
                    assert_eq!(expr.type_decl, Some(Types::Long));
                    match &expr.kind {
                        ExprKind::Binary { left, token, right } => {
                            assert_eq!(token.token, TokenType::Minus);
                            assert_eq!(left.type_decl, Some(int_pointer()));
                            assert_eq!(right.type_decl, Some(int_pointer()));
                        }
                        other => panic!("unexpected expression: {:?}", other),
                    }
                }
                other => panic!("unexpected expression: {:?}", other),
            }
        }
        other => panic!("unexpected statement: {:?}", other),
    }
}

#[test]
fn pointer_comparison_is_not_scaled() {
    let (stmts, _, _) =
        checked("int main() { int *p; int *q; p == q; return 0; }", "").unwrap();
    match body_of(&stmts, "main")[2] {
        Stmt::Expr(e) => {
            assert_eq!(e.type_decl, Some(Types::Long));
            assert!(matches!(e.kind, ExprKind::Binary { .. }));
        }
        other => panic!("unexpected statement: {:?}", other),
    }
}

#[test]
fn main_that_returns_needs_no_frame() {
    let (stmts, size, _) = checked("int main() { return 0; }", "").unwrap();
    assert_eq!(size, Some(0));
    assert_eq!(body_of(&stmts, "main").len(), 1);
}

#[test]
fn one_int_takes_a_frame_of_sixteen_bytes() {
    let (stmts, size, _) = checked("int main() { int a = 2 + 3; return a; }", "").unwrap();
    assert_eq!(size, Some(16));
    let body = body_of(&stmts, "main");
    match body[0] {
        Stmt::InitVar(_, _, e, _) => {
            assert_eq!(e.type_decl, Some(Types::Int));
            match &e.kind {
                ExprKind::Binary { left, right, .. } => {
                    assert_eq!(left.type_decl, Some(Types::Int));
                    assert_eq!(right.type_decl, Some(Types::Int));
                }
                other => panic!("unexpected expression: {:?}", other),
            }
        }
        other => panic!("unexpected statement: {:?}", other),
    }
    assert_eq!(returned(body[1]).type_decl, Some(Types::Int));
}

#[test]
fn frame_grows_by_size_and_alignment() {
    // 1 (char), aligned to 4 and grown to 8 (int), aligned to 8 and grown
    // to 16 (long), grown to 17 (char), rounded up to 32
    let (_, size, _) =
        checked("int main() { char a; int b; long c; char d; return 0; }", "").unwrap();
    assert_eq!(size, Some(32));
    // parameters count too
    let (_, size, _) = checked("int f(long a, long b, char c) { return 0; } int main() { return 0; }", "").unwrap();
    assert_eq!(size, Some(0));
}

#[test]
fn declarations_with_other_parameter_counts_clash() {
    let errors = checked("int f(); int f(int x); int main() { return f(0); }", "").unwrap_err();
    assert_eq!(
        errors[0].msg,
        "Mismatched number of parameters in function-declarations: expected 0, found 1"
    );
    assert_eq!(errors[0].column, 14);
}

#[test]
fn dereferenced_pointer_is_an_int() {
    let (stmts, size, _) = checked("int main() { int *p; return *p + 1; }", "").unwrap();
    assert_eq!(size, Some(16));
    let e = returned(body_of(&stmts, "main")[1]);
    assert_eq!(e.type_decl, Some(Types::Int));
    match &e.kind {
        ExprKind::Binary { left, right, .. } => {
            assert_eq!(left.type_decl, Some(Types::Int));
            assert_eq!(left.value_kind, ValueKind::Rvalue);
            assert_eq!(right.kind, ExprKind::Number(1));
        }
        other => panic!("unexpected expression: {:?}", other),
    }
}

#[test]
fn string_initializes_char_array() {
    let (stmts, size, label) =
        checked("int main() { char s[6] = \"hello\"; return s[0]; }", "hello").unwrap();
    assert_eq!(label, Some(0));
    assert_eq!(size, Some(16));
    let body = body_of(&stmts, "main");
    let chars = Types::Array {
        of: Box::new(Types::Char),
        amount: 6,
    };
    match body[0] {
        Stmt::InitVar(t, _, e, _) => {
            assert_eq!(*t, chars);
            assert!(matches!(e.kind, ExprKind::String(_)));
            assert_eq!(e.type_decl, Some(chars.clone()));
        }
        other => panic!("unexpected statement: {:?}", other),
    }
    // `s[0]` is `*(s + 0)`: a char, which is widened to the int that main
    // returns
    let e = returned(body[1]);
    assert_eq!(e.type_decl, Some(Types::Int));
    let inner = match &e.kind {
        ExprKind::CastUp { expr } => expr,
        other => panic!("unexpected expression: {:?}", other),
    };
    assert_eq!(inner.type_decl, Some(Types::Char));
    let sum = match &inner.kind {
        ExprKind::Unary { right, .. } => match &right.kind {
            ExprKind::Grouping { expr } => expr,
            other => panic!("unexpected expression: {:?}", other),
        },
        other => panic!("unexpected expression: {:?}", other),
    };
    let pointer = Types::Pointer(Box::new(Types::Char));
    assert_eq!(sum.type_decl, Some(pointer.clone()));
    match &sum.kind {
        ExprKind::Binary { left, right, .. } => {
            assert_eq!(left.type_decl, Some(pointer));
            assert_eq!(left.value_kind, ValueKind::Rvalue);
            assert_eq!(right.kind, ExprKind::Number(0));
        }
        other => panic!("unexpected expression: {:?}", other),
    }
}

#[test]
fn equal_strings_share_a_label() {
    let source = "int main() { char *a = \"x\"; char *b = \"y\"; char *c = \"x\"; return 0; }";
    assert_eq!(checked(source, "x").unwrap().2, Some(0));
    assert_eq!(checked(source, "y").unwrap().2, Some(1));
    assert_eq!(checked(source, "z").unwrap().2, None);
}

#[test]
fn main_must_return_int() {
    assert_eq!(
        messages("void main() { }"),
        vec!["expected 'main()' return type 'int', found: 'void'"]
    );
}

#[test]
fn main_gets_a_closing_return() {
    let (stmts, _, _) = checked("int main() { int a; }", "").unwrap();
    let body = body_of(&stmts, "main");
    assert_eq!(body.len(), 2);
    let e = returned(body[1]);
    assert_eq!(e.kind, ExprKind::Number(0));
    assert_eq!(e.type_decl, Some(Types::Int));
}

#[test]
fn returns_on_all_paths() {
    assert_eq!(
        messages("int f(int a) { if (a) return 1; } int main() { return 0; }"),
        vec!["non-void function doesnt return in all code paths"]
    );
    assert!(messages("int f(int a) { if (a) return 1; else return 2; } int main() { return 0; }").is_empty());
    assert_eq!(
        messages("int f(int a) { while (a) return 1; } int main() { return 0; }"),
        vec!["non-void function doesnt return in all code paths"]
    );
    assert!(messages("void f(int a) { } int main() { return 0; }").is_empty());
}

#[test]
fn every_top_level_statement_reports_its_first_error() {
    assert_eq!(
        messages("int a = b; int main() { return c; } int d = e;"),
        vec![
            "undeclared identifier",
            "undeclared identifier",
            "undeclared identifier"
        ]
    );
}

#[test]
fn diagnostics_of_declarations() {
    assert_eq!(
        messages("int a; int a; int main() { return 0; }"),
        vec!["Redefinition of variable 'a'"]
    );
    assert_eq!(
        messages("void a; int main() { return 0; }"),
        vec!["Can't assign to 'void' a"]
    );
    assert_eq!(
        messages("int a; int b = a; int main() { return 0; }"),
        vec!["Global variables can only be initialized to compile-time constants"]
    );
    assert_eq!(
        messages("int a[2] = {1, f()}; int main() { return 0; }"),
        vec!["Global variables can only be initialized to compile-time constants"]
    );
    assert_eq!(
        messages("int main() { int f() { return 1; } return 0; }"),
        vec!["Can only define functions in global scope"]
    );
    assert_eq!(
        messages("int f() { return 1; } int f() { return 2; } int main() { return 0; }"),
        vec!["Redefinition of function 'f'"]
    );
    assert_eq!(
        messages("int f(); long f(); int main() { return 0; }"),
        vec!["Conflicting return-types in function-declarations: expected int, found long"]
    );
    assert_eq!(
        messages("int f(int a); int f(char *a) { return 0; } int main() { return 0; }"),
        vec!["Mismatched parameter-types in function-declarations: expected 'int', found 'char*'"]
    );
    assert_eq!(
        messages("int a = 1;"),
        vec!["Can't find main() entrypoint to program."]
    );
}

#[test]
fn diagnostics_of_statements() {
    assert_eq!(
        messages("void f() { } int main() { if (f()) return 1; return 0; }"),
        vec!["Expected expression inside of condition, found 'void'"]
    );
    assert_eq!(
        messages("void f() { } int main() { while (f()) return 1; return 0; }"),
        vec!["conditional expected scalar type found 'void'"]
    );
    assert_eq!(
        messages("int main() { int *p; return p; }"),
        vec!["Mismatched function return type: 'int', found: 'int*'"]
    );
    assert_eq!(
        messages("void f() { return 1; } int main() { return 0; }"),
        vec!["Mismatched function return type: 'void', found: 'int'"]
    );
}

#[test]
fn diagnostics_of_expressions() {
    let in_main = |body: &str| messages(&format!("void v() {{ }} int g(int a) {{ return a; }} int main() {{ {} return 0; }}", body));
    assert_eq!(in_main("x;"), vec!["undeclared identifier"]);
    assert_eq!(
        in_main("int a[2]; int b[2]; a = b;"),
        vec!["array int[2] is not assignable"]
    );
    assert_eq!(
        in_main("int a; int *p; a = p;"),
        vec!["Can't assign to type 'int' with type 'int*'"]
    );
    assert_eq!(
        in_main("int *p; int *q; p + q;"),
        vec!["invalid binary expression: 'int*' + 'int*'"]
    );
    assert_eq!(
        in_main("int *p; 1 - p;"),
        vec!["invalid binary expression: 'int' - 'int*'"]
    );
    assert_eq!(
        in_main("int a; a + v();"),
        vec!["invalid binary expression: 'int' + 'void'"]
    );
    assert_eq!(
        in_main("int a; a && v();"),
        vec!["invalid logical expression: 'int' && 'void'"]
    );
    assert_eq!(
        in_main("int *p; -p;"),
        vec!["Invalid unary-expression '-' with type 'int*'"]
    );
    assert_eq!(in_main("&1;"), vec!["can't call '&' on r-value"]);
    assert_eq!(
        in_main("int a; *a;"),
        vec!["can't dereference value-type 'int', expected type 'pointer'"]
    );
    assert_eq!(in_main("int a[2]; a++;"), vec!["Can't increment array-type"]);
    assert_eq!(in_main("1++;"), vec!["Can't increment Rvalues"]);
    assert_eq!(in_main("(g)(1);"), vec!["function-name has to be identifier"]);
    assert_eq!(in_main("h(1);"), vec!["no function h exists"]);
    assert_eq!(
        in_main("g(1, 2);"),
        vec!["at 'g': expected 1 argument(s) found 2"]
    );
    assert_eq!(
        in_main("int *p; g(p);"),
        vec!["Can't assign to type 'int' with type 'int*'"]
    );
}

#[test]
fn assignment_needs_a_storage_location() {
    let at = |t: TokenType| Token::new(t, 1, 1, "1 = 2".to_string());
    let mut e = Expr::new(
        ExprKind::Assign {
            l_expr: Box::new(Expr::new(ExprKind::Number(1), ValueKind::Rvalue)),
            token: at(TokenType::Equal),
            r_expr: Box::new(Expr::new(ExprKind::Number(2), ValueKind::Rvalue)),
        },
        ValueKind::Rvalue,
    );
    let error = TypeChecker::new().expr_type(&mut e).unwrap_err();
    assert_eq!(error.msg, "Expect Lvalue left of assignment");
    let mut e = Expr::new(
        ExprKind::CompoundAssign {
            l_expr: Box::new(Expr::new(ExprKind::Number(1), ValueKind::Rvalue)),
            token: at(TokenType::Plus),
            r_expr: Box::new(Expr::new(ExprKind::Number(2), ValueKind::Rvalue)),
        },
        ValueKind::Rvalue,
    );
    let error = TypeChecker::new().expr_type(&mut e).unwrap_err();
    assert_eq!(error.msg, "invalid operator '+'");
    let mut e = Expr::new(
        ExprKind::Unary {
            token: at(TokenType::Plus),
            right: Box::new(Expr::new(ExprKind::Number(2), ValueKind::Rvalue)),
        },
        ValueKind::Rvalue,
    );
    let error = TypeChecker::new().expr_type(&mut e).unwrap_err();
    assert_eq!(error.msg, "invalid operator '+'");
}

#[test]
fn return_outside_of_a_function() {
    let mut stmts = vec![Stmt::Return(
        Token::new(TokenType::Return, 1, 1, "return;".to_string()),
        None,
    )];
    let mut checker = TypeChecker::new();
    let errors = match checker.check(&mut stmts) {
        Ok(_) => panic!("return stands outside of a function"),
        Err(errors) => errors,
    };
    assert_eq!(
        errors[0].msg,
        "can only define return statements inside a function"
    );
}

#[test]
fn checked_tree_is_refused_when_checked_again() {
    let mut stmts = program("int main() { char c = 'a'; int i = c; return 0; }");
    assert!(TypeChecker::new().check(&mut stmts).is_ok());
    let errors = match TypeChecker::new().check(&mut stmts) {
        Ok(_) => panic!("the tree holds a cast"),
        Err(errors) => errors,
    };
    assert_eq!(errors[0].msg, "expression has been checked already");
    assert_eq!(errors[0].line_index, -1);
}

#[test]
fn statements_without_expressions_stay_when_checked_again() {
    // a program without any expression: checked twice, it stays as it is
    let mut stmts = program("int a; char *f(int a); void g() { int b; { char c; } return; }");
    let missing = match TypeChecker::new().check(&mut stmts) {
        Ok(_) => panic!("the program has no main"),
        Err(errors) => errors,
    };
    assert_eq!(missing, vec![Error::missing_entrypoint()]);
    let checked = format!("{:?}", stmts);
    assert!(TypeChecker::new().check(&mut stmts).is_err());
    assert_eq!(format!("{:?}", stmts), checked);
}

#[test]
fn cast_in_the_tree_is_refused() {
    let mut e = Expr::new(
        ExprKind::CastUp {
            expr: Box::new(Expr::new(ExprKind::Number(1), ValueKind::Rvalue)),
        },
        ValueKind::Rvalue,
    );
    let error = TypeChecker::new().expr_type(&mut e).unwrap_err();
    assert_eq!(
        error.msg,
        "expression holds a node that only the type checker inserts"
    );
    let mut e = Expr::new(
        ExprKind::ScaleDown {
            shift_amount: 2,
            expr: Box::new(Expr::new(ExprKind::Number(1), ValueKind::Rvalue)),
        },
        ValueKind::Rvalue,
    );
    assert!(TypeChecker::new().expr_type(&mut e).is_err());
}

#[test]
fn frames_are_multiples_of_sixteen() {
    let source = "int f(char a) { long b; char c; return 0; } void g(long a, long b, long c) { } int main() { int x; return 0; }";
    let mut stmts = program(source);
    let mut checker = TypeChecker::new();
    let (sizes, _) = checker.check(&mut stmts).unwrap();
    for name in ["f", "g", "main"] {
        let size = *sizes.get(&name.to_string()).unwrap();
        assert_eq!(size % 16, 0);
    }
    assert_eq!(sizes.get(&"f".to_string()), Some(&32));
    assert_eq!(sizes.get(&"g".to_string()), Some(&32));
    assert_eq!(sizes.get(&"main".to_string()), Some(&16));
    assert_eq!(sizes.get(&"h".to_string()), None);
}

#[test]
fn checked_main_ends_with_a_return() {
    for source in [
        "int main() { }",
        "int main() { int a = 1; }",
        "int main() { return 1; }",
        "int main() { if (1) return 1; }",
    ] {
        let (stmts, _, _) = checked(source, "").unwrap();
        match &stmts[0] {
            Stmt::Function(t, name, _, body) => {
                assert_eq!(*t, Types::Int);
                assert_eq!(name.unwrap_string(), "main");
                assert!(matches!(body.last(), Some(Stmt::Return(_, Some(_)))));
            }
            other => panic!("unexpected statement: {:?}", other),
        }
    }
    // a main that returns in both branches of an `if` is left as it is
    let (stmts, _, _) = checked("int main() { if (1) return 1; else return 2; }", "").unwrap();
    assert!(matches!(body_of(&stmts, "main").last(), Some(Stmt::If(..))));
}

fn every_node_has_a_type(e: &Expr) -> bool {
    let inner = match &e.kind {
        ExprKind::Binary { left, right, .. } | ExprKind::Logical { left, right, .. } => {
            every_node_has_a_type(left) && every_node_has_a_type(right)
        }
        ExprKind::Assign { l_expr, r_expr, .. } | ExprKind::CompoundAssign { l_expr, r_expr, .. } => {
            every_node_has_a_type(l_expr) && every_node_has_a_type(r_expr)
        }
        ExprKind::Unary { right, .. } => every_node_has_a_type(right),
        ExprKind::Grouping { expr }
        | ExprKind::CastUp { expr }
        | ExprKind::CastDown { expr }
        | ExprKind::ScaleUp { expr, .. }
        | ExprKind::ScaleDown { expr, .. } => every_node_has_a_type(expr),
        ExprKind::PostUnary { left, .. } => every_node_has_a_type(left),
        ExprKind::Call { callee, args, .. } => {
            every_node_has_a_type(callee) && args.iter().all(every_node_has_a_type)
        }
        _ => true,
    };
    e.type_decl.is_some() && inner
}

fn every_expression_has_a_type(s: &Stmt) -> bool {
    match s {
        Stmt::InitVar(_, _, e, _) | Stmt::Expr(e) => every_node_has_a_type(e),
        Stmt::InitList(_, _, exprs, _) => exprs.iter().all(every_node_has_a_type),
        Stmt::Function(_, _, _, body) | Stmt::Block(body) => {
            body.iter().all(every_expression_has_a_type)
        }
        Stmt::Return(_, Some(e)) => every_node_has_a_type(e),
        Stmt::If(_, cond, then_branch, else_branch) => {
            every_node_has_a_type(cond)
                && every_expression_has_a_type(then_branch)
                && else_branch
                    .as_ref()
                    .map_or(true, |s| every_expression_has_a_type(s))
        }
        Stmt::While(_, cond, body) => every_node_has_a_type(cond) && every_expression_has_a_type(body),
        _ => true,
    }
}

#[test]
fn every_checked_expression_has_a_type() {
    let source = "long g(char c, int *p) { return *p + c; }
        int a[3] = {1, 2, 3};
        char *s = \"text\";
        int main() {
            int i;
            int *p = &i;
            long d = p - &a[1];
            for (i = 0; i < 3; i++) { a[i] += g('x', p + i) << 2; }
            while (i-- && !d || ~i) d -= 1;
            if (s[0] == 't') return -d; else return (i = 2) % 7;
        }";
    let (stmts, _, _) = checked(source, "").unwrap();
    assert!(stmts.iter().all(every_expression_has_a_type));
}

#[test]
fn postfix_step_of_a_pointer_is_the_element_size() {
    let (stmts, _, _) = checked("int main() { long *p; int i; p++; i--; return 0; }", "").unwrap();
    let body = body_of(&stmts, "main");
    match body[2] {
        Stmt::Expr(e) => assert!(matches!(e.kind, ExprKind::PostUnary { by_amount: 8, .. })),
        other => panic!("unexpected statement: {:?}", other),
    }
    match body[3] {
        Stmt::Expr(e) => assert!(matches!(e.kind, ExprKind::PostUnary { by_amount: 1, .. })),
        other => panic!("unexpected statement: {:?}", other),
    }
}

#[test]
fn compound_assignment_scales_the_right_side() {
    let (stmts, _, _) = checked("int main() { int *p; p += 2; return 0; }", "").unwrap();
    match body_of(&stmts, "main")[1] {
        Stmt::Expr(e) => {
            assert_eq!(e.type_decl, Some(int_pointer()));
            match &e.kind {
                ExprKind::CompoundAssign { l_expr, r_expr, .. } => {
                    assert_eq!(l_expr.type_decl, Some(int_pointer()));
                    assert!(matches!(r_expr.kind, ExprKind::ScaleUp { by: 4, .. }));
                }
                other => panic!("unexpected expression: {:?}", other),
            }
        }
        other => panic!("unexpected statement: {:?}", other),
    }
}

#[test]
fn globals_are_marked() {
    let (stmts, _, _) = checked("int a; int b = 1; int main() { int c; return 0; }", "").unwrap();
    assert!(matches!(stmts[0], Stmt::DeclareVar(_, _, true)));
    assert!(matches!(stmts[1], Stmt::InitVar(_, _, _, true)));
    assert!(matches!(body_of(&stmts, "main")[0], Stmt::DeclareVar(_, _, false)));
}

#[test]
fn call_has_the_type_that_the_function_returns() {
    let (stmts, _, _) = checked("long f(char a) { return a; } int main() { return f('a'); }", "").unwrap();
    let e = returned(body_of(&stmts, "main")[0]);
    assert_eq!(e.type_decl, Some(Types::Int));
    match &e.kind {
        ExprKind::CastDown { expr } => {
            assert_eq!(expr.type_decl, Some(Types::Long));
            match &expr.kind {
                ExprKind::Call { callee, args, .. } => {
                    assert_eq!(callee.type_decl, Some(Types::Long));
                    assert!(matches!(args[0].kind, ExprKind::CastUp { .. }));
                }
                other => panic!("unexpected expression: {:?}", other),
            }
        }
        other => panic!("unexpected expression: {:?}", other),
    }
}
