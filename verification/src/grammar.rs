//! The grammar of the language, stated as what the parser makes of a
//! sequence of tokens from a given place on.
use crate::common::error::ErrorView;
use crate::common::expr::{ExprKindView, ExprView, ValueKind};
use crate::common::stmt::StmtView;
use crate::common::token::{binary_of_compound, TokenKind, TokenView};
use crate::common::types::Types;
use vstd::prelude::*;

verus! {

/// What the parser makes of the tokens from one place on: a piece of
/// syntax or a diagnostic, and the place where it stops.
pub struct Parsed<T> {
    pub result: Result<T, ErrorView>,
    pub next: nat,
}

pub open spec fn done<T>(value: T, next: nat) -> Parsed<T> {
    Parsed { result: Ok(value), next }
}

pub open spec fn failed<T>(error: ErrorView, next: nat) -> Parsed<T> {
    Parsed { result: Err(error), next }
}

/// The result of a step that the grammar never takes: every piece of
/// syntax ends behind the place where it starts.
pub open spec fn stuck<T>(next: nat) -> Parsed<T> {
    failed(ErrorView::nowhere("parser made no progress"@), next)
}

/// Number of tokens from place `pos` on.
pub open spec fn left(tokens: Seq<TokenView>, pos: nat) -> nat {
    if pos < tokens.len() {
        (tokens.len() - pos) as nat
    } else {
        0
    }
}

/// The kind of the token at place `pos`, if there is one.
pub open spec fn kind_at(tokens: Seq<TokenView>, pos: nat) -> Option<TokenKind> {
    if pos < tokens.len() {
        Some(tokens[pos as int].token.kind)
    } else {
        None
    }
}

pub open spec fn is_at(tokens: Seq<TokenView>, pos: nat, kind: TokenKind) -> bool {
    kind_at(tokens, pos) == Some(kind)
}

/// Takes the token at `pos`, which must be of kind `kind`. A token of
/// another kind is taken too, and gives the diagnostic `msg`.
pub open spec fn expect(tokens: Seq<TokenView>, pos: nat, kind: TokenKind, msg: Seq<char>) -> Parsed<
    TokenView,
> {
    if pos < tokens.len() {
        if tokens[pos as int].token.kind == kind {
            done(tokens[pos as int], pos + 1)
        } else {
            failed(ErrorView::at(tokens[pos as int], msg), pos + 1)
        }
    } else {
        failed(ErrorView::nowhere(msg), pos)
    }
}

pub open spec fn node(kind: ExprKindView, value_kind: ValueKind) -> ExprView {
    ExprView { kind, type_decl: None, value_kind }
}

pub open spec fn number(n: int) -> ExprView {
    node(ExprKindView::Number(n as i32), ValueKind::Rvalue)
}

/// Number of levels of binary operators; level 0 binds loosest.
pub open spec fn unary_level() -> nat {
    10
}

/// How loosely the operators of level `level` bind.
pub open spec fn rank(level: nat) -> nat {
    if level < 10 {
        (50 - level) as nat
    } else {
        40
    }
}

/// Whether `kind` is a binary operator of precedence level `level`.
pub open spec fn is_operator(level: nat, kind: TokenKind) -> bool {
    if level == 0 {
        kind == TokenKind::PipePipe
    } else if level == 1 {
        kind == TokenKind::AmpAmp
    } else if level == 2 {
        kind == TokenKind::Pipe
    } else if level == 3 {
        kind == TokenKind::Xor
    } else if level == 4 {
        kind == TokenKind::Amp
    } else if level == 5 {
        kind == TokenKind::EqualEqual || kind == TokenKind::BangEqual
    } else if level == 6 {
        kind == TokenKind::Greater || kind == TokenKind::GreaterEqual || kind == TokenKind::Less
            || kind == TokenKind::LessEqual
    } else if level == 7 {
        kind == TokenKind::LessLess || kind == TokenKind::GreaterGreater
    } else if level == 8 {
        kind == TokenKind::Minus || kind == TokenKind::Plus
    } else if level == 9 {
        kind == TokenKind::Slash || kind == TokenKind::Star || kind == TokenKind::Mod
    } else {
        false
    }
}

/// The node of a binary operator of level `level`: `&&` and `||` are
/// logical, the others binary.
pub open spec fn operation(level: nat, left: ExprView, token: TokenView, right: ExprView) -> ExprView {
    if level < 2 {
        node(
            ExprKindView::Logical { left: Box::new(left), token, right: Box::new(right) },
            ValueKind::Rvalue,
        )
    } else {
        node(
            ExprKindView::Binary { left: Box::new(left), token, right: Box::new(right) },
            ValueKind::Rvalue,
        )
    }
}

pub open spec fn is_prefix_operator(kind: TokenKind) -> bool {
    kind == TokenKind::Bang || kind == TokenKind::Minus || kind == TokenKind::Tilde || kind
        == TokenKind::Star || kind == TokenKind::Amp
}

pub open spec fn is_assignment_operator(kind: TokenKind) -> bool {
    kind == TokenKind::Equal || binary_of_compound(kind) is Some
}

/// `operand[index]`, which reads as `*(operand + index)`.
pub open spec fn subscript(operand: ExprView, bracket: TokenView, index: ExprView) -> ExprView {
    node(
        ExprKindView::Unary {
            token: bracket.with_kind(TokenKind::Star),
            right: Box::new(
                node(
                    ExprKindView::Grouping {
                        expr: Box::new(
                            node(
                                ExprKindView::Binary {
                                    left: Box::new(operand),
                                    token: bracket.with_kind(TokenKind::Plus),
                                    right: Box::new(index),
                                },
                                ValueKind::Rvalue,
                            ),
                        ),
                    },
                    ValueKind::Rvalue,
                ),
            ),
        },
        ValueKind::Lvalue,
    )
}

/// `++operand` or `--operand`, which reads as `operand += 1` or
/// `operand -= 1`.
pub open spec fn prefix_step(token: TokenView, operand: ExprView) -> ExprView {
    node(
        ExprKindView::CompoundAssign {
            l_expr: Box::new(operand),
            token: token.with_kind(
                if token.token.kind == TokenKind::PlusPlus {
                    TokenKind::PlusEqual
                } else {
                    TokenKind::MinusEqual
                },
            ),
            r_expr: Box::new(number(1)),
        },
        ValueKind::Rvalue,
    )
}

pub open spec fn prefix_operation(token: TokenView, operand: ExprView) -> ExprView {
    node(
        ExprKindView::Unary { token, right: Box::new(operand) },
        if token.token.kind == TokenKind::Star {
            ValueKind::Lvalue
        } else {
            ValueKind::Rvalue
        },
    )
}

/// The assignment of `value` to `target` by operator `token`; what is no
/// storage location cannot be assigned to.
pub open spec fn assignment(target: ExprView, token: TokenView, value: ExprView) -> Result<
    ExprView,
    ErrorView,
> {
    if target.value_kind != ValueKind::Lvalue {
        Err(ErrorView::at(token, "Expect Lvalue left of assignment"@))
    } else if token.token.kind == TokenKind::Equal {
        Ok(
            node(
                ExprKindView::Assign {
                    l_expr: Box::new(target),
                    token,
                    r_expr: Box::new(value),
                },
                ValueKind::Rvalue,
            ),
        )
    } else {
        Ok(
            node(
                ExprKindView::CompoundAssign {
                    l_expr: Box::new(target),
                    token,
                    r_expr: Box::new(value),
                },
                ValueKind::Rvalue,
            ),
        )
    }
}

/// An expression: an assignment.
#[verifier::opaque]
pub open spec fn parse_expression(tokens: Seq<TokenView>, pos: nat) -> Parsed<ExprView>
    decreases left(tokens, pos), 100nat, 0nat,
{
    parse_assignment(tokens, pos)
}

/// An assignment: what stands left of the operator binds tighter, what
/// stands right of it is an assignment again.
#[verifier::opaque]
pub open spec fn parse_assignment(tokens: Seq<TokenView>, pos: nat) -> Parsed<ExprView>
    decreases left(tokens, pos), 99nat, 0nat,
{
    let l = parse_binary(tokens, pos, 0);
    match l.result {
        Err(e) => l,
        Ok(target) => if l.next < tokens.len() && is_assignment_operator(
            tokens[l.next as int].token.kind,
        ) {
            if l.next < pos {
                stuck(l.next)
            } else {
                let r = parse_assignment(tokens, l.next + 1);
                match r.result {
                    Err(e) => r,
                    Ok(value) => Parsed {
                        result: assignment(target, tokens[l.next as int], value),
                        next: r.next,
                    },
                }
            }
        } else {
            l
        },
    }
}

/// An operand of the binary operators of level `level`, followed by any
/// number of such operators with their right operands; the operators
/// associate to the left.
#[verifier::opaque]
pub open spec fn parse_binary(tokens: Seq<TokenView>, pos: nat, level: nat) -> Parsed<ExprView>
    decreases left(tokens, pos), rank(level), 1nat,
{
    if level >= unary_level() {
        parse_unary(tokens, pos)
    } else {
        let l = parse_binary(tokens, pos, level + 1);
        match l.result {
            Err(e) => l,
            Ok(first) => if l.next < pos {
                stuck(l.next)
            } else {
                parse_binary_rest(tokens, l.next, level, first)
            },
        }
    }
}

/// The operators of level `level` that follow the operand `first`, with
/// their right operands.
#[verifier::opaque]
pub open spec fn parse_binary_rest(
    tokens: Seq<TokenView>,
    pos: nat,
    level: nat,
    first: ExprView,
) -> Parsed<ExprView>
    decreases left(tokens, pos), rank(level), 0nat,
{
    if level < unary_level() && pos < tokens.len() && is_operator(
        level,
        tokens[pos as int].token.kind,
    ) {
        let r = parse_binary(tokens, pos + 1, level + 1);
        match r.result {
            Err(e) => r,
            Ok(second) => if r.next <= pos {
                stuck(r.next)
            } else {
                parse_binary_rest(
                    tokens,
                    r.next,
                    level,
                    operation(level, first, tokens[pos as int], second),
                )
            },
        }
    } else {
        done(first, pos)
    }
}

/// A prefix operator with its operand, or a postfix expression.
#[verifier::opaque]
pub open spec fn parse_unary(tokens: Seq<TokenView>, pos: nat) -> Parsed<ExprView>
    decreases left(tokens, pos), 20nat, 0nat,
{
    if pos < tokens.len() && is_prefix_operator(tokens[pos as int].token.kind) {
        let r = parse_unary(tokens, pos + 1);
        match r.result {
            Err(e) => r,
            Ok(operand) => done(prefix_operation(tokens[pos as int], operand), r.next),
        }
    } else if pos < tokens.len() && (tokens[pos as int].token.kind == TokenKind::PlusPlus
        || tokens[pos as int].token.kind == TokenKind::MinusMinus) {
        let r = parse_unary(tokens, pos + 1);
        match r.result {
            Err(e) => r,
            Ok(operand) => done(prefix_step(tokens[pos as int], operand), r.next),
        }
    } else {
        parse_postfix(tokens, pos)
    }
}

/// A primary expression followed by any number of calls, subscripts and
/// postfix steps.
#[verifier::opaque]
pub open spec fn parse_postfix(tokens: Seq<TokenView>, pos: nat) -> Parsed<ExprView>
    decreases left(tokens, pos), 19nat, 0nat,
{
    let p = parse_primary(tokens, pos);
    match p.result {
        Err(e) => p,
        Ok(operand) => if p.next < pos {
            stuck(p.next)
        } else {
            parse_postfix_rest(tokens, p.next, operand)
        },
    }
}

#[verifier::opaque]
pub open spec fn parse_postfix_rest(tokens: Seq<TokenView>, pos: nat, operand: ExprView) -> Parsed<
    ExprView,
>
    decreases left(tokens, pos), 5nat, 0nat,
{
    if is_at(tokens, pos, TokenKind::LeftParen) {
        let a = parse_args(tokens, pos + 1);
        match a.result {
            Err(e) => failed(e, a.next),
            Ok(args) => if a.next <= pos {
                stuck(a.next)
            } else {
                parse_postfix_rest(
                    tokens,
                    a.next,
                    node(
                        ExprKindView::Call {
                            left_paren: tokens[pos as int],
                            callee: Box::new(operand),
                            args,
                        },
                        ValueKind::Rvalue,
                    ),
                )
            },
        }
    } else if is_at(tokens, pos, TokenKind::LeftBracket) {
        let i = parse_expression(tokens, pos + 1);
        match i.result {
            Err(e) => i,
            Ok(index) => {
                let close = expect(
                    tokens,
                    i.next,
                    TokenKind::RightBracket,
                    "Expect closing ']' after array-index"@,
                );
                match close.result {
                    Err(e) => failed(e, close.next),
                    Ok(_) => if close.next <= pos {
                        stuck(close.next)
                    } else {
                        parse_postfix_rest(
                            tokens,
                            close.next,
                            subscript(operand, tokens[pos as int], index),
                        )
                    },
                }
            },
        }
    } else if is_at(tokens, pos, TokenKind::PlusPlus) || is_at(tokens, pos, TokenKind::MinusMinus) {
        parse_postfix_rest(
            tokens,
            pos + 1,
            node(
                ExprKindView::PostUnary { token: tokens[pos as int], left: Box::new(operand), by_amount: 1 },
                ValueKind::Rvalue,
            ),
        )
    } else {
        done(operand, pos)
    }
}

/// The arguments of a call, behind its `(`, up to and with its `)`.
#[verifier::opaque]
pub open spec fn parse_args(tokens: Seq<TokenView>, pos: nat) -> Parsed<Seq<ExprView>>
    decreases left(tokens, pos), 120nat, 0nat,
{
    if is_at(tokens, pos, TokenKind::RightParen) {
        done(Seq::empty(), pos + 1)
    } else {
        parse_arg_list(tokens, pos, Seq::empty())
    }
}

/// One argument and those that follow it, each behind a comma; `args` are
/// the arguments in front of it.
#[verifier::opaque]
pub open spec fn parse_arg_list(tokens: Seq<TokenView>, pos: nat, args: Seq<ExprView>) -> Parsed<
    Seq<ExprView>,
>
    decreases left(tokens, pos), 110nat, 0nat,
{
    let a = parse_expression(tokens, pos);
    match a.result {
        Err(e) => failed(e, a.next),
        Ok(arg) => if is_at(tokens, a.next, TokenKind::Comma) {
            if a.next < pos {
                stuck(a.next)
            } else {
                parse_arg_list(tokens, a.next + 1, args.push(arg))
            }
        } else {
            let close = expect(
                tokens,
                a.next,
                TokenKind::RightParen,
                "Expect ')' after function call"@,
            );
            match close.result {
                Err(e) => failed(e, close.next),
                Ok(_) => done(args.push(arg), close.next),
            }
        },
    }
}

/// A literal, an identifier or an expression in parentheses.
#[verifier::opaque]
pub open spec fn parse_primary(tokens: Seq<TokenView>, pos: nat) -> Parsed<ExprView>
    decreases left(tokens, pos), 18nat, 0nat,
{
    if pos >= tokens.len() {
        failed(ErrorView::nowhere("Expected expression found end of file"@), pos)
    } else {
        let token = tokens[pos as int];
        match token.token.kind {
            TokenKind::Number => done(number(token.token.number), pos + 1),
            TokenKind::CharLit => done(
                node(ExprKindView::CharLit(token.token.number as i8), ValueKind::Rvalue),
                pos + 1,
            ),
            TokenKind::String => done(node(ExprKindView::String(token), ValueKind::Lvalue), pos + 1),
            TokenKind::Ident => done(node(ExprKindView::Ident(token), ValueKind::Lvalue), pos + 1),
            TokenKind::LeftParen => {
                let inner = parse_expression(tokens, pos + 1);
                match inner.result {
                    Err(e) => inner,
                    Ok(expr) => {
                        let close = expect(
                            tokens,
                            inner.next,
                            TokenKind::RightParen,
                            "missing closing ')'"@,
                        );
                        match close.result {
                            Err(e) => failed(e, close.next),
                            Ok(_) => done(
                                node(
                                    ExprKindView::Grouping { expr: Box::new(expr) },
                                    expr.value_kind,
                                ),
                                close.next,
                            ),
                        }
                    },
                }
            },
            _ => failed(
                ErrorView::at(token, "Expected expression found: "@ + token.token.text_of()),
                pos,
            ),
        }
    }
}

// ----- declarations and statements --------------------------------------

/// The type that a type keyword names.
pub open spec fn base_type(kind: TokenKind) -> Option<Types> {
    match kind {
        TokenKind::Void => Some(Types::Void),
        TokenKind::Char => Some(Types::Char),
        TokenKind::Int => Some(Types::Int),
        TokenKind::Long => Some(Types::Long),
        _ => None,
    }
}

/// Whether a type keyword stands at place `pos`.
pub open spec fn type_at(tokens: Seq<TokenView>, pos: nat) -> bool {
    pos < tokens.len() && base_type(tokens[pos as int].token.kind) is Some
}

/// Whether a statement may start with a token of kind `kind`, as the
/// parser takes it when it looks for the place to go on after a
/// diagnostic.
pub open spec fn starts_statement(kind: TokenKind) -> bool {
    kind == TokenKind::If || kind == TokenKind::Return || kind == TokenKind::While || kind
        == TokenKind::For || base_type(kind) is Some
}

/// The `*`s behind a type: each makes a pointer of the type in front of
/// it.
#[verifier::opaque]
pub open spec fn parse_pointers(tokens: Seq<TokenView>, pos: nat, t: Types) -> Parsed<Types>
    decreases left(tokens, pos),
{
    if is_at(tokens, pos, TokenKind::Star) {
        parse_pointers(tokens, pos + 1, Types::Pointer(Box::new(t)))
    } else {
        done(t, pos)
    }
}

/// The `[n]` behind a name, if there is one: it makes an array of `n`
/// elements of type `t`. `n` must be positive, and the size of the array
/// must be a number that the machine can hold.
pub open spec fn parse_array(tokens: Seq<TokenView>, pos: nat, t: Types) -> Parsed<Types> {
    if is_at(tokens, pos, TokenKind::LeftBracket) {
        let size = expect(tokens, pos + 1, TokenKind::Number, "Expect array size"@);
        match size.result {
            Err(e) => failed(e, size.next),
            Ok(n) => {
                let close = expect(
                    tokens,
                    size.next,
                    TokenKind::RightBracket,
                    "Expect closing ']' after array initialization"@,
                );
                match close.result {
                    Err(e) => failed(e, close.next),
                    Ok(_) => if n.token.number <= 0 {
                        failed(ErrorView::at(n, "Can't initialize array with size <= 0"@), close.next)
                    } else if n.token.number * t.spec_size() > usize::MAX {
                        failed(ErrorView::at(n, "array is too large"@), close.next)
                    } else {
                        done(
                            Types::Array { of: Box::new(t), amount: n.token.number as usize },
                            close.next,
                        )
                    },
                }
            },
        }
    } else {
        done(t, pos)
    }
}

/// A declarator, from its type keyword at `pos` on: the keyword, `*`s, the
/// name and, for an array, its length.
pub open spec fn parse_declarator(tokens: Seq<TokenView>, pos: nat) -> Parsed<(Types, TokenView)> {
    let base = base_type(tokens[pos as int].token.kind)->Some_0;
    let p = parse_pointers(tokens, pos + 1, base);
    let name = expect(
        tokens,
        p.next,
        TokenKind::Ident,
        "Expect identifier following type-specifier"@,
    );
    match name.result {
        Err(e) => failed(e, name.next),
        Ok(n) => {
            let a = parse_array(tokens, name.next, p.result->Ok_0);
            match a.result {
                Err(e) => failed(e, a.next),
                Ok(t) => done((t, n), a.next),
            }
        },
    }
}

/// A parameter: a type keyword, `*`s and a name.
pub open spec fn parse_param(tokens: Seq<TokenView>, pos: nat) -> Parsed<(Types, TokenView)> {
    if type_at(tokens, pos) {
        let base = base_type(tokens[pos as int].token.kind)->Some_0;
        let p = parse_pointers(tokens, pos + 1, base);
        let name = expect(tokens, p.next, TokenKind::Ident, "Expect identifier after type"@);
        match name.result {
            Err(e) => failed(e, name.next),
            Ok(n) => done((p.result->Ok_0, n), name.next),
        }
    } else if pos < tokens.len() {
        failed(ErrorView::at(tokens[pos as int], "Expect type as parameter type"@), pos + 1)
    } else {
        failed(ErrorView::nowhere("Expect type as parameter type"@), pos)
    }
}

/// One parameter and those that follow it, each behind a comma, up to and
/// with the closing `)`; `params` are the parameters in front of it.
#[verifier::opaque]
pub open spec fn parse_params(
    tokens: Seq<TokenView>,
    pos: nat,
    params: Seq<(Types, TokenView)>,
) -> Parsed<Seq<(Types, TokenView)>>
    decreases left(tokens, pos),
{
    let p = parse_param(tokens, pos);
    match p.result {
        Err(e) => failed(e, p.next),
        Ok(param) => if is_at(tokens, p.next, TokenKind::Comma) {
            if p.next < pos {
                stuck(p.next)
            } else {
                parse_params(tokens, p.next + 1, params.push(param))
            }
        } else {
            let close = expect(
                tokens,
                p.next,
                TokenKind::RightParen,
                "Expect ')' after function parameters"@,
            );
            match close.result {
                Err(e) => failed(e, close.next),
                Ok(_) => done(params.push(param), close.next),
            }
        },
    }
}

/// The parameters of a function, behind its `(`, up to and with its `)`.
pub open spec fn parse_param_list(tokens: Seq<TokenView>, pos: nat) -> Parsed<
    Seq<(Types, TokenView)>,
> {
    if is_at(tokens, pos, TokenKind::RightParen) {
        done(Seq::empty(), pos + 1)
    } else {
        parse_params(tokens, pos, Seq::empty())
    }
}

/// Element `index` of the initializer list of `name`: the assignment
/// `*(name + index) = value`.
pub open spec fn element(name: TokenView, index: int, value: ExprView) -> ExprView {
    node(
        ExprKindView::Assign {
            l_expr: Box::new(
                subscript(node(ExprKindView::Ident(name), ValueKind::Lvalue), name, number(index)),
            ),
            token: name.with_kind(TokenKind::Equal),
            r_expr: Box::new(value),
        },
        ValueKind::Rvalue,
    )
}

/// One element of an initializer list and those that follow it, each behind
/// a comma, up to and with the closing `}`; `elements` are the elements in
/// front of it.
#[verifier::opaque]
pub open spec fn parse_elements(
    tokens: Seq<TokenView>,
    pos: nat,
    name: TokenView,
    elements: Seq<ExprView>,
) -> Parsed<Seq<ExprView>>
    decreases left(tokens, pos), 110nat, 0nat,
{
    if elements.len() >= i32::MAX {
        failed(ErrorView::at(name, "initializer-list is too long"@), pos)
    } else {
        let e = parse_expression(tokens, pos);
        match e.result {
            Err(err) => failed(err, e.next),
            Ok(value) => if is_at(tokens, e.next, TokenKind::Comma) {
                if e.next < pos {
                    stuck(e.next)
                } else {
                    parse_elements(
                        tokens,
                        e.next + 1,
                        name,
                        elements.push(element(name, elements.len() as int, value)),
                    )
                }
            } else {
                let close = expect(
                    tokens,
                    e.next,
                    TokenKind::RightBrace,
                    "Expect closing '}' after initializer-list"@,
                );
                match close.result {
                    Err(err) => failed(err, close.next),
                    Ok(_) => done(
                        elements.push(element(name, elements.len() as int, value)),
                        close.next,
                    ),
                }
            },
        }
    }
}

/// What follows the declarator of a variable: an initializer, a list of
/// them, or nothing, and a `;`.
#[verifier::opaque]
pub open spec fn parse_variable(tokens: Seq<TokenView>, pos: nat, t: Types, name: TokenView) -> Parsed<
    StmtView,
> {
    if is_at(tokens, pos, TokenKind::Equal) {
        if is_at(tokens, pos + 1, TokenKind::LeftBrace) {
            let l = parse_elements(tokens, pos + 2, name, Seq::empty());
            match l.result {
                Err(e) => failed(e, l.next),
                Ok(elements) => {
                    let semi = expect(
                        tokens,
                        l.next,
                        TokenKind::Semicolon,
                        "Expect ';' after initializer-list"@,
                    );
                    match semi.result {
                        Err(e) => failed(e, semi.next),
                        Ok(_) => done(StmtView::InitList(t, name, elements, false), semi.next),
                    }
                },
            }
        } else {
            let v = parse_expression(tokens, pos + 1);
            match v.result {
                Err(e) => failed(e, v.next),
                Ok(value) => {
                    let semi = expect(
                        tokens,
                        v.next,
                        TokenKind::Semicolon,
                        "Expect ';' after expression"@,
                    );
                    match semi.result {
                        Err(e) => failed(e, semi.next),
                        Ok(_) => done(StmtView::InitVar(t, name, value, false), semi.next),
                    }
                },
            }
        }
    } else {
        let semi = expect(
            tokens,
            pos,
            TokenKind::Semicolon,
            "Expect ';' after variable declaration"@,
        );
        match semi.result {
            Err(e) => failed(e, semi.next),
            Ok(_) => done(StmtView::DeclareVar(t, name, false), semi.next),
        }
    }
}

/// A function, behind its name and `(`: the parameters, then `;` for a
/// declaration or the body for a definition.
#[verifier::opaque]
pub open spec fn parse_function(
    tokens: Seq<TokenView>,
    pos: nat,
    return_type: Types,
    name: TokenView,
) -> Parsed<StmtView>
    decreases left(tokens, pos), 140nat, 0nat,
{
    let p = parse_param_list(tokens, pos);
    match p.result {
        Err(e) => failed(e, p.next),
        Ok(params) => if is_at(tokens, p.next, TokenKind::Semicolon) {
            done(StmtView::FunctionDeclaration(return_type, name, params), p.next + 1)
        } else {
            let open = expect(
                tokens,
                p.next,
                TokenKind::LeftBrace,
                "Expect '{' before function body."@,
            );
            match open.result {
                Err(e) => failed(e, open.next),
                Ok(_) => if open.next <= pos {
                    stuck(open.next)
                } else {
                    let b = parse_block(tokens, open.next, Seq::empty());
                    match b.result {
                        Err(e) => failed(e, b.next),
                        Ok(body) => done(
                            StmtView::Function(return_type, name, params, body),
                            b.next,
                        ),
                    }
                },
            }
        },
    }
}

/// A declaration, from its type keyword at `pos` on.
#[verifier::opaque]
pub open spec fn parse_type_declaration(tokens: Seq<TokenView>, pos: nat) -> Parsed<StmtView>
    decreases left(tokens, pos), 150nat, 0nat,
{
    let d = parse_declarator(tokens, pos);
    match d.result {
        Err(e) => failed(e, d.next),
        Ok((t, name)) => if d.next <= pos {
            stuck(d.next)
        } else if is_at(tokens, d.next, TokenKind::LeftParen) {
            parse_function(tokens, d.next + 1, t, name)
        } else {
            parse_variable(tokens, d.next, t, name)
        },
    }
}

/// The statements and declarations of a block, behind its `{`, up to and
/// with its `}`; `items` are those in front of place `pos`.
#[verifier::opaque]
pub open spec fn parse_block(tokens: Seq<TokenView>, pos: nat, items: Seq<StmtView>) -> Parsed<
    Seq<StmtView>,
>
    decreases left(tokens, pos), 210nat, 0nat,
{
    if is_at(tokens, pos, TokenKind::RightBrace) {
        done(items, pos + 1)
    } else if pos >= tokens.len() {
        failed(ErrorView::nowhere("Expect '}' after Block"@), pos)
    } else {
        let d = parse_declaration(tokens, pos);
        match d.result {
            Err(e) => failed(e, d.next),
            Ok(item) => if d.next <= pos {
                stuck(d.next)
            } else {
                parse_block(tokens, d.next, items.push(item))
            },
        }
    }
}

/// A declaration or a statement.
#[verifier::opaque]
pub open spec fn parse_declaration(tokens: Seq<TokenView>, pos: nat) -> Parsed<StmtView>
    decreases left(tokens, pos), 200nat, 0nat,
{
    if type_at(tokens, pos) {
        parse_type_declaration(tokens, pos)
    } else {
        parse_statement(tokens, pos)
    }
}

/// An expression with its `;`.
#[verifier::opaque]
pub open spec fn parse_expression_statement(tokens: Seq<TokenView>, pos: nat) -> Parsed<StmtView> {
    let e = parse_expression(tokens, pos);
    match e.result {
        Err(err) => failed(err, e.next),
        Ok(expr) => {
            let semi = expect(tokens, e.next, TokenKind::Semicolon, "Expect ';' after expression"@);
            match semi.result {
                Err(err) => failed(err, semi.next),
                Ok(_) => done(StmtView::Expr(expr), semi.next),
            }
        },
    }
}

/// A `return`, behind its keyword.
#[verifier::opaque]
pub open spec fn parse_return(tokens: Seq<TokenView>, pos: nat, keyword: TokenView) -> Parsed<
    StmtView,
> {
    if is_at(tokens, pos, TokenKind::Semicolon) {
        done(StmtView::Return(keyword, None), pos + 1)
    } else {
        let v = parse_expression(tokens, pos);
        match v.result {
            Err(err) => failed(err, v.next),
            Ok(value) => {
                let semi = expect(
                    tokens,
                    v.next,
                    TokenKind::Semicolon,
                    "Expect ';' after return statement"@,
                );
                match semi.result {
                    Err(err) => failed(err, semi.next),
                    Ok(_) => done(StmtView::Return(keyword, Some(value)), semi.next),
                }
            },
        }
    }
}

/// A condition in parentheses; `open_msg` and `close_msg` are said where a
/// parenthesis is missing.
#[verifier::opaque]
pub open spec fn parse_condition(
    tokens: Seq<TokenView>,
    pos: nat,
    open_msg: Seq<char>,
    close_msg: Seq<char>,
) -> Parsed<ExprView> {
    let open = expect(tokens, pos, TokenKind::LeftParen, open_msg);
    match open.result {
        Err(e) => failed(e, open.next),
        Ok(_) => {
            let c = parse_expression(tokens, open.next);
            match c.result {
                Err(e) => failed(e, c.next),
                Ok(cond) => {
                    let close = expect(tokens, c.next, TokenKind::RightParen, close_msg);
                    match close.result {
                        Err(e) => failed(e, close.next),
                        Ok(_) => done(cond, close.next),
                    }
                },
            }
        },
    }
}

/// An `if`, behind its keyword.
#[verifier::opaque]
pub open spec fn parse_if(tokens: Seq<TokenView>, pos: nat, keyword: TokenView) -> Parsed<StmtView>
    decreases left(tokens, pos), 180nat, 0nat,
{
    let c = parse_condition(
        tokens,
        pos,
        "Expect '(' after 'if'"@,
        "Expect closing ')' after if condition"@,
    );
    match c.result {
        Err(e) => failed(e, c.next),
        Ok(cond) => if c.next <= pos || pos >= tokens.len() {
            stuck(c.next)
        } else {
            let t = parse_statement(tokens, c.next);
            match t.result {
                Err(e) => failed(e, t.next),
                Ok(then_branch) => if is_at(tokens, t.next, TokenKind::Else) {
                    if t.next < pos {
                        stuck(t.next)
                    } else {
                        let f = parse_statement(tokens, t.next + 1);
                        match f.result {
                            Err(e) => failed(e, f.next),
                            Ok(else_branch) => done(
                                StmtView::If(
                                    keyword,
                                    cond,
                                    Box::new(then_branch),
                                    Some(Box::new(else_branch)),
                                ),
                                f.next,
                            ),
                        }
                    }
                } else {
                    done(StmtView::If(keyword, cond, Box::new(then_branch), None), t.next)
                },
            }
        },
    }
}

/// A `while`, behind its keyword.
#[verifier::opaque]
pub open spec fn parse_while(tokens: Seq<TokenView>, pos: nat, keyword: TokenView) -> Parsed<
    StmtView,
>
    decreases left(tokens, pos), 180nat, 0nat,
{
    let c = parse_condition(
        tokens,
        pos,
        "Expect '(' after while-statement"@,
        "Expected closing ')' after while-condition"@,
    );
    match c.result {
        Err(e) => failed(e, c.next),
        Ok(cond) => if c.next <= pos || pos >= tokens.len() {
            stuck(c.next)
        } else {
            let b = parse_statement(tokens, c.next);
            match b.result {
                Err(e) => failed(e, b.next),
                Ok(body) => done(StmtView::While(keyword, cond, Box::new(body)), b.next),
            }
        },
    }
}

/// The condition of a `for`, with its `;`: none if the `;` stands alone.
#[verifier::opaque]
pub open spec fn parse_for_condition(tokens: Seq<TokenView>, pos: nat) -> Parsed<Option<ExprView>> {
    if is_at(tokens, pos, TokenKind::Semicolon) {
        done(None, pos + 1)
    } else {
        let c = parse_expression(tokens, pos);
        match c.result {
            Err(e) => failed(e, c.next),
            Ok(cond) => {
                let semi = expect(
                    tokens,
                    c.next,
                    TokenKind::Semicolon,
                    "Expect ';' after for-condition"@,
                );
                match semi.result {
                    Err(e) => failed(e, semi.next),
                    Ok(_) => done(Some(cond), semi.next),
                }
            },
        }
    }
}

/// The step of a `for`, with the closing `)`: none if the `)` stands
/// alone.
#[verifier::opaque]
pub open spec fn parse_for_step(tokens: Seq<TokenView>, pos: nat) -> Parsed<Option<ExprView>> {
    if is_at(tokens, pos, TokenKind::RightParen) {
        done(None, pos + 1)
    } else {
        let i = parse_expression(tokens, pos);
        match i.result {
            Err(e) => failed(e, i.next),
            Ok(step) => {
                let close = expect(
                    tokens,
                    i.next,
                    TokenKind::RightParen,
                    "Expect ')' after for-increment"@,
                );
                match close.result {
                    Err(e) => failed(e, close.next),
                    Ok(_) => done(Some(step), close.next),
                }
            },
        }
    }
}

/// A `for` loop as the statements it stands for:
/// `{ init; while (cond) { body; step; } }`. A missing condition is `1`,
/// and a block is made only where there is something to put into it.
pub open spec fn for_loop(
    keyword: TokenView,
    init: Option<StmtView>,
    cond: Option<ExprView>,
    step: Option<ExprView>,
    body: StmtView,
) -> StmtView {
    let inner = match step {
        Some(s) => StmtView::Block(seq![body, StmtView::Expr(s)]),
        None => body,
    };
    let repeated = StmtView::While(
        keyword,
        match cond {
            Some(c) => c,
            None => number(1),
        },
        Box::new(inner),
    );
    match init {
        Some(i) => StmtView::Block(seq![i, repeated]),
        None => repeated,
    }
}

/// A `for`, behind its keyword.
#[verifier::opaque]
pub open spec fn parse_for(tokens: Seq<TokenView>, pos: nat, keyword: TokenView) -> Parsed<StmtView>
    decreases left(tokens, pos), 180nat, 0nat,
{
    let open = expect(tokens, pos, TokenKind::LeftParen, "Expect '(' after for-statement"@);
    match open.result {
        Err(e) => failed(e, open.next),
        Ok(_) => {
            let i: Parsed<Option<StmtView>> = if type_at(tokens, open.next) {
                if open.next <= pos {
                    stuck(open.next)
                } else {
                    let d = parse_type_declaration(tokens, open.next);
                    match d.result {
                        Err(e) => failed(e, d.next),
                        Ok(s) => done(Some(s), d.next),
                    }
                }
            } else if is_at(tokens, open.next, TokenKind::Semicolon) {
                done(None, open.next + 1)
            } else {
                let d = parse_expression_statement(tokens, open.next);
                match d.result {
                    Err(e) => failed(e, d.next),
                    Ok(s) => done(Some(s), d.next),
                }
            };
            match i.result {
                Err(e) => failed(e, i.next),
                Ok(init) => {
                    let c = parse_for_condition(tokens, i.next);
                    match c.result {
                        Err(e) => failed(e, c.next),
                        Ok(cond) => {
                            let s = parse_for_step(tokens, c.next);
                            match s.result {
                                Err(e) => failed(e, s.next),
                                Ok(step) => if s.next <= pos {
                                    stuck(s.next)
                                } else {
                                    let b = parse_statement(tokens, s.next);
                                    match b.result {
                                        Err(e) => failed(e, b.next),
                                        Ok(body) => done(
                                            for_loop(keyword, init, cond, step, body),
                                            b.next,
                                        ),
                                    }
                                },
                            }
                        },
                    }
                },
            }
        },
    }
}

/// A statement.
#[verifier::opaque]
pub open spec fn parse_statement(tokens: Seq<TokenView>, pos: nat) -> Parsed<StmtView>
    decreases left(tokens, pos), 190nat, 0nat,
{
    if is_at(tokens, pos, TokenKind::For) {
        parse_for(tokens, pos + 1, tokens[pos as int])
    } else if is_at(tokens, pos, TokenKind::Return) {
        parse_return(tokens, pos + 1, tokens[pos as int])
    } else if is_at(tokens, pos, TokenKind::If) {
        parse_if(tokens, pos + 1, tokens[pos as int])
    } else if is_at(tokens, pos, TokenKind::While) {
        parse_while(tokens, pos + 1, tokens[pos as int])
    } else if is_at(tokens, pos, TokenKind::LeftBrace) {
        let b = parse_block(tokens, pos + 1, Seq::empty());
        match b.result {
            Err(e) => failed(e, b.next),
            Ok(items) => done(StmtView::Block(items), b.next),
        }
    } else {
        parse_expression_statement(tokens, pos)
    }
}

/// A declaration at the top level of a program: it starts with a type
/// keyword.
pub open spec fn parse_external(tokens: Seq<TokenView>, pos: nat) -> Parsed<StmtView> {
    if type_at(tokens, pos) {
        parse_type_declaration(tokens, pos)
    } else if pos < tokens.len() {
        failed(ErrorView::at(tokens[pos as int], "Expected type-declaration or function"@), pos)
    } else {
        failed(ErrorView::nowhere("Expected type-declaration or function"@), pos)
    }
}

/// The first place from `pos` on where a statement seems to start: behind
/// a `;`, in front of a keyword that starts a statement. The end of the
/// tokens if there is none.
pub open spec fn resume_from(tokens: Seq<TokenView>, pos: nat) -> nat
    decreases left(tokens, pos),
{
    if pos >= tokens.len() {
        pos
    } else if pos > 0 && tokens[pos - 1].token.kind == TokenKind::Semicolon && starts_statement(
        tokens[pos as int].token.kind,
    ) {
        pos
    } else {
        resume_from(tokens, pos + 1)
    }
}

/// The place where the parser goes on after a diagnostic at place `pos`:
/// it skips at least one token.
pub open spec fn synchronize(tokens: Seq<TokenView>, pos: nat) -> nat {
    if pos >= tokens.len() {
        pos
    } else {
        resume_from(tokens, pos + 1)
    }
}

/// What the parser makes of a program.
pub struct Program {
    pub stmts: Seq<StmtView>,
    pub errors: Seq<ErrorView>,
}

/// The declarations of a program from place `pos` on; `so_far` is what
/// the parser made of the tokens in front of `pos`. After a diagnostic the
/// parser goes on where the next statement seems to start.
#[verifier::opaque]
pub open spec fn parse_program(tokens: Seq<TokenView>, pos: nat, so_far: Program) -> Program
    decreases left(tokens, pos),
{
    if pos >= tokens.len() {
        so_far
    } else {
        let d = parse_external(tokens, pos);
        match d.result {
            Ok(s) => if d.next <= pos {
                so_far
            } else {
                parse_program(
                    tokens,
                    d.next,
                    Program { stmts: so_far.stmts.push(s), errors: so_far.errors },
                )
            },
            Err(e) => if synchronize(tokens, d.next) <= pos {
                so_far
            } else {
                parse_program(
                    tokens,
                    synchronize(tokens, d.next),
                    Program { stmts: so_far.stmts, errors: so_far.errors.push(e) },
                )
            },
        }
    }
}

/// What the parser makes of all of `tokens`.
pub open spec fn parse(tokens: Seq<TokenView>) -> Program {
    parse_program(tokens, 0, Program { stmts: Seq::empty(), errors: Seq::empty() })
}

} // verus!
