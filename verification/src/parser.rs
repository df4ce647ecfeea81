use crate::common::error::{error_views, Error, ErrorView};
use crate::common::expr::{expr_views, Expr, ExprKind, ExprView, ValueKind};
use crate::common::stmt::{param_views, stmt_views, Stmt, StmtView};
use crate::common::text::owned;
use crate::common::token::{compound_operator, token_views, Token, TokenKind, TokenType, TokenView};
use crate::common::types::Types;
use crate::grammar::{
    assignment, base_type, done, element, expect, for_loop, is_at, is_operator, kind_at, left,
    node, number, operation, parse_arg_list, parse_args, parse_array, parse_assignment,
    parse_binary, parse_binary_rest, parse_block, parse_condition, parse_declaration,
    parse_declarator, parse_elements, parse_expression, parse_expression_statement,
    parse_external, parse_for, parse_for_condition, parse_for_step, parse_function, parse_if,
    parse_param, parse_param_list, parse_params, parse_pointers, parse_postfix,
    parse_postfix_rest, parse_primary, parse_program, parse_return, parse_statement,
    parse_type_declaration, parse_unary, parse_variable, parse_while, prefix_operation,
    prefix_step, rank, resume_from, starts_statement, subscript, synchronize, type_at, Parsed,
    Program,
};
use crate::semantics::{params_wf, stmt_wf, stmts_wf};
use vstd::prelude::*;
use vstd::string::StringExecFns;

verus! {

/// The parser: the tokens of a program and the place up to which they have
/// been read.
pub struct Parser {
    tokens: Vec<Token>,
    pos: usize,
}

pub struct ParserView {
    pub tokens: Seq<TokenView>,
    pub pos: nat,
}

impl View for Parser {
    type V = ParserView;

    closed spec fn view(&self) -> ParserView {
        ParserView { tokens: token_views(self.tokens@), pos: self.pos as nat }
    }
}

/// What the parser hands back for an expression, set against what the
/// grammar gives: the parser has moved to where the expression ends, and
/// the expression or the diagnostic is the expected one.
pub open spec fn parsed_expr(
    before: ParserView,
    after: ParserView,
    r: Result<Expr, Error>,
    expected: Parsed<ExprView>,
) -> bool {
    &&& after.tokens == before.tokens
    &&& after.pos == expected.next
    &&& before.pos <= after.pos <= after.tokens.len()
    &&& match expected.result {
        Ok(e) => r is Ok && r->Ok_0@ == e,
        Err(e) => r is Err && r->Err_0@ == e,
    }
}

/// What the parser hands back for a statement, set against what the
/// grammar gives. The types that a parsed statement declares are well
/// formed.
pub open spec fn parsed_stmt(
    before: ParserView,
    after: ParserView,
    r: Result<Stmt, Error>,
    expected: Parsed<StmtView>,
) -> bool {
    &&& after.tokens == before.tokens
    &&& after.pos == expected.next
    &&& before.pos <= after.pos <= after.tokens.len()
    &&& match expected.result {
        Ok(s) => r is Ok && r->Ok_0@ == s && stmt_wf(s) && before.pos < after.pos,
        Err(e) => r is Err && r->Err_0@ == e,
    }
}

/// The type that a type keyword names.
fn type_of(kind: TokenKind) -> (r: Option<Types>)
    ensures
        r == base_type(kind),
{
    match kind {
        TokenKind::Void => Some(Types::Void),
        TokenKind::Char => Some(Types::Char),
        TokenKind::Int => Some(Types::Int),
        TokenKind::Long => Some(Types::Long),
        _ => None,
    }
}

/// Element `index` of the initializer list of `name`.
fn element_node(name: &Token, index: i32, value: Expr) -> (r: Expr)
    ensures
        r@ == element(name@, index as int, value@),
{
    let target = Expr::new(ExprKind::Ident(name.clone()), ValueKind::Lvalue);
    let place = Expr::new(ExprKind::Number(index), ValueKind::Rvalue);
    assert(place@ == number(index as int));
    let left = subscript_node(target, name, place);
    Expr::new(
        ExprKind::Assign {
            l_expr: Box::new(left),
            token: name.at_place_of(TokenKind::Equal),
            r_expr: Box::new(value),
        },
        ValueKind::Rvalue,
    )
}

/// The block of two statements.
fn pair(first: Stmt, second: Stmt) -> (r: Stmt)
    requires
        stmt_wf(first@),
        stmt_wf(second@),
    ensures
        r@ == StmtView::Block(seq![first@, second@]),
        stmt_wf(r@),
{
    let mut items: Vec<Stmt> = Vec::new();
    items.push(first);
    items.push(second);
    assert(stmt_views(items@) =~= seq![first@, second@]);
    let r = Stmt::Block(items);
    assert(stmt_wf(r@)) by {
        let views = seq![first@, second@];
        assert forall|i: int| 0 <= i < views.len() implies stmt_wf(#[trigger] views[i]) by {
            if i == 0 {
                assert(views[i] == first@);
            } else {
                assert(views[i] == second@);
            }
        }
    }
    r
}

/// The loop of a `for`: a missing condition is `1`.
fn repeat(keyword: Token, cond: Option<Expr>, body: Stmt) -> (r: Stmt)
    requires
        stmt_wf(body@),
    ensures
        r@ == StmtView::While(
            keyword@,
            match cond {
                Some(c) => c@,
                None => number(1),
            },
            Box::new(body@),
        ),
        stmt_wf(r@),
{
    let test = match cond {
        Some(c) => c,
        None => Expr::new(ExprKind::Number(1), ValueKind::Rvalue),
    };
    Stmt::While(keyword, test, Box::new(body))
}

/// A `for` loop as the statements it stands for.
fn for_node(keyword: Token, init: Option<Stmt>, cond: Option<Expr>, step: Option<Expr>, body: Stmt) -> (r:
    Stmt)
    requires
        stmt_wf(body@),
        init matches Some(i) ==> stmt_wf(i@),
    ensures
        r@ == for_loop(
            keyword@,
            match init {
                Some(i) => Some(i@),
                None => None,
            },
            match cond {
                Some(c) => Some(c@),
                None => None,
            },
            match step {
                Some(s) => Some(s@),
                None => None,
            },
            body@,
        ),
        stmt_wf(r@),
{
    let inner = match step {
        Some(s) => pair(body, Stmt::Expr(s)),
        None => body,
    };
    let repeated = repeat(keyword, cond, inner);
    match init {
        Some(i) => pair(i, repeated),
        None => repeated,
    }
}

/// Whether `kind` is a binary operator of precedence level `level`.
fn operator_of(level: usize, kind: TokenKind) -> (r: bool)
    ensures
        r == is_operator(level as nat, kind),
{
    if level == 0 {
        kind == TokenKind::PipePipe
    } else if level == 1 {
        kind == TokenKind::AmpAmp
    } else if level == 2 {
        kind == TokenKind::Pipe
    } else if level == 3 {
        kind == TokenKind::Xor
    } else if level == 4 {
        kind == TokenKind::Amp
    } else if level == 5 {
        kind == TokenKind::EqualEqual || kind == TokenKind::BangEqual
    } else if level == 6 {
        kind == TokenKind::Greater || kind == TokenKind::GreaterEqual || kind == TokenKind::Less
            || kind == TokenKind::LessEqual
    } else if level == 7 {
        kind == TokenKind::LessLess || kind == TokenKind::GreaterGreater
    } else if level == 8 {
        kind == TokenKind::Minus || kind == TokenKind::Plus
    } else if level == 9 {
        kind == TokenKind::Slash || kind == TokenKind::Star || kind == TokenKind::Mod
    } else {
        false
    }
}

/// The node of a binary operator of level `level`.
fn operation_node(level: usize, left: Expr, token: Token, right: Expr) -> (r: Expr)
    ensures
        r@ == operation(level as nat, left@, token@, right@),
{
    if level < 2 {
        Expr::new(
            ExprKind::Logical { left: Box::new(left), token, right: Box::new(right) },
            ValueKind::Rvalue,
        )
    } else {
        Expr::new(
            ExprKind::Binary { left: Box::new(left), token, right: Box::new(right) },
            ValueKind::Rvalue,
        )
    }
}

/// `operand[index]`, which reads as `*(operand + index)`.
fn subscript_node(operand: Expr, bracket: &Token, index: Expr) -> (r: Expr)
    ensures
        r@ == subscript(operand@, bracket@, index@),
{
    let sum = Expr::new(
        ExprKind::Binary {
            left: Box::new(operand),
            token: bracket.at_place_of(TokenKind::Plus),
            right: Box::new(index),
        },
        ValueKind::Rvalue,
    );
    let ghost inner = sum@;
    let grouping = Expr::new(ExprKind::Grouping { expr: Box::new(sum) }, ValueKind::Rvalue);
    assert(grouping@ == node(
        crate::common::expr::ExprKindView::Grouping { expr: Box::new(inner) },
        ValueKind::Rvalue,
    ));
    Expr::new(
        ExprKind::Unary { token: bracket.at_place_of(TokenKind::Star), right: Box::new(grouping) },
        ValueKind::Lvalue,
    )
}

/// The node of a prefix operator with its operand.
fn prefix_node(token: Token, operand: Expr) -> (r: Expr)
    ensures
        r@ == prefix_operation(token@, operand@),
{
    let value_kind = if token.kind() == TokenKind::Star {
        ValueKind::Lvalue
    } else {
        ValueKind::Rvalue
    };
    Expr::new(ExprKind::Unary { token, right: Box::new(operand) }, value_kind)
}

/// `++operand` or `--operand`, which reads as `operand += 1` or
/// `operand -= 1`.
fn step_node(token: &Token, operand: Expr) -> (r: Expr)
    ensures
        r@ == prefix_step(token@, operand@),
{
    let step = if token.kind() == TokenKind::PlusPlus {
        TokenKind::PlusEqual
    } else {
        TokenKind::MinusEqual
    };
    let one = Expr::new(ExprKind::Number(1), ValueKind::Rvalue);
    assert(one@ == number(1));
    Expr::new(
        ExprKind::CompoundAssign {
            l_expr: Box::new(operand),
            token: token.at_place_of(step),
            r_expr: Box::new(one),
        },
        ValueKind::Rvalue,
    )
}

/// The node of a call.
fn call_node(left_paren: Token, callee: Expr, args: Vec<Expr>) -> (r: Expr)
    ensures
        r@ == node(
            crate::common::expr::ExprKindView::Call {
                left_paren: left_paren@,
                callee: Box::new(callee@),
                args: expr_views(args@),
            },
            ValueKind::Rvalue,
        ),
{
    Expr::new(ExprKind::Call { left_paren, callee: Box::new(callee), args }, ValueKind::Rvalue)
}

/// The node of a postfix `++` or `--`.
fn postfix_node(token: Token, operand: Expr) -> (r: Expr)
    ensures
        r@ == node(
            crate::common::expr::ExprKindView::PostUnary {
                token: token@,
                left: Box::new(operand@),
                by_amount: 1,
            },
            ValueKind::Rvalue,
        ),
{
    Expr::new(ExprKind::PostUnary { token, left: Box::new(operand), by_amount: 1 }, ValueKind::Rvalue)
}

/// The node of an expression in parentheses.
fn grouping_node(inner: Expr) -> (r: Expr)
    ensures
        r@ == node(
            crate::common::expr::ExprKindView::Grouping { expr: Box::new(inner@) },
            inner@.value_kind,
        ),
{
    let value_kind = inner.value_kind;
    Expr::new(ExprKind::Grouping { expr: Box::new(inner) }, value_kind)
}

/// The assignment of `value` to `target` by operator `token`.
fn assignment_node(target: Expr, token: Token, value: Expr) -> (r: Result<Expr, Error>)
    ensures
        match assignment(target@, token@, value@) {
            Ok(e) => r is Ok && r->Ok_0@ == e,
            Err(e) => r is Err && r->Err_0@ == e,
        },
{
    if target.value_kind != ValueKind::Lvalue {
        Err(Error::new(&token, "Expect Lvalue left of assignment"))
    } else if token.kind() == TokenKind::Equal {
        Ok(
            Expr::new(
                ExprKind::Assign { l_expr: Box::new(target), token, r_expr: Box::new(value) },
                ValueKind::Rvalue,
            ),
        )
    } else {
        Ok(
            Expr::new(
                ExprKind::CompoundAssign {
                    l_expr: Box::new(target),
                    token,
                    r_expr: Box::new(value),
                },
                ValueKind::Rvalue,
            ),
        )
    }
}

impl Parser {
    /// The parser has not read past its tokens.
    pub closed spec fn wf(&self) -> bool {
        self.pos <= self.tokens.len()
    }

    pub fn new(tokens: Vec<Token>) -> (r: Self)
        ensures
            r@ == (ParserView { tokens: token_views(tokens@), pos: 0 }),
            r.wf(),
    {
        Parser { tokens, pos: 0 }
    }

    /// The kind of the token that is read next, if there is one.
    fn peek(&self) -> (r: Option<TokenKind>)
        requires
            self.wf(),
        ensures
            r == kind_at(self@.tokens, self@.pos),
    {
        if self.pos < self.tokens.len() {
            Some(self.tokens[self.pos].kind())
        } else {
            None
        }
    }

    /// Whether the token that is read next is of kind `expected`.
    fn check(&self, expected: TokenKind) -> (r: bool)
        requires
            self.wf(),
        ensures
            r == is_at(self@.tokens, self@.pos, expected),
    {
        match self.peek() {
            Some(kind) => kind == expected,
            None => false,
        }
    }

    /// Reads the next token.
    fn advance(&mut self) -> (r: Token)
        requires
            old(self).wf(),
            old(self)@.pos < old(self)@.tokens.len(),
        ensures
            final(self).wf(),
            final(self)@ == (ParserView { pos: old(self)@.pos + 1, ..old(self)@ }),
            r@ == old(self)@.tokens[old(self)@.pos as int],
    {
        let token = self.tokens[self.pos].clone();
        self.pos = self.pos + 1;
        token
    }

    /// Reads the next token if its kind is among `expected`.
    pub fn matches(&mut self, expected: Vec<TokenKind>) -> (r: Option<Token>)
        requires
            old(self).wf(),
        ensures
            final(self).wf(),
            final(self)@.tokens == old(self)@.tokens,
            match r {
                Some(token) => {
                    &&& old(self)@.pos < old(self)@.tokens.len()
                    &&& token@ == old(self)@.tokens[old(self)@.pos as int]
                    &&& expected@.contains(token@.token.kind)
                    &&& final(self)@.pos == old(self)@.pos + 1
                },
                None => {
                    &&& final(self)@.pos == old(self)@.pos
                    &&& kind_at(old(self)@.tokens, old(self)@.pos) matches Some(kind)
                        ==> !expected@.contains(kind)
                },
            },
    {
        let kind = match self.peek() {
            Some(kind) => kind,
            None => {
                return None;
            },
        };
        let mut i: usize = 0;
        while i < expected.len()
            invariant
                i <= expected.len(),
                self.wf(),
                *self == *old(self),
                kind_at(self@.tokens, self@.pos) == Some(kind),
                forall|j: int| 0 <= j < i ==> expected[j] != kind,
            decreases expected.len() - i,
        {
            if expected[i] == kind {
                return Some(self.advance());
            }
            i = i + 1;
        }
        None
    }

    /// Reads the next token, which must be of kind `token`: gives the
    /// diagnostic `msg` if it is of another kind or missing.
    fn consume(&mut self, token: TokenKind, msg: &str) -> (r: Result<Token, Error>)
        requires
            old(self).wf(),
        ensures
            final(self).wf(),
            final(self)@.tokens == old(self)@.tokens,
            final(self)@.pos == expect(old(self)@.tokens, old(self)@.pos, token, msg@).next,
            old(self)@.pos <= final(self)@.pos <= final(self)@.tokens.len(),
            match expect(old(self)@.tokens, old(self)@.pos, token, msg@).result {
                Ok(t) => r is Ok && r->Ok_0@ == t,
                Err(e) => r is Err && r->Err_0@ == e,
            },
    {
        if self.pos < self.tokens.len() {
            let v = self.advance();
            if v.kind() != token {
                Err(Error::new(&v, msg))
            } else {
                Ok(v)
            }
        } else {
            Err(Error::nowhere(msg))
        }
    }

    /// An expression.
    pub fn expression(&mut self) -> (r: Result<Expr, Error>)
        requires
            old(self).wf(),
        ensures
            final(self).wf(),
            parsed_expr(
                old(self)@,
                final(self)@,
                r,
                parse_expression(old(self)@.tokens, old(self)@.pos),
            ),
        decreases left(old(self)@.tokens, old(self)@.pos), 100nat, 0nat,
    {
        proof {
            reveal(parse_expression);
            reveal(parse_assignment);
        }
        self.assignment()
    }

    /// An assignment, or what binds tighter.
    fn assignment(&mut self) -> (r: Result<Expr, Error>)
        requires
            old(self).wf(),
        ensures
            final(self).wf(),
            parsed_expr(
                old(self)@,
                final(self)@,
                r,
                parse_assignment(old(self)@.tokens, old(self)@.pos),
            ),
        decreases left(old(self)@.tokens, old(self)@.pos), 99nat, 0nat,
    {
        proof {
            reveal(parse_assignment);
            reveal(parse_binary);
        }
        let expr = self.binary(0)?;
        let assigns = match self.peek() {
            Some(kind) => kind == TokenKind::Equal || compound_operator(kind).is_some(),
            None => false,
        };
        if assigns {
            let token = self.advance();
            let value = self.assignment()?;
            assignment_node(expr, token, value)
        } else {
            Ok(expr)
        }
    }

    /// An operand of the binary operators of level `level` with the
    /// operators of that level that follow it.
    fn binary(&mut self, level: usize) -> (r: Result<Expr, Error>)
        requires
            old(self).wf(),
        ensures
            final(self).wf(),
            parsed_expr(
                old(self)@,
                final(self)@,
                r,
                parse_binary(old(self)@.tokens, old(self)@.pos, level as nat),
            ),
        decreases left(old(self)@.tokens, old(self)@.pos), rank(level as nat), 1nat,
    {
        proof {
            reveal(parse_binary);
            reveal(parse_binary_rest);
            reveal(parse_unary);
        }
        if level >= 10 {
            return self.unary();
        }
        let mut expr = self.binary(level + 1)?;
        let ghost whole = parse_binary(old(self)@.tokens, old(self)@.pos, level as nat);
        loop
            invariant
                self.wf(),
                level < 10,
                self@.tokens == old(self)@.tokens,
                old(self)@.pos <= self@.pos,
                whole == parse_binary(old(self)@.tokens, old(self)@.pos, level as nat),
                whole == parse_binary_rest(self@.tokens, self@.pos, level as nat, expr@),
            decreases left(self@.tokens, self@.pos),
        {
            proof {
                reveal(parse_binary);
                reveal(parse_binary_rest);
            }
            let found = match self.peek() {
                Some(kind) => operator_of(level, kind),
                None => false,
            };
            if !found {
                return Ok(expr);
            }
            let token = self.advance();
            let right = self.binary(level + 1)?;
            expr = operation_node(level, expr, token, right);
        }
    }

    /// A prefix operator with its operand, or a postfix expression.
    fn unary(&mut self) -> (r: Result<Expr, Error>)
        requires
            old(self).wf(),
        ensures
            final(self).wf(),
            parsed_expr(
                old(self)@,
                final(self)@,
                r,
                parse_unary(old(self)@.tokens, old(self)@.pos),
            ),
        decreases left(old(self)@.tokens, old(self)@.pos), 20nat, 0nat,
    {
        proof {
            reveal(parse_unary);
            reveal(parse_postfix);
        }
        let kind = self.peek();
        let prefix = match kind {
            Some(kind) => kind == TokenKind::Bang || kind == TokenKind::Minus || kind
                == TokenKind::Tilde || kind == TokenKind::Star || kind == TokenKind::Amp,
            None => false,
        };
        let step = match kind {
            Some(kind) => kind == TokenKind::PlusPlus || kind == TokenKind::MinusMinus,
            None => false,
        };
        if prefix {
            let token = self.advance();
            let right = self.unary()?;
            Ok(prefix_node(token, right))
        } else if step {
            let token = self.advance();
            let right = self.unary()?;
            Ok(step_node(&token, right))
        } else {
            self.call()
        }
    }

    /// A primary expression with the calls, subscripts and postfix steps
    /// that follow it.
    fn call(&mut self) -> (r: Result<Expr, Error>)
        requires
            old(self).wf(),
        ensures
            final(self).wf(),
            parsed_expr(
                old(self)@,
                final(self)@,
                r,
                parse_postfix(old(self)@.tokens, old(self)@.pos),
            ),
        decreases left(old(self)@.tokens, old(self)@.pos), 19nat, 0nat,
    {
        proof {
            reveal(parse_postfix);
            reveal(parse_postfix_rest);
            reveal(parse_primary);
        }
        let mut expr = self.primary()?;
        let ghost whole = parse_postfix(old(self)@.tokens, old(self)@.pos);
        loop
            invariant
                self.wf(),
                self@.tokens == old(self)@.tokens,
                old(self)@.pos <= self@.pos,
                whole == parse_postfix(old(self)@.tokens, old(self)@.pos),
                whole == parse_postfix_rest(self@.tokens, self@.pos, expr@),
            decreases left(self@.tokens, self@.pos),
        {
            proof {
                reveal(parse_postfix_rest);
                reveal(parse_args);
                reveal(parse_expression);
            }
            match self.peek() {
                Some(TokenKind::LeftParen) => {
                    let left_paren = self.advance();
                    expr = self.evaluate_args(expr, left_paren)?;
                },
                Some(TokenKind::LeftBracket) => {
                    let bracket = self.advance();
                    let index = self.expression()?;
                    self.consume(TokenKind::RightBracket, "Expect closing ']' after array-index")?;
                    expr = subscript_node(expr, &bracket, index);
                },
                Some(TokenKind::PlusPlus) | Some(TokenKind::MinusMinus) => {
                    let token = self.advance();
                    expr = postfix_node(token, expr);
                },
                _ => {
                    return Ok(expr);
                },
            }
        }
    }

    /// The arguments of a call of `callee`, behind its `(`.
    fn evaluate_args(&mut self, callee: Expr, left_paren: Token) -> (r: Result<Expr, Error>)
        requires
            old(self).wf(),
        ensures
            final(self).wf(),
            final(self)@.tokens == old(self)@.tokens,
            old(self)@.pos <= final(self)@.pos <= final(self)@.tokens.len(),
            ({
                let a = parse_args(old(self)@.tokens, old(self)@.pos);
                &&& final(self)@.pos == a.next
                &&& match a.result {
                    Ok(args) => r is Ok && r->Ok_0@ == node(
                        crate::common::expr::ExprKindView::Call {
                            left_paren: left_paren@,
                            callee: Box::new(callee@),
                            args,
                        },
                        ValueKind::Rvalue,
                    ),
                    Err(e) => r is Err && r->Err_0@ == e,
                }
            }),
        decreases left(old(self)@.tokens, old(self)@.pos), 120nat, 0nat,
    {
        proof {
            reveal(parse_args);
            reveal(parse_arg_list);
        }
        let mut args: Vec<Expr> = Vec::new();
        if self.check(TokenKind::RightParen) {
            self.advance();
            assert(expr_views(args@) =~= Seq::<ExprView>::empty());
            return Ok(call_node(left_paren, callee, args));
        }
        let ghost whole = parse_args(old(self)@.tokens, old(self)@.pos);
        assert(expr_views(args@) =~= Seq::<ExprView>::empty());
        loop
            invariant
                self.wf(),
                self@.tokens == old(self)@.tokens,
                old(self)@.pos <= self@.pos,
                whole == parse_args(old(self)@.tokens, old(self)@.pos),
                whole == parse_arg_list(self@.tokens, self@.pos, expr_views(args@)),
                left(self@.tokens, self@.pos) <= left(old(self)@.tokens, old(self)@.pos),
            decreases left(self@.tokens, self@.pos),
        {
            proof {
                reveal(parse_arg_list);
                reveal(parse_expression);
            }
            let ghost before = expr_views(args@);
            let arg = self.expression()?;
            args.push(arg);
            assert(expr_views(args@) =~= before.push(args@.last()@));
            if self.check(TokenKind::Comma) {
                self.advance();
            } else {
                self.consume(TokenKind::RightParen, "Expect ')' after function call")?;
                return Ok(call_node(left_paren, callee, args));
            }
        }
    }

    /// A literal, an identifier or an expression in parentheses.
    fn primary(&mut self) -> (r: Result<Expr, Error>)
        requires
            old(self).wf(),
        ensures
            final(self).wf(),
            parsed_expr(
                old(self)@,
                final(self)@,
                r,
                parse_primary(old(self)@.tokens, old(self)@.pos),
            ),
        decreases left(old(self)@.tokens, old(self)@.pos), 18nat, 0nat,
    {
        proof {
            reveal(parse_primary);
            reveal(parse_expression);
        }
        if self.pos >= self.tokens.len() {
            return Err(Error::nowhere("Expected expression found end of file"));
        }
        match &self.tokens[self.pos].token {
            TokenType::Number(n) => {
                let e = Expr::new(ExprKind::Number(*n), ValueKind::Rvalue);
                self.pos = self.pos + 1;
                Ok(e)
            },
            TokenType::CharLit(c) => {
                let e = Expr::new(ExprKind::CharLit(*c), ValueKind::Rvalue);
                self.pos = self.pos + 1;
                Ok(e)
            },
            TokenType::String(_) => {
                let token = self.advance();
                Ok(Expr::new(ExprKind::String(token), ValueKind::Lvalue))
            },
            TokenType::Ident(_) => {
                let token = self.advance();
                Ok(Expr::new(ExprKind::Ident(token), ValueKind::Lvalue))
            },
            TokenType::LeftParen => {
                self.advance();
                let expr = self.expression()?;
                self.consume(TokenKind::RightParen, "missing closing ')'")?;
                Ok(grouping_node(expr))
            },
            other => {
                let mut msg = owned("Expected expression found: ");
                let text = other.text();
                msg.append(text.as_str());
                Err(Error::with_message(&self.tokens[self.pos], msg))
            },
        }
    }

    /// Whether a type keyword is read next.
    fn check_type(&self) -> (r: bool)
        requires
            self.wf(),
        ensures
            r == type_at(self@.tokens, self@.pos),
    {
        match self.peek() {
            Some(kind) => type_of(kind).is_some(),
            None => false,
        }
    }

    /// The `*`s behind a type.
    fn parse_ptr(&mut self, type_decl: Types) -> (r: Types)
        requires
            old(self).wf(),
            type_decl.wf(),
        ensures
            final(self).wf(),
            final(self)@.tokens == old(self)@.tokens,
            old(self)@.pos <= final(self)@.pos <= final(self)@.tokens.len(),
            parse_pointers(old(self)@.tokens, old(self)@.pos, type_decl) == done(
                r,
                final(self)@.pos,
            ),
            r.wf(),
    {
        let mut t = type_decl;
        let ghost whole = parse_pointers(old(self)@.tokens, old(self)@.pos, type_decl);
        while self.check(TokenKind::Star)
            invariant
                self.wf(),
                t.wf(),
                self@.tokens == old(self)@.tokens,
                old(self)@.pos <= self@.pos,
                whole == parse_pointers(self@.tokens, self@.pos, t),
            decreases left(self@.tokens, self@.pos),
        {
            proof {
                reveal(parse_pointers);
            }
            self.advance();
            t.pointer_to();
        }
        proof {
            reveal(parse_pointers);
        }
        t
    }

    /// The `[n]` behind a name, if there is one.
    fn parse_arr(&mut self, type_decl: Types) -> (r: Result<Types, Error>)
        requires
            old(self).wf(),
            type_decl.wf(),
        ensures
            final(self).wf(),
            final(self)@.tokens == old(self)@.tokens,
            old(self)@.pos <= final(self)@.pos <= final(self)@.tokens.len(),
            final(self)@.pos == parse_array(old(self)@.tokens, old(self)@.pos, type_decl).next,
            match parse_array(old(self)@.tokens, old(self)@.pos, type_decl).result {
                Ok(t) => r == Ok::<Types, Error>(t) && t.wf(),
                Err(e) => r is Err && r->Err_0@ == e,
            },
    {
        if !self.check(TokenKind::LeftBracket) {
            return Ok(type_decl);
        }
        self.advance();
        let size = self.consume(TokenKind::Number, "Expect array size")?;
        self.consume(TokenKind::RightBracket, "Expect closing ']' after array initialization")?;
        let n = size.unwrap_num();
        if n <= 0 {
            return Err(Error::new(&size, "Can't initialize array with size <= 0"));
        }
        let element = type_decl.size();
        assert(n as u128 * element as u128 <= 0x8000_0000 * 0x1_0000_0000_0000_0000) by (nonlinear_arith)
            requires
                0 < n <= 0x7fff_ffff,
                element <= 0xffff_ffff_ffff_ffff,
        ;
        if n as u128 * element as u128 > usize::MAX as u128 {
            return Err(Error::new(&size, "array is too large"));
        }
        Ok(Types::Array { of: Box::new(type_decl), amount: n as usize })
    }

    /// A parameter: a type keyword, `*`s and a name.
    fn parameter(&mut self) -> (r: Result<(Types, Token), Error>)
        requires
            old(self).wf(),
        ensures
            final(self).wf(),
            final(self)@.tokens == old(self)@.tokens,
            old(self)@.pos <= final(self)@.pos <= final(self)@.tokens.len(),
            final(self)@.pos == parse_param(old(self)@.tokens, old(self)@.pos).next,
            match parse_param(old(self)@.tokens, old(self)@.pos).result {
                Ok(p) => r is Ok && p == (r->Ok_0.0, r->Ok_0.1@) && p.0.wf(),
                Err(e) => r is Err && r->Err_0@ == e,
            },
    {
        let base = match self.peek() {
            Some(kind) => type_of(kind),
            None => None,
        };
        match base {
            Some(t) => {
                self.advance();
                let t = self.parse_ptr(t);
                let name = self.consume(TokenKind::Ident, "Expect identifier after type")?;
                Ok((t, name))
            },
            None => {
                if self.pos < self.tokens.len() {
                    let token = self.advance();
                    Err(Error::new(&token, "Expect type as parameter type"))
                } else {
                    Err(Error::nowhere("Expect type as parameter type"))
                }
            },
        }
    }

    /// The parameters of a function, behind its `(`.
    fn parameters(&mut self) -> (r: Result<Vec<(Types, Token)>, Error>)
        requires
            old(self).wf(),
        ensures
            final(self).wf(),
            final(self)@.tokens == old(self)@.tokens,
            old(self)@.pos <= final(self)@.pos <= final(self)@.tokens.len(),
            final(self)@.pos == parse_param_list(old(self)@.tokens, old(self)@.pos).next,
            match parse_param_list(old(self)@.tokens, old(self)@.pos).result {
                Ok(p) => r is Ok && param_views(r->Ok_0@) == p && params_wf(p),
                Err(e) => r is Err && r->Err_0@ == e,
            },
    {
        let mut params: Vec<(Types, Token)> = Vec::new();
        if self.check(TokenKind::RightParen) {
            self.advance();
            assert(param_views(params@) =~= Seq::<(Types, TokenView)>::empty());
            return Ok(params);
        }
        let ghost whole = parse_param_list(old(self)@.tokens, old(self)@.pos);
        assert(param_views(params@) =~= Seq::<(Types, TokenView)>::empty());
        loop
            invariant
                self.wf(),
                self@.tokens == old(self)@.tokens,
                old(self)@.pos <= self@.pos,
                whole == parse_param_list(old(self)@.tokens, old(self)@.pos),
                whole == parse_params(self@.tokens, self@.pos, param_views(params@)),
                params_wf(param_views(params@)),
            decreases left(self@.tokens, self@.pos),
        {
            proof {
                reveal(parse_params);
            }
            let ghost before = param_views(params@);
            let param = self.parameter()?;
            params.push(param);
            proof {
                let last = params@.last();
                assert(param_views(params@) =~= before.push((last.0, last.1@)));
            }
            if self.check(TokenKind::Comma) {
                self.advance();
            } else {
                self.consume(TokenKind::RightParen, "Expect ')' after function parameters")?;
                return Ok(params);
            }
        }
    }

    /// A function, behind its name and `(`.
    fn function(&mut self, return_type: Types, name: Token) -> (r: Result<Stmt, Error>)
        requires
            old(self).wf(),
            return_type.wf(),
        ensures
            final(self).wf(),
            parsed_stmt(
                old(self)@,
                final(self)@,
                r,
                parse_function(old(self)@.tokens, old(self)@.pos, return_type, name@),
            ),
        decreases left(old(self)@.tokens, old(self)@.pos), 140nat, 0nat,
    {
        proof {
            reveal(parse_function);
            reveal(parse_block);
        }
        let params = self.parameters()?;
        if self.check(TokenKind::Semicolon) {
            self.advance();
            return Ok(Stmt::FunctionDeclaration(return_type, name, params));
        }
        self.consume(TokenKind::LeftBrace, "Expect '{' before function body.")?;
        let body = self.block()?;
        let ghost pv = param_views(params@);
        let ghost bv = stmt_views(body@);
        let ghost nv = name@;
        let r = Stmt::Function(return_type, name, params, body);
        assert(r@ == StmtView::Function(return_type, nv, pv, bv));
        assert(stmt_wf(r@));
        Ok(r)
    }

    /// The elements of an initializer list of `name`, behind its `{`.
    fn initializer_list(&mut self, name: &Token) -> (r: Result<Vec<Expr>, Error>)
        requires
            old(self).wf(),
        ensures
            final(self).wf(),
            final(self)@.tokens == old(self)@.tokens,
            old(self)@.pos <= final(self)@.pos <= final(self)@.tokens.len(),
            ({
                let l = parse_elements(
                    old(self)@.tokens,
                    old(self)@.pos,
                    name@,
                    Seq::<ExprView>::empty(),
                );
                &&& final(self)@.pos == l.next
                &&& match l.result {
                    Ok(elements) => r is Ok && expr_views(r->Ok_0@) == elements,
                    Err(e) => r is Err && r->Err_0@ == e,
                }
            }),
    {
        let mut exprs: Vec<Expr> = Vec::new();
        let ghost whole = parse_elements(
            old(self)@.tokens,
            old(self)@.pos,
            name@,
            Seq::<ExprView>::empty(),
        );
        assert(expr_views(exprs@) =~= Seq::<ExprView>::empty());
        loop
            invariant
                self.wf(),
                self@.tokens == old(self)@.tokens,
                old(self)@.pos <= self@.pos,
                whole == parse_elements(
                    old(self)@.tokens,
                    old(self)@.pos,
                    name@,
                    Seq::<ExprView>::empty(),
                ),
                whole == parse_elements(self@.tokens, self@.pos, name@, expr_views(exprs@)),
            decreases left(self@.tokens, self@.pos),
        {
            proof {
                reveal(parse_elements);
                reveal(parse_expression);
            }
            if exprs.len() >= 0x7fff_ffff {
                return Err(Error::new(name, "initializer-list is too long"));
            }
            let ghost before = expr_views(exprs@);
            let index = exprs.len() as i32;
            let value = self.expression()?;
            exprs.push(element_node(name, index, value));
            assert(expr_views(exprs@) =~= before.push(exprs@.last()@));
            if self.check(TokenKind::Comma) {
                self.advance();
            } else {
                self.consume(TokenKind::RightBrace, "Expect closing '}' after initializer-list")?;
                return Ok(exprs);
            }
        }
    }

    /// What follows the declarator of a variable.
    fn variable(&mut self, type_decl: Types, name: Token) -> (r: Result<Stmt, Error>)
        requires
            old(self).wf(),
            type_decl.wf(),
        ensures
            final(self).wf(),
            parsed_stmt(
                old(self)@,
                final(self)@,
                r,
                parse_variable(old(self)@.tokens, old(self)@.pos, type_decl, name@),
            ),
    {
        proof {
            reveal(parse_variable);
            reveal(parse_expression);
        }
        if self.check(TokenKind::Equal) {
            self.advance();
            if self.check(TokenKind::LeftBrace) {
                self.advance();
                let exprs = self.initializer_list(&name)?;
                self.consume(TokenKind::Semicolon, "Expect ';' after initializer-list")?;
                Ok(Stmt::InitList(type_decl, name, exprs, false))
            } else {
                let value = self.expression()?;
                self.consume(TokenKind::Semicolon, "Expect ';' after expression")?;
                Ok(Stmt::InitVar(type_decl, name, value, false))
            }
        } else {
            self.consume(TokenKind::Semicolon, "Expect ';' after variable declaration")?;
            Ok(Stmt::DeclareVar(type_decl, name, false))
        }
    }

    /// A declarator, from its type keyword on.
    fn declarator(&mut self) -> (r: Result<(Types, Token), Error>)
        requires
            old(self).wf(),
            type_at(old(self)@.tokens, old(self)@.pos),
        ensures
            final(self).wf(),
            final(self)@.tokens == old(self)@.tokens,
            old(self)@.pos <= final(self)@.pos <= final(self)@.tokens.len(),
            final(self)@.pos == parse_declarator(old(self)@.tokens, old(self)@.pos).next,
            match parse_declarator(old(self)@.tokens, old(self)@.pos).result {
                Ok(d) => r is Ok && d == (r->Ok_0.0, r->Ok_0.1@) && d.0.wf() && final(self)@.pos
                    > old(self)@.pos,
                Err(e) => r is Err && r->Err_0@ == e,
            },
    {
        let base = match type_of(self.tokens[self.pos].kind()) {
            Some(t) => t,
            None => unreached(),
        };
        self.advance();
        let t = self.parse_ptr(base);
        let name = self.consume(TokenKind::Ident, "Expect identifier following type-specifier")?;
        let t = self.parse_arr(t)?;
        Ok((t, name))
    }

    /// A declaration, from its type keyword on.
    fn type_declaration(&mut self) -> (r: Result<Stmt, Error>)
        requires
            old(self).wf(),
            type_at(old(self)@.tokens, old(self)@.pos),
        ensures
            final(self).wf(),
            parsed_stmt(
                old(self)@,
                final(self)@,
                r,
                parse_type_declaration(old(self)@.tokens, old(self)@.pos),
            ),
        decreases left(old(self)@.tokens, old(self)@.pos), 150nat, 0nat,
    {
        proof {
            reveal(parse_type_declaration);
            reveal(parse_function);
        }
        let (t, name) = self.declarator()?;
        if self.check(TokenKind::LeftParen) {
            self.advance();
            self.function(t, name)
        } else {
            self.variable(t, name)
        }
    }

    /// The statements and declarations of a block, behind its `{`.
    fn block(&mut self) -> (r: Result<Vec<Stmt>, Error>)
        requires
            old(self).wf(),
        ensures
            final(self).wf(),
            final(self)@.tokens == old(self)@.tokens,
            old(self)@.pos <= final(self)@.pos <= final(self)@.tokens.len(),
            ({
                let b = parse_block(old(self)@.tokens, old(self)@.pos, Seq::<StmtView>::empty());
                &&& final(self)@.pos == b.next
                &&& match b.result {
                    Ok(items) => r is Ok && stmt_views(r->Ok_0@) == items && stmts_wf(items),
                    Err(e) => r is Err && r->Err_0@ == e,
                }
            }),
        decreases left(old(self)@.tokens, old(self)@.pos), 210nat, 1nat,
    {
        let mut statements: Vec<Stmt> = Vec::new();
        let ghost whole = parse_block(old(self)@.tokens, old(self)@.pos, Seq::<StmtView>::empty());
        assert(stmt_views(statements@) =~= Seq::<StmtView>::empty());
        loop
            invariant
                self.wf(),
                self@.tokens == old(self)@.tokens,
                old(self)@.pos <= self@.pos,
                whole == parse_block(old(self)@.tokens, old(self)@.pos, Seq::<StmtView>::empty()),
                whole == parse_block(self@.tokens, self@.pos, stmt_views(statements@)),
                stmts_wf(stmt_views(statements@)),
            decreases left(self@.tokens, self@.pos),
        {
            proof {
                reveal(parse_block);
                reveal(parse_declaration);
            }
            if self.check(TokenKind::RightBrace) {
                self.advance();
                return Ok(statements);
            }
            if self.pos >= self.tokens.len() {
                return Err(Error::nowhere("Expect '}' after Block"));
            }
            let ghost before = stmt_views(statements@);
            let item = self.declaration()?;
            statements.push(item);
            assert(stmt_views(statements@) =~= before.push(statements@.last()@));
        }
    }

    /// A declaration or a statement.
    fn declaration(&mut self) -> (r: Result<Stmt, Error>)
        requires
            old(self).wf(),
        ensures
            final(self).wf(),
            parsed_stmt(
                old(self)@,
                final(self)@,
                r,
                parse_declaration(old(self)@.tokens, old(self)@.pos),
            ),
        decreases left(old(self)@.tokens, old(self)@.pos), 200nat, 0nat,
    {
        proof {
            reveal(parse_declaration);
            reveal(parse_type_declaration);
            reveal(parse_statement);
        }
        if self.check_type() {
            self.type_declaration()
        } else {
            self.statement()
        }
    }

    /// A statement.
    fn statement(&mut self) -> (r: Result<Stmt, Error>)
        requires
            old(self).wf(),
        ensures
            final(self).wf(),
            parsed_stmt(
                old(self)@,
                final(self)@,
                r,
                parse_statement(old(self)@.tokens, old(self)@.pos),
            ),
        decreases left(old(self)@.tokens, old(self)@.pos), 190nat, 0nat,
    {
        proof {
            reveal(parse_statement);
            reveal(parse_for);
            reveal(parse_if);
            reveal(parse_while);
            reveal(parse_block);
        }
        match self.peek() {
            Some(TokenKind::For) => {
                let keyword = self.advance();
                self.for_statement(keyword)
            },
            Some(TokenKind::Return) => {
                let keyword = self.advance();
                self.return_statement(keyword)
            },
            Some(TokenKind::If) => {
                let keyword = self.advance();
                self.if_statement(keyword)
            },
            Some(TokenKind::While) => {
                let keyword = self.advance();
                self.while_statement(keyword)
            },
            Some(TokenKind::LeftBrace) => {
                self.advance();
                let items = self.block()?;
                Ok(Stmt::Block(items))
            },
            _ => self.expression_statement(),
        }
    }

    /// An expression with its `;`.
    fn expression_statement(&mut self) -> (r: Result<Stmt, Error>)
        requires
            old(self).wf(),
        ensures
            final(self).wf(),
            parsed_stmt(
                old(self)@,
                final(self)@,
                r,
                parse_expression_statement(old(self)@.tokens, old(self)@.pos),
            ),
    {
        proof {
            reveal(parse_expression_statement);
            reveal(parse_expression);
        }
        let expr = self.expression()?;
        self.consume(TokenKind::Semicolon, "Expect ';' after expression")?;
        Ok(Stmt::Expr(expr))
    }

    /// A `return`, behind its keyword.
    fn return_statement(&mut self, keyword: Token) -> (r: Result<Stmt, Error>)
        requires
            old(self).wf(),
        ensures
            final(self).wf(),
            parsed_stmt(
                old(self)@,
                final(self)@,
                r,
                parse_return(old(self)@.tokens, old(self)@.pos, keyword@),
            ),
    {
        proof {
            reveal(parse_return);
            reveal(parse_expression);
        }
        if self.check(TokenKind::Semicolon) {
            self.advance();
            return Ok(Stmt::Return(keyword, None));
        }
        let value = self.expression()?;
        self.consume(TokenKind::Semicolon, "Expect ';' after return statement")?;
        Ok(Stmt::Return(keyword, Some(value)))
    }

    /// A condition in parentheses.
    fn condition(&mut self, open_msg: &str, close_msg: &str) -> (r: Result<Expr, Error>)
        requires
            old(self).wf(),
        ensures
            final(self).wf(),
            parsed_expr(
                old(self)@,
                final(self)@,
                r,
                parse_condition(old(self)@.tokens, old(self)@.pos, open_msg@, close_msg@),
            ),
            r is Ok ==> final(self)@.pos > old(self)@.pos,
    {
        proof {
            reveal(parse_condition);
            reveal(parse_expression);
        }
        self.consume(TokenKind::LeftParen, open_msg)?;
        let cond = self.expression()?;
        self.consume(TokenKind::RightParen, close_msg)?;
        Ok(cond)
    }

    /// An `if`, behind its keyword.
    fn if_statement(&mut self, keyword: Token) -> (r: Result<Stmt, Error>)
        requires
            old(self).wf(),
        ensures
            final(self).wf(),
            parsed_stmt(
                old(self)@,
                final(self)@,
                r,
                parse_if(old(self)@.tokens, old(self)@.pos, keyword@),
            ),
        decreases left(old(self)@.tokens, old(self)@.pos), 180nat, 0nat,
    {
        proof {
            reveal(parse_if);
            reveal(parse_statement);
        }
        let condition = self.condition(
            "Expect '(' after 'if'",
            "Expect closing ')' after if condition",
        )?;
        let then_branch = self.statement()?;
        if self.check(TokenKind::Else) {
            self.advance();
            let else_branch = self.statement()?;
            Ok(Stmt::If(keyword, condition, Box::new(then_branch), Some(Box::new(else_branch))))
        } else {
            Ok(Stmt::If(keyword, condition, Box::new(then_branch), None))
        }
    }

    /// A `while`, behind its keyword.
    fn while_statement(&mut self, keyword: Token) -> (r: Result<Stmt, Error>)
        requires
            old(self).wf(),
        ensures
            final(self).wf(),
            parsed_stmt(
                old(self)@,
                final(self)@,
                r,
                parse_while(old(self)@.tokens, old(self)@.pos, keyword@),
            ),
        decreases left(old(self)@.tokens, old(self)@.pos), 180nat, 0nat,
    {
        proof {
            reveal(parse_while);
            reveal(parse_statement);
        }
        let cond = self.condition(
            "Expect '(' after while-statement",
            "Expected closing ')' after while-condition",
        )?;
        let body = self.statement()?;
        Ok(Stmt::While(keyword, cond, Box::new(body)))
    }

    /// The condition of a `for`, with its `;`.
    fn for_condition(&mut self) -> (r: Result<Option<Expr>, Error>)
        requires
            old(self).wf(),
        ensures
            final(self).wf(),
            final(self)@.tokens == old(self)@.tokens,
            old(self)@.pos <= final(self)@.pos <= final(self)@.tokens.len(),
            final(self)@.pos == parse_for_condition(old(self)@.tokens, old(self)@.pos).next,
            match parse_for_condition(old(self)@.tokens, old(self)@.pos).result {
                Ok(c) => r is Ok && c == match r->Ok_0 {
                    Some(e) => Some(e@),
                    None => None::<ExprView>,
                },
                Err(e) => r is Err && r->Err_0@ == e,
            },
    {
        proof {
            reveal(parse_for_condition);
            reveal(parse_expression);
        }
        if self.check(TokenKind::Semicolon) {
            self.advance();
            return Ok(None);
        }
        let cond = self.expression()?;
        self.consume(TokenKind::Semicolon, "Expect ';' after for-condition")?;
        Ok(Some(cond))
    }

    /// The step of a `for`, with the closing `)`.
    fn for_step(&mut self) -> (r: Result<Option<Expr>, Error>)
        requires
            old(self).wf(),
        ensures
            final(self).wf(),
            final(self)@.tokens == old(self)@.tokens,
            old(self)@.pos <= final(self)@.pos <= final(self)@.tokens.len(),
            final(self)@.pos == parse_for_step(old(self)@.tokens, old(self)@.pos).next,
            match parse_for_step(old(self)@.tokens, old(self)@.pos).result {
                Ok(c) => r is Ok && c == match r->Ok_0 {
                    Some(e) => Some(e@),
                    None => None::<ExprView>,
                },
                Err(e) => r is Err && r->Err_0@ == e,
            },
    {
        proof {
            reveal(parse_for_step);
            reveal(parse_expression);
        }
        if self.check(TokenKind::RightParen) {
            self.advance();
            return Ok(None);
        }
        let step = self.expression()?;
        self.consume(TokenKind::RightParen, "Expect ')' after for-increment")?;
        Ok(Some(step))
    }

    /// A `for`, behind its keyword.
    fn for_statement(&mut self, keyword: Token) -> (r: Result<Stmt, Error>)
        requires
            old(self).wf(),
        ensures
            final(self).wf(),
            parsed_stmt(
                old(self)@,
                final(self)@,
                r,
                parse_for(old(self)@.tokens, old(self)@.pos, keyword@),
            ),
        decreases left(old(self)@.tokens, old(self)@.pos), 180nat, 0nat,
    {
        proof {
            reveal(parse_for);
            reveal(parse_statement);
            reveal(parse_type_declaration);
        }
        self.consume(TokenKind::LeftParen, "Expect '(' after for-statement")?;
        let init = if self.check_type() {
            Some(self.type_declaration()?)
        } else if self.check(TokenKind::Semicolon) {
            self.advance();
            None
        } else {
            Some(self.expression_statement()?)
        };
        let cond = self.for_condition()?;
        let step = self.for_step()?;
        let body = self.statement()?;
        Ok(for_node(keyword, init, cond, step, body))
    }

    /// A declaration at the top level of a program.
    fn external_declaration(&mut self) -> (r: Result<Stmt, Error>)
        requires
            old(self).wf(),
        ensures
            final(self).wf(),
            parsed_stmt(
                old(self)@,
                final(self)@,
                r,
                parse_external(old(self)@.tokens, old(self)@.pos),
            ),
    {
        if self.check_type() {
            self.type_declaration()
        } else if self.pos < self.tokens.len() {
            Err(Error::new(&self.tokens[self.pos], "Expected type-declaration or function"))
        } else {
            Err(Error::nowhere("Expected type-declaration or function"))
        }
    }

    /// Whether a statement may start with a token of kind `kind`.
    fn starts(kind: TokenKind) -> (r: bool)
        ensures
            r == starts_statement(kind),
    {
        kind == TokenKind::If || kind == TokenKind::Return || kind == TokenKind::While || kind
            == TokenKind::For || type_of(kind).is_some()
    }

    /// Skips to the place where the next statement seems to start.
    fn synchronize(&mut self)
        requires
            old(self).wf(),
        ensures
            final(self).wf(),
            final(self)@.tokens == old(self)@.tokens,
            final(self)@.pos == synchronize(old(self)@.tokens, old(self)@.pos),
            old(self)@.pos <= final(self)@.pos <= final(self)@.tokens.len(),
            old(self)@.pos < old(self)@.tokens.len() ==> final(self)@.pos > old(self)@.pos,
    {
        if self.pos >= self.tokens.len() {
            return ;
        }
        self.pos = self.pos + 1;
        while self.pos < self.tokens.len() && !(self.tokens[self.pos - 1].kind()
            == TokenKind::Semicolon && Self::starts(self.tokens[self.pos].kind()))
            invariant
                self.wf(),
                self.tokens == old(self).tokens,
                old(self).pos < self.pos,
                synchronize(old(self)@.tokens, old(self)@.pos) == resume_from(
                    self@.tokens,
                    self@.pos,
                ),
            decreases self.tokens.len() - self.pos,
        {
            self.pos = self.pos + 1;
        }
    }

    /// Parses a program. Gives its declarations or, if there is any, the
    /// diagnostics: after a diagnostic the parser goes on with what seems
    /// to be the next statement.
    pub fn parse(&mut self) -> (r: Result<Vec<Stmt>, Vec<Error>>)
        requires
            old(self).wf(),
        ensures
            final(self).wf(),
            final(self)@.tokens == old(self)@.tokens,
            final(self)@.pos >= final(self)@.tokens.len(),
            ({
                let p = parse_program(
                    old(self)@.tokens,
                    old(self)@.pos,
                    Program { stmts: Seq::empty(), errors: Seq::empty() },
                );
                match r {
                    Ok(stmts) => p.errors.len() == 0 && stmt_views(stmts@) == p.stmts && stmts_wf(
                        p.stmts,
                    ),
                    Err(errors) => errors@.len() > 0 && error_views(errors@) == p.errors,
                }
            }),
    {
        let mut statements: Vec<Stmt> = Vec::new();
        let mut errors: Vec<Error> = Vec::new();
        let ghost whole = parse_program(
            old(self)@.tokens,
            old(self)@.pos,
            Program { stmts: Seq::empty(), errors: Seq::empty() },
        );
        assert(stmt_views(statements@) =~= Seq::<StmtView>::empty());
        assert(error_views(errors@) =~= Seq::<ErrorView>::empty());
        while self.pos < self.tokens.len()
            invariant
                self.wf(),
                self@.tokens == old(self)@.tokens,
                whole == parse_program(
                    self@.tokens,
                    self@.pos,
                    Program { stmts: stmt_views(statements@), errors: error_views(errors@) },
                ),
                stmts_wf(stmt_views(statements@)),
            decreases left(self@.tokens, self@.pos),
        {
            proof {
                reveal(parse_program);
            }
            let ghost before = stmt_views(statements@);
            let ghost seen = error_views(errors@);
            let ghost at = self@.pos;
            let ghost d = parse_external(self@.tokens, at);
            match self.external_declaration() {
                Ok(v) => {
                    statements.push(v);
                    assert(stmt_views(statements@) =~= before.push(statements@.last()@));
                    assert(d.result is Ok && d.next > at && self@.pos == d.next);
                },
                Err(e) => {
                    errors.push(e);
                    assert(error_views(errors@) =~= seen.push(errors@.last()@));
                    self.synchronize();
                    assert(d.result is Err && self@.pos == synchronize(self@.tokens, d.next));
                    assert(self@.pos > at);
                },
            }
        }
        proof {
            reveal(parse_program);
        }
        if errors.len() > 0 {
            Err(errors)
        } else {
            Ok(statements)
        }
    }
}

} // verus!
