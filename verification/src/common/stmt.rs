use crate::common::expr::{expr_views, Expr, ExprView};
use crate::common::token::{Token, TokenView};
use crate::common::types::Types;
use vstd::prelude::*;

verus! {

/// The statements and declarations of a program. The `bool` of a variable
/// says whether it is global; the type checker fills it in.
#[derive(Debug, PartialEq)]
pub enum Stmt {
    DeclareVar(Types, Token, bool),
    InitVar(Types, Token, Expr, bool),
    InitList(Types, Token, Vec<Expr>, bool),
    Function(Types, Token, Vec<(Types, Token)>, Vec<Stmt>),
    FunctionDeclaration(Types, Token, Vec<(Types, Token)>),
    Return(Token, Option<Expr>),
    If(Token, Expr, Box<Stmt>, Option<Box<Stmt>>),
    While(Token, Expr, Box<Stmt>),
    Block(Vec<Stmt>),
    Expr(Expr),
}

pub enum StmtView {
    DeclareVar(Types, TokenView, bool),
    InitVar(Types, TokenView, ExprView, bool),
    InitList(Types, TokenView, Seq<ExprView>, bool),
    Function(Types, TokenView, Seq<(Types, TokenView)>, Seq<StmtView>),
    FunctionDeclaration(Types, TokenView, Seq<(Types, TokenView)>),
    Return(TokenView, Option<ExprView>),
    If(TokenView, ExprView, Box<StmtView>, Option<Box<StmtView>>),
    While(TokenView, ExprView, Box<StmtView>),
    Block(Seq<StmtView>),
    Expr(ExprView),
}

/// The views of a parameter list, in order.
pub open spec fn param_views(params: Seq<(Types, Token)>) -> Seq<(Types, TokenView)> {
    params.map_values(|p: (Types, Token)| (p.0, p.1@))
}

/// The views of a sequence of statements, in order.
pub open spec fn stmt_views(stmts: Seq<Stmt>) -> Seq<StmtView>
    decreases stmts,
{
    Seq::new(
        stmts.len(),
        |i: int|
            if 0 <= i < stmts.len() {
                stmt_view(stmts[i])
            } else {
                arbitrary()
            },
    )
}

pub open spec fn stmt_view(s: Stmt) -> StmtView
    decreases s,
{
    match s {
        Stmt::DeclareVar(t, name, global) => StmtView::DeclareVar(t, name@, global),
        Stmt::InitVar(t, name, e, global) => StmtView::InitVar(t, name@, e@, global),
        Stmt::InitList(t, name, exprs, global) => StmtView::InitList(
            t,
            name@,
            expr_views(exprs@),
            global,
        ),
        Stmt::Function(t, name, params, body) => StmtView::Function(
            t,
            name@,
            param_views(params@),
            stmt_views(body@),
        ),
        Stmt::FunctionDeclaration(t, name, params) => StmtView::FunctionDeclaration(
            t,
            name@,
            param_views(params@),
        ),
        Stmt::Return(keyword, value) => StmtView::Return(
            keyword@,
            match value {
                Some(e) => Some(e@),
                None => None,
            },
        ),
        Stmt::If(keyword, cond, then_branch, else_branch) => StmtView::If(
            keyword@,
            cond@,
            Box::new(stmt_view(*then_branch)),
            match else_branch {
                Some(s) => Some(Box::new(stmt_view(*s))),
                None => None,
            },
        ),
        Stmt::While(keyword, cond, body) => StmtView::While(
            keyword@,
            cond@,
            Box::new(stmt_view(*body)),
        ),
        Stmt::Block(stmts) => StmtView::Block(stmt_views(stmts@)),
        Stmt::Expr(e) => StmtView::Expr(e@),
    }
}

impl View for Stmt {
    type V = StmtView;

    open spec fn view(&self) -> StmtView {
        stmt_view(*self)
    }
}

/// A copy of a parameter list.
pub fn clone_params(params: &Vec<(Types, Token)>) -> (r: Vec<(Types, Token)>)
    ensures
        r@ == params@,
{
    let mut copies: Vec<(Types, Token)> = Vec::new();
    let mut i: usize = 0;
    while i < params.len()
        invariant
            i <= params.len(),
            copies@ == params@.take(i as int),
        decreases params.len() - i,
    {
        copies.push((params[i].0.clone(), params[i].1.clone()));
        i = i + 1;
        assert(copies@ =~= params@.take(i as int));
    }
    assert(params@.take(i as int) =~= params@);
    copies
}

} // verus!
