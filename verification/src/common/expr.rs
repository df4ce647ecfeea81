use crate::common::token::{Token, TokenView};
use crate::common::types::Types;
use vstd::prelude::*;

verus! {

/// The forms of an expression. `CastUp`, `CastDown`, `ScaleUp` and
/// `ScaleDown` are put in by the type checker only.
#[derive(Debug, PartialEq)]
pub enum ExprKind {
    Binary { left: Box<Expr>, token: Token, right: Box<Expr> },
    Unary { token: Token, right: Box<Expr> },
    Grouping { expr: Box<Expr> },
    Assign { l_expr: Box<Expr>, token: Token, r_expr: Box<Expr> },
    CompoundAssign { l_expr: Box<Expr>, token: Token, r_expr: Box<Expr> },
    Logical { left: Box<Expr>, token: Token, right: Box<Expr> },
    Call { left_paren: Token, callee: Box<Expr>, args: Vec<Expr> },
    CastUp { expr: Box<Expr> },
    CastDown { expr: Box<Expr> },
    ScaleUp { by: usize, expr: Box<Expr> },
    ScaleDown { shift_amount: usize, expr: Box<Expr> },
    PostUnary { token: Token, left: Box<Expr>, by_amount: usize },
    String(Token),
    Number(i32),
    CharLit(i8),
    Ident(Token),
}

#[derive(Debug, PartialEq, Eq, Clone, Copy, Structural)]
pub enum ValueKind {
    Lvalue,
    Rvalue,
}

/// An expression: its form, its type once the type checker has found it,
/// and whether it names a storage location.
#[derive(Debug, PartialEq)]
pub struct Expr {
    pub kind: ExprKind,
    pub type_decl: Option<Types>,
    pub value_kind: ValueKind,
}

pub enum ExprKindView {
    Binary { left: Box<ExprView>, token: TokenView, right: Box<ExprView> },
    Unary { token: TokenView, right: Box<ExprView> },
    Grouping { expr: Box<ExprView> },
    Assign { l_expr: Box<ExprView>, token: TokenView, r_expr: Box<ExprView> },
    CompoundAssign { l_expr: Box<ExprView>, token: TokenView, r_expr: Box<ExprView> },
    Logical { left: Box<ExprView>, token: TokenView, right: Box<ExprView> },
    Call { left_paren: TokenView, callee: Box<ExprView>, args: Seq<ExprView> },
    CastUp { expr: Box<ExprView> },
    CastDown { expr: Box<ExprView> },
    ScaleUp { by: usize, expr: Box<ExprView> },
    ScaleDown { shift_amount: usize, expr: Box<ExprView> },
    PostUnary { token: TokenView, left: Box<ExprView>, by_amount: usize },
    String(TokenView),
    Number(i32),
    CharLit(i8),
    Ident(TokenView),
}

pub struct ExprView {
    pub kind: ExprKindView,
    pub type_decl: Option<Types>,
    pub value_kind: ValueKind,
}

/// The views of a sequence of expressions, in order.
pub open spec fn expr_views(exprs: Seq<Expr>) -> Seq<ExprView>
    decreases exprs,
{
    Seq::new(
        exprs.len(),
        |i: int|
            if 0 <= i < exprs.len() {
                expr_view(exprs[i])
            } else {
                arbitrary()
            },
    )
}

pub open spec fn expr_view(e: Expr) -> ExprView
    decreases e,
{
    ExprView { kind: kind_view(e.kind), type_decl: e.type_decl, value_kind: e.value_kind }
}

pub open spec fn kind_view(k: ExprKind) -> ExprKindView
    decreases k,
{
    match k {
        ExprKind::Binary { left, token, right } => ExprKindView::Binary {
            left: Box::new(expr_view(*left)),
            token: token@,
            right: Box::new(expr_view(*right)),
        },
        ExprKind::Unary { token, right } => ExprKindView::Unary {
            token: token@,
            right: Box::new(expr_view(*right)),
        },
        ExprKind::Grouping { expr } => ExprKindView::Grouping { expr: Box::new(expr_view(*expr)) },
        ExprKind::Assign { l_expr, token, r_expr } => ExprKindView::Assign {
            l_expr: Box::new(expr_view(*l_expr)),
            token: token@,
            r_expr: Box::new(expr_view(*r_expr)),
        },
        ExprKind::CompoundAssign { l_expr, token, r_expr } => ExprKindView::CompoundAssign {
            l_expr: Box::new(expr_view(*l_expr)),
            token: token@,
            r_expr: Box::new(expr_view(*r_expr)),
        },
        ExprKind::Logical { left, token, right } => ExprKindView::Logical {
            left: Box::new(expr_view(*left)),
            token: token@,
            right: Box::new(expr_view(*right)),
        },
        ExprKind::Call { left_paren, callee, args } => ExprKindView::Call {
            left_paren: left_paren@,
            callee: Box::new(expr_view(*callee)),
            args: expr_views(args@),
        },
        ExprKind::CastUp { expr } => ExprKindView::CastUp { expr: Box::new(expr_view(*expr)) },
        ExprKind::CastDown { expr } => ExprKindView::CastDown { expr: Box::new(expr_view(*expr)) },
        ExprKind::ScaleUp { by, expr } => ExprKindView::ScaleUp {
            by,
            expr: Box::new(expr_view(*expr)),
        },
        ExprKind::ScaleDown { shift_amount, expr } => ExprKindView::ScaleDown {
            shift_amount,
            expr: Box::new(expr_view(*expr)),
        },
        ExprKind::PostUnary { token, left, by_amount } => ExprKindView::PostUnary {
            token: token@,
            left: Box::new(expr_view(*left)),
            by_amount,
        },
        ExprKind::String(token) => ExprKindView::String(token@),
        ExprKind::Number(n) => ExprKindView::Number(n),
        ExprKind::CharLit(c) => ExprKindView::CharLit(c),
        ExprKind::Ident(token) => ExprKindView::Ident(token@),
    }
}

impl View for Expr {
    type V = ExprView;

    open spec fn view(&self) -> ExprView {
        expr_view(*self)
    }
}

impl View for ExprKind {
    type V = ExprKindView;

    open spec fn view(&self) -> ExprKindView {
        kind_view(*self)
    }
}

impl Clone for Expr {
    fn clone(&self) -> (r: Self)
        ensures
            r@ == self@,
        decreases self,
    {
        Expr {
            kind: self.kind.clone(),
            type_decl: match &self.type_decl {
                Some(t) => Some(t.clone()),
                None => None,
            },
            value_kind: self.value_kind,
        }
    }
}

impl Clone for ExprKind {
    fn clone(&self) -> (r: Self)
        ensures
            r@ == self@,
        decreases self,
    {
        match self {
            ExprKind::Binary { left, token, right } => ExprKind::Binary {
                left: Box::new((**left).clone()),
                token: token.clone(),
                right: Box::new((**right).clone()),
            },
            ExprKind::Unary { token, right } => ExprKind::Unary {
                token: token.clone(),
                right: Box::new((**right).clone()),
            },
            ExprKind::Grouping { expr } => ExprKind::Grouping { expr: Box::new((**expr).clone()) },
            ExprKind::Assign { l_expr, token, r_expr } => ExprKind::Assign {
                l_expr: Box::new((**l_expr).clone()),
                token: token.clone(),
                r_expr: Box::new((**r_expr).clone()),
            },
            ExprKind::CompoundAssign { l_expr, token, r_expr } => ExprKind::CompoundAssign {
                l_expr: Box::new((**l_expr).clone()),
                token: token.clone(),
                r_expr: Box::new((**r_expr).clone()),
            },
            ExprKind::Logical { left, token, right } => ExprKind::Logical {
                left: Box::new((**left).clone()),
                token: token.clone(),
                right: Box::new((**right).clone()),
            },
            ExprKind::Call { left_paren, callee, args } => {
                let mut copies: Vec<Expr> = Vec::new();
                let mut i: usize = 0;
                while i < args.len()
                    invariant
                        i <= args.len(),
                        copies.len() == i,
                        *self matches ExprKind::Call { args: a, .. } && a == args,
                        forall|j: int| 0 <= j < i ==> (#[trigger] copies[j])@ == args[j]@,
                    decreases args.len() - i,
                {
                    copies.push(args[i].clone());
                    i = i + 1;
                }
                assert(expr_views(copies@) =~= expr_views(args@));
                ExprKind::Call {
                    left_paren: left_paren.clone(),
                    callee: Box::new((**callee).clone()),
                    args: copies,
                }
            },
            ExprKind::CastUp { expr } => ExprKind::CastUp { expr: Box::new((**expr).clone()) },
            ExprKind::CastDown { expr } => ExprKind::CastDown { expr: Box::new((**expr).clone()) },
            ExprKind::ScaleUp { by, expr } => ExprKind::ScaleUp {
                by: *by,
                expr: Box::new((**expr).clone()),
            },
            ExprKind::ScaleDown { shift_amount, expr } => ExprKind::ScaleDown {
                shift_amount: *shift_amount,
                expr: Box::new((**expr).clone()),
            },
            ExprKind::PostUnary { token, left, by_amount } => ExprKind::PostUnary {
                token: token.clone(),
                left: Box::new((**left).clone()),
                by_amount: *by_amount,
            },
            ExprKind::String(token) => ExprKind::String(token.clone()),
            ExprKind::Number(n) => ExprKind::Number(*n),
            ExprKind::CharLit(c) => ExprKind::CharLit(*c),
            ExprKind::Ident(token) => ExprKind::Ident(token.clone()),
        }
    }
}

impl Expr {
    /// An expression that the type checker has not seen yet.
    pub fn new(kind: ExprKind, value_kind: ValueKind) -> (r: Self)
        ensures
            r == (Expr { kind, type_decl: None, value_kind }),
    {
        Expr { type_decl: None, kind, value_kind }
    }
}

} // verus!
