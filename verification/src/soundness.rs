//! What holds of every expression that the type checker has annotated.
use crate::common::expr::{ExprKindView, ExprView, ValueKind};
use crate::common::stmt::StmtView;
use crate::common::token::{TokenKind, TokenView};
use crate::common::types::Types;
use crate::semantics::{
    argument, as_rvalue, assign_rule, binary_node, binary_rule, bound_params, call_rule, cast_up,
    check_else, check_function, check_if, check_program, check_stmt, check_stmts, compound_rule,
    condition, converted, decayed, declare_var_rule, entered, expression_rule,
    function_declaration_rule, function_end, function_head, grown_frame, implicit_return,
    init_list_rule, init_var_rule, initializer, log2_floor, logical_rule, params_wf, promoted,
    return_rule, scaled, signature_of, signature_wf, stmt_wf, stmts_wf, string_rule, typed_args,
    typed_assign, typed_binary, typed_call, typed_compound, typed_expr, typed_form,
    typed_grouping, typed_list, typed_logical, typed_postunary, typed_unary, unary_rule,
    with_type, Operand, ScopeView, State, Typed,
};
use vstd::prelude::*;

verus! {

/// Whether `p` holds of `e` and of every expression inside it. The second
/// argument of `p` says whether the expression is what a `ScaleDown`
/// divides.
pub open spec fn all_nodes(e: ExprView, divided: bool, p: spec_fn(ExprView, bool) -> bool) -> bool
    decreases e,
{
    &&& p(e, divided)
    &&& match e.kind {
        ExprKindView::Binary { left, token, right } => all_nodes(*left, false, p) && all_nodes(
            *right,
            false,
            p,
        ),
        ExprKindView::Logical { left, token, right } => all_nodes(*left, false, p) && all_nodes(
            *right,
            false,
            p,
        ),
        ExprKindView::Assign { l_expr, token, r_expr } => all_nodes(*l_expr, false, p)
            && all_nodes(*r_expr, false, p),
        ExprKindView::CompoundAssign { l_expr, token, r_expr } => all_nodes(*l_expr, false, p)
            && all_nodes(*r_expr, false, p),
        ExprKindView::Unary { token, right } => all_nodes(*right, false, p),
        ExprKindView::Grouping { expr } => all_nodes(*expr, false, p),
        ExprKindView::CastUp { expr } => all_nodes(*expr, false, p),
        ExprKindView::CastDown { expr } => all_nodes(*expr, false, p),
        ExprKindView::ScaleUp { by, expr } => all_nodes(*expr, false, p),
        ExprKindView::ScaleDown { shift_amount, expr } => all_nodes(*expr, true, p),
        ExprKindView::PostUnary { token, left, by_amount } => all_nodes(*left, false, p),
        ExprKindView::Call { left_paren, callee, args } => all_nodes(*callee, false, p)
            && each_node(args, p),
        _ => true,
    }
}

/// Whether `p` holds of every one of `exprs` and of every expression
/// inside them.
pub open spec fn each_node(exprs: Seq<ExprView>, p: spec_fn(ExprView, bool) -> bool) -> bool
    decreases exprs,
{
    if exprs.len() == 0 {
        true
    } else {
        each_node(exprs.drop_last(), p) && all_nodes(exprs.last(), false, p)
    }
}

/// What holds of each of `exprs` holds of them all.
pub proof fn lemma_each_node(exprs: Seq<ExprView>, p: spec_fn(ExprView, bool) -> bool)
    requires
        forall|i: int| 0 <= i < exprs.len() ==> #[trigger] all_nodes(exprs[i], false, p),
    ensures
        each_node(exprs, p),
    decreases exprs.len(),
{
    if exprs.len() > 0 {
        assert forall|i: int| 0 <= i < exprs.drop_last().len() implies #[trigger] all_nodes(
            exprs.drop_last()[i],
            false,
            p,
        ) by {
            assert(all_nodes(exprs[i], false, p));
        }
        lemma_each_node(exprs.drop_last(), p);
        assert(all_nodes(exprs[exprs.len() - 1], false, p));
    }
}

/// Size of the type that an expression is annotated with.
pub open spec fn size_of(e: ExprView) -> nat {
    e.type_decl->Some_0.spec_size()
}

pub open spec fn is_pointer(e: ExprView) -> bool {
    e.type_decl matches Some(Types::Pointer(_))
}

/// What the pointer that `e` is annotated as points to.
pub open spec fn pointee(e: ExprView) -> Types {
    *e.type_decl->Some_0->Pointer_0
}

/// The expression has a type.
pub open spec fn has_type(e: ExprView) -> bool {
    e.type_decl is Some
}

/// A cast up does not make the value smaller, and a cast down does not
/// make it larger.
pub open spec fn cast_fits(e: ExprView) -> bool {
    match e.kind {
        ExprKindView::CastUp { expr } => size_of(e) >= size_of(*expr),
        ExprKindView::CastDown { expr } => size_of(e) <= size_of(*expr),
        _ => true,
    }
}

/// `e` is multiplied by the size of `element`, if that is more than 1.
pub open spec fn scaled_by(e: ExprView, element: Types) -> bool {
    element.spec_size() > 1 ==> (e.kind matches ExprKindView::ScaleUp { by, .. } && by
        == element.spec_size())
}

/// A binary operator with a pointer among its operands is `-`, `==` or
/// `!=` on two pointers, or `+` or `-` on a pointer and an integer that
/// is scaled by the size of what the pointer points to; `-` takes the
/// pointer on its left.
pub open spec fn pointer_arithmetic(e: ExprView) -> bool {
    match e.kind {
        ExprKindView::Binary { left, token, right } => {
            let op = token.token.kind;
            if is_pointer(*left) && is_pointer(*right) {
                op == TokenKind::Minus || op == TokenKind::EqualEqual || op == TokenKind::BangEqual
            } else if is_pointer(*left) {
                (op == TokenKind::Plus || op == TokenKind::Minus) && scaled_by(
                    *right,
                    pointee(*left),
                )
            } else if is_pointer(*right) {
                op == TokenKind::Plus && scaled_by(*left, pointee(*right))
            } else {
                true
            }
        },
        _ => true,
    }
}

/// Whether `e` is the difference of two pointers.
pub open spec fn is_difference(e: ExprView) -> bool {
    e.kind matches ExprKindView::Binary { left, token, right } && token.token.kind
        == TokenKind::Minus && is_pointer(*left) && is_pointer(*right)
}

/// A difference of pointers has type `long` and is divided by the size of
/// what the pointers point to; nothing else is divided.
pub open spec fn difference_scaled(e: ExprView, divided: bool) -> bool {
    &&& is_difference(e) ==> divided && e.type_decl == Some(Types::Long)
    &&& divided ==> is_difference(e)
    &&& match e.kind {
        ExprKindView::ScaleDown { shift_amount, expr } => {
            &&& e.type_decl == Some(Types::Long)
            &&& expr.kind matches ExprKindView::Binary { left, token, right } && shift_amount
                == log2_floor(pointee(*left).spec_size())
        },
        _ => true,
    }
}

/// What holds of every node of a checked expression.
pub open spec fn node_sound(e: ExprView, divided: bool) -> bool {
    &&& has_type(e)
    &&& cast_fits(e)
    &&& pointer_arithmetic(e)
    &&& difference_scaled(e, divided)
}

pub open spec fn soundness() -> spec_fn(ExprView, bool) -> bool {
    |e: ExprView, divided: bool| node_sound(e, divided)
}

/// Whether the expression is annotated as the type checker annotates.
pub open spec fn sound(e: ExprView) -> bool {
    all_nodes(e, false, soundness())
}

/// An operand as the rules of the type checker take it: annotated with its
/// type, which is well formed, sound, and neither a cast nor divided.
pub open spec fn operand_sound(o: Operand) -> bool {
    &&& sound(o.expr)
    &&& o.expr.type_decl == Some(o.ty)
    &&& o.ty.wf()
    &&& !(o.expr.kind is CastUp)
    &&& !(o.expr.kind is CastDown)
}

/// An operand after the rules have converted it: it may be a cast.
pub open spec fn converted_sound(e: ExprView, ty: Types) -> bool {
    sound(e) && e.type_decl == Some(ty) && ty.wf()
}

pub proof fn lemma_log2_floor_bound(n: nat)
    ensures
        log2_floor(n) <= n,
    decreases n,
{
    if n > 1 {
        lemma_log2_floor_bound(n / 2);
    }
}

/// An expression stays sound when it is marked as a value or as a storage
/// location.
proof fn lemma_marked_sound(o: Operand, kind: ValueKind)
    requires
        operand_sound(o),
    ensures
        operand_sound(Operand { expr: ExprView { value_kind: kind, ..o.expr }, ty: o.ty }),
{
    let e = o.expr;
    let m = ExprView { value_kind: kind, ..o.expr };
    assert(node_sound(m, false));
    assert(all_nodes(m, false, soundness()));
}

/// An operand stays sound when its array decays to a pointer.
proof fn lemma_decayed_sound(o: Operand)
    requires
        operand_sound(o),
    ensures
        operand_sound(decayed(o)),
        !(decayed(o).ty is Array),
{
    let d = decayed(o);
    if o.ty is Array {
        assert(node_sound(d.expr, false));
        assert(all_nodes(d.expr, false, soundness()));
    }
}

/// An operand stays sound when it is promoted to `int`.
proof fn lemma_promoted_sound(o: Operand)
    requires
        operand_sound(o),
    ensures
        converted_sound(promoted(o).expr, promoted(o).ty),
        !(o.ty is Array) ==> !(promoted(o).ty is Array),
        promoted(o).ty is Pointer <==> o.ty is Pointer,
        promoted(o).ty is Pointer ==> promoted(o) == o,
        promoted(o).ty != Types::Char,
        o.ty != Types::Void ==> promoted(o).ty != Types::Void,
{
    let p = promoted(o);
    if o.ty == Types::Char {
        assert(node_sound(p.expr, false));
        assert(all_nodes(p.expr, false, soundness()));
    }
}

/// A sound expression of type `from` stays sound when it is converted to
/// `target`.
proof fn lemma_converted_sound(e: ExprView, target: Types, from: Types)
    requires
        converted_sound(e, from),
        target.wf(),
    ensures
        converted_sound(converted(e, target, from), if from.spec_size()
            == target.spec_size() {
            from
        } else {
            target
        }),
{
    let c = converted(e, target, from);
    if from.spec_size() != target.spec_size() {
        assert(node_sound(c, false));
        assert(all_nodes(c, false, soundness()));
    }
}

/// A sound expression that is no pointer stays sound when it is scaled.
proof fn lemma_scaled_sound(e: ExprView, ty: Types, element: Types)
    requires
        converted_sound(e, ty),
        element.wf(),
    ensures
        converted_sound(scaled(e, element), ty),
        scaled_by(scaled(e, element), element),
{
    let s = scaled(e, element);
    lemma_size_fits(element);
    if element.spec_size() > 1 {
        assert(node_sound(s, false));
        assert(all_nodes(s, false, soundness()));
    }
}

/// The size of a well-formed type is a number that the machine holds.
pub proof fn lemma_size_fits(t: Types)
    requires
        t.wf(),
    ensures
        t.spec_size() <= usize::MAX,
{
}

/// The node of a binary operator on sound operands is sound.
proof fn lemma_binary_rule_sound(e: ExprView, l: Operand, token: TokenView, r: Operand)
    requires
        operand_sound(l),
        operand_sound(r),
        binary_rule(l, token, r) is Ok,
    ensures
        ({
            let o = binary_rule(l, token, r)->Ok_0;
            &&& operand_sound(Operand { expr: binary_node(e, token, o), ty: o.ty })
            &&& converted_sound(o.right, o.right.type_decl->Some_0)
        }),
{
    reveal(binary_rule);
    let o = binary_rule(l, token, r)->Ok_0;
    let la = Operand { expr: as_rvalue(l.expr), ty: l.ty };
    let ra = Operand { expr: as_rvalue(r.expr), ty: r.ty };
    lemma_marked_sound(l, ValueKind::Rvalue);
    lemma_marked_sound(r, ValueKind::Rvalue);
    lemma_decayed_sound(la);
    lemma_decayed_sound(ra);
    let l1 = decayed(la);
    let r1 = decayed(ra);
    lemma_promoted_sound(l1);
    lemma_promoted_sound(r1);
    let l2 = promoted(l1);
    let r2 = promoted(r1);
    let plain = ExprView {
        kind: ExprKindView::Binary {
            left: Box::new(o.left),
            token,
            right: Box::new(o.right),
        },
        type_decl: Some(o.ty),
        value_kind: e.value_kind,
    };
    match (l2.ty, r2.ty) {
        (Types::Pointer(inner), Types::Pointer(_)) => {
            lemma_size_fits(*inner);
            lemma_log2_floor_bound(inner.spec_size());
            assert(node_sound(plain, o.scale is Some));
            assert(all_nodes(plain, o.scale is Some, soundness()));
        },
        (Types::Pointer(inner), _) => {
            lemma_scaled_sound(r2.expr, r2.ty, *inner);
            assert(node_sound(plain, false));
            assert(all_nodes(plain, false, soundness()));
        },
        (_, Types::Pointer(inner)) => {
            lemma_scaled_sound(l2.expr, l2.ty, *inner);
            assert(node_sound(plain, false));
            assert(all_nodes(plain, false, soundness()));
        },
        _ => {
            if l2.ty.spec_size() > r2.ty.spec_size() {
                let c = cast_up(r2.expr, l2.ty);
                assert(node_sound(c, false));
                assert(all_nodes(c, false, soundness()));
            } else if l2.ty.spec_size() < r2.ty.spec_size() {
                let c = cast_up(l2.expr, r2.ty);
                assert(node_sound(c, false));
                assert(all_nodes(c, false, soundness()));
            }
            assert(node_sound(plain, false));
            assert(all_nodes(plain, false, soundness()));
        },
    }
    let n = binary_node(e, token, o);
    assert(node_sound(n, false));
    assert(all_nodes(n, false, soundness()));
}

/// `&&` or `||` on sound operands leaves them sound.
proof fn lemma_logical_rule_sound(l: Operand, token: TokenView, r: Operand)
    requires
        operand_sound(l),
        operand_sound(r),
        logical_rule(l, token, r) is Ok,
    ensures
        ({
            let o = logical_rule(l, token, r)->Ok_0;
            &&& sound(o.left)
            &&& sound(o.right)
            &&& o.ty == Types::Int
        }),
{
    reveal(logical_rule);
    lemma_marked_sound(l, ValueKind::Rvalue);
    lemma_marked_sound(r, ValueKind::Rvalue);
}

/// A unary operator on a sound operand leaves it sound.
proof fn lemma_unary_rule_sound(token: TokenView, r: Operand)
    requires
        operand_sound(r),
        unary_rule(token, r) is Ok,
    ensures
        ({
            let u = unary_rule(token, r)->Ok_0;
            &&& sound(u.right)
            &&& u.ty.wf()
        }),
{
    reveal(unary_rule);
    lemma_marked_sound(r, ValueKind::Rvalue);
    lemma_decayed_sound(r);
    let r1 = decayed(r);
    lemma_marked_sound(r1, ValueKind::Rvalue);
    lemma_marked_sound(r1, ValueKind::Lvalue);
    lemma_promoted_sound(Operand { expr: as_rvalue(r1.expr), ty: r1.ty });
}

/// An assignment of a sound value leaves it sound.
proof fn lemma_assign_rule_sound(l: Operand, token: TokenView, r: Operand)
    requires
        l.ty.wf(),
        operand_sound(r),
        assign_rule(l, token, r) is Ok,
    ensures
        ({
            let o = assign_rule(l, token, r)->Ok_0;
            &&& sound(o.expr)
            &&& o.ty == l.ty
        }),
{
    reveal(assign_rule);
    lemma_decayed_sound(r);
    let r1 = decayed(r);
    lemma_converted_sound(r1.expr, l.ty, r1.ty);
}

/// A compound assignment on sound operands leaves the right one sound.
proof fn lemma_compound_rule_sound(l: Operand, token: TokenView, r: Operand)
    requires
        operand_sound(l),
        operand_sound(r),
        compound_rule(l, token, r) is Ok,
    ensures
        ({
            let o = compound_rule(l, token, r)->Ok_0;
            &&& sound(o.expr)
            &&& o.ty == l.ty
        }),
{
    reveal(compound_rule);
    let op = crate::common::token::binary_of_compound(token.token.kind)->Some_0;
    lemma_binary_rule_sound(l.expr, l, token.with_kind(op), r);
    let o = binary_rule(l, token.with_kind(op), r)->Ok_0;
    reveal(assign_rule);
}

/// An argument of a call stays sound when it is converted.
proof fn lemma_argument_sound(o: Operand)
    requires
        operand_sound(o),
    ensures
        sound(argument(o).expr),
{
    lemma_decayed_sound(o);
    lemma_promoted_sound(decayed(o));
}

/// What holds of an expression that has been checked in a state whose
/// types are well formed: it is annotated with its type and sound, and
/// the types of the state after it are well formed.
pub open spec fn checked_sound(t: Typed) -> bool {
    operand_sound(Operand { expr: t.expr, ty: t.ty }) && t.st.types_wf()
}

/// A checked expression is sound.
pub proof fn lemma_typed_expr_sound(st: State, e: ExprView)
    requires
        st.types_wf(),
        typed_expr(st, e) is Ok,
    ensures
        checked_sound(typed_expr(st, e)->Ok_0),
    decreases e, 2nat,
{
    lemma_typed_form_sound(st, e);
}

proof fn lemma_typed_form_sound(st: State, e: ExprView)
    requires
        st.types_wf(),
        typed_form(st, e) is Ok,
    ensures
        checked_sound(typed_form(st, e)->Ok_0),
    decreases e, 1nat,
{
    let t = typed_form(st, e)->Ok_0;
    match e.kind {
        ExprKindView::Number(_) => {
            assert(node_sound(t.expr, false));
            assert(all_nodes(t.expr, false, soundness()));
        },
        ExprKindView::CharLit(_) => {
            assert(node_sound(t.expr, false));
            assert(all_nodes(t.expr, false, soundness()));
        },
        ExprKindView::String(token) => {
            reveal(string_rule);
            crate::common::text::lemma_utf8_len_bounds(token.token.text);
            assert(Types::Char.wf());
            assert(Types::Char.spec_size() == 1);
            assert(t.ty.wf()) by {
                let amount = t.ty->Array_amount;
                assert(amount as nat * 1 == amount as nat);
            }
            assert(node_sound(t.expr, false));
            assert(all_nodes(t.expr, false, soundness()));
        },
        ExprKindView::Ident(token) => {
            crate::semantics::lemma_lookup_wf(st, token.token.text);
            assert(node_sound(t.expr, false));
            assert(all_nodes(t.expr, false, soundness()));
        },
        ExprKindView::Grouping { .. } => lemma_grouping_sound(st, e),
        ExprKindView::Binary { .. } => lemma_binary_sound(st, e),
        ExprKindView::Logical { .. } => lemma_logical_sound(st, e),
        ExprKindView::Unary { .. } => lemma_unary_sound(st, e),
        ExprKindView::Assign { .. } => lemma_assign_sound(st, e),
        ExprKindView::CompoundAssign { .. } => lemma_compound_sound(st, e),
        ExprKindView::PostUnary { .. } => lemma_postunary_sound(st, e),
        ExprKindView::Call { .. } => lemma_call_sound(st, e),
        _ => {},
    }
}

proof fn lemma_grouping_sound(st: State, e: ExprView)
    requires
        st.types_wf(),
        e.kind is Grouping,
        typed_grouping(st, e) is Ok,
    ensures
        checked_sound(typed_grouping(st, e)->Ok_0),
    decreases e, 0nat,
{
    let inner = *e.kind->Grouping_expr;
    lemma_typed_expr_sound(st, inner);
    let t = typed_grouping(st, e)->Ok_0;
    assert(node_sound(t.expr, false));
    assert(all_nodes(t.expr, false, soundness()));
}

proof fn lemma_binary_sound(st: State, e: ExprView)
    requires
        st.types_wf(),
        e.kind is Binary,
        typed_binary(st, e) is Ok,
    ensures
        checked_sound(typed_binary(st, e)->Ok_0),
    decreases e, 0nat,
{
    let left = *e.kind->Binary_left;
    let right = *e.kind->Binary_right;
    let token = e.kind->Binary_token;
    lemma_typed_expr_sound(st, left);
    let l = typed_expr(st, left)->Ok_0;
    lemma_typed_expr_sound(l.st, right);
    let r = typed_expr(l.st, right)->Ok_0;
    lemma_binary_rule_sound(
        e,
        Operand { expr: l.expr, ty: l.ty },
        token,
        Operand { expr: r.expr, ty: r.ty },
    );
}

proof fn lemma_logical_sound(st: State, e: ExprView)
    requires
        st.types_wf(),
        e.kind is Logical,
        typed_logical(st, e) is Ok,
    ensures
        checked_sound(typed_logical(st, e)->Ok_0),
    decreases e, 0nat,
{
    let left = *e.kind->Logical_left;
    let right = *e.kind->Logical_right;
    let token = e.kind->Logical_token;
    lemma_typed_expr_sound(st, left);
    let l = typed_expr(st, left)->Ok_0;
    lemma_typed_expr_sound(l.st, right);
    let r = typed_expr(l.st, right)->Ok_0;
    lemma_logical_rule_sound(
        Operand { expr: l.expr, ty: l.ty },
        token,
        Operand { expr: r.expr, ty: r.ty },
    );
    let t = typed_logical(st, e)->Ok_0;
    assert(Types::Int.wf());
    assert(node_sound(t.expr, false));
    assert(all_nodes(t.expr, false, soundness()));
}

proof fn lemma_unary_sound(st: State, e: ExprView)
    requires
        st.types_wf(),
        e.kind is Unary,
        typed_unary(st, e) is Ok,
    ensures
        checked_sound(typed_unary(st, e)->Ok_0),
    decreases e, 0nat,
{
    let right = *e.kind->Unary_right;
    let token = e.kind->Unary_token;
    lemma_typed_expr_sound(st, right);
    let r = typed_expr(st, right)->Ok_0;
    lemma_unary_rule_sound(token, Operand { expr: r.expr, ty: r.ty });
    let t = typed_unary(st, e)->Ok_0;
    assert(node_sound(t.expr, false));
    assert(all_nodes(t.expr, false, soundness()));
}

proof fn lemma_assign_sound(st: State, e: ExprView)
    requires
        st.types_wf(),
        e.kind is Assign,
        typed_assign(st, e) is Ok,
    ensures
        checked_sound(typed_assign(st, e)->Ok_0),
    decreases e, 0nat,
{
    let left = *e.kind->Assign_l_expr;
    let right = *e.kind->Assign_r_expr;
    let token = e.kind->Assign_token;
    lemma_typed_expr_sound(st, left);
    let l = typed_expr(st, left)->Ok_0;
    lemma_typed_expr_sound(l.st, right);
    let r = typed_expr(l.st, right)->Ok_0;
    lemma_assign_rule_sound(
        Operand { expr: l.expr, ty: l.ty },
        token,
        Operand { expr: r.expr, ty: r.ty },
    );
    let t = typed_assign(st, e)->Ok_0;
    assert(node_sound(t.expr, false));
    assert(all_nodes(t.expr, false, soundness()));
}

proof fn lemma_compound_sound(st: State, e: ExprView)
    requires
        st.types_wf(),
        e.kind is CompoundAssign,
        typed_compound(st, e) is Ok,
    ensures
        checked_sound(typed_compound(st, e)->Ok_0),
    decreases e, 0nat,
{
    let left = *e.kind->CompoundAssign_l_expr;
    let right = *e.kind->CompoundAssign_r_expr;
    let token = e.kind->CompoundAssign_token;
    lemma_typed_expr_sound(st, left);
    let l = typed_expr(st, left)->Ok_0;
    lemma_typed_expr_sound(l.st, right);
    let r = typed_expr(l.st, right)->Ok_0;
    lemma_compound_rule_sound(
        Operand { expr: l.expr, ty: l.ty },
        token,
        Operand { expr: r.expr, ty: r.ty },
    );
    let t = typed_compound(st, e)->Ok_0;
    assert(node_sound(t.expr, false));
    assert(all_nodes(t.expr, false, soundness()));
}

proof fn lemma_postunary_sound(st: State, e: ExprView)
    requires
        st.types_wf(),
        e.kind is PostUnary,
        typed_postunary(st, e) is Ok,
    ensures
        checked_sound(typed_postunary(st, e)->Ok_0),
    decreases e, 0nat,
{
    let left = *e.kind->PostUnary_left;
    lemma_typed_expr_sound(st, left);
    let t = typed_postunary(st, e)->Ok_0;
    assert(node_sound(t.expr, false));
    assert(all_nodes(t.expr, false, soundness()));
}

/// The checked arguments of a call are sound.
proof fn lemma_typed_args_sound(st: State, args: Seq<ExprView>)
    requires
        st.types_wf(),
        typed_args(st, args) is Ok,
    ensures
        ({
            let a = typed_args(st, args)->Ok_0;
            &&& a.st.types_wf()
            &&& a.exprs.len() == args.len()
            &&& forall|i: int| 0 <= i < a.exprs.len() ==> sound(#[trigger] a.exprs[i])
        }),
    decreases args, 0nat,
{
    if args.len() > 0 {
        lemma_typed_args_sound(st, args.drop_last());
        let before = typed_args(st, args.drop_last())->Ok_0;
        lemma_typed_expr_sound(before.st, args.last());
        let t = typed_expr(before.st, args.last())->Ok_0;
        lemma_argument_sound(Operand { expr: t.expr, ty: t.ty });
    }
}

proof fn lemma_call_sound(st: State, e: ExprView)
    requires
        st.types_wf(),
        e.kind is Call,
        typed_call(st, e) is Ok,
    ensures
        checked_sound(typed_call(st, e)->Ok_0),
    decreases e, 0nat,
{
    let args = e.kind->Call_args;
    let callee = *e.kind->Call_callee;
    lemma_typed_args_sound(st, args);
    let a = typed_args(st, args)->Ok_0;
    reveal(call_rule);
    let t = typed_call(st, e)->Ok_0;
    let named = with_type(callee, t.ty);
    assert(node_sound(named, false));
    assert(all_nodes(named, false, soundness()));
    assert(node_sound(t.expr, false));
    assert forall|i: int| 0 <= i < a.exprs.len() implies #[trigger] all_nodes(
        a.exprs[i],
        false,
        soundness(),
    ) by {
        assert(sound(a.exprs[i]));
    }
    lemma_each_node(a.exprs, soundness());
    assert(all_nodes(t.expr, false, soundness()));
}

// ----- statements -------------------------------------------------------

/// Whether every expression of a statement is sound.
pub open spec fn stmt_sound(s: StmtView) -> bool
    decreases s,
{
    match s {
        StmtView::InitVar(_, _, e, _) => sound(e),
        StmtView::InitList(_, _, exprs, _) => forall|i: int|
            0 <= i < exprs.len() ==> sound(#[trigger] exprs[i]),
        StmtView::Function(_, _, _, body) => forall|i: int|
            0 <= i < body.len() ==> stmt_sound(#[trigger] body[i]),
        StmtView::Return(_, Some(e)) => sound(e),
        StmtView::If(_, cond, then_branch, else_branch) => sound(cond) && stmt_sound(*then_branch)
            && match else_branch {
            Some(other) => stmt_sound(*other),
            None => true,
        },
        StmtView::While(_, cond, body) => sound(cond) && stmt_sound(*body),
        StmtView::Block(stmts) => forall|i: int|
            0 <= i < stmts.len() ==> stmt_sound(#[trigger] stmts[i]),
        StmtView::Expr(e) => sound(e),
        _ => true,
    }
}

pub open spec fn stmts_sound(stmts: Seq<StmtView>) -> bool {
    forall|i: int| 0 <= i < stmts.len() ==> stmt_sound(#[trigger] stmts[i])
}

/// A well-formed type stays in a well-formed state when it is declared.
proof fn lemma_declare_wf(st: State, name: Seq<char>, t: Types)
    requires
        st.types_wf(),
        t.wf(),
    ensures
        st.declare(name, t).types_wf(),
{
    let d = st.declare(name, t);
    assert forall|i: int, n: Seq<char>|
        0 <= i < d.frames.len() && #[trigger] d.frames[i].contains_key(n) implies d.frames[i][n].wf() by {
        if i == st.frames.len() - 1 && n == name {
        } else {
            assert(st.frames[i].contains_key(n));
        }
    }
}

proof fn lemma_enter_wf(st: State, scope: ScopeView)
    requires
        st.types_wf(),
        scope matches ScopeView::Function(_, t) ==> t.wf(),
    ensures
        st.enter(scope).types_wf(),
{
    let d = st.enter(scope);
    assert forall|i: int, n: Seq<char>|
        0 <= i < d.frames.len() && #[trigger] d.frames[i].contains_key(n) implies d.frames[i][n].wf() by {
        if i < st.frames.len() {
            assert(st.frames[i].contains_key(n));
        }
    }
    assert forall|i: int| 0 <= i < d.scope.len() implies (#[trigger] d.scope[i] matches ScopeView::Function(
        _,
        t,
    ) ==> t.wf()) by {
        if i < st.scope.len() {
            assert(d.scope[i] == st.scope[i]);
        }
    }
}

proof fn lemma_leave_wf(st: State)
    requires
        st.types_wf(),
    ensures
        st.leave().types_wf(),
{
    let d = st.leave();
    assert forall|i: int, n: Seq<char>|
        0 <= i < d.frames.len() && #[trigger] d.frames[i].contains_key(n) implies d.frames[i][n].wf() by {
        assert(st.frames[i].contains_key(n));
    }
    assert forall|i: int| 0 <= i < d.scope.len() implies (#[trigger] d.scope[i] matches ScopeView::Function(
        _,
        t,
    ) ==> t.wf()) by {
        assert(d.scope[i] == st.scope[i]);
    }
}

proof fn lemma_grown_frame_wf(st: State, t: Types, at: TokenView)
    requires
        st.types_wf(),
    ensures
        grown_frame(st, t, at) matches Ok(grown) ==> grown.types_wf() && grown == (State {
            stack_sizes: grown.stack_sizes,
            ..st
        }),
{
    reveal(grown_frame);
}

proof fn lemma_signature_of_wf(return_type: Types, params: Seq<(Types, TokenView)>)
    requires
        return_type.wf(),
        params_wf(params),
    ensures
        signature_wf(signature_of(return_type, params)),
{
    let sig = signature_of(return_type, params);
    assert forall|i: int| 0 <= i < sig.params.len() implies (#[trigger] sig.params[i]).wf() by {
        assert(sig.params[i] == params[i].0);
    }
}

proof fn lemma_bound_params_wf(st: State, params: Seq<(Types, TokenView)>)
    requires
        st.types_wf(),
        params_wf(params),
    ensures
        bound_params(st, params) matches Ok(inner) ==> inner.types_wf(),
    decreases params.len(),
{
    if params.len() > 0 {
        lemma_bound_params_wf(st, params.drop_last());
        assert(params_wf(params.drop_last())) by {
            assert forall|i: int| 0 <= i < params.drop_last().len() implies (
            #[trigger] params.drop_last()[i]).0.wf() by {
                assert(params.drop_last()[i] == params[i]);
            }
        }
        match bound_params(st, params.drop_last()) {
            Ok(before) => {
                lemma_grown_frame_wf(before, params.last().0, params.last().1);
                match grown_frame(before, params.last().0, params.last().1) {
                    Ok(grown) => {
                        assert(params.last().0.wf());
                        lemma_declare_wf(grown, params.last().1.token.text, params.last().0);
                    },
                    Err(_) => {},
                }
            },
            Err(_) => {},
        }
    }
}

/// The checked expressions of an initializer list are sound.
proof fn lemma_typed_list_sound(st: State, exprs: Seq<ExprView>)
    requires
        st.types_wf(),
        typed_list(st, exprs) is Ok,
    ensures
        ({
            let l = typed_list(st, exprs)->Ok_0;
            &&& l.st.types_wf()
            &&& forall|i: int| 0 <= i < l.exprs.len() ==> sound(#[trigger] l.exprs[i])
        }),
    decreases exprs.len(),
{
    if exprs.len() > 0 {
        lemma_typed_list_sound(st, exprs.drop_last());
        let before = typed_list(st, exprs.drop_last())->Ok_0;
        lemma_typed_expr_sound(before.st, exprs.last());
    }
}

proof fn lemma_declare_var_sound(st: State, t: Types, name: TokenView)
    requires
        st.types_wf(),
        t.wf(),
    ensures
        declare_var_rule(st, t, name).st.types_wf(),
{
    reveal(declare_var_rule);
    lemma_declare_wf(st, name.token.text, t);
    lemma_grown_frame_wf(st, t, name);
    if grown_frame(st, t, name) is Ok {
        lemma_declare_wf(grown_frame(st, t, name)->Ok_0, name.token.text, t);
    }
}

proof fn lemma_init_var_sound(st: State, t: Types, name: TokenView, e: ExprView)
    requires
        st.types_wf(),
        t.wf(),
    ensures
        init_var_rule(st, t, name, e).st.types_wf(),
        init_var_rule(st, t, name, e).result matches Ok(s) ==> stmt_sound(s),
{
    reveal(init_var_rule);
    reveal(initializer);
    if typed_expr(st, e) is Ok {
        lemma_typed_expr_sound(st, e);
        let v = typed_expr(st, e)->Ok_0;
        let o = Operand { expr: v.expr, ty: v.ty };
        lemma_decayed_sound(o);
        lemma_converted_sound(decayed(o).expr, t, decayed(o).ty);
        lemma_declare_wf(v.st, name.token.text, t);
        lemma_grown_frame_wf(v.st, t, name);
        if grown_frame(v.st, t, name) is Ok {
            lemma_declare_wf(grown_frame(v.st, t, name)->Ok_0, name.token.text, t);
        }
    }
}

proof fn lemma_init_list_sound(st: State, t: Types, name: TokenView, exprs: Seq<ExprView>)
    requires
        st.types_wf(),
        t.wf(),
    ensures
        init_list_rule(st, t, name, exprs).st.types_wf(),
        init_list_rule(st, t, name, exprs).result matches Ok(s) ==> stmt_sound(s),
{
    reveal(init_list_rule);
    let declared = st.declare(name.token.text, t);
    lemma_declare_wf(st, name.token.text, t);
    lemma_grown_frame_wf(declared, t, name);
    if typed_list(declared, exprs) is Ok {
        lemma_typed_list_sound(declared, exprs);
    }
    if grown_frame(declared, t, name) is Ok {
        let grown = grown_frame(declared, t, name)->Ok_0;
        if typed_list(grown, exprs) is Ok {
            lemma_typed_list_sound(grown, exprs);
        }
    }
}

proof fn lemma_function_declaration_sound(
    st: State,
    t: Types,
    name: TokenView,
    params: Seq<(Types, TokenView)>,
)
    requires
        st.types_wf(),
        t.wf(),
        params_wf(params),
    ensures
        function_declaration_rule(st, t, name, params).st.types_wf(),
{
    reveal(function_declaration_rule);
    lemma_signature_of_wf(t, params);
}

proof fn lemma_function_head_wf(st: State, t: Types, name: TokenView, params: Seq<(Types, TokenView)>)
    requires
        st.types_wf(),
        t.wf(),
        params_wf(params),
    ensures
        match function_head(st, t, name, params) {
            Ok(head) => head.types_wf(),
            Err((at, _)) => at.types_wf(),
        },
{
    reveal(function_head);
    lemma_signature_of_wf(t, params);
}

proof fn lemma_return_sound(st: State, keyword: TokenView, value: Option<ExprView>)
    requires
        st.types_wf(),
    ensures
        return_rule(st, keyword, value).st.types_wf(),
        return_rule(st, keyword, value).result matches Ok(s) ==> stmt_sound(s),
{
    reveal(return_rule);
    crate::semantics::lemma_enclosing_function_wf(st);
    match value {
        Some(e) => {
            if typed_expr(st, e) is Ok && st.current_function() is Some {
                lemma_typed_expr_sound(st, e);
                let v = typed_expr(st, e)->Ok_0;
                let o = Operand { expr: v.expr, ty: v.ty };
                lemma_decayed_sound(o);
                lemma_converted_sound(
                    decayed(o).expr,
                    st.current_function()->Some_0.1,
                    decayed(o).ty,
                );
            }
        },
        None => {},
    }
}

proof fn lemma_condition_sound(st: State, keyword: TokenView, cond: ExprView, msg: Seq<char>)
    requires
        st.types_wf(),
    ensures
        condition(st, keyword, cond, msg) matches Ok(c) ==> sound(c.expr) && c.st.types_wf() && c.st
            == (State { labels: c.st.labels, label_count: c.st.label_count, ..st }),
{
    reveal(condition);
    if typed_expr(st, cond) is Ok {
        lemma_typed_expr_sound(st, cond);
        lemma_typed_expr_frame(st, cond);
    }
}

/// Checking an expression changes nothing of the state but the labels.
pub proof fn lemma_typed_expr_frame(st: State, e: ExprView)
    ensures
        typed_expr(st, e) matches Ok(t) ==> t.st == (State {
            labels: t.st.labels,
            label_count: t.st.label_count,
            ..st
        }),
    decreases e, 2nat,
{
    if typed_expr(st, e) is Ok {
        reveal(string_rule);
        match e.kind {
            ExprKindView::Grouping { expr } => lemma_typed_expr_frame(st, *expr),
            ExprKindView::Binary { left, token, right } => {
                lemma_typed_expr_frame(st, *left);
                lemma_typed_expr_frame(typed_expr(st, *left)->Ok_0.st, *right);
            },
            ExprKindView::Logical { left, token, right } => {
                lemma_typed_expr_frame(st, *left);
                lemma_typed_expr_frame(typed_expr(st, *left)->Ok_0.st, *right);
            },
            ExprKindView::Assign { l_expr, token, r_expr } => {
                lemma_typed_expr_frame(st, *l_expr);
                lemma_typed_expr_frame(typed_expr(st, *l_expr)->Ok_0.st, *r_expr);
            },
            ExprKindView::CompoundAssign { l_expr, token, r_expr } => {
                lemma_typed_expr_frame(st, *l_expr);
                lemma_typed_expr_frame(typed_expr(st, *l_expr)->Ok_0.st, *r_expr);
            },
            ExprKindView::Unary { token, right } => lemma_typed_expr_frame(st, *right),
            ExprKindView::PostUnary { token, left, by_amount } => lemma_typed_expr_frame(st, *left),
            ExprKindView::Call { left_paren, callee, args } => lemma_typed_args_frame(st, args),
            _ => {},
        }
    }
}

proof fn lemma_typed_args_frame(st: State, args: Seq<ExprView>)
    ensures
        typed_args(st, args) matches Ok(a) ==> a.st == (State {
            labels: a.st.labels,
            label_count: a.st.label_count,
            ..st
        }),
    decreases args, 0nat,
{
    if args.len() > 0 {
        lemma_typed_args_frame(st, args.drop_last());
        if typed_args(st, args.drop_last()) is Ok {
            lemma_typed_expr_frame(typed_args(st, args.drop_last())->Ok_0.st, args.last());
        }
    }
}

/// The checked statements of a scope are sound.
pub proof fn lemma_check_stmts_sound(st: State, stmts: Seq<StmtView>)
    requires
        st.types_wf(),
        stmts_wf(stmts),
    ensures
        check_stmts(st, stmts).st.types_wf(),
        check_stmts(st, stmts).result matches Ok(checked) ==> stmts_sound(checked),
    decreases stmts, 0nat,
{
    if stmts.len() > 0 {
        assert(stmts_wf(stmts.drop_last())) by {
            assert forall|i: int| 0 <= i < stmts.drop_last().len() implies stmt_wf(
                #[trigger] stmts.drop_last()[i],
            ) by {
                assert(stmts.drop_last()[i] == stmts[i]);
            }
        }
        lemma_check_stmts_sound(st, stmts.drop_last());
        let before = check_stmts(st, stmts.drop_last());
        match before.result {
            Ok(checked) => {
                assert(stmt_wf(stmts.last()));
                lemma_check_stmt_sound(before.st, stmts.last());
                let o = check_stmt(before.st, stmts.last());
                match o.result {
                    Ok(s) => {
                        assert forall|i: int| 0 <= i < checked.push(s).len() implies stmt_sound(
                            #[trigger] checked.push(s)[i],
                        ) by {
                            if i < checked.len() {
                                assert(checked.push(s)[i] == checked[i]);
                            }
                        }
                    },
                    Err(_) => {},
                }
            },
            Err(_) => {},
        }
    }
}

/// A checked statement is sound, and the types of the state after it are
/// well formed.
pub proof fn lemma_check_stmt_sound(st: State, s: StmtView)
    requires
        st.types_wf(),
        stmt_wf(s),
    ensures
        check_stmt(st, s).st.types_wf(),
        check_stmt(st, s).result matches Ok(checked) ==> stmt_sound(checked),
    decreases s, 1nat,
{
    match s {
        StmtView::DeclareVar(t, name, _) => {
            lemma_declare_var_sound(st, t, name);
            reveal(declare_var_rule);
        },
        StmtView::InitVar(t, name, e, _) => {
            lemma_init_var_sound(st, t, name, e);
        },
        StmtView::InitList(t, name, exprs, _) => {
            lemma_init_list_sound(st, t, name, exprs);
        },
        StmtView::FunctionDeclaration(t, name, params) => {
            lemma_function_declaration_sound(st, t, name, params);
            reveal(function_declaration_rule);
        },
        StmtView::Function(t, name, params, body) => {
            lemma_check_function_sound(st, s);
        },
        StmtView::Return(keyword, value) => {
            lemma_return_sound(st, keyword, value);
        },
        StmtView::Expr(e) => {
            reveal(expression_rule);
            if typed_expr(st, e) is Ok {
                lemma_typed_expr_sound(st, e);
            }
        },
        StmtView::Block(stmts) => {
            lemma_enter_wf(st, ScopeView::Block);
            lemma_check_stmts_sound(st.enter(ScopeView::Block), stmts);
            lemma_leave_wf(check_stmts(st.enter(ScopeView::Block), stmts).st);
        },
        StmtView::If(keyword, cond, then_branch, else_branch) => {
            let msg = crate::messages::void_condition();
            lemma_condition_sound(st, keyword, cond, msg);
            reveal(condition);
            match condition(st, keyword, cond, msg) {
                Ok(c) => {
                    lemma_check_stmt_sound(c.st, *then_branch);
                    let t = check_stmt(c.st, *then_branch);
                    if t.result is Ok {
                        let between = State { returns_all_paths: false, ..t.st };
                        match else_branch {
                            Some(other) => {
                                lemma_check_stmt_sound(between, *other);
                            },
                            None => {},
                        }
                        let f = check_else(between, else_branch);
                        assert(f.st.types_wf());
                        assert(f.result matches Ok(Some(x)) ==> stmt_sound(*x));
                    }
                },
                Err(_) => {},
            }
            assert(check_stmt(st, s) == check_if(st, s));
            assert(check_if(st, s).st.types_wf());
        },
        StmtView::While(keyword, cond, body) => {
            let msg = crate::messages::void_loop_condition();
            lemma_condition_sound(st, keyword, cond, msg);
            reveal(condition);
            match condition(st, keyword, cond, msg) {
                Ok(c) => {
                    lemma_check_stmt_sound(c.st, *body);
                },
                Err(_) => {},
            }
        },
    }
}

proof fn lemma_check_function_sound(st: State, s: StmtView)
    requires
        st.types_wf(),
        stmt_wf(s),
        s is Function,
    ensures
        check_function(st, s).st.types_wf(),
        check_function(st, s).result matches Ok(checked) ==> stmt_sound(checked),
    decreases s, 0nat,
{
    let t = s->Function_0;
    let name = s->Function_1;
    let params = s->Function_2;
    let body = s->Function_3;
    lemma_function_head_wf(st, t, name, params);
    match function_head(st, t, name, params) {
        Ok(head) => {
            lemma_enter_wf(head, ScopeView::Function(name.token.text, t));
            let inside = entered(head, t, name);
            lemma_bound_params_wf(inside, params);
            match bound_params(inside, params) {
                Ok(inner) => {
                    assert(stmts_wf(body));
                    lemma_check_stmts_sound(inner, body);
                    let o = check_stmts(inner, body);
                    lemma_leave_wf(o.st);
                    reveal(function_end);
                    match o.result {
                        Ok(checked) => {
                            let closing = implicit_return(name);
                            assert(sound(closing->Return_1->Some_0)) by {
                                let zero = closing->Return_1->Some_0;
                                assert(node_sound(zero, false));
                                assert(all_nodes(zero, false, soundness()));
                            }
                            assert forall|i: int|
                                0 <= i < checked.push(closing).len() implies stmt_sound(
                                #[trigger] checked.push(closing)[i],
                            ) by {
                                if i < checked.len() {
                                    assert(checked.push(closing)[i] == checked[i]);
                                }
                            }
                        },
                        Err(_) => {},
                    }
                },
                Err(_) => {},
            }
        },
        Err(_) => {},
    }
}

/// The statements of a checked program that passed are sound.
pub proof fn lemma_check_program_sound(st: State, stmts: Seq<StmtView>)
    requires
        st.types_wf(),
        stmts_wf(stmts),
    ensures
        check_program(st, stmts).st.types_wf(),
        stmts_sound(check_program(st, stmts).stmts),
    decreases stmts.len(),
{
    if stmts.len() > 0 {
        assert(stmts_wf(stmts.drop_last())) by {
            assert forall|i: int| 0 <= i < stmts.drop_last().len() implies stmt_wf(
                #[trigger] stmts.drop_last()[i],
            ) by {
                assert(stmts.drop_last()[i] == stmts[i]);
            }
        }
        lemma_check_program_sound(st, stmts.drop_last());
        let before = check_program(st, stmts.drop_last());
        assert(stmt_wf(stmts.last()));
        lemma_check_stmt_sound(before.st, stmts.last());
        let o = check_stmt(before.st, stmts.last());
        match o.result {
            Ok(s) => {
                assert forall|i: int| 0 <= i < before.stmts.push(s).len() implies stmt_sound(
                    #[trigger] before.stmts.push(s)[i],
                ) by {
                    if i < before.stmts.len() {
                        assert(before.stmts.push(s)[i] == before.stmts[i]);
                    }
                }
            },
            Err(_) => {},
        }
    }
}

// ----- what soundness says, piece by piece ------------------------------

pub open spec fn typed_nodes() -> spec_fn(ExprView, bool) -> bool {
    |e: ExprView, divided: bool| has_type(e)
}

pub open spec fn fitting_casts() -> spec_fn(ExprView, bool) -> bool {
    |e: ExprView, divided: bool| cast_fits(e)
}

pub open spec fn lawful_pointer_arithmetic() -> spec_fn(ExprView, bool) -> bool {
    |e: ExprView, divided: bool| pointer_arithmetic(e)
}

pub open spec fn scaled_differences() -> spec_fn(ExprView, bool) -> bool {
    |e: ExprView, divided: bool| difference_scaled(e, divided)
}

/// What holds of every node holds in every weaker form.
pub proof fn lemma_all_nodes_weaken(
    e: ExprView,
    divided: bool,
    p: spec_fn(ExprView, bool) -> bool,
    q: spec_fn(ExprView, bool) -> bool,
)
    requires
        forall|n: ExprView, d: bool| #[trigger] p(n, d) ==> q(n, d),
        all_nodes(e, divided, p),
    ensures
        all_nodes(e, divided, q),
    decreases e,
{
    match e.kind {
        ExprKindView::Binary { left, token, right } => {
            lemma_all_nodes_weaken(*left, false, p, q);
            lemma_all_nodes_weaken(*right, false, p, q);
        },
        ExprKindView::Logical { left, token, right } => {
            lemma_all_nodes_weaken(*left, false, p, q);
            lemma_all_nodes_weaken(*right, false, p, q);
        },
        ExprKindView::Assign { l_expr, token, r_expr } => {
            lemma_all_nodes_weaken(*l_expr, false, p, q);
            lemma_all_nodes_weaken(*r_expr, false, p, q);
        },
        ExprKindView::CompoundAssign { l_expr, token, r_expr } => {
            lemma_all_nodes_weaken(*l_expr, false, p, q);
            lemma_all_nodes_weaken(*r_expr, false, p, q);
        },
        ExprKindView::Unary { token, right } => lemma_all_nodes_weaken(*right, false, p, q),
        ExprKindView::Grouping { expr } => lemma_all_nodes_weaken(*expr, false, p, q),
        ExprKindView::CastUp { expr } => lemma_all_nodes_weaken(*expr, false, p, q),
        ExprKindView::CastDown { expr } => lemma_all_nodes_weaken(*expr, false, p, q),
        ExprKindView::ScaleUp { by, expr } => lemma_all_nodes_weaken(*expr, false, p, q),
        ExprKindView::ScaleDown { shift_amount, expr } => lemma_all_nodes_weaken(
            *expr,
            true,
            p,
            q,
        ),
        ExprKindView::PostUnary { token, left, by_amount } => lemma_all_nodes_weaken(
            *left,
            false,
            p,
            q,
        ),
        ExprKindView::Call { left_paren, callee, args } => {
            lemma_all_nodes_weaken(*callee, false, p, q);
            lemma_each_node_weaken(args, p, q);
        },
        _ => {},
    }
}

proof fn lemma_each_node_weaken(
    exprs: Seq<ExprView>,
    p: spec_fn(ExprView, bool) -> bool,
    q: spec_fn(ExprView, bool) -> bool,
)
    requires
        forall|n: ExprView, d: bool| #[trigger] p(n, d) ==> q(n, d),
        each_node(exprs, p),
    ensures
        each_node(exprs, q),
    decreases exprs,
{
    if exprs.len() > 0 {
        lemma_each_node_weaken(exprs.drop_last(), p, q);
        lemma_all_nodes_weaken(exprs.last(), false, p, q);
    }
}

/// In a sound expression every expression has a type: none is left without
/// one.
pub proof fn lemma_sound_nodes_have_types(e: ExprView)
    requires
        sound(e),
    ensures
        all_nodes(e, false, typed_nodes()),
{
    lemma_all_nodes_weaken(e, false, soundness(), typed_nodes());
}

/// In a sound expression the type of a cast up is at least as large as the
/// type of what is cast, and the type of a cast down at most as large.
pub proof fn lemma_sound_casts_fit(e: ExprView)
    requires
        sound(e),
    ensures
        all_nodes(e, false, fitting_casts()),
{
    lemma_all_nodes_weaken(e, false, soundness(), fitting_casts());
}

/// In a sound expression a binary operator with a pointer among its
/// operands is `-`, `==` or `!=` on two pointers, or it is `+`, or `-`
/// with the pointer on its left, on a pointer and another operand, which
/// is scaled by the size of what the pointer points to if that is more
/// than 1.
pub proof fn lemma_sound_pointer_arithmetic(e: ExprView)
    requires
        sound(e),
    ensures
        all_nodes(e, false, lawful_pointer_arithmetic()),
{
    lemma_all_nodes_weaken(e, false, soundness(), lawful_pointer_arithmetic());
}

/// In a sound expression every difference of two pointers has type `long`
/// and stands in a `ScaleDown` of type `long` whose shift is the
/// logarithm of the size of what the pointers point to.
pub proof fn lemma_sound_differences_are_scaled(e: ExprView)
    requires
        sound(e),
    ensures
        all_nodes(e, false, scaled_differences()),
{
    lemma_all_nodes_weaken(e, false, soundness(), scaled_differences());
}

/// An expression that has been checked is refused when it is checked
/// again, in whatever state.
pub proof fn lemma_checked_expr_is_refused(st: State, e: ExprView, again: State)
    requires
        typed_expr(st, e) is Ok,
    ensures
        typed_expr(again, typed_expr(st, e)->Ok_0.expr) is Err,
{
    reveal(string_rule);
}

} // verus!
