//! The rules of the type checker on expressions and declarations that have
//! been checked piece by piece.
use crate::common::environment::{param_types, Function};
use crate::common::error::{Error, ErrorView};
use crate::common::expr::{Expr, ExprKind, ValueKind};
use crate::common::stmt::param_views;
use crate::common::token::{compound_operator, Token, TokenKind};
use crate::common::types::Types;
use crate::messages;
use crate::semantics::{
    all_constant, as_lvalue, as_rvalue, assign_rule, assignable, binary_rule, cast_down,
    cast_up, compound_rule, converted, decayed, first_difference, first_unfit, initializer,
    is_constant_view, logical_rule, postunary_rule, promoted, return_clash, scaled,
    signature_clash, unary_rule, valid_binary, Operand,
};
use crate::common::expr::expr_views;
use vstd::prelude::*;

verus! {

/// Overwrites `expr` by a widening of it to `new_type`.
pub fn widen(expr: &mut Expr, new_type: Types)
    ensures
        final(expr)@ == cast_up(old(expr)@, new_type),
{
    let inner = expr.clone();
    let value_kind = expr.value_kind;
    *expr = Expr {
        kind: ExprKind::CastUp { expr: Box::new(inner) },
        type_decl: Some(new_type),
        value_kind,
    };
}

/// Overwrites `expr` by a narrowing of it to `new_type`.
pub fn narrow(expr: &mut Expr, new_type: Types)
    ensures
        final(expr)@ == cast_down(old(expr)@, new_type),
{
    let inner = expr.clone();
    let value_kind = expr.value_kind;
    *expr = Expr {
        kind: ExprKind::CastDown { expr: Box::new(inner) },
        type_decl: Some(new_type),
        value_kind,
    };
}

/// Array decay of `expr`, whose type is `type_decl`.
pub fn arr_decay(type_decl: &mut Types, expr: &mut Expr)
    ensures
        (Operand { expr: final(expr)@, ty: *final(type_decl) }) == decayed(
            Operand { expr: old(expr)@, ty: *old(type_decl) },
        ),
        old(type_decl).wf() ==> final(type_decl).wf(),
{
    let pointer = match type_decl {
        Types::Array { of, .. } => Some(Types::Pointer(Box::new((**of).clone()))),
        _ => None,
    };
    match pointer {
        Some(p) => {
            expr.type_decl = Some(p.clone());
            expr.value_kind = ValueKind::Rvalue;
            *type_decl = p;
        },
        None => {},
    }
}

pub fn lval_to_rval(expr: &mut Expr)
    ensures
        final(expr)@ == as_rvalue(old(expr)@),
{
    expr.value_kind = ValueKind::Rvalue;
}

pub fn rval_to_lval(expr: &mut Expr)
    ensures
        final(expr)@ == as_lvalue(old(expr)@),
{
    expr.value_kind = ValueKind::Lvalue;
}

/// Converts `expr` of type `other_type` to `type_decl` by a cast, if
/// their sizes differ.
pub fn maybe_cast(type_decl: &Types, other_type: &Types, expr: &mut Expr)
    requires
        type_decl.wf(),
        other_type.wf(),
    ensures
        final(expr)@ == converted(old(expr)@, *type_decl, *other_type),
{
    let from = other_type.size();
    let to = type_decl.size();
    if from < to {
        widen(expr, type_decl.clone());
    } else if from > to {
        narrow(expr, type_decl.clone());
    }
}

/// Integer promotion of `expr`, whose type is `type_decl`.
pub fn maybe_int_promote(expr: &mut Expr, type_decl: &mut Types)
    ensures
        (Operand { expr: final(expr)@, ty: *final(type_decl) }) == promoted(
            Operand { expr: old(expr)@, ty: *old(type_decl) },
        ),
{
    if matches!(type_decl, Types::Char) {
        widen(expr, Types::Int);
        *type_decl = Types::Int;
    }
}

pub fn check_type_compatibility(token: &Token, left: &Types, right: &Types) -> (r: Result<
    (),
    Error,
>)
    ensures
        match r {
            Ok(_) => assignable(*left, *right),
            Err(e) => !assignable(*left, *right) && e@ == ErrorView::at(
                token@,
                messages::incompatible(*left, *right),
            ),
        },
{
    if left.is_void() || right.is_void() || !left.type_compatible(right) {
        Err(Error::with_message(token, messages::incompatible_text(left, right)))
    } else {
        Ok(())
    }
}

pub fn is_valid_bin(token: &Token, left_type: &Types, right_type: &Types) -> (r: bool)
    ensures
        r == valid_binary(token@.token.kind, *left_type, *right_type),
{
    let op = token.kind();
    match (left_type, right_type) {
        (Types::Void, _) => false,
        (_, Types::Void) => false,
        (Types::Pointer(_), Types::Pointer(_)) => left_type.type_compatible(right_type) && (op
            == TokenKind::Minus || op == TokenKind::EqualEqual || op == TokenKind::BangEqual),
        (_, Types::Pointer(_)) => op == TokenKind::Plus,
        (Types::Pointer(_), _) => op == TokenKind::Plus || op == TokenKind::Minus,
        _ => true,
    }
}

/// Multiplies `expr` by the size of `element`, where that is more than 1.
pub fn maybe_scale(element: &Types, expr: &mut Expr)
    requires
        element.wf(),
    ensures
        final(expr)@ == scaled(old(expr)@, *element),
{
    let amount = element.size();
    if amount > 1 {
        let inner = expr.clone();
        expr.kind = ExprKind::ScaleUp { by: amount, expr: Box::new(inner) };
    }
}

/// An assignment of `r_expr` to `l_expr`, both checked.
pub fn assign_var(
    l_expr: &Expr,
    l_type: Types,
    token: &Token,
    r_expr: &mut Expr,
    r_type: Types,
) -> (r: Result<Types, Error>)
    requires
        l_type.wf(),
        r_type.wf(),
    ensures
        match assign_rule(
            Operand { expr: l_expr@, ty: l_type },
            token@,
            Operand { expr: old(r_expr)@, ty: r_type },
        ) {
            Ok(o) => r == Ok::<Types, Error>(o.ty) && final(r_expr)@ == o.expr && o.ty == l_type,
            Err(e) => r is Err && r->Err_0@ == e,
        },
{
    proof {
        reveal(assign_rule);
    }
    if l_type.is_array() {
        return Err(Error::with_message(token, messages::array_assignment_text(&l_type)));
    }
    if l_expr.value_kind != ValueKind::Lvalue {
        return Err(Error::with_message(token, messages::expect_lvalue_text()));
    }
    let mut r_type = r_type;
    arr_decay(&mut r_type, r_expr);
    check_type_compatibility(token, &l_type, &r_type)?;
    maybe_cast(&l_type, &r_type, r_expr);
    Ok(l_type)
}

/// A binary operator on checked operands: converts them and gives the
/// type of the result and, for a difference of pointers, the size of
/// what they point to.
pub fn binary_conversions(
    left: &mut Expr,
    left_type: Types,
    token: &Token,
    right: &mut Expr,
    right_type: Types,
) -> (r: Result<(Types, Option<usize>), Error>)
    requires
        left_type.wf(),
        right_type.wf(),
    ensures
        match binary_rule(
            Operand { expr: old(left)@, ty: left_type },
            token@,
            Operand { expr: old(right)@, ty: right_type },
        ) {
            Ok(o) => r == Ok::<(Types, Option<usize>), Error>((o.ty, o.scale)) && final(left)@
                == o.left && final(right)@ == o.right && o.ty.wf(),
            Err(e) => r is Err && r->Err_0@ == e,
        },
{
    proof {
        reveal(binary_rule);
    }
    let mut left_type = left_type;
    let mut right_type = right_type;
    lval_to_rval(left);
    lval_to_rval(right);
    arr_decay(&mut left_type, left);
    arr_decay(&mut right_type, right);
    if !is_valid_bin(token, &left_type, &right_type) {
        let op = token.token.text();
        return Err(
            Error::with_message(
                token,
                messages::invalid_binary_text(&left_type, &op, &right_type),
            ),
        );
    }
    maybe_int_promote(left, &mut left_type);
    maybe_int_promote(right, &mut right_type);
    match (&left_type, &right_type) {
        (Types::Pointer(inner), Types::Pointer(_)) => {
            let scale = if token.kind() == TokenKind::Minus {
                Some(inner.size())
            } else {
                None
            };
            Ok((Types::Long, scale))
        },
        (Types::Pointer(inner), _) => {
            maybe_scale(inner, right);
            Ok((left_type, None))
        },
        (_, Types::Pointer(inner)) => {
            maybe_scale(inner, left);
            Ok((right_type, None))
        },
        _ => {
            let l = left_type.size();
            let r = right_type.size();
            if l > r {
                widen(right, left_type.clone());
                Ok((left_type, None))
            } else if l < r {
                widen(left, right_type.clone());
                Ok((right_type, None))
            } else {
                Ok((left_type, None))
            }
        },
    }
}

/// `&&` or `||` on checked operands.
pub fn logical_conversions(
    left: &mut Expr,
    left_type: &Types,
    token: &Token,
    right: &mut Expr,
    right_type: &Types,
) -> (r: Result<Types, Error>)
    ensures
        match logical_rule(
            Operand { expr: old(left)@, ty: *left_type },
            token@,
            Operand { expr: old(right)@, ty: *right_type },
        ) {
            Ok(o) => r == Ok::<Types, Error>(o.ty) && final(left)@ == o.left && final(right)@
                == o.right && o.ty.wf(),
            Err(e) => r is Err && r->Err_0@ == e,
        },
{
    proof {
        reveal(logical_rule);
    }
    lval_to_rval(left);
    lval_to_rval(right);
    if left_type.is_void() || right_type.is_void() {
        let op = token.token.text();
        return Err(
            Error::with_message(
                token,
                messages::invalid_logical_text(left_type, &op, right_type),
            ),
        );
    }
    Ok(Types::Int)
}

/// `&` on a checked operand.
pub fn check_address(token: &Token, type_decl: Types, expr: &mut Expr) -> (r: Result<Types, Error>)
    ensures
        match r {
            Ok(t) => old(expr)@.value_kind == ValueKind::Lvalue && t == Types::Pointer(
                Box::new(type_decl),
            ) && final(expr)@ == as_rvalue(old(expr)@),
            Err(e) => old(expr)@.value_kind != ValueKind::Lvalue && e@ == ErrorView::at(
                token@,
                messages::address_of_rvalue(),
            ),
        },
{
    if expr.value_kind == ValueKind::Lvalue {
        lval_to_rval(expr);
        Ok(Types::Pointer(Box::new(type_decl)))
    } else {
        Err(Error::with_message(token, messages::address_of_rvalue_text()))
    }
}

/// `*` on a checked operand.
pub fn check_deref(token: &Token, type_decl: Types, expr: &mut Expr) -> (r: Result<Types, Error>)
    ensures
        match r {
            Ok(t) => type_decl == Types::Pointer(Box::new(t)) && final(expr)@ == as_lvalue(
                old(expr)@,
            ),
            Err(e) => !(type_decl is Pointer) && e@ == ErrorView::at(
                token@,
                messages::dereference(type_decl),
            ),
        },
{
    match type_decl.deref_at() {
        Some(inner) => {
            rval_to_lval(expr);
            Ok(inner)
        },
        None => Err(Error::with_message(token, messages::dereference_text(&type_decl))),
    }
}

/// A unary operator on a checked operand: converts the operand and
/// gives the type of the result and whether it is a storage location.
pub fn unary_conversion(token: &Token, right: &mut Expr, right_type: Types) -> (r: Result<
    (Types, ValueKind),
    Error,
>)
    requires
        right_type.wf(),
    ensures
        match unary_rule(token@, Operand { expr: old(right)@, ty: right_type }) {
            Ok(u) => r == Ok::<(Types, ValueKind), Error>((u.ty, u.value_kind))
                && final(right)@ == u.right && u.ty.wf(),
            Err(e) => r is Err && r->Err_0@ == e,
        },
{
    proof {
        reveal(unary_rule);
    }
    let op = token.kind();
    if op == TokenKind::Amp {
        let t = check_address(token, right_type, right)?;
        Ok((t, ValueKind::Rvalue))
    } else {
        let mut right_type = right_type;
        arr_decay(&mut right_type, right);
        if op == TokenKind::Star {
            let t = check_deref(token, right_type, right)?;
            Ok((t, ValueKind::Lvalue))
        } else if op == TokenKind::Bang {
            lval_to_rval(right);
            Ok((Types::Int, ValueKind::Rvalue))
        } else if op == TokenKind::Minus || op == TokenKind::Tilde {
            lval_to_rval(right);
            maybe_int_promote(right, &mut right_type);
            if right_type.is_ptr() {
                let text = token.token.text();
                return Err(
                    Error::with_message(
                        token,
                        messages::invalid_unary_text(&text, &right_type),
                    ),
                );
            }
            Ok((Types::Int, ValueKind::Rvalue))
        } else {
            let text = token.token.text();
            Err(Error::with_message(token, messages::unknown_operator_text(&text)))
        }
    }
}

/// `++` or `--` behind a checked operand: by how much the operand
/// changes.
pub fn postunary_amount(token: &Token, expr: &Expr, operand: &Types) -> (r: Result<usize, Error>)
    requires
        operand.wf(),
    ensures
        match postunary_rule(token@, Operand { expr: expr@, ty: *operand }) {
            Ok(by) => r == Ok::<usize, Error>(by),
            Err(e) => r is Err && r->Err_0@ == e,
        },
{
    proof {
        reveal(postunary_rule);
    }
    if operand.is_array() {
        return Err(Error::with_message(token, messages::increment_array_text()));
    } else if expr.value_kind == ValueKind::Rvalue {
        return Err(Error::with_message(token, messages::increment_rvalue_text()));
    }
    match operand {
        Types::Pointer(inner) => Ok(inner.size()),
        _ => Ok(1),
    }
}

/// A compound assignment on checked operands.
pub fn compound_conversions(
    l_expr: &Expr,
    l_type: Types,
    token: &Token,
    r_expr: &mut Expr,
    r_type: Types,
) -> (r: Result<Types, Error>)
    requires
        l_type.wf(),
        r_type.wf(),
    ensures
        match compound_rule(
            Operand { expr: l_expr@, ty: l_type },
            token@,
            Operand { expr: old(r_expr)@, ty: r_type },
        ) {
            Ok(o) => r == Ok::<Types, Error>(o.ty) && final(r_expr)@ == o.expr && o.ty.wf(),
            Err(e) => r is Err && r->Err_0@ == e,
        },
{
    proof {
        reveal(compound_rule);
    }
    let op = match compound_operator(token.kind()) {
        Some(op) => op,
        None => {
            let text = token.token.text();
            return Err(Error::with_message(token, messages::unknown_operator_text(&text)));
        },
    };
    // the operator works on a copy of the left side, which stays as it is
    let mut tmp = l_expr.clone();
    let bin_token = token.at_place_of(op);
    let (bin_type, _) = binary_conversions(
        &mut tmp,
        l_type.clone(),
        &bin_token,
        r_expr,
        r_type,
    )?;
    // the assignment converts a copy of the right side, which keeps the
    // form that the operator takes
    let mut stored = r_expr.clone();
    assign_var(l_expr, l_type, token, &mut stored, bin_type)
}

/// Whether the parameters take the arguments, one by one.
pub fn args_and_params_match(left_paren: &Token, params: &Vec<(Types, Token)>, args: &Vec<Types>) -> (r:
    Result<(), Error>)
    requires
        params.len() == args.len(),
    ensures
        match first_unfit(param_types(param_views(params@)), args@, 0) {
            None => r is Ok,
            Some(i) => r is Err && r->Err_0@ == ErrorView::at(
                left_paren@,
                messages::incompatible(param_types(param_views(params@))[i], args[i]),
            ),
        },
{
    let ghost types = param_types(param_views(params@));
    let mut i: usize = 0;
    while i < args.len()
        invariant
            i <= args.len(),
            params.len() == args.len(),
            types == param_types(param_views(params@)),
            first_unfit(types, args@, 0) == first_unfit(types, args@, i as int),
        decreases args.len() - i,
    {
        assert(types[i as int] == params[i as int].0);
        check_type_compatibility(left_paren, &params[i].0, &args[i])?;
        i = i + 1;
    }
    Ok(())
}

/// Whether an expression is known when the program is compiled.
pub fn is_constant(expr: &Expr) -> (r: bool)
    ensures
        r == is_constant_view(expr@),
    decreases expr,
{
    match &expr.kind {
        ExprKind::String(_) | ExprKind::Number(_) | ExprKind::CharLit(_) => true,
        ExprKind::CastUp { expr } => is_constant(expr),
        ExprKind::CastDown { expr } => is_constant(expr),
        ExprKind::Assign { r_expr, .. } => is_constant(r_expr),
        _ => false,
    }
}

/// Whether all of `exprs` are known when the program is compiled.
pub fn all_constants(exprs: &Vec<Expr>) -> (r: bool)
    ensures
        r == all_constant(expr_views(exprs@)),
{
    let mut i: usize = 0;
    while i < exprs.len()
        invariant
            i <= exprs.len(),
            forall|j: int| 0 <= j < i ==> is_constant_view(#[trigger] expr_views(exprs@)[j]),
        decreases exprs.len() - i,
    {
        if !is_constant(&exprs[i]) {
            assert(!is_constant_view(expr_views(exprs@)[i as int]));
            return false;
        }
        i = i + 1;
    }
    true
}

/// Converts the checked initializer `expr` of a variable of type
/// `type_decl` to the value that is stored. `from_string` says whether the
/// initializer is a string literal.
pub fn initialize(
    type_decl: &Types,
    var_name: &Token,
    from_string: bool,
    expr: &mut Expr,
    value_type: Types,
) -> (r: Result<(), Error>)
    requires
        type_decl.wf(),
        value_type.wf(),
    ensures
        match initializer(
            *type_decl,
            var_name@,
            from_string,
            Operand { expr: old(expr)@, ty: value_type },
        ) {
            Ok(value) => r is Ok && final(expr)@ == value,
            Err(e) => r is Err && r->Err_0@ == e,
        },
{
    proof {
        reveal(initializer);
    }
    let char_array = match type_decl {
        Types::Array { of, .. } => matches!(**of, Types::Char),
        _ => false,
    };
    if char_array && from_string {
        return Ok(());
    }
    let mut value_type = value_type;
    arr_decay(&mut value_type, expr);
    check_type_compatibility(var_name, type_decl, &value_type)?;
    maybe_cast(type_decl, &value_type, expr);
    Ok(())
}

/// Compares a declaration or definition of a function with the signature
/// that the function already has.
pub fn compare_declarations(
    name_token: &Token,
    declaration: &Function,
    return_type: &Types,
    params: &Vec<(Types, Token)>,
) -> (r: Result<(), Error>)
    ensures
        match signature_clash(declaration@, *return_type, name_token@, param_views(params@)) {
            None => r is Ok,
            Some(e) => r is Err && r->Err_0@ == e,
        },
{
    proof {
        reveal(signature_clash);
    }
    if !declaration.return_type.equals(return_type) {
        return Err(
            Error::with_message(
                name_token,
                messages::conflicting_return_text(&declaration.return_type, return_type),
            ),
        );
    }
    if declaration.arity() != params.len() {
        return Err(
            Error::with_message(
                name_token,
                messages::parameter_count_text(declaration.arity(), params.len()),
            ),
        );
    }
    let ghost known = declaration@.params;
    let ghost given = param_types(param_views(params@));
    let mut i: usize = 0;
    while i < params.len()
        invariant
            i <= params.len(),
            declaration.params.len() == params.len(),
            declaration.return_type == *return_type,
            known == declaration@.params,
            given == param_types(param_views(params@)),
            first_difference(known, given, 0) == first_difference(known, given, i as int),
        decreases params.len() - i,
    {
        assert(known[i as int] == declaration.params[i as int].0);
        assert(given[i as int] == params[i as int].0);
        assert(param_views(params@)[i as int] == (params[i as int].0, params[i as int].1@));
        if !params[i].0.equals(&declaration.params[i].0) {
            proof {
                reveal(signature_clash);
                assert(given.len() == params.len() && known.len() == params.len());
                assert(first_difference(known, given, i as int) == Some(i as int));
            }
            return Err(
                Error::with_message(
                    &params[i].1,
                    messages::parameter_type_text(&declaration.params[i].0, &params[i].0),
                ),
            );
        }
        i = i + 1;
    }
    Ok(())
}

/// Whether a function of type `function_type` may return a value of type
/// `body_return`.
pub fn check_return_compatibility(keyword: &Token, function_type: &Types, body_return: &Types) -> (r:
    Result<(), Error>)
    ensures
        match return_clash(keyword@, *function_type, *body_return) {
            None => r is Ok,
            Some(e) => r is Err && r->Err_0@ == e,
        },
{
    if function_type.is_array() {
        Err(Error::with_message(keyword, messages::return_array_text()))
    } else if !function_type.type_compatible(body_return) {
        Err(
            Error::with_message(
                keyword,
                messages::return_mismatch_text(function_type, body_return),
            ),
        )
    } else {
        Ok(())
    }
}

} // verus!
