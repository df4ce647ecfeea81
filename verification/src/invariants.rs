//! What the type checker keeps of its state from statement to statement.
use crate::common::expr::ExprView;
use crate::common::stmt::StmtView;
use crate::common::token::TokenView;
use crate::common::types::Types;
use crate::semantics::{
    bound_params, check_block, check_else, check_function, check_if, check_program, check_stmt,
    check_stmts, check_while, condition, declare_var_rule, enclosing_function, entered,
    expression_rule, function_declaration_rule, function_end, function_head, grown_frame,
    init_list_rule, init_var_rule, is_main, return_rule, rounded_but, scopes_nested, typed_list,
    ScopeView, State,
};
use crate::semantics::{implicit_return, initializer, typed_expr};
use crate::soundness::lemma_typed_expr_frame;
use vstd::prelude::*;

verus! {

/// The name of the function whose definition is being checked.
pub open spec fn current(st: State) -> Option<Seq<char>> {
    match st.current_function() {
        Some((name, _)) => Some(name),
        None => None,
    }
}

/// What a statement keeps of the state: the scopes, and that the frames
/// of all functions but the one that is being checked are rounded.
pub open spec fn kept(before: State, after: State) -> bool {
    after.scope == before.scope && (rounded_but(before, current(before)) ==> rounded_but(
        after,
        current(before),
    ))
}

proof fn lemma_global_has_no_function(scope: Seq<ScopeView>)
    requires
        scopes_nested(scope),
        scope.last() is Global,
    ensures
        scope.len() == 1,
        enclosing_function(scope) is None,
{
    assert(scope[scope.len() - 1] is Global);
    assert(enclosing_function(scope.drop_last()) is None);
}

proof fn lemma_block_keeps_function(scope: Seq<ScopeView>)
    ensures
        enclosing_function(scope.push(ScopeView::Block)) == enclosing_function(scope),
{
    assert(scope.push(ScopeView::Block).drop_last() =~= scope);
}

proof fn lemma_function_scope(scope: Seq<ScopeView>, name: Seq<char>, t: Types)
    ensures
        enclosing_function(scope.push(ScopeView::Function(name, t))) == Some((name, t)),
{
}

proof fn lemma_grown_frame_kept(st: State, t: Types, at: TokenView)
    ensures
        grown_frame(st, t, at) matches Ok(grown) ==> kept(st, grown) && grown == (State {
            stack_sizes: grown.stack_sizes,
            ..st
        }),
{
    reveal(grown_frame);
}

proof fn lemma_typed_list_frame(st: State, exprs: Seq<ExprView>)
    ensures
        typed_list(st, exprs) matches Ok(l) ==> l.st == (State {
            labels: l.st.labels,
            label_count: l.st.label_count,
            ..st
        }),
    decreases exprs.len(),
{
    if exprs.len() > 0 {
        lemma_typed_list_frame(st, exprs.drop_last());
        if typed_list(st, exprs.drop_last()) is Ok {
            lemma_typed_expr_frame(typed_list(st, exprs.drop_last())->Ok_0.st, exprs.last());
        }
    }
}

proof fn lemma_bound_params_kept(st: State, params: Seq<(Types, TokenView)>)
    ensures
        bound_params(st, params) matches Ok(inner) ==> kept(st, inner) && inner.returns_all_paths
            == st.returns_all_paths && inner.found_main == st.found_main,
    decreases params.len(),
{
    if params.len() > 0 {
        lemma_bound_params_kept(st, params.drop_last());
        match bound_params(st, params.drop_last()) {
            Ok(before) => {
                lemma_grown_frame_kept(before, params.last().0, params.last().1);
            },
            Err(_) => {},
        }
    }
}

/// The statements of a scope keep the scopes and the rounded frames.
pub proof fn lemma_check_stmts_kept(st: State, stmts: Seq<StmtView>)
    requires
        scopes_nested(st.scope),
    ensures
        kept(st, check_stmts(st, stmts).st),
    decreases stmts, 0nat,
{
    if stmts.len() > 0 {
        lemma_check_stmts_kept(st, stmts.drop_last());
        let before = check_stmts(st, stmts.drop_last());
        if before.result is Ok {
            lemma_check_stmt_kept(before.st, stmts.last());
        }
    }
}

/// A statement keeps the scopes and the rounded frames.
pub proof fn lemma_check_stmt_kept(st: State, s: StmtView)
    requires
        scopes_nested(st.scope),
    ensures
        kept(st, check_stmt(st, s).st),
    decreases s, 1nat,
{
    match s {
        StmtView::DeclareVar(t, name, _) => {
            reveal(declare_var_rule);
            lemma_grown_frame_kept(st, t, name);
        },
        StmtView::InitVar(t, name, e, _) => {
            reveal(init_var_rule);
            lemma_typed_expr_frame(st, e);
            if typed_expr(st, e) is Ok {
                lemma_grown_frame_kept(typed_expr(st, e)->Ok_0.st, t, name);
            }
        },
        StmtView::InitList(t, name, exprs, _) => {
            reveal(init_list_rule);
            let declared = st.declare(name.token.text, t);
            lemma_grown_frame_kept(declared, t, name);
            lemma_typed_list_frame(declared, exprs);
            if grown_frame(declared, t, name) is Ok {
                lemma_typed_list_frame(grown_frame(declared, t, name)->Ok_0, exprs);
            }
        },
        StmtView::FunctionDeclaration(t, name, params) => {
            reveal(function_declaration_rule);
        },
        StmtView::Function(..) => lemma_check_function_kept(st, s),
        StmtView::Return(keyword, value) => {
            reveal(return_rule);
            match value {
                Some(e) => lemma_typed_expr_frame(st, e),
                None => {},
            }
        },
        StmtView::Expr(e) => {
            reveal(expression_rule);
            lemma_typed_expr_frame(st, e);
        },
        StmtView::Block(stmts) => {
            let inside = st.enter(ScopeView::Block);
            lemma_block_keeps_function(st.scope);
            assert(scopes_nested(inside.scope));
            lemma_check_stmts_kept(inside, stmts);
            let o = check_stmts(inside, stmts);
            assert(o.st.leave().scope =~= st.scope);
            assert(check_stmt(st, s) == check_block(st, s));
        },
        StmtView::If(keyword, cond, then_branch, else_branch) => {
            reveal(condition);
            lemma_typed_expr_frame(st, cond);
            match condition(st, keyword, cond, crate::messages::void_condition()) {
                Ok(c) => {
                    lemma_check_stmt_kept(c.st, *then_branch);
                    let t = check_stmt(c.st, *then_branch);
                    let between = State { returns_all_paths: false, ..t.st };
                    match else_branch {
                        Some(other) => {
                            lemma_check_stmt_kept(between, *other);
                        },
                        None => {},
                    }
                    let f = check_else(between, else_branch);
                    assert(kept(between, f.st));
                },
                Err(_) => {},
            }
            assert(check_stmt(st, s) == check_if(st, s));
        },
        StmtView::While(keyword, cond, body) => {
            reveal(condition);
            lemma_typed_expr_frame(st, cond);
            match condition(st, keyword, cond, crate::messages::void_loop_condition()) {
                Ok(c) => {
                    lemma_check_stmt_kept(c.st, *body);
                },
                Err(_) => {},
            }
            assert(check_stmt(st, s) == check_while(st, s));
        },
    }
}

proof fn lemma_check_function_kept(st: State, s: StmtView)
    requires
        scopes_nested(st.scope),
        s is Function,
    ensures
        kept(st, check_function(st, s).st),
    decreases s, 0nat,
{
    let t = s->Function_0;
    let name = s->Function_1;
    let params = s->Function_2;
    let body = s->Function_3;
    reveal(function_head);
    reveal(function_end);
    match function_head(st, t, name, params) {
        Ok(head) => {
            lemma_global_has_no_function(st.scope);
            let inside = entered(head, t, name);
            lemma_function_scope(head.scope, name.token.text, t);
            assert(scopes_nested(inside.scope));
            lemma_bound_params_kept(inside, params);
            match bound_params(inside, params) {
                Ok(inner) => {
                    lemma_check_stmts_kept(inner, body);
                    let o = check_stmts(inner, body);
                    assert(o.st.leave().scope =~= st.scope);
                    crate::semantics::lemma_aligned_bounds(
                        if o.st.stack_sizes.contains_key(name.token.text) {
                            o.st.stack_sizes[name.token.text] as nat
                        } else {
                            0
                        },
                        16,
                    );
                },
                Err(_) => {},
            }
        },
        Err(_) => {},
    }
}

/// The frame of every function that a program defines is a multiple of 16
/// bytes, if that holds of the frames that the type checker knew before.
pub proof fn lemma_frames_are_rounded(st: State, stmts: Seq<StmtView>)
    requires
        scopes_nested(st.scope),
        st.scope.len() == 1,
        st.rounded(),
    ensures
        check_program(st, stmts).st.rounded(),
        check_program(st, stmts).st.scope == st.scope,
    decreases stmts.len(),
{
    if stmts.len() > 0 {
        lemma_frames_are_rounded(st, stmts.drop_last());
        let before = check_program(st, stmts.drop_last());
        lemma_global_has_no_function(before.st.scope);
        lemma_check_stmt_kept(before.st, stmts.last());
    }
}

// ----- returns and the entry point ---------------------------------------

/// Whether the type checker holds that every path ends in a `return` after
/// statement `s`, if it held `flag` in front of it.
pub open spec fn ends(flag: bool, s: StmtView) -> bool
    decreases s, 1nat,
{
    match s {
        StmtView::Return(..) => true,
        StmtView::If(_, _, then_branch, else_branch) => match else_branch {
            Some(other) => ends(flag, *then_branch) && ends(false, *other),
            None => false,
        },
        StmtView::While(..) => false,
        StmtView::Function(..) => false,
        StmtView::Block(stmts) => ends_all(flag, stmts),
        _ => flag,
    }
}

/// Whether the type checker holds that every path ends in a `return` after the
/// statements `stmts`, if it held `flag` in front of them.
pub open spec fn ends_all(flag: bool, stmts: Seq<StmtView>) -> bool
    decreases stmts, 0nat,
{
    if stmts.len() == 0 {
        flag
    } else {
        ends(ends_all(flag, stmts.drop_last()), stmts.last())
    }
}

/// The checked statements of a scope are as many as were given, the last
/// one is a `return` if the last one given is, and the type checker holds that
/// every path returns as `ends_all` says.
pub proof fn lemma_check_stmts_flag(st: State, stmts: Seq<StmtView>)
    ensures
        check_stmts(st, stmts).result matches Ok(checked) ==> {
            &&& check_stmts(st, stmts).st.returns_all_paths == ends_all(
                st.returns_all_paths,
                stmts,
            )
            &&& checked.len() == stmts.len()
            &&& stmts.len() > 0 ==> (checked.last() is Return <==> stmts.last() is Return)
        },
    decreases stmts, 0nat,
{
    if stmts.len() > 0 {
        lemma_check_stmts_flag(st, stmts.drop_last());
        let before = check_stmts(st, stmts.drop_last());
        if before.result is Ok {
            lemma_check_stmt_flag(before.st, stmts.last());
        }
    }
}

/// A checked statement is a `return` if the one given is, and the type checker
/// holds that every path returns as `ends` says.
pub proof fn lemma_check_stmt_flag(st: State, s: StmtView)
    ensures
        check_stmt(st, s).result matches Ok(c) ==> {
            &&& check_stmt(st, s).st.returns_all_paths == ends(st.returns_all_paths, s)
            &&& c is Return <==> s is Return
        },
    decreases s, 1nat,
{
    match s {
        StmtView::DeclareVar(t, name, _) => {
            reveal(declare_var_rule);
            lemma_grown_frame_kept(st, t, name);
        },
        StmtView::InitVar(t, name, e, _) => {
            reveal(init_var_rule);
            lemma_typed_expr_frame(st, e);
            if typed_expr(st, e) is Ok {
                lemma_grown_frame_kept(typed_expr(st, e)->Ok_0.st, t, name);
            }
        },
        StmtView::InitList(t, name, exprs, _) => {
            reveal(init_list_rule);
            let declared = st.declare(name.token.text, t);
            lemma_grown_frame_kept(declared, t, name);
            lemma_typed_list_frame(declared, exprs);
            if grown_frame(declared, t, name) is Ok {
                lemma_typed_list_frame(grown_frame(declared, t, name)->Ok_0, exprs);
            }
        },
        StmtView::FunctionDeclaration(t, name, params) => {
            reveal(function_declaration_rule);
        },
        StmtView::Function(t, name, params, body) => {
            reveal(function_end);
            assert(check_stmt(st, s) == check_function(st, s));
        },
        StmtView::Return(keyword, value) => {
            reveal(return_rule);
            match value {
                Some(e) => lemma_typed_expr_frame(st, e),
                None => {},
            }
        },
        StmtView::Expr(e) => {
            reveal(expression_rule);
            lemma_typed_expr_frame(st, e);
        },
        StmtView::Block(stmts) => {
            lemma_check_stmts_flag(st.enter(ScopeView::Block), stmts);
            assert(check_stmt(st, s) == check_block(st, s));
        },
        StmtView::If(keyword, cond, then_branch, else_branch) => {
            reveal(condition);
            lemma_typed_expr_frame(st, cond);
            match condition(st, keyword, cond, crate::messages::void_condition()) {
                Ok(c) => {
                    lemma_check_stmt_flag(c.st, *then_branch);
                    let t = check_stmt(c.st, *then_branch);
                    let between = State { returns_all_paths: false, ..t.st };
                    match else_branch {
                        Some(other) => {
                            lemma_check_stmt_flag(between, *other);
                        },
                        None => {},
                    }
                    let f = check_else(between, else_branch);
                    assert(f.result is Ok ==> f.st.returns_all_paths == match else_branch {
                        Some(other) => ends(false, *other),
                        None => false,
                    });
                },
                Err(_) => {},
            }
            assert(check_stmt(st, s) == check_if(st, s));
        },
        StmtView::While(keyword, cond, body) => {
            reveal(condition);
            assert(check_stmt(st, s) == check_while(st, s));
        },
    }
}

/// Whether `s` defines `main` as it must be: it returns `int` and its last
/// statement is a `return`. The definition may stand in a branch of an
/// `if` or in the body of a loop.
pub open spec fn defines_main(s: StmtView) -> bool
    decreases s,
{
    match s {
        StmtView::Function(t, name, _, body) => is_main(name) && t == Types::Int && body.len() > 0
            && body.last() is Return,
        StmtView::If(_, _, then_branch, else_branch) => defines_main(*then_branch) || match else_branch {
            Some(other) => defines_main(*other),
            None => false,
        },
        StmtView::While(_, _, body) => defines_main(*body),
        _ => false,
    }
}

/// Whether a definition of `main` in `s` that returns on every path ends
/// with a `return`.
pub open spec fn main_ends_with_return(s: StmtView) -> bool
    decreases s,
{
    match s {
        StmtView::Function(_, name, _, body) => is_main(name) && ends_all(false, body) ==> body.len()
            > 0 && body.last() is Return,
        StmtView::If(_, _, then_branch, else_branch) => main_ends_with_return(*then_branch)
            && match else_branch {
            Some(other) => main_ends_with_return(*other),
            None => true,
        },
        StmtView::While(_, _, body) => main_ends_with_return(*body),
        _ => true,
    }
}

/// Inside a function or a block no statement defines `main`.
proof fn lemma_check_stmts_inside(st: State, stmts: Seq<StmtView>)
    requires
        scopes_nested(st.scope),
        st.scope.len() > 1,
    ensures
        check_stmts(st, stmts).result is Ok ==> check_stmts(st, stmts).st.found_main
            == st.found_main,
    decreases stmts, 0nat,
{
    if stmts.len() > 0 {
        lemma_check_stmts_inside(st, stmts.drop_last());
        lemma_check_stmts_kept(st, stmts.drop_last());
        let before = check_stmts(st, stmts.drop_last());
        if before.result is Ok {
            lemma_check_stmt_inside(before.st, stmts.last());
        }
    }
}

proof fn lemma_check_stmt_inside(st: State, s: StmtView)
    requires
        scopes_nested(st.scope),
        st.scope.len() > 1,
    ensures
        check_stmt(st, s).result is Ok ==> check_stmt(st, s).st.found_main == st.found_main,
    decreases s, 1nat,
{
    match s {
        StmtView::DeclareVar(t, name, _) => {
            reveal(declare_var_rule);
            lemma_grown_frame_kept(st, t, name);
        },
        StmtView::InitVar(t, name, e, _) => {
            reveal(init_var_rule);
            lemma_typed_expr_frame(st, e);
            if typed_expr(st, e) is Ok {
                lemma_grown_frame_kept(typed_expr(st, e)->Ok_0.st, t, name);
            }
        },
        StmtView::InitList(t, name, exprs, _) => {
            reveal(init_list_rule);
            let declared = st.declare(name.token.text, t);
            lemma_grown_frame_kept(declared, t, name);
            lemma_typed_list_frame(declared, exprs);
            if grown_frame(declared, t, name) is Ok {
                lemma_typed_list_frame(grown_frame(declared, t, name)->Ok_0, exprs);
            }
        },
        StmtView::FunctionDeclaration(t, name, params) => {
            reveal(function_declaration_rule);
        },
        StmtView::Function(t, name, params, body) => {
            reveal(function_head);
            assert(st.scope[st.scope.len() - 1] == st.scope.last());
            assert(check_stmt(st, s) == check_function(st, s));
        },
        StmtView::Return(keyword, value) => {
            reveal(return_rule);
            match value {
                Some(e) => lemma_typed_expr_frame(st, e),
                None => {},
            }
        },
        StmtView::Expr(e) => {
            reveal(expression_rule);
            lemma_typed_expr_frame(st, e);
        },
        StmtView::Block(stmts) => {
            let inside = st.enter(ScopeView::Block);
            assert(scopes_nested(inside.scope));
            lemma_check_stmts_inside(inside, stmts);
            assert(check_stmt(st, s) == check_block(st, s));
        },
        StmtView::If(keyword, cond, then_branch, else_branch) => {
            reveal(condition);
            lemma_typed_expr_frame(st, cond);
            match condition(st, keyword, cond, crate::messages::void_condition()) {
                Ok(c) => {
                    lemma_check_stmt_inside(c.st, *then_branch);
                    lemma_check_stmt_kept(c.st, *then_branch);
                    let t = check_stmt(c.st, *then_branch);
                    let between = State { returns_all_paths: false, ..t.st };
                    match else_branch {
                        Some(other) => {
                            lemma_check_stmt_inside(between, *other);
                        },
                        None => {},
                    }
                    let f = check_else(between, else_branch);
                    assert(f.result is Ok ==> f.st.found_main == between.found_main);
                },
                Err(_) => {},
            }
            assert(check_stmt(st, s) == check_if(st, s));
        },
        StmtView::While(keyword, cond, body) => {
            reveal(condition);
            lemma_typed_expr_frame(st, cond);
            match condition(st, keyword, cond, crate::messages::void_loop_condition()) {
                Ok(c) => {
                    lemma_check_stmt_inside(c.st, *body);
                },
                Err(_) => {},
            }
            assert(check_stmt(st, s) == check_while(st, s));
        },
    }
}

/// What a checked statement does to the mark that `main` was found: the
/// mark stays, and where it is set the statement defines `main`.
pub open spec fn marks_main(before: State, after: State, checked: StmtView) -> bool {
    &&& before.found_main ==> after.found_main
    &&& after.found_main && !before.found_main ==> defines_main(checked)
}

/// A statement that sets the mark that `main` was found defines `main`.
pub proof fn lemma_check_stmt_main(st: State, s: StmtView)
    requires
        scopes_nested(st.scope),
        main_ends_with_return(s),
    ensures
        check_stmt(st, s).result matches Ok(c) ==> marks_main(st, check_stmt(st, s).st, c),
    decreases s, 1nat,
{
    if st.scope.len() > 1 {
        lemma_check_stmt_inside(st, s);
    } else {
        match s {
            StmtView::DeclareVar(t, name, _) => {
                reveal(declare_var_rule);
                lemma_grown_frame_kept(st, t, name);
            },
            StmtView::InitVar(t, name, e, _) => {
                reveal(init_var_rule);
                lemma_typed_expr_frame(st, e);
                if typed_expr(st, e) is Ok {
                    lemma_grown_frame_kept(typed_expr(st, e)->Ok_0.st, t, name);
                }
            },
            StmtView::InitList(t, name, exprs, _) => {
                reveal(init_list_rule);
                let declared = st.declare(name.token.text, t);
                lemma_grown_frame_kept(declared, t, name);
                lemma_typed_list_frame(declared, exprs);
                if grown_frame(declared, t, name) is Ok {
                    lemma_typed_list_frame(grown_frame(declared, t, name)->Ok_0, exprs);
                }
            },
            StmtView::FunctionDeclaration(t, name, params) => {
                reveal(function_declaration_rule);
            },
            StmtView::Function(t, name, params, body) => {
                reveal(function_head);
                reveal(function_end);
                match function_head(st, t, name, params) {
                    Ok(head) => {
                        let inside = entered(head, t, name);
                        assert(scopes_nested(inside.scope));
                        lemma_bound_params_kept(inside, params);
                        match bound_params(inside, params) {
                            Ok(inner) => {
                                lemma_check_stmts_inside(inner, body);
                                lemma_check_stmts_flag(inner, body);
                            },
                            Err(_) => {},
                        }
                    },
                    Err(_) => {},
                }
                assert(check_stmt(st, s) == check_function(st, s));
            },
            StmtView::Return(keyword, value) => {
                reveal(return_rule);
                match value {
                    Some(e) => lemma_typed_expr_frame(st, e),
                    None => {},
                }
            },
            StmtView::Expr(e) => {
                reveal(expression_rule);
                lemma_typed_expr_frame(st, e);
            },
            StmtView::Block(stmts) => {
                let inside = st.enter(ScopeView::Block);
                assert(scopes_nested(inside.scope));
                lemma_check_stmts_inside(inside, stmts);
                assert(check_stmt(st, s) == check_block(st, s));
            },
            StmtView::If(keyword, cond, then_branch, else_branch) => {
                reveal(condition);
                lemma_typed_expr_frame(st, cond);
                match condition(st, keyword, cond, crate::messages::void_condition()) {
                    Ok(c) => {
                        lemma_check_stmt_main(c.st, *then_branch);
                        lemma_check_stmt_kept(c.st, *then_branch);
                        let t = check_stmt(c.st, *then_branch);
                        let between = State { returns_all_paths: false, ..t.st };
                        match else_branch {
                            Some(other) => {
                                lemma_check_stmt_main(between, *other);
                            },
                            None => {},
                        }
                        let f = check_else(between, else_branch);
                        assert(f.result matches Ok(x) ==> (between.found_main ==> f.st.found_main)
                            && (f.st.found_main && !between.found_main ==> x is Some
                            && defines_main(*x->Some_0)));
                    },
                    Err(_) => {},
                }
                assert(check_stmt(st, s) == check_if(st, s));
            },
            StmtView::While(keyword, cond, body) => {
                reveal(condition);
                lemma_typed_expr_frame(st, cond);
                match condition(st, keyword, cond, crate::messages::void_loop_condition()) {
                    Ok(c) => {
                        lemma_check_stmt_main(c.st, *body);
                    },
                    Err(_) => {},
                }
                assert(check_stmt(st, s) == check_while(st, s));
            },
        }
    }
}

/// Whether one of `stmts` defines `main` as it must be.
pub open spec fn main_defined(stmts: Seq<StmtView>) -> bool {
    exists|i: int| 0 <= i < stmts.len() && defines_main(#[trigger] stmts[i])
}

/// After a program is checked without a diagnostic, by a type checker that had
/// not seen `main` before, the program defines `main`, `main` returns
/// `int`, and the last statement of its body is a `return`. This is said
/// of the programs in which a `main` that returns on every path ends with a
/// `return`.
pub proof fn lemma_main_is_closed(st: State, stmts: Seq<StmtView>)
    requires
        scopes_nested(st.scope),
        st.scope.len() == 1,
        forall|i: int| 0 <= i < stmts.len() ==> main_ends_with_return(#[trigger] stmts[i]),
        check_program(st, stmts).errors.len() == 0,
    ensures
        st.found_main ==> check_program(st, stmts).st.found_main,
        check_program(st, stmts).st.found_main && !st.found_main ==> main_defined(
            check_program(st, stmts).stmts,
        ),
        check_program(st, stmts).st.scope == st.scope,
    decreases stmts.len(),
{
    if stmts.len() > 0 {
        let before = check_program(st, stmts.drop_last());
        assert forall|i: int| 0 <= i < stmts.drop_last().len() implies main_ends_with_return(
            #[trigger] stmts.drop_last()[i],
        ) by {
            assert(stmts.drop_last()[i] == stmts[i]);
        }
        lemma_main_is_closed(st, stmts.drop_last());
        lemma_check_stmt_kept(before.st, stmts.last());
        assert(main_ends_with_return(stmts.last()));
        lemma_check_stmt_main(before.st, stmts.last());
        let p = check_program(st, stmts);
        let o = check_stmt(before.st, stmts.last());
        let c = o.result->Ok_0;
        if p.st.found_main && !st.found_main {
            if before.st.found_main {
                let i = choose|i: int|
                    0 <= i < before.stmts.len() && defines_main(#[trigger] before.stmts[i]);
                assert(p.stmts[i] == before.stmts[i]);
            } else {
                assert(p.stmts[p.stmts.len() - 1] == c);
            }
        }
    }
}

// ----- checking again ---------------------------------------------------

/// A checked expression has a type.
proof fn lemma_checked_has_type(st: State, e: ExprView)
    requires
        typed_expr(st, e) is Ok,
    ensures
        typed_expr(st, e)->Ok_0.expr.type_decl is Some,
{
    reveal(crate::semantics::string_rule);
}

/// An expression that has a type is refused.
proof fn lemma_typed_is_refused(again: State, e: ExprView)
    requires
        e.type_decl is Some,
    ensures
        typed_expr(again, e) is Err,
{
}

/// A checked statement has the same form as the statement that was given,
/// so that the type checker holds the same of its paths.
pub proof fn lemma_check_stmt_shape(st: State, s: StmtView, flag: bool)
    ensures
        check_stmt(st, s).result matches Ok(c) ==> ends(flag, c) == ends(flag, s),
    decreases s, 1nat,
{
    match s {
        StmtView::DeclareVar(t, name, _) => {
            reveal(declare_var_rule);
        },
        StmtView::InitVar(t, name, e, _) => {
            reveal(init_var_rule);
        },
        StmtView::InitList(t, name, exprs, _) => {
            reveal(init_list_rule);
        },
        StmtView::FunctionDeclaration(t, name, params) => {
            reveal(function_declaration_rule);
        },
        StmtView::Function(t, name, params, body) => {
            reveal(function_end);
            assert(check_stmt(st, s) == check_function(st, s));
        },
        StmtView::Return(keyword, value) => {
            reveal(return_rule);
        },
        StmtView::Expr(e) => {
            reveal(expression_rule);
        },
        StmtView::Block(stmts) => {
            lemma_check_stmts_shape(st.enter(ScopeView::Block), stmts, flag);
            assert(check_stmt(st, s) == check_block(st, s));
        },
        StmtView::If(keyword, cond, then_branch, else_branch) => {
            reveal(condition);
            match condition(st, keyword, cond, crate::messages::void_condition()) {
                Ok(c) => {
                    lemma_check_stmt_shape(c.st, *then_branch, flag);
                    let t = check_stmt(c.st, *then_branch);
                    let between = State { returns_all_paths: false, ..t.st };
                    match else_branch {
                        Some(other) => {
                            lemma_check_stmt_shape(between, *other, false);
                        },
                        None => {},
                    }
                    let f = check_else(between, else_branch);
                    assert(f.result matches Ok(x) ==> (x is Some <==> else_branch is Some) && (
                    x matches Some(y) ==> ends(false, *y) == ends(false, *else_branch->Some_0)));
                },
                Err(_) => {},
            }
            assert(check_stmt(st, s) == check_if(st, s));
        },
        StmtView::While(keyword, cond, body) => {
            reveal(condition);
            assert(check_stmt(st, s) == check_while(st, s));
        },
    }
}

pub proof fn lemma_check_stmts_shape(st: State, stmts: Seq<StmtView>, flag: bool)
    ensures
        check_stmts(st, stmts).result matches Ok(checked) ==> ends_all(flag, checked) == ends_all(
            flag,
            stmts,
        ),
    decreases stmts, 0nat,
{
    if stmts.len() > 0 {
        lemma_check_stmts_shape(st, stmts.drop_last(), flag);
        let before = check_stmts(st, stmts.drop_last());
        match before.result {
            Ok(checked) => {
                lemma_check_stmt_shape(
                    before.st,
                    stmts.last(),
                    ends_all(flag, stmts.drop_last()),
                );
                let o = check_stmt(before.st, stmts.last());
                match o.result {
                    Ok(c) => {
                        assert(checked.push(c).drop_last() =~= checked);
                    },
                    Err(_) => {},
                }
            },
            Err(_) => {},
        }
    }
}

/// The checked statements of a scope, checked again in the same kind of
/// scope, stay as they are or are refused.
pub proof fn lemma_check_stmts_again(st: State, stmts: Seq<StmtView>, again: State)
    requires
        scopes_nested(st.scope),
        scopes_nested(again.scope),
        st.in_global_scope() == again.in_global_scope(),
        check_stmts(st, stmts).result is Ok,
    ensures
        check_stmts(again, check_stmts(st, stmts).result->Ok_0).result matches Ok(twice)
            ==> twice == check_stmts(st, stmts).result->Ok_0,
    decreases stmts, 0nat,
{
    if stmts.len() > 0 {
        let before = check_stmts(st, stmts.drop_last());
        let checked = before.result->Ok_0;
        let o = check_stmt(before.st, stmts.last());
        let c = o.result->Ok_0;
        let all = checked.push(c);
        assert(all.drop_last() =~= checked);
        lemma_check_stmts_again(st, stmts.drop_last(), again);
        let before2 = check_stmts(again, checked);
        if before2.result is Ok {
            lemma_check_stmts_kept(st, stmts.drop_last());
            lemma_check_stmts_kept(again, checked);
            lemma_check_stmt_again(before.st, stmts.last(), before2.st);
        }
    }
}

/// A checked statement, checked again in the same kind of scope, stays as
/// it is or is refused.
pub proof fn lemma_check_stmt_again(st: State, s: StmtView, again: State)
    requires
        scopes_nested(st.scope),
        scopes_nested(again.scope),
        st.in_global_scope() == again.in_global_scope(),
        check_stmt(st, s).result is Ok,
    ensures
        check_stmt(again, check_stmt(st, s).result->Ok_0).result matches Ok(twice) ==> twice
            == check_stmt(st, s).result->Ok_0,
    decreases s, 1nat,
{
    let c = check_stmt(st, s).result->Ok_0;
    match s {
        StmtView::DeclareVar(t, name, _) => {
            reveal(declare_var_rule);
        },
        StmtView::InitVar(t, name, e, _) => {
            reveal(init_var_rule);
            reveal(initializer);
            lemma_checked_has_type(st, e);
        },
        StmtView::InitList(t, name, exprs, _) => {
            reveal(init_list_rule);
            let declared = st.declare(name.token.text, t);
            if exprs.len() > 0 {
                if typed_list(declared, exprs) is Ok {
                    lemma_checked_has_type(
                        typed_list(declared, exprs.drop_last())->Ok_0.st,
                        exprs.last(),
                    );
                }
                if grown_frame(declared, t, name) is Ok {
                    let grown = grown_frame(declared, t, name)->Ok_0;
                    if typed_list(grown, exprs) is Ok {
                        lemma_checked_has_type(
                            typed_list(grown, exprs.drop_last())->Ok_0.st,
                            exprs.last(),
                        );
                    }
                }
                let twice = c->InitList_2;
                assert(twice.len() > 0 && twice.last().type_decl is Some);
                let declared2 = again.declare(name.token.text, t);
                lemma_list_is_refused(declared2, twice);
                if grown_frame(declared2, t, name) is Ok {
                    lemma_list_is_refused(grown_frame(declared2, t, name)->Ok_0, twice);
                }
            } else {
                assert(c->InitList_2 =~= Seq::<ExprView>::empty());
            }
        },
        StmtView::FunctionDeclaration(t, name, params) => {
            reveal(function_declaration_rule);
        },
        StmtView::Function(t, name, params, body) => {
            lemma_check_function_again(st, s, again);
            reveal(function_end);
            assert(check_stmt(st, s) == check_function(st, s));
            assert(check_stmt(again, c) == check_function(again, c));
        },
        StmtView::Return(keyword, value) => {
            reveal(return_rule);
            match value {
                Some(e) => {
                    if typed_expr(st, e) is Ok {
                        lemma_checked_has_type(st, e);
                    }
                },
                None => {},
            }
        },
        StmtView::Expr(e) => {
            reveal(expression_rule);
            lemma_checked_has_type(st, e);
        },
        StmtView::Block(stmts) => {
            let inside = st.enter(ScopeView::Block);
            let inside2 = again.enter(ScopeView::Block);
            assert(scopes_nested(inside.scope));
            assert(scopes_nested(inside2.scope));
            assert(check_stmt(st, s) == check_block(st, s));
            lemma_check_stmts_again(inside, stmts, inside2);
            assert(check_stmt(again, c) == check_block(again, c));
        },
        StmtView::If(keyword, cond, then_branch, else_branch) => {
            reveal(condition);
            assert(check_stmt(st, s) == check_if(st, s));
            let first = condition(st, keyword, cond, crate::messages::void_condition());
            lemma_checked_has_type(st, cond);
            assert(check_stmt(again, c) == check_if(again, c));
        },
        StmtView::While(keyword, cond, body) => {
            reveal(condition);
            assert(check_stmt(st, s) == check_while(st, s));
            lemma_checked_has_type(st, cond);
            assert(check_stmt(again, c) == check_while(again, c));
        },
    }
}

/// A list of expressions whose last one has a type is refused.
proof fn lemma_list_is_refused(st: State, exprs: Seq<ExprView>)
    requires
        exprs.len() > 0,
        exprs.last().type_decl is Some,
    ensures
        typed_list(st, exprs) is Err,
{
}

proof fn lemma_check_function_again(st: State, s: StmtView, again: State)
    requires
        scopes_nested(st.scope),
        scopes_nested(again.scope),
        st.in_global_scope() == again.in_global_scope(),
        s is Function,
        check_function(st, s).result is Ok,
    ensures
        check_function(again, check_function(st, s).result->Ok_0).result matches Ok(twice)
            ==> twice == check_function(st, s).result->Ok_0,
    decreases s, 0nat,
{
    let t = s->Function_0;
    let name = s->Function_1;
    let params = s->Function_2;
    let body = s->Function_3;
    let c = check_function(st, s).result->Ok_0;
    reveal(function_head);
    reveal(function_end);
    let head = function_head(st, t, name, params)->Ok_0;
    let inside = entered(head, t, name);
    let inner = bound_params(inside, params)->Ok_0;
    let o = check_stmts(inner, body);
    let checked = o.result->Ok_0;
    let closed = is_main(name) && !o.st.leave().returns_all_paths;
    assert(scopes_nested(inside.scope));
    lemma_bound_params_kept(inside, params);
    lemma_check_stmts_flag(inner, body);
    lemma_check_stmts_shape(inner, body, false);
    let body2 = c->Function_3;
    match function_head(again, t, name, params) {
        Ok(head2) => {
            let inside2 = entered(head2, t, name);
            assert(scopes_nested(inside2.scope));
            lemma_bound_params_kept(inside2, params);
            match bound_params(inside2, params) {
                Ok(inner2) => {
                    if closed {
                        // the closing `return 0` has a type
                        assert(body2 == checked.push(implicit_return(name)));
                        assert(body2.drop_last() =~= checked);
                        let before = check_stmts(inner2, body2.drop_last());
                        if before.result is Ok {
                            reveal(return_rule);
                            let zero = implicit_return(name)->Return_1->Some_0;
                            lemma_typed_is_refused(before.st, zero);
                            assert(check_stmt(before.st, body2.last()).result is Err);
                        }
                        assert(check_stmts(inner2, body2).result is Err);
                    } else {
                        assert(body2 == checked);
                        lemma_check_stmts_again(inner, body, inner2);
                        lemma_check_stmts_flag(inner2, checked);
                    }
                },
                Err(_) => {},
            }
        },
        Err(_) => {},
    }
}

/// The statements of a program that was checked without a diagnostic,
/// checked again by a type checker at the top level, stay as they are, or the
/// program is refused.
pub proof fn lemma_checked_program_again(st: State, stmts: Seq<StmtView>, again: State)
    requires
        scopes_nested(st.scope),
        scopes_nested(again.scope),
        st.scope.len() == 1,
        again.scope.len() == 1,
        check_program(st, stmts).errors.len() == 0,
    ensures
        check_program(again, check_program(st, stmts).stmts).errors.len() == 0 ==> check_program(
            again,
            check_program(st, stmts).stmts,
        ).stmts == check_program(st, stmts).stmts,
        check_program(st, stmts).stmts.len() == stmts.len(),
        check_program(st, stmts).st.scope == st.scope,
    decreases stmts.len(),
{
    if stmts.len() > 0 {
        let before = check_program(st, stmts.drop_last());
        lemma_checked_program_again(st, stmts.drop_last(), again);
        let o = check_stmt(before.st, stmts.last());
        let c = o.result->Ok_0;
        let all = before.stmts.push(c);
        assert(all.drop_last() =~= before.stmts);
        lemma_check_stmt_kept(before.st, stmts.last());
        let before2 = check_program(again, before.stmts);
        lemma_program_scope(again, before.stmts);
        if check_program(again, all).errors.len() == 0 {
            assert(before2.errors.len() == 0);
            lemma_check_stmt_again(before.st, stmts.last(), before2.st);
        }
    }
}

/// A program leaves the type checker in the scope it stood in.
proof fn lemma_program_scope(st: State, stmts: Seq<StmtView>)
    requires
        scopes_nested(st.scope),
    ensures
        check_program(st, stmts).st.scope == st.scope,
    decreases stmts.len(),
{
    if stmts.len() > 0 {
        lemma_program_scope(st, stmts.drop_last());
        lemma_check_stmt_kept(check_program(st, stmts.drop_last()).st, stmts.last());
    }
}

} // verus!
