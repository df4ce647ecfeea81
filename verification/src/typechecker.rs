use crate::common::environment::{frame_views, get_var, signatures, Function, Table};
use crate::common::error::{error_views, Error, ErrorView};
use crate::common::expr::{expr_views, Expr, ExprKind, ExprView, ValueKind};
use crate::common::stmt::{clone_params, param_views, stmt_views, Stmt, StmtView};
use crate::common::text::{char_width, lemma_utf8_len_push, owned, utf8_len};
use crate::common::token::{Token, TokenType, TokenView};
use crate::common::types::Types;
use crate::rules::{
    all_constants, args_and_params_match, arr_decay, assign_var, binary_conversions,
    check_return_compatibility, compare_declarations, compound_conversions, initialize,
    is_constant, logical_conversions, maybe_cast, maybe_int_promote, postunary_amount,
    unary_conversion,
};
use crate::messages;
use crate::semantics::{
    aligned, bound_params, call_rule, check_block, check_else, check_function, check_if,
    check_program, check_stmt, check_stmts, check_while, condition, declare_var_rule, diagnostics,
    enclosing_function, entered, expr_outcome, expression_rule, function_declaration_rule,
    function_end, function_head, grown_frame, ident_rule, implicit_return, init_list_rule,
    init_var_rule, initializer, is_main, lemma_aligned_bounds, lemma_enclosing_function_wf,
    lemma_lookup_wf, lemma_outcome_after_failure, lemma_outcome_facts, log2_floor, params_wf,
    return_rule, scopes_nested, signature_of, signature_wf, stmt_outcome, stmt_wf, stmts_wf,
    string_rule, typed_args, typed_assign, typed_binary, typed_call, typed_compound, typed_expr,
    typed_grouping, typed_list, typed_logical, typed_postunary, typed_unary, with_type, Outcomes,
    ScopeView, State, TypedArgs, TypedList,
};
use vstd::prelude::*;

verus! {

/// What encloses the place where the type checker stands.
pub enum Scope {
    Global,
    Block,
    /// A function, with its name and the type it returns.
    Function(String, Types),
}

impl View for Scope {
    type V = ScopeView;

    open spec fn view(&self) -> ScopeView {
        match self {
            Scope::Global => ScopeView::Global,
            Scope::Block => ScopeView::Block,
            Scope::Function(name, t) => ScopeView::Function(name@, *t),
        }
    }
}

/// The views of a stack of scopes, outermost first.
pub open spec fn scope_views(scopes: Seq<Scope>) -> Seq<ScopeView> {
    scopes.map_values(|s: Scope| s@)
}

/// The smallest multiple of `type_size` that is not below `offset`.
pub fn align_by(offset: usize, type_size: usize) -> (r: usize)
    requires
        type_size > 0,
        aligned(offset as nat, type_size as nat) <= usize::MAX,
    ensures
        r == aligned(offset as nat, type_size as nat),
        r % type_size == 0,
        offset <= r < offset + type_size,
{
    let remainder = offset % type_size;
    if remainder != 0 {
        let r = offset + (type_size - remainder);
        assert(r % type_size == 0) by (nonlinear_arith)
            requires
                r == offset + type_size - offset % type_size,
                type_size > 0,
        ;
        r
    } else {
        offset
    }
}

/// Hands out the next label: gives the value of `index` and counts it up.
pub fn create_label(index: &mut usize) -> (r: usize)
    requires
        *old(index) < usize::MAX,
    ensures
        r == *old(index),
        *final(index) == *old(index) + 1,
{
    let prev = *index;
    *index += 1;
    prev
}

/// The largest `k` with `2^k <= x`; 0 for `x == 0`.
pub fn log_2(x: usize) -> (r: usize)
    ensures
        r == log2_floor(x as nat),
{
    let mut rest: usize = x;
    let mut r: usize = 0;
    while rest > 1
        invariant
            r + log2_floor(rest as nat) == log2_floor(x as nat),
            r <= x - rest,
        decreases rest,
    {
        rest = rest / 2;
        r = r + 1;
    }
    r
}

/// The innermost function scope among `scopes`.
pub fn find_function(scopes: &Vec<Scope>) -> (r: Option<&Scope>)
    ensures
        match r {
            Some(s) => *s is Function && enclosing_function(scope_views(scopes@)) == Some(
                (s->Function_0@, s->Function_1),
            ),
            None => enclosing_function(scope_views(scopes@)) is None,
        },
{
    let mut i: usize = scopes.len();
    assert(scope_views(scopes@).take(i as int) =~= scope_views(scopes@));
    while i > 0
        invariant
            i <= scopes.len(),
            enclosing_function(scope_views(scopes@)) == enclosing_function(
                scope_views(scopes@).take(i as int),
            ),
        decreases i,
    {
        i = i - 1;
        proof {
            assert(scope_views(scopes@).take(i + 1).drop_last() =~= scope_views(scopes@).take(
                i as int,
            ));
        }
        if matches!(scopes[i], Scope::Function(_, _)) {
            return Some(&scopes[i]);
        }
    }
    None
}

/// The type checker: it walks the statements of a program, annotates every
/// expression with its type and puts in the conversions that the language
/// leaves unsaid.
pub struct TypeChecker {
    scope: Vec<Scope>,
    env: Vec<Table<Types>>,
    declared: Table<Function>,
    defined: Table<Function>,
    returns_all_paths: bool,
    func_stack_size: Table<usize>,
    found_main: bool,
    const_labels: Table<usize>,
    const_label_count: usize,
}

impl View for TypeChecker {
    type V = State;

    closed spec fn view(&self) -> State {
        State {
            scope: scope_views(self.scope@),
            frames: frame_views(self.env@),
            declared: signatures(self.declared@),
            defined: signatures(self.defined@),
            returns_all_paths: self.returns_all_paths,
            found_main: self.found_main,
            stack_sizes: self.func_stack_size@,
            labels: self.const_labels@,
            label_count: self.const_label_count,
        }
    }
}

impl TypeChecker {
    /// The types that the type checker holds are well formed, and so is its
    /// state.
    #[verifier::opaque]
    pub closed spec fn wf(&self) -> bool {
        &&& self@.wf()
        &&& self@.types_wf()
        &&& self.const_label_count == self.const_labels.count()
    }

    pub fn new() -> (r: Self)
        ensures
            r@ == State::start(),
            r.wf(),
    {
        let mut env: Vec<Table<Types>> = Vec::new();
        env.push(Table::new());
        let mut scope: Vec<Scope> = Vec::new();
        scope.push(Scope::Global);
        let r = TypeChecker {
            scope,
            env,
            declared: Table::new(),
            defined: Table::new(),
            returns_all_paths: false,
            found_main: false,
            func_stack_size: Table::new(),
            const_labels: Table::new(),
            const_label_count: 0,
        };
        reveal(TypeChecker::wf);
        assert(r@.scope =~= State::start().scope);
        assert(r@.frames =~= State::start().frames);
        assert(r@.declared =~= State::start().declared);
        assert(r@.defined =~= State::start().defined);
        r
    }

    /// Whether the type checker stands outside every function and block.
    fn in_global_scope(&self) -> (r: bool)
        requires
            self.wf(),
        ensures
            r == self@.in_global_scope(),
    {
        proof {
            reveal(TypeChecker::wf);
        }
        matches!(self.scope[self.scope.len() - 1], Scope::Global)
    }

    /// Whether the innermost frame binds `name`.
    fn declared_here(&self, name: &String) -> (r: bool)
        requires
            self.wf(),
        ensures
            r == self@.declared_here(name@),
    {
        proof {
            reveal(TypeChecker::wf);
        }
        self.env[self.env.len() - 1].contains_key(name)
    }

    /// Binds `name` to `t` in the innermost frame.
    fn declare(&mut self, name: String, t: Types)
        requires
            old(self).wf(),
            t.wf(),
        ensures
            final(self).wf(),
            final(self)@ == old(self)@.declare(name@, t),
    {
        proof {
            reveal(TypeChecker::wf);
        }
        let last = self.env.len() - 1;
        self.env[last].insert(name, t);
        proof {
            assert(self@.frames =~= old(self)@.declare(name@, t).frames);
            assert(self@.types_wf()) by {
                assert forall|i: int, n: Seq<char>|
                    0 <= i < self@.frames.len() && #[trigger] self@.frames[i].contains_key(
                        n,
                    ) implies self@.frames[i][n].wf() by {
                    if i == last && n == name@ {
                    } else {
                        assert(old(self)@.frames[i].contains_key(n));
                    }
                }
            }
        }
    }

    /// Enters a scope with a frame of its own.
    fn enter(&mut self, scope: Scope)
        requires
            old(self).wf(),
            !(scope is Global),
            scope matches Scope::Function(_, t) ==> t.wf(),
        ensures
            final(self).wf(),
            final(self)@ == old(self)@.enter(scope@),
            final(self)@.scope.len() > 1,
            final(self)@.frames.len() > 1,
    {
        proof {
            reveal(TypeChecker::wf);
        }
        self.scope.push(scope);
        self.env.push(Table::new());
        proof {
            assert(self@.scope =~= old(self)@.enter(scope@).scope);
            assert(self@.frames =~= old(self)@.enter(scope@).frames);
            assert(scopes_nested(self@.scope)) by {
                assert forall|i: int| 0 < i < self@.scope.len() implies !(
                #[trigger] self@.scope[i] is Global) by {
                    if i < old(self)@.scope.len() {
                        assert(self@.scope[i] == old(self)@.scope[i]);
                    }
                }
            }
            assert(self@.types_wf()) by {
                assert forall|i: int, n: Seq<char>|
                    0 <= i < self@.frames.len() && #[trigger] self@.frames[i].contains_key(
                        n,
                    ) implies self@.frames[i][n].wf() by {
                    if i < old(self)@.frames.len() {
                        assert(old(self)@.frames[i].contains_key(n));
                    }
                }
                assert forall|i: int| 0 <= i < self@.scope.len() implies (
                #[trigger] self@.scope[i] matches ScopeView::Function(_, t) ==> t.wf()) by {
                    if i < old(self)@.scope.len() {
                        assert(self@.scope[i] == old(self)@.scope[i]);
                    }
                }
            }
        }
    }

    /// Leaves the innermost scope and drops its frame.
    fn leave(&mut self)
        requires
            old(self).wf(),
            old(self)@.scope.len() > 1,
            old(self)@.frames.len() > 1,
        ensures
            final(self).wf(),
            final(self)@ == old(self)@.leave(),
    {
        proof {
            reveal(TypeChecker::wf);
        }
        self.env.pop();
        self.scope.pop();
        proof {
            assert(self@.scope =~= old(self)@.leave().scope);
            assert(self@.frames =~= old(self)@.leave().frames);
            assert(scopes_nested(self@.scope)) by {
                assert forall|i: int| 0 < i < self@.scope.len() implies !(
                #[trigger] self@.scope[i] is Global) by {
                    assert(self@.scope[i] == old(self)@.scope[i]);
                }
            }
            assert(self@.types_wf()) by {
                assert forall|i: int, n: Seq<char>|
                    0 <= i < self@.frames.len() && #[trigger] self@.frames[i].contains_key(
                        n,
                    ) implies self@.frames[i][n].wf() by {
                    assert(old(self)@.frames[i].contains_key(n));
                }
                assert forall|i: int| 0 <= i < self@.scope.len() implies (
                #[trigger] self@.scope[i] matches ScopeView::Function(_, t) ==> t.wf()) by {
                    assert(self@.scope[i] == old(self)@.scope[i]);
                }
            }
        }
    }

    /// Drops the tables that only a successful check hands out.
    fn forget(&mut self)
        requires
            old(self).wf(),
        ensures
            final(self).wf(),
            final(self)@ == old(self)@.failed(),
    {
        proof {
            reveal(TypeChecker::wf);
        }
        self.returns_all_paths = false;
        self.func_stack_size = Table::new();
        self.const_labels = Table::new();
        self.const_label_count = 0;
        proof {
            assert(self@.frames == old(self)@.frames);
            assert(self@.scope == old(self)@.scope);
            assert(self@.declared == old(self)@.declared);
            assert(self@.defined == old(self)@.defined);
            assert(self@.wf());
            assert(self@.types_wf());
            assert(self.const_label_count == self.const_labels.count());
        }
    }

    fn set_returns(&mut self, value: bool)
        requires
            old(self).wf(),
        ensures
            final(self).wf(),
            final(self)@ == (State { returns_all_paths: value, ..old(self)@ }),
    {
        proof {
            reveal(TypeChecker::wf);
        }
        self.returns_all_paths = value;
    }

    fn returns_on_all_paths(&self) -> (r: bool)
        ensures
            r == self@.returns_all_paths,
    {
        self.returns_all_paths
    }

    /// Counts a variable of type `type_decl` into the frame of the function
    /// that is being checked.
    fn increment_stack_size(&mut self, type_decl: &Types, at: &Token) -> (r: Result<(), Error>)
        requires
            old(self).wf(),
            type_decl.wf(),
        ensures
            final(self).wf(),
            final(self)@ == (State { stack_sizes: final(self)@.stack_sizes, ..old(self)@ }),
            match grown_frame(old(self)@, *type_decl, at@) {
                Ok(st) => r is Ok && final(self)@ == st,
                Err(e) => r is Err && r->Err_0@ == e && final(self)@ == old(self)@,
            },
    {
        proof {
            reveal(TypeChecker::wf);
            reveal(grown_frame);
        }
        let name = match find_function(&self.scope) {
            Some(Scope::Function(name, _)) => name.clone(),
            _ => {
                return Ok(());
            },
        };
        let before: usize = match self.func_stack_size.get(&name) {
            Some(size) => *size,
            None => 0,
        };
        let size = type_decl.size();
        let alignment = type_decl.alignment();
        if size > usize::MAX - before {
            proof {
                lemma_aligned_bounds((before + size) as nat, alignment as nat);
            }
            return Err(Error::with_message(at, messages::frame_too_large_text()));
        }
        let grown = before + size;
        let after = if alignment == 0 {
            grown
        } else {
            let remainder = grown % alignment;
            if remainder != 0 && alignment - remainder > usize::MAX - grown {
                return Err(Error::with_message(at, messages::frame_too_large_text()));
            }
            align_by(grown, alignment)
        };
        self.func_stack_size.insert(name, after);
        Ok(())
    }

    /// A string literal: its type, and its label if the text is new.
    fn string(&mut self, ast: &mut Expr) -> (r: Result<Types, Error>)
        requires
            old(self).wf(),
            old(ast)@.kind is String,
        ensures
            final(self).wf(),
            expr_outcome(
                old(self)@,
                final(self)@,
                final(ast)@,
                r,
                string_rule(old(self)@, old(ast)@, old(ast)@.kind->String_0),
            ),
    {
        proof {
            reveal(string_rule);
            reveal(TypeChecker::wf);
        }
        let (data, place) = match &ast.kind {
            ExprKind::String(token) => (token.unwrap_string(), token.clone()),
            _ => unreached(),
        };
        let bytes = byte_len(data.as_str());
        if bytes.is_none() || bytes.unwrap() == usize::MAX {
            return Err(Error::with_message(&place, messages::string_too_long_text()));
        }
        let len = bytes.unwrap() + 1;
        if !self.const_labels.contains_key(&data) {
            self.const_labels.insert(data, self.const_label_count);
            create_label(&mut self.const_label_count);
        }
        let t = Types::Array { of: Box::new(Types::Char), amount: len };
        assert(t.wf()) by {
            assert(Types::Char.wf());
            assert(Types::Char.spec_size() == 1);
            assert(len as nat * 1 == len as nat);
        }
        ast.type_decl = Some(t.clone());
        Ok(t)
    }

    /// A variable: its type is that of the innermost declaration in reach.
    fn ident(&self, ast: &mut Expr) -> (r: Result<Types, Error>)
        requires
            self.wf(),
            old(ast)@.kind is Ident,
        ensures
            expr_outcome(
                self@,
                self@,
                final(ast)@,
                r,
                ident_rule(self@, old(ast)@, old(ast)@.kind->Ident_0),
            ),
    {
        proof {
            reveal(TypeChecker::wf);
        }
        let (name, place) = match &ast.kind {
            ExprKind::Ident(token) => (token.unwrap_string(), token.clone()),
            _ => unreached(),
        };
        proof {
            lemma_lookup_wf(self@, name@);
        }
        match get_var(&self.env, &name) {
            Some(t) => {
                ast.type_decl = Some(t.clone());
                Ok(t)
            },
            None => Err(Error::with_message(&place, messages::undeclared_text())),
        }
    }

    /// A call of function `name` with arguments of types `args`: the type
    /// that the call returns.
    fn call_type(&self, left_paren: &Token, name: &String, args: &Vec<Types>) -> (r: Result<
        Types,
        Error,
    >)
        requires
            self.wf(),
        ensures
            match call_rule(self@, left_paren@, name@, args@) {
                Ok(t) => r == Ok::<Types, Error>(t) && t.wf(),
                Err(e) => r is Err && r->Err_0@ == e,
            },
    {
        proof {
            reveal(call_rule);
            reveal(TypeChecker::wf);
        }
        let function = match self.defined.get(name) {
            Some(f) => f,
            None => match self.declared.get(name) {
                Some(f) => f,
                None => {
                    return Err(Error::with_message(left_paren, messages::no_function_text(name)));
                },
            },
        };
        assert(self@.callable(name@) == Some(function@));
        if function.arity() != args.len() {
            return Err(
                Error::with_message(
                    left_paren,
                    messages::argument_count_text(name, function.arity(), args.len()),
                ),
            );
        }
        args_and_params_match(left_paren, &function.params, args)?;
        Ok(function.return_type.clone())
    }

    /// Checks the arguments of a call from left to right and gives their
    /// types.
    fn check_args(&mut self, args: &mut Vec<Expr>) -> (r: Result<Vec<Types>, Error>)
        requires
            old(self).wf(),
        ensures
            final(self).wf(),
            final(self)@ == (State {
                labels: final(self)@.labels,
                label_count: final(self)@.label_count,
                ..old(self)@
            }),
            match typed_args(old(self)@, expr_views(old(args)@)) {
                Ok(a) => r is Ok && r->Ok_0@ == a.types && final(self)@ == a.st && expr_views(
                    final(args)@,
                ) == a.exprs,
                Err(e) => r is Err && r->Err_0@ == e,
            },
        decreases *old(args), 0nat,
    {
        let ghost before = expr_views(args@);
        let ghost start = self@;
        let mut types: Vec<Types> = Vec::new();
        let mut i: usize = 0;
        assert(before.take(0) =~= Seq::<ExprView>::empty());
        assert(expr_views(args@).take(0) =~= Seq::<ExprView>::empty());
        while i < args.len()
            invariant
                i <= args.len(),
                args.len() == old(args).len(),
                before == expr_views(old(args)@),
                start == old(self)@,
                self.wf(),
                self@ == (State {
                    labels: self@.labels,
                    label_count: self@.label_count,
                    ..start
                }),
                forall|j: int| i <= j < args.len() ==> #[trigger] args[j] == old(args)[j],
                typed_args(start, before.take(i as int)) == Ok::<TypedArgs, ErrorView>(
                    TypedArgs { st: self@, exprs: expr_views(args@).take(i as int), types: types@ },
                ),
            decreases args.len() - i,
        {
            proof {
                assert(decreases_to!(*old(args) => old(args)[i as int]));
                assert(before.take(i + 1).drop_last() =~= before.take(i as int));
                assert(before.take(i + 1).last() == args[i as int]@);
            }
            let ghost done = expr_views(args@).take(i as int);
            let result = self.expr_type(&mut args[i]);
            let mut t = match result {
                Ok(t) => t,
                Err(e) => {
                    proof {
                        lemma_typed_args_prefix(start, before, i + 1);
                    }
                    return Err(e);
                },
            };
            arr_decay(&mut t, &mut args[i]);
            maybe_int_promote(&mut args[i], &mut t);
            types.push(t);
            i = i + 1;
            proof {
                assert(expr_views(args@).take(i as int) =~= done.push(args[i - 1]@));
            }
        }
        proof {
            assert(before.take(i as int) =~= before);
            assert(expr_views(args@).take(i as int) =~= expr_views(args@));
        }
        Ok(types)
    }

    fn evaluate_grouping(&mut self, ast: &mut Expr) -> (r: Result<Types, Error>)
        requires
            old(self).wf(),
            old(ast)@.kind is Grouping,
        ensures
            final(self).wf(),
            expr_outcome(
                old(self)@,
                final(self)@,
                final(ast)@,
                r,
                typed_grouping(old(self)@, old(ast)@),
            ),
        decreases *old(ast), 0nat,
    {
        let t = match &mut ast.kind {
            ExprKind::Grouping { expr } => self.expr_type(expr)?,
            _ => unreached(),
        };
        ast.type_decl = Some(t.clone());
        Ok(t)
    }

    fn evaluate_binary(&mut self, ast: &mut Expr) -> (r: Result<Types, Error>)
        requires
            old(self).wf(),
            old(ast)@.kind is Binary,
        ensures
            final(self).wf(),
            expr_outcome(
                old(self)@,
                final(self)@,
                final(ast)@,
                r,
                typed_binary(old(self)@, old(ast)@),
            ),
        decreases *old(ast), 0nat,
    {
        let (t, scale) = match &mut ast.kind {
            ExprKind::Binary { left, token, right } => {
                let left_type = self.expr_type(left)?;
                let right_type = self.expr_type(right)?;
                binary_conversions(left, left_type, token, right, right_type)?
            },
            _ => unreached(),
        };
        ast.type_decl = Some(t.clone());
        match scale {
            Some(size) => {
                // a difference of pointers counts elements, not bytes
                let inner = ast.clone();
                ast.kind = ExprKind::ScaleDown { shift_amount: log_2(size), expr: Box::new(inner) };
            },
            None => {},
        }
        Ok(t)
    }

    fn evaluate_logical(&mut self, ast: &mut Expr) -> (r: Result<Types, Error>)
        requires
            old(self).wf(),
            old(ast)@.kind is Logical,
        ensures
            final(self).wf(),
            expr_outcome(
                old(self)@,
                final(self)@,
                final(ast)@,
                r,
                typed_logical(old(self)@, old(ast)@),
            ),
        decreases *old(ast), 0nat,
    {
        let t = match &mut ast.kind {
            ExprKind::Logical { left, token, right } => {
                let left_type = self.expr_type(left)?;
                let right_type = self.expr_type(right)?;
                logical_conversions(left, &left_type, token, right, &right_type)?
            },
            _ => unreached(),
        };
        ast.type_decl = Some(t.clone());
        Ok(t)
    }

    fn evaluate_unary(&mut self, ast: &mut Expr) -> (r: Result<Types, Error>)
        requires
            old(self).wf(),
            old(ast)@.kind is Unary,
        ensures
            final(self).wf(),
            expr_outcome(
                old(self)@,
                final(self)@,
                final(ast)@,
                r,
                typed_unary(old(self)@, old(ast)@),
            ),
        decreases *old(ast), 0nat,
    {
        let (t, value_kind) = match &mut ast.kind {
            ExprKind::Unary { token, right } => {
                let right_type = self.expr_type(right)?;
                unary_conversion(token, right, right_type)?
            },
            _ => unreached(),
        };
        ast.type_decl = Some(t.clone());
        ast.value_kind = value_kind;
        Ok(t)
    }

    fn evaluate_assign(&mut self, ast: &mut Expr) -> (r: Result<Types, Error>)
        requires
            old(self).wf(),
            old(ast)@.kind is Assign,
        ensures
            final(self).wf(),
            expr_outcome(
                old(self)@,
                final(self)@,
                final(ast)@,
                r,
                typed_assign(old(self)@, old(ast)@),
            ),
        decreases *old(ast), 0nat,
    {
        let t = match &mut ast.kind {
            ExprKind::Assign { l_expr, token, r_expr } => {
                let l_type = self.expr_type(l_expr)?;
                let r_type = self.expr_type(r_expr)?;
                assign_var(l_expr, l_type, token, r_expr, r_type)?
            },
            _ => unreached(),
        };
        ast.type_decl = Some(t.clone());
        Ok(t)
    }

    fn compound_assign(&mut self, ast: &mut Expr) -> (r: Result<Types, Error>)
        requires
            old(self).wf(),
            old(ast)@.kind is CompoundAssign,
        ensures
            final(self).wf(),
            expr_outcome(
                old(self)@,
                final(self)@,
                final(ast)@,
                r,
                typed_compound(old(self)@, old(ast)@),
            ),
        decreases *old(ast), 0nat,
    {
        let t = match &mut ast.kind {
            ExprKind::CompoundAssign { l_expr, token, r_expr } => {
                let l_type = self.expr_type(l_expr)?;
                let r_type = self.expr_type(r_expr)?;
                compound_conversions(l_expr, l_type, token, r_expr, r_type)?
            },
            _ => unreached(),
        };
        ast.type_decl = Some(t.clone());
        Ok(t)
    }

    fn evaluate_postunary(&mut self, ast: &mut Expr) -> (r: Result<Types, Error>)
        requires
            old(self).wf(),
            old(ast)@.kind is PostUnary,
        ensures
            final(self).wf(),
            expr_outcome(
                old(self)@,
                final(self)@,
                final(ast)@,
                r,
                typed_postunary(old(self)@, old(ast)@),
            ),
        decreases *old(ast), 0nat,
    {
        let t = match &mut ast.kind {
            ExprKind::PostUnary { token, left, by_amount } => {
                let operand = self.expr_type(left)?;
                *by_amount = postunary_amount(token, left, &operand)?;
                operand
            },
            _ => unreached(),
        };
        ast.type_decl = Some(t.clone());
        Ok(t)
    }

    fn evaluate_call(&mut self, ast: &mut Expr) -> (r: Result<Types, Error>)
        requires
            old(self).wf(),
            old(ast)@.kind is Call,
        ensures
            final(self).wf(),
            expr_outcome(
                old(self)@,
                final(self)@,
                final(ast)@,
                r,
                typed_call(old(self)@, old(ast)@),
            ),
        decreases *old(ast), 0nat,
    {
        let t = match &mut ast.kind {
            ExprKind::Call { left_paren, callee, args } => {
                assert(callee@.kind is Ident <==> callee.kind is Ident);
                let ghost named = callee@;
                let name = match &callee.kind {
                    ExprKind::Ident(name) => name.unwrap_string(),
                    _ => {
                        return Err(Error::with_message(left_paren, messages::callee_text()));
                    },
                };
                let arg_types = self.check_args(args)?;
                let t = self.call_type(left_paren, &name, &arg_types)?;
                callee.type_decl = Some(t.clone());
                assert(callee@ == with_type(named, t));
                t
            },
            _ => unreached(),
        };
        ast.type_decl = Some(t.clone());
        Ok(t)
    }

    /// Checks an expression: finds its type, annotates the expression and
    /// what it is made of, and puts in the conversions.
    pub fn expr_type(&mut self, ast: &mut Expr) -> (r: Result<Types, Error>)
        requires
            old(self).wf(),
        ensures
            final(self).wf(),
            expr_outcome(
                old(self)@,
                final(self)@,
                final(ast)@,
                r,
                typed_expr(old(self)@, old(ast)@),
            ),
        decreases *old(ast), 1nat,
    {
        if ast.type_decl.is_some() {
            return Err(Error::nowhere_message(messages::already_checked_text()));
        }
        match &ast.kind {
            ExprKind::Number(_) => {
                ast.type_decl = Some(Types::Int);
                Ok(Types::Int)
            },
            ExprKind::CharLit(_) => {
                ast.type_decl = Some(Types::Char);
                Ok(Types::Char)
            },
            ExprKind::String(_) => self.string(ast),
            ExprKind::Ident(_) => self.ident(ast),
            ExprKind::Grouping { .. } => self.evaluate_grouping(ast),
            ExprKind::Binary { .. } => self.evaluate_binary(ast),
            ExprKind::Logical { .. } => self.evaluate_logical(ast),
            ExprKind::Unary { .. } => self.evaluate_unary(ast),
            ExprKind::Assign { .. } => self.evaluate_assign(ast),
            ExprKind::CompoundAssign { .. } => self.compound_assign(ast),
            ExprKind::PostUnary { .. } => self.evaluate_postunary(ast),
            ExprKind::Call { .. } => self.evaluate_call(ast),
            _ => Err(Error::nowhere_message(messages::inserted_node_text())),
        }
    }

    fn declare_var(&mut self, statement: &mut Stmt) -> (r: Result<(), Error>)
        requires
            old(self).wf(),
            old(statement)@ is DeclareVar,
            stmt_wf(old(statement)@),
        ensures
            final(self).wf(),
            stmt_outcome(
                old(self)@,
                final(self)@,
                final(statement)@,
                r,
                check_stmt(old(self)@, old(statement)@),
            ),
    {
        proof {
            reveal(declare_var_rule);
            reveal(stmt_outcome);
        }
        match statement {
            Stmt::DeclareVar(type_decl, var_name, is_global) => {
                let name = var_name.unwrap_string();
                if self.declared_here(&name) {
                    return Err(
                        Error::with_message(var_name, messages::redefined_variable_text(&name)),
                    );
                }
                if type_decl.is_void() {
                    return Err(Error::with_message(var_name, messages::void_variable_text(&name)));
                }
                if self.in_global_scope() {
                    *is_global = true;
                } else {
                    self.increment_stack_size(type_decl, var_name)?;
                    *is_global = false;
                }
                self.declare(name, type_decl.clone());
                Ok(())
            },
            _ => unreached(),
        }
    }

    fn init_var(&mut self, statement: &mut Stmt) -> (r: Result<(), Error>)
        requires
            old(self).wf(),
            old(statement)@ is InitVar,
            stmt_wf(old(statement)@),
        ensures
            final(self).wf(),
            stmt_outcome(
                old(self)@,
                final(self)@,
                final(statement)@,
                r,
                check_stmt(old(self)@, old(statement)@),
            ),
    {
        proof {
            reveal(init_var_rule);
            reveal(stmt_outcome);
        }
        match statement {
            Stmt::InitVar(type_decl, var_name, expr, is_global) => {
                let name = var_name.unwrap_string();
                let from_string = matches!(expr.kind, ExprKind::String(_));
                assert(from_string == (expr@.kind is String));
                let value_type = self.expr_type(expr)?;
                if self.declared_here(&name) {
                    return Err(
                        Error::with_message(var_name, messages::redefined_variable_text(&name)),
                    );
                }
                initialize(type_decl, var_name, from_string, expr, value_type)?;
                if self.in_global_scope() {
                    if !is_constant(expr) {
                        return Err(Error::with_message(var_name, messages::not_constant_text()));
                    }
                    *is_global = true;
                } else {
                    self.increment_stack_size(type_decl, var_name)?;
                    *is_global = false;
                }
                self.declare(name, type_decl.clone());
                Ok(())
            },
            _ => unreached(),
        }
    }

    /// Checks the expressions of an initializer list from first to last.
    fn check_list(&mut self, exprs: &mut Vec<Expr>) -> (r: Result<(), Error>)
        requires
            old(self).wf(),
        ensures
            final(self).wf(),
            final(self)@ == (State {
                labels: final(self)@.labels,
                label_count: final(self)@.label_count,
                ..old(self)@
            }),
            match typed_list(old(self)@, expr_views(old(exprs)@)) {
                Ok(l) => r is Ok && final(self)@ == l.st && expr_views(final(exprs)@) == l.exprs,
                Err(e) => r is Err && r->Err_0@ == e,
            },
    {
        let ghost before = expr_views(exprs@);
        let ghost start = self@;
        let mut i: usize = 0;
        assert(before.take(0) =~= Seq::<ExprView>::empty());
        assert(expr_views(exprs@).take(0) =~= Seq::<ExprView>::empty());
        while i < exprs.len()
            invariant
                i <= exprs.len(),
                exprs.len() == old(exprs).len(),
                before == expr_views(old(exprs)@),
                start == old(self)@,
                self.wf(),
                self@ == (State {
                    labels: self@.labels,
                    label_count: self@.label_count,
                    ..start
                }),
                forall|j: int| i <= j < exprs.len() ==> #[trigger] exprs[j] == old(exprs)[j],
                typed_list(start, before.take(i as int)) == Ok::<TypedList, ErrorView>(
                    TypedList { st: self@, exprs: expr_views(exprs@).take(i as int) },
                ),
            decreases exprs.len() - i,
        {
            proof {
                assert(before.take(i + 1).drop_last() =~= before.take(i as int));
                assert(before.take(i + 1).last() == exprs[i as int]@);
            }
            let ghost done = expr_views(exprs@).take(i as int);
            match self.expr_type(&mut exprs[i]) {
                Ok(_) => {},
                Err(e) => {
                    proof {
                        lemma_typed_list_prefix(start, before, i + 1);
                    }
                    return Err(e);
                },
            }
            i = i + 1;
            proof {
                assert(expr_views(exprs@).take(i as int) =~= done.push(exprs[i - 1]@));
            }
        }
        proof {
            assert(before.take(i as int) =~= before);
            assert(expr_views(exprs@).take(i as int) =~= expr_views(exprs@));
        }
        Ok(())
    }

    fn init_list(&mut self, statement: &mut Stmt) -> (r: Result<(), Error>)
        requires
            old(self).wf(),
            old(statement)@ is InitList,
            stmt_wf(old(statement)@),
        ensures
            final(self).wf(),
            stmt_outcome(
                old(self)@,
                final(self)@,
                final(statement)@,
                r,
                check_stmt(old(self)@, old(statement)@),
            ),
    {
        proof {
            reveal(init_list_rule);
            reveal(stmt_outcome);
        }
        match statement {
            Stmt::InitList(type_decl, var_name, exprs, is_global) => {
                let name = var_name.unwrap_string();
                if self.declared_here(&name) {
                    return Err(
                        Error::with_message(var_name, messages::redefined_variable_text(&name)),
                    );
                }
                self.declare(name, type_decl.clone());
                if self.in_global_scope() {
                    if !all_constants(exprs) {
                        return Err(Error::with_message(var_name, messages::not_constant_text()));
                    }
                    *is_global = true;
                } else {
                    self.increment_stack_size(type_decl, var_name)?;
                    *is_global = false;
                }
                self.check_list(exprs)
            },
            _ => unreached(),
        }
    }

    /// Enters a function among the declared ones or, as a definition, among
    /// the defined ones.
    fn declare_func(&mut self, name: String, function: Function, definition: bool)
        requires
            old(self).wf(),
            signature_wf(function@),
        ensures
            final(self).wf(),
            final(self)@ == if definition {
                State { defined: old(self)@.defined.insert(name@, function@), ..old(self)@ }
            } else {
                State { declared: old(self)@.declared.insert(name@, function@), ..old(self)@ }
            },
    {
        proof {
            reveal(TypeChecker::wf);
        }
        if definition {
            self.defined.insert(name, function);
            assert(self@.defined =~= old(self)@.defined.insert(name@, function@));
        } else {
            self.declared.insert(name, function);
            assert(self@.declared =~= old(self)@.declared.insert(name@, function@));
        }
        proof {
            assert(self@.frames == old(self)@.frames);
            assert(self@.scope == old(self)@.scope);
            assert(self@.types_wf());
        }
    }

    /// The signature that the function `name` was declared with, or that it
    /// was defined with.
    fn get_func(&self, name: &String, definition: bool) -> (r: Option<&Function>)
        ensures
            ({
                let known = if definition {
                    self@.defined
                } else {
                    self@.declared
                };
                match r {
                    Some(f) => known.contains_key(name@) && known[name@] == f@,
                    None => !known.contains_key(name@),
                }
            }),
    {
        if definition {
            self.defined.get(name)
        } else {
            self.declared.get(name)
        }
    }

    fn function_declaration(&mut self, statement: &mut Stmt) -> (r: Result<(), Error>)
        requires
            old(self).wf(),
            old(statement)@ is FunctionDeclaration,
            stmt_wf(old(statement)@),
        ensures
            final(self).wf(),
            stmt_outcome(
                old(self)@,
                final(self)@,
                final(statement)@,
                r,
                check_stmt(old(self)@, old(statement)@),
            ),
    {
        proof {
            reveal(function_declaration_rule);
            reveal(stmt_outcome);
        }
        match statement {
            Stmt::FunctionDeclaration(return_type, name_token, params) => {
                let name = name_token.unwrap_string();
                match self.get_func(&name, false) {
                    Some(f) => {
                        compare_declarations(name_token, f, return_type, params)?;
                    },
                    None => {},
                }
                match self.get_func(&name, true) {
                    Some(f) => {
                        compare_declarations(name_token, f, return_type, params)?;
                    },
                    None => {},
                }
                let function = Function::new(return_type.clone(), clone_params(params));
                proof {
                    lemma_signature_wf(return_type, param_views(params@));
                }
                self.declare_func(name, function, false);
                Ok(())
            },
            _ => unreached(),
        }
    }

    /// The type that the function which is being checked returns.
    fn get_function_type(&self, token: &Token) -> (r: Result<Types, Error>)
        requires
            self.wf(),
        ensures
            match self@.current_function() {
                Some((_, t)) => r == Ok::<Types, Error>(t) && t.wf(),
                None => r is Err && r->Err_0@ == ErrorView::at(
                    token@,
                    messages::return_outside(),
                ),
            },
    {
        proof {
            reveal(TypeChecker::wf);
            lemma_enclosing_function_wf(self@);
        }
        match find_function(&self.scope) {
            Some(Scope::Function(_, function_type)) => Ok(function_type.clone()),
            _ => Err(Error::with_message(token, messages::return_outside_text())),
        }
    }

    fn return_statement(&mut self, statement: &mut Stmt) -> (r: Result<(), Error>)
        requires
            old(self).wf(),
            old(statement)@ is Return,
        ensures
            final(self).wf(),
            stmt_outcome(
                old(self)@,
                final(self)@,
                final(statement)@,
                r,
                check_stmt(old(self)@, old(statement)@),
            ),
    {
        proof {
            reveal(return_rule);
            reveal(stmt_outcome);
        }
        match statement {
            Stmt::Return(keyword, value) => {
                let function_type = self.get_function_type(keyword)?;
                match value {
                    Some(expr) => {
                        let mut body_return = self.expr_type(expr)?;
                        arr_decay(&mut body_return, expr);
                        check_return_compatibility(keyword, &function_type, &body_return)?;
                        maybe_cast(&function_type, &body_return, expr);
                    },
                    None => {
                        check_return_compatibility(keyword, &function_type, &Types::Void)?;
                    },
                }
                self.set_returns(true);
                Ok(())
            },
            _ => unreached(),
        }
    }

    fn expression_statement(&mut self, statement: &mut Stmt) -> (r: Result<(), Error>)
        requires
            old(self).wf(),
            old(statement)@ is Expr,
        ensures
            final(self).wf(),
            stmt_outcome(
                old(self)@,
                final(self)@,
                final(statement)@,
                r,
                check_stmt(old(self)@, old(statement)@),
            ),
    {
        proof {
            reveal(expression_rule);
            reveal(stmt_outcome);
        }
        match statement {
            Stmt::Expr(expr) => {
                self.expr_type(expr)?;
                Ok(())
            },
            _ => unreached(),
        }
    }

    /// Checks the condition of an `if` or, with `of_loop`, of a loop.
    fn check_condition(&mut self, keyword: &Token, cond: &mut Expr, of_loop: bool) -> (r: Result<
        (),
        Error,
    >)
        requires
            old(self).wf(),
        ensures
            final(self).wf(),
            final(self)@ == (State {
                labels: final(self)@.labels,
                label_count: final(self)@.label_count,
                ..old(self)@
            }),
            match condition(
                old(self)@,
                keyword@,
                old(cond)@,
                if of_loop {
                    messages::void_loop_condition()
                } else {
                    messages::void_condition()
                },
            ) {
                Ok(c) => r is Ok && final(self)@ == c.st && final(cond)@ == c.expr,
                Err(e) => r is Err && r->Err_0@ == e,
            },
    {
        proof {
            reveal(condition);
        }
        let t = self.expr_type(cond)?;
        if t.is_void() {
            let msg = if of_loop {
                messages::void_loop_condition_text()
            } else {
                messages::void_condition_text()
            };
            return Err(Error::with_message(keyword, msg));
        }
        Ok(())
    }

    /// `main` must return `int`.
    fn main_returns_int(name_token: &Token, return_type: &Types) -> (r: Result<(), Error>)
        ensures
            match r {
                Ok(_) => !(is_main(name_token@) && *return_type != Types::Int),
                Err(e) => is_main(name_token@) && *return_type != Types::Int && e@
                    == ErrorView::at(name_token@, messages::main_type(*return_type)),
            },
    {
        if name_token.unwrap_string() == owned("main") && !return_type.equals(&Types::Int) {
            Err(Error::with_message(name_token, messages::main_type_text(return_type)))
        } else {
            Ok(())
        }
    }

    fn set_found_main(&mut self)
        requires
            old(self).wf(),
        ensures
            final(self).wf(),
            final(self)@ == (State { found_main: true, ..old(self)@ }),
    {
        proof {
            reveal(TypeChecker::wf);
        }
        self.found_main = true;
    }

    /// The head of a function definition: enters the function among the
    /// defined ones, if it may stand here.
    fn function_head(
        &mut self,
        return_type: &Types,
        name_token: &Token,
        params: &Vec<(Types, Token)>,
    ) -> (r: Result<(), Error>)
        requires
            old(self).wf(),
            return_type.wf(),
            params_wf(param_views(params@)),
        ensures
            final(self).wf(),
            final(self)@ == (State {
                found_main: final(self)@.found_main,
                defined: final(self)@.defined,
                ..old(self)@
            }),
            match function_head(old(self)@, *return_type, name_token@, param_views(params@)) {
                Ok(st) => r is Ok && final(self)@ == st,
                Err((st, e)) => r is Err && r->Err_0@ == e && final(self)@ == st,
            },
    {
        proof {
            reveal(function_head);
        }
        if !self.in_global_scope() {
            return Err(Error::with_message(name_token, messages::nested_function_text()));
        }
        let name = name_token.unwrap_string();
        if name == owned("main") {
            self.set_found_main();
        }
        Self::main_returns_int(name_token, return_type)?;
        if self.get_func(&name, true).is_some() {
            return Err(Error::with_message(name_token, messages::redefined_function_text(&name)));
        }
        match self.get_func(&name, false) {
            Some(f) => {
                compare_declarations(name_token, f, return_type, params)?;
            },
            None => {},
        }
        let function = Function::new(return_type.clone(), clone_params(params));
        proof {
            lemma_signature_wf(return_type, param_views(params@));
        }
        self.declare_func(name, function, true);
        Ok(())
    }

    /// Starts the count of the bytes that the variables of function `name`
    /// take.
    fn start_frame(&mut self, name: String)
        requires
            old(self).wf(),
        ensures
            final(self).wf(),
            final(self)@ == (State {
                stack_sizes: old(self)@.stack_sizes.insert(name@, 0),
                returns_all_paths: false,
                ..old(self)@
            }),
    {
        proof {
            reveal(TypeChecker::wf);
        }
        self.func_stack_size.insert(name, 0);
        self.returns_all_paths = false;
        proof {
            assert(self@.frames == old(self)@.frames);
            assert(self@.scope == old(self)@.scope);
            assert(self@.declared == old(self)@.declared);
            assert(self@.defined == old(self)@.defined);
            assert(self@.types_wf());
        }
    }

    /// Counts and binds the parameters of the function that is entered.
    fn bind_params(&mut self, params: &Vec<(Types, Token)>) -> (r: Result<(), Error>)
        requires
            old(self).wf(),
            params_wf(param_views(params@)),
        ensures
            final(self).wf(),
            final(self)@ == (State {
                frames: final(self)@.frames,
                stack_sizes: final(self)@.stack_sizes,
                ..old(self)@
            }),
            final(self)@.frames.len() == old(self)@.frames.len(),
            final(self)@.frames.drop_last() == old(self)@.frames.drop_last(),
            match bound_params(old(self)@, param_views(params@)) {
                Ok(st) => r is Ok && final(self)@ == st,
                Err(e) => r is Err && r->Err_0@ == e,
            },
    {
        let ghost views = param_views(params@);
        let ghost start = self@;
        let mut i: usize = 0;
        assert(views.take(0) =~= Seq::<(Types, TokenView)>::empty());
        while i < params.len()
            invariant
                i <= params.len(),
                views == param_views(params@),
                params_wf(views),
                start == old(self)@,
                self.wf(),
                self@ == (State {
                    frames: self@.frames,
                    stack_sizes: self@.stack_sizes,
                    ..start
                }),
                self@.frames.len() == start.frames.len(),
                self@.frames.drop_last() == start.frames.drop_last(),
                bound_params(start, views.take(i as int)) == Ok::<State, ErrorView>(self@),
            decreases params.len() - i,
        {
            proof {
                assert(views.take(i + 1).drop_last() =~= views.take(i as int));
                assert(views.take(i + 1).last() == (params[i as int].0, params[i as int].1@));
                assert(views[i as int].0.wf());
            }
            match self.increment_stack_size(&params[i].0, &params[i].1) {
                Ok(_) => {},
                Err(e) => {
                    proof {
                        lemma_bound_params_prefix(start, views, i + 1);
                    }
                    return Err(e);
                },
            }
            let ghost grown = self@;
            self.declare(params[i].1.unwrap_string(), params[i].0.clone());
            proof {
                assert(self@.frames.drop_last() =~= grown.frames.drop_last());
            }
            i = i + 1;
        }
        proof {
            assert(views.take(i as int) =~= views);
        }
        Ok(())
    }

    /// Closes `main` with `return 0;` if it may end without `return`.
    fn implicit_return_main(&mut self, name_token: &Token, body: &mut Vec<Stmt>)
        requires
            old(self).wf(),
        ensures
            final(self).wf(),
            final(self)@ == (State {
                returns_all_paths: old(self)@.returns_all_paths || is_main(name_token@),
                ..old(self)@
            }),
            stmt_views(final(body)@) == if is_main(name_token@) && !old(self)@.returns_all_paths {
                stmt_views(old(body)@).push(implicit_return(name_token@))
            } else {
                stmt_views(old(body)@)
            },
    {
        if name_token.unwrap_string() == owned("main") && !self.returns_all_paths {
            self.set_returns(true);
            let zero = Expr {
                kind: ExprKind::Number(0),
                type_decl: Some(Types::Int),
                value_kind: ValueKind::Rvalue,
            };
            body.push(Stmt::Return(name_token.clone(), Some(zero)));
            assert(stmt_views(body@) =~= stmt_views(old(body)@).push(
                implicit_return(name_token@),
            ));
        } else {
            proof {
                reveal(TypeChecker::wf);
            }
        }
    }

    /// Rounds the frame of function `name` up to a multiple of 16 bytes.
    fn align_frame(&mut self, name: String, at: &Token) -> (r: Result<(), Error>)
        requires
            old(self).wf(),
        ensures
            final(self).wf(),
            ({
                let size: nat = if old(self)@.stack_sizes.contains_key(name@) {
                    old(self)@.stack_sizes[name@] as nat
                } else {
                    0
                };
                if aligned(size, 16) > usize::MAX {
                    r is Err && r->Err_0@ == ErrorView::at(at@, messages::frame_too_large())
                        && final(self)@ == old(self)@
                } else {
                    r is Ok && final(self)@ == (State {
                        stack_sizes: old(self)@.stack_sizes.insert(
                            name@,
                            aligned(size, 16) as usize,
                        ),
                        ..old(self)@
                    })
                }
            }),
    {
        proof {
            reveal(TypeChecker::wf);
        }
        let size: usize = match self.func_stack_size.get(&name) {
            Some(size) => *size,
            None => 0,
        };
        let remainder = size % 16;
        if remainder != 0 && 16 - remainder > usize::MAX - size {
            return Err(Error::with_message(at, messages::frame_too_large_text()));
        }
        self.func_stack_size.insert(name, align_by(size, 16));
        proof {
            assert(self@.frames == old(self)@.frames);
            assert(self@.scope == old(self)@.scope);
            assert(self@.declared == old(self)@.declared);
            assert(self@.defined == old(self)@.defined);
            assert(self@.types_wf());
        }
        Ok(())
    }

    /// The end of a function definition, after its body is checked and
    /// left.
    fn function_end(&mut self, return_type: &Types, name_token: &Token, body: &mut Vec<Stmt>) -> (r:
        Result<(), Error>)
        requires
            old(self).wf(),
        ensures
            final(self).wf(),
            final(self)@.scope == old(self)@.scope,
            final(self)@.frames == old(self)@.frames,
            forall|params: Seq<(Types, TokenView)>|
                match (#[trigger] function_end(
                    old(self)@,
                    *return_type,
                    name_token@,
                    params,
                    stmt_views(old(body)@),
                )).result {
                    Ok(s) => r is Ok && final(self)@ == function_end(
                        old(self)@,
                        *return_type,
                        name_token@,
                        params,
                        stmt_views(old(body)@),
                    ).st && s == StmtView::Function(
                        *return_type,
                        name_token@,
                        params,
                        stmt_views(final(body)@),
                    ),
                    Err(e) => r is Err && r->Err_0@ == e && final(self)@.failed() == function_end(
                        old(self)@,
                        *return_type,
                        name_token@,
                        params,
                        stmt_views(old(body)@),
                    ).st,
                },
    {
        proof {
            reveal(function_end);
        }
        self.implicit_return_main(name_token, body);
        self.align_frame(name_token.unwrap_string(), name_token)?;
        if !return_type.is_void() && !self.returns_on_all_paths() {
            Err(Error::with_message(name_token, messages::missing_return_text()))
        } else {
            self.set_returns(false);
            Ok(())
        }
    }

    /// Checks the statements of the scope that was entered last, then
    /// leaves the scope.
    fn block(&mut self, body: &mut Vec<Stmt>) -> (r: Result<(), Error>)
        requires
            old(self).wf(),
            old(self)@.scope.len() > 1,
            old(self)@.frames.len() > 1,
            stmts_wf(stmt_views(old(body)@)),
        ensures
            final(self).wf(),
            final(self)@.scope == old(self)@.scope.drop_last(),
            final(self)@.frames.len() == old(self)@.frames.len() - 1,
            ({
                let o = check_stmts(old(self)@, stmt_views(old(body)@));
                &&& final(self)@ == o.st.leave()
                &&& match o.result {
                    Ok(checked) => r is Ok && stmt_views(final(body)@) == checked,
                    Err(e) => r is Err && r->Err_0@ == e && o.st == o.st.failed(),
                }
            }),
        decreases *old(body), 1nat,
    {
        let result = self.check_statements(body);
        self.leave();
        result
    }

    /// Checks the statements of one scope from first to last, up to the
    /// first diagnostic.
    fn check_statements(&mut self, statements: &mut Vec<Stmt>) -> (r: Result<(), Error>)
        requires
            old(self).wf(),
            stmts_wf(stmt_views(old(statements)@)),
        ensures
            final(self).wf(),
            final(self)@.scope == old(self)@.scope,
            final(self)@.frames.len() == old(self)@.frames.len(),
            ({
                let o = check_stmts(old(self)@, stmt_views(old(statements)@));
                &&& final(self)@ == o.st
                &&& match o.result {
                    Ok(checked) => r is Ok && stmt_views(final(statements)@) == checked,
                    Err(e) => r is Err && r->Err_0@ == e && o.st == o.st.failed(),
                }
            }),
        decreases *old(statements), 0nat,
    {
        let ghost before = stmt_views(statements@);
        let ghost start = self@;
        let mut i: usize = 0;
        assert(before.take(0) =~= Seq::<StmtView>::empty());
        assert(stmt_views(statements@).take(0) =~= Seq::<StmtView>::empty());
        while i < statements.len()
            invariant
                i <= statements.len(),
                statements.len() == old(statements).len(),
                before == stmt_views(old(statements)@),
                stmts_wf(before),
                start == old(self)@,
                self.wf(),
                self@.scope == start.scope,
                self@.frames.len() == start.frames.len(),
                forall|j: int|
                    i <= j < statements.len() ==> #[trigger] statements[j] == old(statements)[j],
                check_stmts(start, before.take(i as int)) == (Outcomes {
                    st: self@,
                    result: Ok(stmt_views(statements@).take(i as int)),
                }),
            decreases statements.len() - i,
        {
            proof {
                assert(decreases_to!(*old(statements) => old(statements)[i as int]));
                assert(before.take(i + 1).drop_last() =~= before.take(i as int));
                assert(before.take(i + 1).last() == statements[i as int]@);
                assert(stmt_wf(before[i as int]));
            }
            let ghost done = stmt_views(statements@).take(i as int);
            let ghost st = self@;
            let result = self.visit(&mut statements[i]);
            proof {
                lemma_outcome_facts(
                    st,
                    self@,
                    statements[i as int]@,
                    result,
                    check_stmt(st, before[i as int]),
                );
            }
            match result {
                Ok(_) => {},
                Err(e) => {
                    proof {
                        lemma_check_stmts_prefix(start, before, i + 1);
                    }
                    return Err(e);
                },
            }
            i = i + 1;
            proof {
                assert(stmt_views(statements@).take(i as int) =~= done.push(statements[i - 1]@));
            }
        }
        proof {
            assert(before.take(i as int) =~= before);
            assert(stmt_views(statements@).take(i as int) =~= stmt_views(statements@));
        }
        Ok(())
    }

    fn function_definition(&mut self, statement: &mut Stmt) -> (r: Result<(), Error>)
        requires
            old(self).wf(),
            old(statement)@ is Function,
            stmt_wf(old(statement)@),
        ensures
            final(self).wf(),
            stmt_outcome(
                old(self)@,
                final(self)@,
                final(statement)@,
                r,
                check_function(old(self)@, old(statement)@),
            ),
        decreases *old(statement), 0nat,
    {
        proof {
            reveal(stmt_outcome);
        }
        match statement {
            Stmt::Function(return_type, name_token, params, body) => {
                let ghost views = param_views(params@);
                assert(params_wf(views) && stmts_wf(stmt_views(body@)) && return_type.wf());
                self.function_head(return_type, name_token, params)?;
                let ghost head = self@;
                let name = name_token.unwrap_string();
                self.enter(Scope::Function(name.clone(), return_type.clone()));
                self.start_frame(name);
                assert(self@ == entered(head, *return_type, name_token@));
                match self.bind_params(params) {
                    Ok(_) => {},
                    Err(e) => {
                        self.leave();
                        assert(self@.frames =~= head.frames);
                        assert(self@.scope =~= head.scope);
                        return Err(e);
                    },
                }
                assert(self@.scope.drop_last() =~= head.scope);
                self.block(body)?;
                self.function_end(return_type, name_token, body)
            },
            _ => unreached(),
        }
    }

    fn block_statement(&mut self, statement: &mut Stmt) -> (r: Result<(), Error>)
        requires
            old(self).wf(),
            old(statement)@ is Block,
            stmt_wf(old(statement)@),
        ensures
            final(self).wf(),
            stmt_outcome(
                old(self)@,
                final(self)@,
                final(statement)@,
                r,
                check_block(old(self)@, old(statement)@),
            ),
        decreases *old(statement), 0nat,
    {
        proof {
            reveal(stmt_outcome);
        }
        match statement {
            Stmt::Block(statements) => {
                self.enter(Scope::Block);
                assert(self@.scope.drop_last() =~= old(self)@.scope);
                self.block(statements)
            },
            _ => unreached(),
        }
    }

    /// Checks the `else` branch of an `if`, where there is one.
    fn else_statement(&mut self, else_branch: &mut Option<Box<Stmt>>) -> (r: Result<(), Error>)
        requires
            old(self).wf(),
            *old(else_branch) matches Some(other) ==> stmt_wf(other@),
        ensures
            final(self).wf(),
            final(self)@.scope == old(self)@.scope,
            final(self)@.frames.len() == old(self)@.frames.len(),
            ({
                let f = check_else(
                    old(self)@,
                    match *old(else_branch) {
                        Some(other) => Some(Box::new(other@)),
                        None => None,
                    },
                );
                &&& final(self)@ == f.st
                &&& match f.result {
                    Ok(checked) => r is Ok && checked == match *final(else_branch) {
                        Some(other) => Some(Box::new(other@)),
                        None => None::<Box<StmtView>>,
                    },
                    Err(e) => r is Err && r->Err_0@ == e && f.st == f.st.failed(),
                }
            }),
        decreases *old(else_branch), 0nat,
    {
        match else_branch {
            Some(other) => {
                let ghost st = self@;
                let ghost branch = other@;
                let result = self.visit(other);
                proof {
                    lemma_outcome_facts(st, self@, other@, result, check_stmt(st, branch));
                }
                result
            },
            None => Ok(()),
        }
    }

    fn if_statement(&mut self, statement: &mut Stmt) -> (r: Result<(), Error>)
        requires
            old(self).wf(),
            old(statement)@ is If,
            stmt_wf(old(statement)@),
        ensures
            final(self).wf(),
            stmt_outcome(
                old(self)@,
                final(self)@,
                final(statement)@,
                r,
                check_if(old(self)@, old(statement)@),
            ),
        decreases *old(statement), 0nat,
    {
        proof {
            reveal(stmt_outcome);
        }
        match statement {
            Stmt::If(keyword, cond, then_branch, else_branch) => {
                self.check_condition(keyword, cond, false)?;
                let ghost st = self@;
                let ghost branch = then_branch@;
                let result = self.visit(then_branch);
                proof {
                    lemma_outcome_facts(st, self@, then_branch@, result, check_stmt(st, branch));
                }
                result?;
                let then_return = self.returns_on_all_paths();
                self.set_returns(false);
                self.else_statement(else_branch)?;
                let else_return = self.returns_on_all_paths();
                self.set_returns(then_return && else_return);
                Ok(())
            },
            _ => unreached(),
        }
    }

    fn while_statement(&mut self, statement: &mut Stmt) -> (r: Result<(), Error>)
        requires
            old(self).wf(),
            old(statement)@ is While,
            stmt_wf(old(statement)@),
        ensures
            final(self).wf(),
            stmt_outcome(
                old(self)@,
                final(self)@,
                final(statement)@,
                r,
                check_while(old(self)@, old(statement)@),
            ),
        decreases *old(statement), 0nat,
    {
        proof {
            reveal(stmt_outcome);
        }
        match statement {
            Stmt::While(keyword, cond, body) => {
                self.check_condition(keyword, cond, true)?;
                let ghost st = self@;
                let ghost inner = body@;
                let result = self.visit(body);
                proof {
                    lemma_outcome_facts(st, self@, body@, result, check_stmt(st, inner));
                }
                result?;
                self.set_returns(false);
                Ok(())
            },
            _ => unreached(),
        }
    }

    /// Checks one statement. After a diagnostic the type checker has dropped
    /// the tables that only a successful check hands out.
    fn visit(&mut self, statement: &mut Stmt) -> (r: Result<(), Error>)
        requires
            old(self).wf(),
            stmt_wf(old(statement)@),
        ensures
            final(self).wf(),
            stmt_outcome(
                old(self)@,
                final(self)@,
                final(statement)@,
                r,
                check_stmt(old(self)@, old(statement)@),
            ),
            r is Err ==> final(self)@ == check_stmt(old(self)@, old(statement)@).st,
        decreases *old(statement), 1nat,
    {
        let r = match &*statement {
            Stmt::DeclareVar(..) => self.declare_var(statement),
            Stmt::InitVar(..) => self.init_var(statement),
            Stmt::InitList(..) => self.init_list(statement),
            Stmt::Function(..) => self.function_definition(statement),
            Stmt::FunctionDeclaration(..) => self.function_declaration(statement),
            Stmt::Return(..) => self.return_statement(statement),
            Stmt::Expr(_) => self.expression_statement(statement),
            Stmt::Block(_) => self.block_statement(statement),
            Stmt::If(..) => self.if_statement(statement),
            Stmt::While(..) => self.while_statement(statement),
        };
        if r.is_err() {
            proof {
                lemma_outcome_after_failure(
                    old(self)@,
                    self@,
                    statement@,
                    r,
                    check_stmt(old(self)@, old(statement)@),
                );
            }
            self.forget();
        }
        r
    }

    /// Checks a program: every statement is annotated, and the first
    /// diagnostic of each top-level statement is collected. Gives the bytes
    /// that each function's variables take and the label of each string
    /// literal, or the diagnostics.
    pub fn check(&mut self, statements: &mut Vec<Stmt>) -> (r: Result<
        (&Table<usize>, &Table<usize>),
        Vec<Error>,
    >)
        requires
            old(self).wf(),
            stmts_wf(stmt_views(old(statements)@)),
        ensures
            final(self).wf(),
            old(self)@.scope.len() == 1 && old(self)@.rounded() ==> final(self)@.rounded(),
            ({
                let p = check_program(old(self)@, stmt_views(old(statements)@));
                &&& final(self)@ == p.st
                &&& match r {
                    Ok((sizes, labels)) => {
                        &&& diagnostics(p).len() == 0
                        &&& sizes@ == p.st.stack_sizes
                        &&& labels@ == p.st.labels
                        &&& stmt_views(final(statements)@) == p.stmts
                    },
                    Err(errors) => diagnostics(p).len() > 0 && error_views(errors@)
                        == diagnostics(p),
                }
            }),
    {
        let mut errors: Vec<Error> = Vec::new();
        let ghost before = stmt_views(statements@);
        let ghost start = self@;
        let mut i: usize = 0;
        assert(before.take(0) =~= Seq::<StmtView>::empty());
        assert(stmt_views(statements@).take(0) =~= Seq::<StmtView>::empty());
        assert(error_views(errors@) =~= Seq::<ErrorView>::empty());
        while i < statements.len()
            invariant
                i <= statements.len(),
                statements.len() == old(statements).len(),
                before == stmt_views(old(statements)@),
                stmts_wf(before),
                start == old(self)@,
                self.wf(),
                forall|j: int|
                    i <= j < statements.len() ==> #[trigger] statements[j] == old(statements)[j],
                ({
                    let p = check_program(start, before.take(i as int));
                    &&& p.st == self@
                    &&& p.errors == error_views(errors@)
                    &&& errors@.len() == 0 ==> p.stmts == stmt_views(statements@).take(i as int)
                }),
            decreases statements.len() - i,
        {
            proof {
                assert(before.take(i + 1).drop_last() =~= before.take(i as int));
                assert(before.take(i + 1).last() == statements[i as int]@);
                assert(stmt_wf(before[i as int]));
            }
            let ghost done = stmt_views(statements@).take(i as int);
            let ghost seen = error_views(errors@);
            let ghost st = self@;
            let result = self.visit(&mut statements[i]);
            proof {
                lemma_outcome_facts(
                    st,
                    self@,
                    statements[i as int]@,
                    result,
                    check_stmt(st, before[i as int]),
                );
            }
            match result {
                Ok(_) => {},
                Err(e) => {
                    errors.push(e);
                },
            }
            i = i + 1;
            proof {
                assert(stmt_views(statements@).take(i as int) =~= done.push(statements[i - 1]@));
                if errors@.len() > seen.len() {
                    assert(error_views(errors@) =~= seen.push(errors@.last()@));
                } else {
                    assert(error_views(errors@) =~= seen);
                }
            }
        }
        proof {
            assert(before.take(i as int) =~= before);
            assert(stmt_views(statements@).take(i as int) =~= stmt_views(statements@));
            reveal(TypeChecker::wf);
            if start.scope.len() == 1 && start.rounded() {
                crate::invariants::lemma_frames_are_rounded(start, before);
            }
        }
        if errors.len() > 0 {
            Err(errors)
        } else if !self.found_main {
            let mut missing: Vec<Error> = Vec::new();
            missing.push(Error::missing_entrypoint());
            assert(error_views(missing@) =~= seq![ErrorView::missing_entrypoint()]);
            Err(missing)
        } else {
            Ok((&self.func_stack_size, &self.const_labels))
        }
    }
}

/// Number of bytes that `text` takes in UTF-8, if a `usize` holds it.
fn byte_len(text: &str) -> (r: Option<usize>)
    ensures
        match r {
            Some(n) => n == utf8_len(text@),
            None => utf8_len(text@) > usize::MAX,
        },
{
    let mut total: usize = 0;
    let mut fits = true;
    for c in it: text.chars()
        invariant
            it.seq() == text@,
            fits ==> total == utf8_len(it.seq().take(it.index() as int)),
            !fits ==> utf8_len(it.seq().take(it.index() as int)) > usize::MAX,
    {
        proof {
            lemma_utf8_len_push(it.seq().take(it.index() as int), c);
            assert(it.seq().take(it.index() + 1) =~= it.seq().take(it.index() as int).push(c));
        }
        if fits {
            let w = char_width(c);
            if total <= usize::MAX - w {
                total = total + w;
            } else {
                fits = false;
            }
        }
    }
    proof {
        assert(text@.take(text@.len() as int) =~= text@);
    }
    if fits {
        Some(total)
    } else {
        None
    }
}

/// An error in a prefix of the parameters is the error of them all.
proof fn lemma_bound_params_prefix(st: State, params: Seq<(Types, TokenView)>, n: int)
    requires
        0 <= n <= params.len(),
        bound_params(st, params.take(n)) is Err,
    ensures
        bound_params(st, params) == bound_params(st, params.take(n)),
    decreases params.len() - n,
{
    if n < params.len() {
        assert(params.take(n + 1).drop_last() =~= params.take(n));
        lemma_bound_params_prefix(st, params, n + 1);
    } else {
        assert(params.take(n) =~= params);
    }
}

/// The diagnostic of a prefix of the statements of a scope is the
/// diagnostic of them all.
proof fn lemma_check_stmts_prefix(st: State, stmts: Seq<StmtView>, n: int)
    requires
        0 <= n <= stmts.len(),
        check_stmts(st, stmts.take(n)).result is Err,
    ensures
        check_stmts(st, stmts) == check_stmts(st, stmts.take(n)),
    decreases stmts.len() - n,
{
    if n < stmts.len() {
        assert(stmts.take(n + 1).drop_last() =~= stmts.take(n));
        lemma_check_stmts_prefix(st, stmts, n + 1);
    } else {
        assert(stmts.take(n) =~= stmts);
    }
}

/// An error in a prefix of an initializer list is the error of the list.
proof fn lemma_typed_list_prefix(st: State, exprs: Seq<ExprView>, n: int)
    requires
        0 <= n <= exprs.len(),
        typed_list(st, exprs.take(n)) is Err,
    ensures
        typed_list(st, exprs) == typed_list(st, exprs.take(n)),
    decreases exprs.len() - n,
{
    if n < exprs.len() {
        assert(exprs.take(n + 1).drop_last() =~= exprs.take(n));
        lemma_typed_list_prefix(st, exprs, n + 1);
    } else {
        assert(exprs.take(n) =~= exprs);
    }
}

/// The signature of a declaration whose types are well formed is well
/// formed.
proof fn lemma_signature_wf(return_type: &Types, params: Seq<(Types, TokenView)>)
    requires
        return_type.wf(),
        params_wf(params),
    ensures
        signature_wf(signature_of(*return_type, params)),
{
    let sig = signature_of(*return_type, params);
    assert forall|i: int| 0 <= i < sig.params.len() implies (#[trigger] sig.params[i]).wf() by {
        assert(sig.params[i] == params[i].0);
    }
}

/// An error in a prefix of the arguments is the error of them all.
proof fn lemma_typed_args_prefix(st: State, args: Seq<ExprView>, n: int)
    requires
        0 <= n <= args.len(),
        typed_args(st, args.take(n)) is Err,
    ensures
        typed_args(st, args) == typed_args(st, args.take(n)),
    decreases args.len() - n,
{
    if n < args.len() {
        assert(args.take(n + 1).drop_last() =~= args.take(n));
        lemma_typed_args_prefix(st, args, n + 1);
    } else {
        assert(args.take(n) =~= args);
    }
}

} // verus!
