//! What the type checker computes, stated over the views of the syntax tree.
use crate::common::environment::{lookup, param_types, Signature};
use crate::common::error::ErrorView;
use crate::common::expr::{ExprKindView, ExprView, ValueKind};
use crate::common::stmt::StmtView;
use crate::common::text::utf8_len;
use crate::common::token::{binary_of_compound, TokenKind, TokenView};
use crate::common::types::Types;
use crate::messages;
use vstd::prelude::*;

verus! {

/// What encloses the place where the type checker stands.
pub enum ScopeView {
    Global,
    Block,
    /// A function, with its name and the type it returns.
    Function(Seq<char>, Types),
}

/// All that the type checker knows at one moment.
pub struct State {
    /// The enclosing scopes, outermost first; the first is `Global`.
    pub scope: Seq<ScopeView>,
    /// The variables in reach, one frame per scope that declares any,
    /// outermost first.
    pub frames: Seq<Map<Seq<char>, Types>>,
    /// The functions that have been declared, and those that have been
    /// defined.
    pub declared: Map<Seq<char>, Signature>,
    pub defined: Map<Seq<char>, Signature>,
    /// Whether every path through the statements seen so far ends in a
    /// `return`.
    pub returns_all_paths: bool,
    pub found_main: bool,
    /// Bytes that each function's variables take on the stack.
    pub stack_sizes: Map<Seq<char>, usize>,
    /// The label of each string literal seen, and the number of labels
    /// given out.
    pub labels: Map<Seq<char>, usize>,
    pub label_count: usize,
}

impl State {
    /// The state of a type checker that has seen nothing.
    pub open spec fn start() -> State {
        State {
            scope: seq![ScopeView::Global],
            frames: seq![Map::empty()],
            declared: Map::empty(),
            defined: Map::empty(),
            returns_all_paths: false,
            found_main: false,
            stack_sizes: Map::empty(),
            labels: Map::empty(),
            label_count: 0,
        }
    }

    /// The outermost scope is the global one and no other is, and there is
    /// a frame to declare variables in.
    pub open spec fn wf(self) -> bool {
        &&& scopes_nested(self.scope)
        &&& self.frames.len() >= 1
    }

    /// The frame of every function is a multiple of 16 bytes.
    pub open spec fn rounded(self) -> bool {
        rounded_but(self, None)
    }

    /// Every type that the state holds is well formed.
    pub open spec fn types_wf(self) -> bool {
        &&& forall|i: int, name: Seq<char>|
            0 <= i < self.frames.len() && #[trigger] self.frames[i].contains_key(name)
                ==> self.frames[i][name].wf()
        &&& forall|name: Seq<char>| #[trigger]
            self.declared.contains_key(name) ==> signature_wf(self.declared[name])
        &&& forall|name: Seq<char>| #[trigger]
            self.defined.contains_key(name) ==> signature_wf(self.defined[name])
        &&& forall|i: int|
            0 <= i < self.scope.len() ==> (#[trigger] self.scope[i] matches ScopeView::Function(
                _,
                t,
            ) ==> t.wf())
    }

    /// The state after a statement has failed: the tables that only a
    /// successful check hands out are dropped.
    pub open spec fn failed(self) -> State {
        State {
            returns_all_paths: false,
            stack_sizes: Map::empty(),
            labels: Map::empty(),
            label_count: 0,
            ..self
        }
    }

    pub open spec fn in_global_scope(self) -> bool {
        self.scope.len() > 0 && self.scope.last() is Global
    }

    pub open spec fn declared_here(self, name: Seq<char>) -> bool {
        self.frames.len() > 0 && self.frames.last().contains_key(name)
    }

    /// The state with `name` bound to `t` in the innermost frame.
    pub open spec fn declare(self, name: Seq<char>, t: Types) -> State {
        if self.frames.len() > 0 {
            State {
                frames: self.frames.update(
                    self.frames.len() - 1,
                    self.frames.last().insert(name, t),
                ),
                ..self
            }
        } else {
            self
        }
    }

    /// The state inside a new scope with a frame of its own.
    pub open spec fn enter(self, scope: ScopeView) -> State {
        State { scope: self.scope.push(scope), frames: self.frames.push(Map::empty()), ..self }
    }

    /// The state after the innermost scope and its frame are left.
    pub open spec fn leave(self) -> State {
        State {
            scope: if self.scope.len() > 1 {
                self.scope.drop_last()
            } else {
                self.scope
            },
            frames: if self.frames.len() > 1 {
                self.frames.drop_last()
            } else {
                self.frames
            },
            ..self
        }
    }

    /// The function whose definition is being checked: that of the
    /// innermost function scope.
    pub open spec fn current_function(self) -> Option<(Seq<char>, Types)> {
        enclosing_function(self.scope)
    }

    /// The signature that a call of `name` goes by: that of the definition,
    /// else that of a declaration.
    pub open spec fn callable(self, name: Seq<char>) -> Option<Signature> {
        if self.defined.contains_key(name) {
            Some(self.defined[name])
        } else if self.declared.contains_key(name) {
            Some(self.declared[name])
        } else {
            None
        }
    }
}

/// The outermost scope is the global one, and no other is.
pub open spec fn scopes_nested(scope: Seq<ScopeView>) -> bool {
    &&& scope.len() >= 1
    &&& scope[0] is Global
    &&& forall|i: int| 0 < i < scope.len() ==> !(#[trigger] scope[i] is Global)
}

/// The frame of every function but `open` is a multiple of 16 bytes.
pub open spec fn rounded_but(st: State, open: Option<Seq<char>>) -> bool {
    forall|name: Seq<char>| #[trigger]
        st.stack_sizes.contains_key(name) && Some(name) != open ==> st.stack_sizes[name] % 16
            == 0
}

pub open spec fn signature_wf(s: Signature) -> bool {
    s.return_type.wf() && forall|i: int| 0 <= i < s.params.len() ==> (#[trigger] s.params[i]).wf()
}

pub open spec fn enclosing_function(scope: Seq<ScopeView>) -> Option<(Seq<char>, Types)>
    decreases scope.len(),
{
    if scope.len() == 0 {
        None
    } else {
        match scope.last() {
            ScopeView::Function(name, t) => Some((name, t)),
            _ => enclosing_function(scope.drop_last()),
        }
    }
}

/// The smallest multiple of `type_size` that is not below `offset`.
pub open spec fn aligned(offset: nat, type_size: nat) -> nat {
    if type_size == 0 || offset % type_size == 0 {
        offset
    } else {
        (offset + type_size - offset % type_size) as nat
    }
}

/// The largest `k` with `2^k <= n`; 0 for `n == 0`.
pub open spec fn log2_floor(n: nat) -> nat
    decreases n,
{
    if n <= 1 {
        0
    } else {
        1 + log2_floor(n / 2)
    }
}

/// The frame size of the current function after a variable of type `t` is
/// added: grown by the size of `t`, then aligned to `t`. Outside every
/// function nothing is counted.
#[verifier::opaque]
pub open spec fn grown_frame(st: State, t: Types, at: TokenView) -> Result<State, ErrorView> {
    match st.current_function() {
        None => Ok(st),
        Some((name, _)) => {
            let before: nat = if st.stack_sizes.contains_key(name) {
                st.stack_sizes[name] as nat
            } else {
                0
            };
            let after = aligned(before + t.spec_size(), t.spec_alignment());
            if after > usize::MAX {
                Err(ErrorView::at(at, messages::frame_too_large()))
            } else {
                Ok(State { stack_sizes: st.stack_sizes.insert(name, after as usize), ..st })
            }
        },
    }
}

// ----- expressions ------------------------------------------------------

/// An expression that has been checked: the state after it, the annotated
/// expression and its type.
pub struct Typed {
    pub st: State,
    pub expr: ExprView,
    pub ty: Types,
}

pub open spec fn with_type(e: ExprView, t: Types) -> ExprView {
    ExprView { type_decl: Some(t), ..e }
}

pub open spec fn as_rvalue(e: ExprView) -> ExprView {
    ExprView { value_kind: ValueKind::Rvalue, ..e }
}

pub open spec fn as_lvalue(e: ExprView) -> ExprView {
    ExprView { value_kind: ValueKind::Lvalue, ..e }
}

/// `e` widened to type `t`.
pub open spec fn cast_up(e: ExprView, t: Types) -> ExprView {
    ExprView {
        kind: ExprKindView::CastUp { expr: Box::new(e) },
        type_decl: Some(t),
        value_kind: e.value_kind,
    }
}

/// `e` narrowed to type `t`.
pub open spec fn cast_down(e: ExprView, t: Types) -> ExprView {
    ExprView {
        kind: ExprKindView::CastDown { expr: Box::new(e) },
        type_decl: Some(t),
        value_kind: e.value_kind,
    }
}

/// `e` multiplied by `by`.
pub open spec fn scale_up(e: ExprView, by: usize) -> ExprView {
    ExprView {
        kind: ExprKindView::ScaleUp { by, expr: Box::new(e) },
        type_decl: e.type_decl,
        value_kind: e.value_kind,
    }
}

/// An expression with its type.
pub struct Operand {
    pub expr: ExprView,
    pub ty: Types,
}

/// Array decay: an array becomes a pointer to its first element, and no
/// storage location.
pub open spec fn decayed(o: Operand) -> Operand {
    match o.ty {
        Types::Array { of, .. } => Operand {
            expr: ExprView {
                type_decl: Some(Types::Pointer(of)),
                value_kind: ValueKind::Rvalue,
                ..o.expr
            },
            ty: Types::Pointer(of),
        },
        _ => o,
    }
}

/// Integer promotion: what is smaller than `int` is widened to `int`.
pub open spec fn promoted(o: Operand) -> Operand {
    if o.ty == Types::Char {
        Operand { expr: cast_up(o.expr, Types::Int), ty: Types::Int }
    } else {
        o
    }
}

/// `e` of type `from`, converted to `target` by a cast if their sizes
/// differ.
pub open spec fn converted(e: ExprView, target: Types, from: Types) -> ExprView {
    if from.spec_size() < target.spec_size() {
        cast_up(e, target)
    } else if from.spec_size() > target.spec_size() {
        cast_down(e, target)
    } else {
        e
    }
}

/// Whether a value of type `right` may be given where `left` is needed.
pub open spec fn assignable(left: Types, right: Types) -> bool {
    left != Types::Void && right != Types::Void && left.compatible(right)
}

/// An assignment of `r` to `l`, both checked. Gives the right side as it is
/// stored, and the type of the assignment.
#[verifier::opaque]
pub open spec fn assign_rule(l: Operand, token: TokenView, r: Operand) -> Result<
    Operand,
    ErrorView,
> {
    if l.ty is Array {
        Err(ErrorView::at(token, messages::array_assignment(l.ty)))
    } else if l.expr.value_kind != ValueKind::Lvalue {
        Err(ErrorView::at(token, messages::expect_lvalue()))
    } else {
        let r1 = decayed(r);
        if !assignable(l.ty, r1.ty) {
            Err(ErrorView::at(token, messages::incompatible(l.ty, r1.ty)))
        } else {
            Ok(Operand { expr: converted(r1.expr, l.ty, r1.ty), ty: l.ty })
        }
    }
}

/// Whether operator `op` takes operands of types `left` and `right`, both
/// after array decay.
pub open spec fn valid_binary(op: TokenKind, left: Types, right: Types) -> bool {
    match (left, right) {
        (Types::Void, _) => false,
        (_, Types::Void) => false,
        (Types::Pointer(_), Types::Pointer(_)) => left.compatible(right) && (op == TokenKind::Minus
            || op == TokenKind::EqualEqual || op == TokenKind::BangEqual),
        (_, Types::Pointer(_)) => op == TokenKind::Plus,
        (Types::Pointer(_), _) => op == TokenKind::Plus || op == TokenKind::Minus,
        _ => true,
    }
}

/// `e` multiplied by the size of what a pointer points to, where that size
/// is more than 1.
pub open spec fn scaled(e: ExprView, element: Types) -> ExprView {
    if element.spec_size() > 1 {
        scale_up(e, element.spec_size() as usize)
    } else {
        e
    }
}

/// The operands of a binary operator after conversion, the type of the
/// result and, for a difference of pointers, the size of what they point
/// to.
pub struct Operands {
    pub left: ExprView,
    pub right: ExprView,
    pub ty: Types,
    pub scale: Option<usize>,
}

/// A binary operator on checked operands.
#[verifier::opaque]
pub open spec fn binary_rule(l: Operand, token: TokenView, r: Operand) -> Result<
    Operands,
    ErrorView,
> {
    let l1 = decayed(Operand { expr: as_rvalue(l.expr), ty: l.ty });
    let r1 = decayed(Operand { expr: as_rvalue(r.expr), ty: r.ty });
    if !valid_binary(token.token.kind, l1.ty, r1.ty) {
        Err(
            ErrorView::at(
                token,
                messages::invalid_binary(l1.ty, token.token.text_of(), r1.ty),
            ),
        )
    } else {
        let l2 = promoted(l1);
        let r2 = promoted(r1);
        match (l2.ty, r2.ty) {
            (Types::Pointer(inner), Types::Pointer(_)) => Ok(
                Operands {
                    left: l2.expr,
                    right: r2.expr,
                    ty: Types::Long,
                    scale: if token.token.kind == TokenKind::Minus {
                        Some(inner.spec_size() as usize)
                    } else {
                        None
                    },
                },
            ),
            (Types::Pointer(inner), _) => Ok(
                Operands {
                    left: l2.expr,
                    right: scaled(r2.expr, *inner),
                    ty: l2.ty,
                    scale: None,
                },
            ),
            (_, Types::Pointer(inner)) => Ok(
                Operands {
                    left: scaled(l2.expr, *inner),
                    right: r2.expr,
                    ty: r2.ty,
                    scale: None,
                },
            ),
            _ => if l2.ty.spec_size() > r2.ty.spec_size() {
                Ok(
                    Operands {
                        left: l2.expr,
                        right: cast_up(r2.expr, l2.ty),
                        ty: l2.ty,
                        scale: None,
                    },
                )
            } else if l2.ty.spec_size() < r2.ty.spec_size() {
                Ok(
                    Operands {
                        left: cast_up(l2.expr, r2.ty),
                        right: r2.expr,
                        ty: r2.ty,
                        scale: None,
                    },
                )
            } else {
                Ok(Operands { left: l2.expr, right: r2.expr, ty: l2.ty, scale: None })
            },
        }
    }
}

/// The node of a binary operator after its operands are converted. A
/// difference of pointers is wrapped in a division by the size of what they
/// point to.
pub open spec fn binary_node(e: ExprView, token: TokenView, o: Operands) -> ExprView {
    let plain = ExprView {
        kind: ExprKindView::Binary {
            left: Box::new(o.left),
            token,
            right: Box::new(o.right),
        },
        type_decl: Some(o.ty),
        value_kind: e.value_kind,
    };
    match o.scale {
        Some(size) => ExprView {
            kind: ExprKindView::ScaleDown {
                shift_amount: log2_floor(size as nat) as usize,
                expr: Box::new(plain),
            },
            type_decl: Some(o.ty),
            value_kind: e.value_kind,
        },
        None => plain,
    }
}

/// `&&` or `||` on checked operands.
#[verifier::opaque]
pub open spec fn logical_rule(l: Operand, token: TokenView, r: Operand) -> Result<
    Operands,
    ErrorView,
> {
    if l.ty == Types::Void || r.ty == Types::Void {
        Err(ErrorView::at(token, messages::invalid_logical(l.ty, token.token.text_of(), r.ty)))
    } else {
        Ok(
            Operands {
                left: as_rvalue(l.expr),
                right: as_rvalue(r.expr),
                ty: Types::Int,
                scale: None,
            },
        )
    }
}

/// What a unary operator gives: the operand after conversion, the type of
/// the result and whether the result is a storage location.
pub struct Unary {
    pub right: ExprView,
    pub ty: Types,
    pub value_kind: ValueKind,
}

/// A unary operator on a checked operand.
#[verifier::opaque]
pub open spec fn unary_rule(token: TokenView, r: Operand) -> Result<Unary, ErrorView> {
    let op = token.token.kind;
    if op == TokenKind::Amp {
        if r.expr.value_kind == ValueKind::Lvalue {
            Ok(
                Unary {
                    right: as_rvalue(r.expr),
                    ty: Types::Pointer(Box::new(r.ty)),
                    value_kind: ValueKind::Rvalue,
                },
            )
        } else {
            Err(ErrorView::at(token, messages::address_of_rvalue()))
        }
    } else {
        let r1 = decayed(r);
        if op == TokenKind::Star {
            match r1.ty {
                Types::Pointer(inner) => Ok(
                    Unary { right: as_lvalue(r1.expr), ty: *inner, value_kind: ValueKind::Lvalue },
                ),
                _ => Err(ErrorView::at(token, messages::dereference(r1.ty))),
            }
        } else if op == TokenKind::Bang {
            Ok(Unary { right: as_rvalue(r1.expr), ty: Types::Int, value_kind: ValueKind::Rvalue })
        } else if op == TokenKind::Minus || op == TokenKind::Tilde {
            let r2 = promoted(Operand { expr: as_rvalue(r1.expr), ty: r1.ty });
            if r2.ty is Pointer {
                Err(
                    ErrorView::at(token, messages::invalid_unary(token.token.text_of(), r2.ty)),
                )
            } else {
                Ok(Unary { right: r2.expr, ty: Types::Int, value_kind: ValueKind::Rvalue })
            }
        } else {
            Err(ErrorView::at(token, messages::unknown_operator(token.token.text_of())))
        }
    }
}

/// `++` or `--` behind a checked operand: by how much the operand changes.
#[verifier::opaque]
pub open spec fn postunary_rule(token: TokenView, o: Operand) -> Result<usize, ErrorView> {
    if o.ty is Array {
        Err(ErrorView::at(token, messages::increment_array()))
    } else if o.expr.value_kind == ValueKind::Rvalue {
        Err(ErrorView::at(token, messages::increment_rvalue()))
    } else {
        match o.ty {
            Types::Pointer(inner) => Ok(inner.spec_size() as usize),
            _ => Ok(1),
        }
    }
}

/// Type of a string literal: an array of `char` with room for the bytes of
/// the text and a closing 0.
pub open spec fn string_type(text: Seq<char>) -> Types {
    Types::Array { of: Box::new(Types::Char), amount: (utf8_len(text) + 1) as usize }
}

/// A string literal: a text that is new gets the next label.
#[verifier::opaque]
pub open spec fn string_rule(st: State, e: ExprView, token: TokenView) -> Result<
    Typed,
    ErrorView,
> {
    let text = token.token.text;
    if utf8_len(text) + 1 > usize::MAX {
        Err(ErrorView::at(token, messages::string_too_long()))
    } else {
        Ok(
            Typed {
                st: if st.labels.contains_key(text) {
                    st
                } else {
                    State {
                        labels: st.labels.insert(text, st.label_count),
                        label_count: (st.label_count + 1) as usize,
                        ..st
                    }
                },
                expr: with_type(e, string_type(text)),
                ty: string_type(text),
            },
        )
    }
}

/// An argument of a call after it is checked: arrays decay and small
/// integers are promoted.
pub open spec fn argument(o: Operand) -> Operand {
    promoted(decayed(o))
}

/// Place of the first argument, at or after `from`, that parameter
/// `params[i]` does not take.
pub open spec fn first_unfit(params: Seq<Types>, args: Seq<Types>, from: int) -> Option<int>
    decreases args.len() - from,
{
    if from < 0 || from >= args.len() || from >= params.len() {
        None
    } else if !assignable(params[from], args[from]) {
        Some(from)
    } else {
        first_unfit(params, args, from + 1)
    }
}

/// A call of `callee` with checked arguments of types `args`: the type
/// that the call returns.
#[verifier::opaque]
pub open spec fn call_rule(
    st: State,
    left_paren: TokenView,
    name: Seq<char>,
    args: Seq<Types>,
) -> Result<Types, ErrorView> {
    match st.callable(name) {
        None => Err(ErrorView::at(left_paren, messages::no_function(name))),
        Some(f) => if f.params.len() != args.len() {
            Err(
                ErrorView::at(
                    left_paren,
                    messages::argument_count(name, f.params.len(), args.len()),
                ),
            )
        } else {
            match first_unfit(f.params, args, 0) {
                Some(i) => Err(
                    ErrorView::at(left_paren, messages::incompatible(f.params[i], args[i])),
                ),
                None => Ok(f.return_type),
            }
        },
    }
}

/// The arguments of a call after they are checked.
pub struct TypedArgs {
    pub st: State,
    pub exprs: Seq<ExprView>,
    pub types: Seq<Types>,
}

/// Checks the arguments of a call from left to right.
pub open spec fn typed_args(st: State, args: Seq<ExprView>) -> Result<TypedArgs, ErrorView>
    decreases args, 0nat, 0nat,
{
    if args.len() == 0 {
        Ok(TypedArgs { st, exprs: Seq::empty(), types: Seq::empty() })
    } else {
        match typed_args(st, args.drop_last()) {
            Err(e) => Err(e),
            Ok(before) => match typed_expr(before.st, args.last()) {
                Err(e) => Err(e),
                Ok(t) => {
                    let a = argument(Operand { expr: t.expr, ty: t.ty });
                    Ok(
                        TypedArgs {
                            st: t.st,
                            exprs: before.exprs.push(a.expr),
                            types: before.types.push(a.ty),
                        },
                    )
                },
            },
        }
    }
}

/// The error of an expression that holds a node which only the type checker
/// inserts.
pub open spec fn inserted_node_error() -> ErrorView {
    ErrorView::nowhere(messages::inserted_node())
}

/// A variable: its type is that of the innermost declaration in reach.
pub open spec fn ident_rule(st: State, e: ExprView, token: TokenView) -> Result<Typed, ErrorView> {
    match lookup(st.frames, token.token.text) {
        Some(t) => Ok(Typed { st, expr: with_type(e, t), ty: t }),
        None => Err(ErrorView::at(token, messages::undeclared())),
    }
}

/// An expression in parentheses has the type of what is inside.
pub open spec fn typed_grouping(st: State, e: ExprView) -> Result<Typed, ErrorView>
    decreases e, 0nat, 0nat,
{
    match e.kind {
        ExprKindView::Grouping { expr } => match typed_expr(st, *expr) {
            Err(err) => Err(err),
            Ok(t) => Ok(
                Typed {
                    st: t.st,
                    expr: ExprView {
                        kind: ExprKindView::Grouping { expr: Box::new(t.expr) },
                        type_decl: Some(t.ty),
                        value_kind: e.value_kind,
                    },
                    ty: t.ty,
                },
            ),
        },
        _ => Err(inserted_node_error()),
    }
}

pub open spec fn typed_binary(st: State, e: ExprView) -> Result<Typed, ErrorView>
    decreases e, 0nat, 0nat,
{
    match e.kind {
        ExprKindView::Binary { left, token, right } => match typed_expr(st, *left) {
            Err(err) => Err(err),
            Ok(l) => match typed_expr(l.st, *right) {
                Err(err) => Err(err),
                Ok(r) => match binary_rule(
                    Operand { expr: l.expr, ty: l.ty },
                    token,
                    Operand { expr: r.expr, ty: r.ty },
                ) {
                    Err(err) => Err(err),
                    Ok(o) => Ok(Typed { st: r.st, expr: binary_node(e, token, o), ty: o.ty }),
                },
            },
        },
        _ => Err(inserted_node_error()),
    }
}

pub open spec fn typed_logical(st: State, e: ExprView) -> Result<Typed, ErrorView>
    decreases e, 0nat, 0nat,
{
    match e.kind {
        ExprKindView::Logical { left, token, right } => match typed_expr(st, *left) {
            Err(err) => Err(err),
            Ok(l) => match typed_expr(l.st, *right) {
                Err(err) => Err(err),
                Ok(r) => match logical_rule(
                    Operand { expr: l.expr, ty: l.ty },
                    token,
                    Operand { expr: r.expr, ty: r.ty },
                ) {
                    Err(err) => Err(err),
                    Ok(o) => Ok(
                        Typed {
                            st: r.st,
                            expr: ExprView {
                                kind: ExprKindView::Logical {
                                    left: Box::new(o.left),
                                    token,
                                    right: Box::new(o.right),
                                },
                                type_decl: Some(o.ty),
                                value_kind: e.value_kind,
                            },
                            ty: o.ty,
                        },
                    ),
                },
            },
        },
        _ => Err(inserted_node_error()),
    }
}

pub open spec fn typed_unary(st: State, e: ExprView) -> Result<Typed, ErrorView>
    decreases e, 0nat, 0nat,
{
    match e.kind {
        ExprKindView::Unary { token, right } => match typed_expr(st, *right) {
            Err(err) => Err(err),
            Ok(r) => match unary_rule(token, Operand { expr: r.expr, ty: r.ty }) {
                Err(err) => Err(err),
                Ok(u) => Ok(
                    Typed {
                        st: r.st,
                        expr: ExprView {
                            kind: ExprKindView::Unary { token, right: Box::new(u.right) },
                            type_decl: Some(u.ty),
                            value_kind: u.value_kind,
                        },
                        ty: u.ty,
                    },
                ),
            },
        },
        _ => Err(inserted_node_error()),
    }
}

pub open spec fn typed_assign(st: State, e: ExprView) -> Result<Typed, ErrorView>
    decreases e, 0nat, 0nat,
{
    match e.kind {
        ExprKindView::Assign { l_expr, token, r_expr } => match typed_expr(st, *l_expr) {
            Err(err) => Err(err),
            Ok(l) => match typed_expr(l.st, *r_expr) {
                Err(err) => Err(err),
                Ok(r) => match assign_rule(
                    Operand { expr: l.expr, ty: l.ty },
                    token,
                    Operand { expr: r.expr, ty: r.ty },
                ) {
                    Err(err) => Err(err),
                    Ok(o) => Ok(
                        Typed {
                            st: r.st,
                            expr: ExprView {
                                kind: ExprKindView::Assign {
                                    l_expr: Box::new(l.expr),
                                    token,
                                    r_expr: Box::new(o.expr),
                                },
                                type_decl: Some(o.ty),
                                value_kind: e.value_kind,
                            },
                            ty: o.ty,
                        },
                    ),
                },
            },
        },
        _ => Err(inserted_node_error()),
    }
}

pub open spec fn typed_compound(st: State, e: ExprView) -> Result<Typed, ErrorView>
    decreases e, 0nat, 0nat,
{
    match e.kind {
        ExprKindView::CompoundAssign { l_expr, token, r_expr } => match typed_expr(st, *l_expr) {
            Err(err) => Err(err),
            Ok(l) => match typed_expr(l.st, *r_expr) {
                Err(err) => Err(err),
                Ok(r) => match compound_rule(
                    Operand { expr: l.expr, ty: l.ty },
                    token,
                    Operand { expr: r.expr, ty: r.ty },
                ) {
                    Err(err) => Err(err),
                    Ok(o) => Ok(
                        Typed {
                            st: r.st,
                            expr: ExprView {
                                kind: ExprKindView::CompoundAssign {
                                    l_expr: Box::new(l.expr),
                                    token,
                                    r_expr: Box::new(o.expr),
                                },
                                type_decl: Some(o.ty),
                                value_kind: e.value_kind,
                            },
                            ty: o.ty,
                        },
                    ),
                },
            },
        },
        _ => Err(inserted_node_error()),
    }
}

pub open spec fn typed_postunary(st: State, e: ExprView) -> Result<Typed, ErrorView>
    decreases e, 0nat, 0nat,
{
    match e.kind {
        ExprKindView::PostUnary { token, left, by_amount } => match typed_expr(st, *left) {
            Err(err) => Err(err),
            Ok(l) => match postunary_rule(token, Operand { expr: l.expr, ty: l.ty }) {
                Err(err) => Err(err),
                Ok(by) => Ok(
                    Typed {
                        st: l.st,
                        expr: ExprView {
                            kind: ExprKindView::PostUnary {
                                token,
                                left: Box::new(l.expr),
                                by_amount: by,
                            },
                            type_decl: Some(l.ty),
                            value_kind: e.value_kind,
                        },
                        ty: l.ty,
                    },
                ),
            },
        },
        _ => Err(inserted_node_error()),
    }
}

/// A call: the callee names a function, the arguments are checked from
/// left to right, and the function must take them. The callee is annotated
/// with the type that the function returns.
pub open spec fn typed_call(st: State, e: ExprView) -> Result<Typed, ErrorView>
    decreases e, 0nat, 0nat,
{
    match e.kind {
        ExprKindView::Call { left_paren, callee, args } => match callee.kind {
            ExprKindView::Ident(name) => match typed_args(st, args) {
                Err(err) => Err(err),
                Ok(a) => match call_rule(a.st, left_paren, name.token.text, a.types) {
                    Err(err) => Err(err),
                    Ok(t) => Ok(
                        Typed {
                            st: a.st,
                            expr: ExprView {
                                kind: ExprKindView::Call {
                                    left_paren,
                                    callee: Box::new(with_type(*callee, t)),
                                    args: a.exprs,
                                },
                                type_decl: Some(t),
                                value_kind: e.value_kind,
                            },
                            ty: t,
                        },
                    ),
                },
            },
            _ => Err(ErrorView::at(left_paren, messages::callee())),
        },
        _ => Err(inserted_node_error()),
    }
}

/// The error of an expression that is checked a second time.
pub open spec fn already_checked_error() -> ErrorView {
    ErrorView::nowhere(messages::already_checked())
}

/// Checks expression `e` in state `st`: finds its type, annotates it and
/// what it is made of, and puts in the conversions. An expression that has
/// a type already, or holds a cast or a scaling, is refused.
pub open spec fn typed_expr(st: State, e: ExprView) -> Result<Typed, ErrorView>
    decreases e, 1nat, 0nat,
{
    if e.type_decl is Some {
        Err(already_checked_error())
    } else {
        typed_form(st, e)
    }
}

/// Checks an expression that has no type yet, by its form.
pub open spec fn typed_form(st: State, e: ExprView) -> Result<Typed, ErrorView>
    decreases e, 0nat, 1nat,
{
    match e.kind {
        ExprKindView::Number(_) => Ok(
            Typed { st, expr: with_type(e, Types::Int), ty: Types::Int },
        ),
        ExprKindView::CharLit(_) => Ok(
            Typed { st, expr: with_type(e, Types::Char), ty: Types::Char },
        ),
        ExprKindView::String(token) => string_rule(st, e, token),
        ExprKindView::Ident(token) => ident_rule(st, e, token),
        ExprKindView::Grouping { .. } => typed_grouping(st, e),
        ExprKindView::Binary { .. } => typed_binary(st, e),
        ExprKindView::Logical { .. } => typed_logical(st, e),
        ExprKindView::Unary { .. } => typed_unary(st, e),
        ExprKindView::Assign { .. } => typed_assign(st, e),
        ExprKindView::CompoundAssign { .. } => typed_compound(st, e),
        ExprKindView::PostUnary { .. } => typed_postunary(st, e),
        ExprKindView::Call { .. } => typed_call(st, e),
        _ => Err(inserted_node_error()),
    }
}

/// What a check of an expression hands back, set against what it should:
/// only the labels of the state change, and the result, the state and the
/// annotated expression are the expected ones.
pub open spec fn expr_outcome(
    before: State,
    after: State,
    done: ExprView,
    r: Result<Types, crate::common::error::Error>,
    expected: Result<Typed, ErrorView>,
) -> bool {
    &&& after == (State { labels: after.labels, label_count: after.label_count, ..before })
    &&& match expected {
        Ok(t) => r == Ok::<Types, crate::common::error::Error>(t.ty) && after == t.st && done
            == t.expr && t.ty.wf(),
        Err(e) => r is Err && r->Err_0@ == e,
    }
}

/// A compound assignment `l op= r` on checked operands: typed as `l op r`,
/// then as the assignment of that to `l`. Gives the right operand as the
/// operator takes it, and the type of the assignment.
#[verifier::opaque]
pub open spec fn compound_rule(l: Operand, token: TokenView, r: Operand) -> Result<
    Operand,
    ErrorView,
> {
    match binary_of_compound(token.token.kind) {
        None => Err(ErrorView::at(token, messages::unknown_operator(token.token.text_of()))),
        Some(op) => match binary_rule(l, token.with_kind(op), r) {
            Err(err) => Err(err),
            Ok(o) => match assign_rule(l, token, Operand { expr: o.right, ty: o.ty }) {
                Err(err) => Err(err),
                Ok(a) => Ok(Operand { expr: o.right, ty: a.ty }),
            },
        },
    }
}

// ----- statements -------------------------------------------------------

/// Whether an expression is known when the program is compiled: a literal,
/// a cast of what is known, or an assignment of what is known.
pub open spec fn is_constant_view(e: ExprView) -> bool
    decreases e,
{
    match e.kind {
        ExprKindView::String(_) => true,
        ExprKindView::Number(_) => true,
        ExprKindView::CharLit(_) => true,
        ExprKindView::CastUp { expr } => is_constant_view(*expr),
        ExprKindView::CastDown { expr } => is_constant_view(*expr),
        ExprKindView::Assign { l_expr, token, r_expr } => is_constant_view(*r_expr),
        _ => false,
    }
}

/// What a statement gives: the state after it, and the annotated statement
/// or the diagnostic. After a diagnostic the state is `failed()`.
pub struct Outcome {
    pub st: State,
    pub result: Result<StmtView, ErrorView>,
}

/// What a sequence of statements gives: it ends with the first diagnostic.
pub struct Outcomes {
    pub st: State,
    pub result: Result<Seq<StmtView>, ErrorView>,
}

pub open spec fn fail(st: State, e: ErrorView) -> Outcome {
    Outcome { st: st.failed(), result: Err(e) }
}

/// The value of a variable's initializer as it is stored: a string literal
/// that initializes an array of `char` stays as it is, anything else is
/// assigned.
#[verifier::opaque]
pub open spec fn initializer(t: Types, name: TokenView, from_string: bool, v: Operand) -> Result<
    ExprView,
    ErrorView,
> {
    if t matches Types::Array { of, .. } && *of == Types::Char && from_string {
        Ok(v.expr)
    } else {
        let r = decayed(v);
        if !assignable(t, r.ty) {
            Err(ErrorView::at(name, messages::incompatible(t, r.ty)))
        } else {
            Ok(converted(r.expr, t, r.ty))
        }
    }
}

#[verifier::opaque]
pub open spec fn declare_var_rule(st: State, t: Types, name: TokenView) -> Outcome {
    let text = name.token.text;
    if st.declared_here(text) {
        fail(st, ErrorView::at(name, messages::redefined_variable(text)))
    } else if t == Types::Void {
        fail(st, ErrorView::at(name, messages::void_variable(text)))
    } else if st.in_global_scope() {
        Outcome { st: st.declare(text, t), result: Ok(StmtView::DeclareVar(t, name, true)) }
    } else {
        match grown_frame(st, t, name) {
            Err(e) => fail(st, e),
            Ok(grown) => Outcome {
                st: grown.declare(text, t),
                result: Ok(StmtView::DeclareVar(t, name, false)),
            },
        }
    }
}

#[verifier::opaque]
pub open spec fn init_var_rule(st: State, t: Types, name: TokenView, e: ExprView) -> Outcome {
    let text = name.token.text;
    match typed_expr(st, e) {
        Err(err) => fail(st, err),
        Ok(v) => if v.st.declared_here(text) {
            fail(v.st, ErrorView::at(name, messages::redefined_variable(text)))
        } else {
            match initializer(t, name, e.kind is String, Operand { expr: v.expr, ty: v.ty }) {
                Err(err) => fail(v.st, err),
                Ok(value) => if v.st.in_global_scope() {
                    if !is_constant_view(value) {
                        fail(v.st, ErrorView::at(name, messages::not_constant()))
                    } else {
                        Outcome {
                            st: v.st.declare(text, t),
                            result: Ok(StmtView::InitVar(t, name, value, true)),
                        }
                    }
                } else {
                    match grown_frame(v.st, t, name) {
                        Err(err) => fail(v.st, err),
                        Ok(grown) => Outcome {
                            st: grown.declare(text, t),
                            result: Ok(StmtView::InitVar(t, name, value, false)),
                        },
                    }
                },
            }
        },
    }
}

/// The expressions of an initializer list after they are checked.
pub struct TypedList {
    pub st: State,
    pub exprs: Seq<ExprView>,
}

/// Checks the expressions of an initializer list from first to last.
pub open spec fn typed_list(st: State, exprs: Seq<ExprView>) -> Result<TypedList, ErrorView>
    decreases exprs.len(),
{
    if exprs.len() == 0 {
        Ok(TypedList { st, exprs: Seq::empty() })
    } else {
        match typed_list(st, exprs.drop_last()) {
            Err(e) => Err(e),
            Ok(before) => match typed_expr(before.st, exprs.last()) {
                Err(e) => Err(e),
                Ok(t) => Ok(TypedList { st: t.st, exprs: before.exprs.push(t.expr) }),
            },
        }
    }
}

pub open spec fn all_constant(exprs: Seq<ExprView>) -> bool {
    forall|i: int| 0 <= i < exprs.len() ==> is_constant_view(#[trigger] exprs[i])
}

#[verifier::opaque]
pub open spec fn init_list_rule(st: State, t: Types, name: TokenView, exprs: Seq<ExprView>) -> Outcome {
    let text = name.token.text;
    if st.declared_here(text) {
        fail(st, ErrorView::at(name, messages::redefined_variable(text)))
    } else {
        let declared = st.declare(text, t);
        if st.in_global_scope() {
            if !all_constant(exprs) {
                fail(declared, ErrorView::at(name, messages::not_constant()))
            } else {
                match typed_list(declared, exprs) {
                    Err(e) => fail(declared, e),
                    Ok(l) => Outcome {
                        st: l.st,
                        result: Ok(StmtView::InitList(t, name, l.exprs, true)),
                    },
                }
            }
        } else {
            match grown_frame(declared, t, name) {
                Err(e) => fail(declared, e),
                Ok(grown) => match typed_list(grown, exprs) {
                    Err(e) => fail(declared, e),
                    Ok(l) => Outcome {
                        st: l.st,
                        result: Ok(StmtView::InitList(t, name, l.exprs, false)),
                    },
                },
            }
        }
    }
}

/// Place of the first parameter, at or after `from`, whose type differs
/// between two parameter lists of one length.
pub open spec fn first_difference(known: Seq<Types>, params: Seq<Types>, from: int) -> Option<int>
    decreases params.len() - from,
{
    if from < 0 || from >= params.len() || from >= known.len() {
        None
    } else if known[from] != params[from] {
        Some(from)
    } else {
        first_difference(known, params, from + 1)
    }
}

/// Whether a declaration or definition of a function agrees with the
/// signature `known` that the function already has: it does if this gives
/// no diagnostic.
#[verifier::opaque]
pub open spec fn signature_clash(
    known: Signature,
    return_type: Types,
    name: TokenView,
    params: Seq<(Types, TokenView)>,
) -> Option<ErrorView> {
    if known.return_type != return_type {
        Some(ErrorView::at(name, messages::conflicting_return(known.return_type, return_type)))
    } else if known.params.len() != params.len() {
        Some(ErrorView::at(name, messages::parameter_count(known.params.len(), params.len())))
    } else {
        match first_difference(known.params, param_types(params), 0) {
            Some(i) => Some(
                ErrorView::at(
                    params[i].1,
                    messages::parameter_type(known.params[i], params[i].0),
                ),
            ),
            None => None,
        }
    }
}

pub open spec fn signature_of(return_type: Types, params: Seq<(Types, TokenView)>) -> Signature {
    Signature { return_type, params: param_types(params) }
}

#[verifier::opaque]
pub open spec fn function_declaration_rule(
    st: State,
    return_type: Types,
    name: TokenView,
    params: Seq<(Types, TokenView)>,
) -> Outcome {
    let text = name.token.text;
    let against_declaration = if st.declared.contains_key(text) {
        signature_clash(st.declared[text], return_type, name, params)
    } else {
        None
    };
    let against_definition = if st.defined.contains_key(text) {
        signature_clash(st.defined[text], return_type, name, params)
    } else {
        None
    };
    match against_declaration {
        Some(e) => fail(st, e),
        None => match against_definition {
            Some(e) => fail(st, e),
            None => Outcome {
                st: State {
                    declared: st.declared.insert(text, signature_of(return_type, params)),
                    ..st
                },
                result: Ok(StmtView::FunctionDeclaration(return_type, name, params)),
            },
        },
    }
}

pub open spec fn is_main(name: TokenView) -> bool {
    name.token.text == "main"@
}

/// The head of a function definition: the function is entered among the
/// defined ones if it may stand here, does not clash with what is known of
/// it and, as `main`, returns `int`.
#[verifier::opaque]
pub open spec fn function_head(
    st: State,
    return_type: Types,
    name: TokenView,
    params: Seq<(Types, TokenView)>,
) -> Result<State, (State, ErrorView)> {
    let text = name.token.text;
    if !st.in_global_scope() {
        Err((st, ErrorView::at(name, messages::nested_function())))
    } else {
        let st1 = State { found_main: st.found_main || is_main(name), ..st };
        if is_main(name) && return_type != Types::Int {
            Err((st1, ErrorView::at(name, messages::main_type(return_type))))
        } else if st1.defined.contains_key(text) {
            Err((st1, ErrorView::at(name, messages::redefined_function(text))))
        } else {
            let clash = if st1.declared.contains_key(text) {
                signature_clash(st1.declared[text], return_type, name, params)
            } else {
                None
            };
            match clash {
                Some(e) => Err((st1, e)),
                None => Ok(
                    State {
                        defined: st1.defined.insert(text, signature_of(return_type, params)),
                        ..st1
                    },
                ),
            }
        }
    }
}

/// The state inside a function after its parameters are counted and bound,
/// one after the other.
pub open spec fn bound_params(st: State, params: Seq<(Types, TokenView)>) -> Result<
    State,
    ErrorView,
>
    decreases params.len(),
{
    if params.len() == 0 {
        Ok(st)
    } else {
        match bound_params(st, params.drop_last()) {
            Err(e) => Err(e),
            Ok(before) => match grown_frame(before, params.last().0, params.last().1) {
                Err(e) => Err(e),
                Ok(grown) => Ok(grown.declare(params.last().1.token.text, params.last().0)),
            },
        }
    }
}

/// The statement `return 0;` that closes a `main` which may end without
/// `return`.
pub open spec fn implicit_return(name: TokenView) -> StmtView {
    StmtView::Return(
        name,
        Some(
            ExprView {
                kind: ExprKindView::Number(0),
                type_decl: Some(Types::Int),
                value_kind: ValueKind::Rvalue,
            },
        ),
    )
}

/// The end of a function definition, in the state `out` after its body is
/// checked and left: `main` gets its closing `return`, the frame size is
/// rounded up to 16 bytes, and a function that returns a value must return
/// on every path.
#[verifier::opaque]
pub open spec fn function_end(
    out: State,
    return_type: Types,
    name: TokenView,
    params: Seq<(Types, TokenView)>,
    body: Seq<StmtView>,
) -> Outcome {
    let text = name.token.text;
    let closed = is_main(name) && !out.returns_all_paths;
    let complete = out.returns_all_paths || is_main(name);
    let size: nat = if out.stack_sizes.contains_key(text) {
        out.stack_sizes[text] as nat
    } else {
        0
    };
    if aligned(size, 16) > usize::MAX {
        fail(out, ErrorView::at(name, messages::frame_too_large()))
    } else if return_type != Types::Void && !complete {
        fail(out, ErrorView::at(name, messages::missing_return()))
    } else {
        Outcome {
            st: State {
                stack_sizes: out.stack_sizes.insert(text, aligned(size, 16) as usize),
                returns_all_paths: false,
                ..out
            },
            result: Ok(
                StmtView::Function(
                    return_type,
                    name,
                    params,
                    if closed {
                        body.push(implicit_return(name))
                    } else {
                        body
                    },
                ),
            ),
        }
    }
}

/// The type of the value that `return` hands back, if it may.
pub open spec fn return_clash(keyword: TokenView, function_type: Types, found: Types) -> Option<
    ErrorView,
> {
    if function_type is Array {
        Some(ErrorView::at(keyword, messages::return_array()))
    } else if !function_type.compatible(found) {
        Some(ErrorView::at(keyword, messages::return_mismatch(function_type, found)))
    } else {
        None
    }
}

#[verifier::opaque]
pub open spec fn return_rule(st: State, keyword: TokenView, value: Option<ExprView>) -> Outcome {
    match st.current_function() {
        None => fail(st, ErrorView::at(keyword, messages::return_outside())),
        Some((_, function_type)) => match value {
            None => match return_clash(keyword, function_type, Types::Void) {
                Some(e) => fail(st, e),
                None => Outcome {
                    st: State { returns_all_paths: true, ..st },
                    result: Ok(StmtView::Return(keyword, None)),
                },
            },
            Some(e) => match typed_expr(st, e) {
                Err(err) => fail(st, err),
                Ok(v) => {
                    let r = decayed(Operand { expr: v.expr, ty: v.ty });
                    match return_clash(keyword, function_type, r.ty) {
                        Some(err) => fail(v.st, err),
                        None => Outcome {
                            st: State { returns_all_paths: true, ..v.st },
                            result: Ok(
                                StmtView::Return(
                                    keyword,
                                    Some(converted(r.expr, function_type, r.ty)),
                                ),
                            ),
                        },
                    }
                },
            },
        },
    }
}

/// Checks the statements of one scope from first to last, up to the first
/// diagnostic.
pub open spec fn check_stmts(st: State, stmts: Seq<StmtView>) -> Outcomes
    decreases stmts, 0nat,
{
    if stmts.len() == 0 {
        Outcomes { st, result: Ok(Seq::empty()) }
    } else {
        let before = check_stmts(st, stmts.drop_last());
        match before.result {
            Err(e) => before,
            Ok(checked) => {
                let o = check_stmt(before.st, stmts.last());
                match o.result {
                    Err(e) => Outcomes { st: o.st, result: Err(e) },
                    Ok(s) => Outcomes { st: o.st, result: Ok(checked.push(s)) },
                }
            },
        }
    }
}

/// The state in which the body of a function is checked, before its
/// parameters are bound: inside the function's scope, with an empty frame
/// and nothing counted.
pub open spec fn entered(head: State, return_type: Types, name: TokenView) -> State {
    State {
        stack_sizes: head.stack_sizes.insert(name.token.text, 0),
        returns_all_paths: false,
        ..head.enter(ScopeView::Function(name.token.text, return_type))
    }
}

/// A function definition.
pub open spec fn check_function(st: State, s: StmtView) -> Outcome
    decreases s, 0nat,
{
    match s {
        StmtView::Function(t, name, params, body) => match function_head(st, t, name, params) {
            Err((at, e)) => fail(at, e),
            Ok(head) => match bound_params(entered(head, t, name), params) {
                Err(e) => fail(head, e),
                Ok(inner) => {
                    let o = check_stmts(inner, body);
                    match o.result {
                        Err(e) => fail(o.st.leave(), e),
                        Ok(checked) => function_end(o.st.leave(), t, name, params, checked),
                    }
                },
            },
        },
        _ => arbitrary(),
    }
}

/// A block: its statements are checked in a scope of their own.
pub open spec fn check_block(st: State, s: StmtView) -> Outcome
    decreases s, 0nat,
{
    match s {
        StmtView::Block(stmts) => {
            let o = check_stmts(st.enter(ScopeView::Block), stmts);
            match o.result {
                Err(e) => fail(o.st.leave(), e),
                Ok(checked) => Outcome { st: o.st.leave(), result: Ok(StmtView::Block(checked)) },
            }
        },
        _ => arbitrary(),
    }
}

/// The condition of an `if` or a loop: it must have a value.
#[verifier::opaque]
pub open spec fn condition(st: State, keyword: TokenView, cond: ExprView, msg: Seq<char>) -> Result<
    Typed,
    ErrorView,
> {
    match typed_expr(st, cond) {
        Err(err) => Err(err),
        Ok(c) => if c.ty == Types::Void {
            Err(ErrorView::at(keyword, msg))
        } else {
            Ok(c)
        },
    }
}

/// What the `else` branch of an `if` gives.
pub struct ElseOutcome {
    pub st: State,
    pub result: Result<Option<Box<StmtView>>, ErrorView>,
}

/// The `else` branch of an `if`, where there is one.
pub open spec fn check_else(st: State, else_branch: Option<Box<StmtView>>) -> ElseOutcome
    decreases else_branch, 0nat,
{
    match else_branch {
        None => ElseOutcome { st, result: Ok(None) },
        Some(other) => {
            let f = check_stmt(st, *other);
            ElseOutcome {
                st: f.st,
                result: match f.result {
                    Ok(checked) => Ok(Some(Box::new(checked))),
                    Err(e) => Err(e),
                },
            }
        },
    }
}

/// An `if`: it returns on every path if it has both branches and both do.
pub open spec fn check_if(st: State, s: StmtView) -> Outcome
    decreases s, 0nat,
{
    match s {
        StmtView::If(keyword, cond, then_branch, else_branch) => match condition(
            st,
            keyword,
            cond,
            messages::void_condition(),
        ) {
            Err(err) => fail(st, err),
            Ok(c) => {
                let t = check_stmt(c.st, *then_branch);
                match t.result {
                    Err(e) => t,
                    Ok(then_checked) => {
                        let f = check_else(State { returns_all_paths: false, ..t.st }, else_branch);
                        match f.result {
                            Err(e) => Outcome { st: f.st, result: Err(e) },
                            Ok(else_checked) => Outcome {
                                st: State {
                                    returns_all_paths: t.st.returns_all_paths
                                        && f.st.returns_all_paths,
                                    ..f.st
                                },
                                result: Ok(
                                    StmtView::If(
                                        keyword,
                                        c.expr,
                                        Box::new(then_checked),
                                        else_checked,
                                    ),
                                ),
                            },
                        }
                    },
                }
            },
        },
        _ => arbitrary(),
    }
}

/// A loop: what follows it may be reached without a `return`.
pub open spec fn check_while(st: State, s: StmtView) -> Outcome
    decreases s, 0nat,
{
    match s {
        StmtView::While(keyword, cond, body) => match condition(
            st,
            keyword,
            cond,
            messages::void_loop_condition(),
        ) {
            Err(err) => fail(st, err),
            Ok(c) => {
                let b = check_stmt(c.st, *body);
                match b.result {
                    Err(e) => b,
                    Ok(checked) => Outcome {
                        st: State { returns_all_paths: false, ..b.st },
                        result: Ok(StmtView::While(keyword, c.expr, Box::new(checked))),
                    },
                }
            },
        },
        _ => arbitrary(),
    }
}

/// An expression that stands as a statement.
#[verifier::opaque]
pub open spec fn expression_rule(st: State, e: ExprView) -> Outcome {
    match typed_expr(st, e) {
        Err(err) => fail(st, err),
        Ok(v) => Outcome { st: v.st, result: Ok(StmtView::Expr(v.expr)) },
    }
}

/// Checks one statement in state `st`.
pub open spec fn check_stmt(st: State, s: StmtView) -> Outcome
    decreases s, 1nat,
{
    match s {
        StmtView::DeclareVar(t, name, _) => declare_var_rule(st, t, name),
        StmtView::InitVar(t, name, e, _) => init_var_rule(st, t, name, e),
        StmtView::InitList(t, name, exprs, _) => init_list_rule(st, t, name, exprs),
        StmtView::FunctionDeclaration(t, name, params) => function_declaration_rule(
            st,
            t,
            name,
            params,
        ),
        StmtView::Function(..) => check_function(st, s),
        StmtView::Return(keyword, value) => return_rule(st, keyword, value),
        StmtView::Expr(e) => expression_rule(st, e),
        StmtView::Block(_) => check_block(st, s),
        StmtView::If(..) => check_if(st, s),
        StmtView::While(..) => check_while(st, s),
    }
}

/// Whether every type that a statement declares is well formed.
pub open spec fn stmt_wf(s: StmtView) -> bool
    decreases s,
{
    match s {
        StmtView::DeclareVar(t, _, _) => t.wf(),
        StmtView::InitVar(t, _, _, _) => t.wf(),
        StmtView::InitList(t, _, _, _) => t.wf(),
        StmtView::FunctionDeclaration(t, _, params) => t.wf() && params_wf(params),
        StmtView::Function(t, _, params, body) => t.wf() && params_wf(params) && (forall|i: int|
            0 <= i < body.len() ==> stmt_wf(#[trigger] body[i])),
        StmtView::Block(stmts) => forall|i: int|
            0 <= i < stmts.len() ==> stmt_wf(#[trigger] stmts[i]),
        StmtView::If(_, _, then_branch, else_branch) => stmt_wf(*then_branch) && match else_branch {
            Some(other) => stmt_wf(*other),
            None => true,
        },
        StmtView::While(_, _, body) => stmt_wf(*body),
        _ => true,
    }
}

pub open spec fn params_wf(params: Seq<(Types, TokenView)>) -> bool {
    forall|i: int| 0 <= i < params.len() ==> (#[trigger] params[i]).0.wf()
}

pub open spec fn stmts_wf(stmts: Seq<StmtView>) -> bool {
    forall|i: int| 0 <= i < stmts.len() ==> stmt_wf(#[trigger] stmts[i])
}

/// What a check of a statement hands back, set against what it should:
/// the type checker stands in the scope it stood in, and the state, the result
/// and the annotated statement are the expected ones.
#[verifier::opaque]
pub open spec fn stmt_outcome(
    before: State,
    after: State,
    done: StmtView,
    r: Result<(), crate::common::error::Error>,
    expected: Outcome,
) -> bool {
    &&& after.scope == before.scope
    &&& after.frames.len() == before.frames.len()
    &&& match expected.result {
        Ok(s) => r is Ok && after == expected.st && done == s,
        Err(e) => r is Err && r->Err_0@ == e && after.failed() == expected.st,
    }
}

/// What checking a whole program gives: the state after it, the statements
/// that passed, annotated, and the first diagnostic of every top-level
/// statement that has one. After a statement that failed, the next one is
/// checked all the same.
pub struct Program {
    pub st: State,
    pub stmts: Seq<StmtView>,
    pub errors: Seq<ErrorView>,
}

pub open spec fn check_program(st: State, stmts: Seq<StmtView>) -> Program
    decreases stmts.len(),
{
    if stmts.len() == 0 {
        Program { st, stmts: Seq::empty(), errors: Seq::empty() }
    } else {
        let before = check_program(st, stmts.drop_last());
        let o = check_stmt(before.st, stmts.last());
        match o.result {
            Err(e) => Program { st: o.st, stmts: before.stmts, errors: before.errors.push(e) },
            Ok(s) => Program { st: o.st, stmts: before.stmts.push(s), errors: before.errors },
        }
    }
}

/// The diagnostics that the check of a program ends with: those of its
/// statements or, if there are none and no `main` was defined, the one that
/// says so.
pub open spec fn diagnostics(p: Program) -> Seq<ErrorView> {
    if p.errors.len() > 0 {
        p.errors
    } else if !p.st.found_main {
        seq![ErrorView::missing_entrypoint()]
    } else {
        Seq::empty()
    }
}

/// After a diagnostic the tables may be dropped: what was handed back
/// still is what was expected, and the state then is the expected one.
pub proof fn lemma_outcome_after_failure(
    before: State,
    after: State,
    done: StmtView,
    r: Result<(), crate::common::error::Error>,
    expected: Outcome,
)
    requires
        stmt_outcome(before, after, done, r, expected),
        r is Err,
    ensures
        stmt_outcome(before, after.failed(), done, r, expected),
        after.failed() == expected.st,
{
    reveal(stmt_outcome);
}

/// A check that went as expected leaves the type checker in the scope it stood
/// in, and says whether the statement passed.
pub proof fn lemma_outcome_facts(
    before: State,
    after: State,
    done: StmtView,
    r: Result<(), crate::common::error::Error>,
    expected: Outcome,
)
    requires
        stmt_outcome(before, after, done, r, expected),
    ensures
        after.scope == before.scope,
        after.frames.len() == before.frames.len(),
        r is Ok <==> expected.result is Ok,
        r is Ok ==> after == expected.st && done == expected.result->Ok_0,
        r is Err ==> r->Err_0@ == expected.result->Err_0 && after.failed() == expected.st,
{
    reveal(stmt_outcome);
}

/// A variable that a well-formed state binds has a well-formed type.
pub proof fn lemma_lookup_wf(st: State, name: Seq<char>)
    requires
        st.types_wf(),
    ensures
        lookup(st.frames, name) matches Some(t) ==> t.wf(),
{
    lemma_lookup_in(st.frames, name);
}

pub proof fn lemma_lookup_in(frames: Seq<Map<Seq<char>, Types>>, name: Seq<char>)
    ensures
        lookup(frames, name) matches Some(t) ==> exists|i: int|
            0 <= i < frames.len() && #[trigger] frames[i].contains_key(name) && frames[i][name] == t,
    decreases frames.len(),
{
    if frames.len() > 0 {
        if frames.last().contains_key(name) {
            assert(frames[frames.len() - 1].contains_key(name));
        } else {
            lemma_lookup_in(frames.drop_last(), name);
            if lookup(frames, name) is Some {
                let i = choose|i: int|
                    0 <= i < frames.drop_last().len() && #[trigger] frames.drop_last()[i].contains_key(
                        name,
                    ) && frames.drop_last()[i][name] == lookup(frames, name)->Some_0;
                assert(frames[i].contains_key(name));
            }
        }
    }
}

/// The function that encloses a place in a well-formed state returns a
/// well-formed type.
pub proof fn lemma_enclosing_function_wf(st: State)
    requires
        st.types_wf(),
    ensures
        st.current_function() matches Some((_, t)) ==> t.wf(),
{
    lemma_enclosing_in(st.scope);
}

pub proof fn lemma_enclosing_in(scope: Seq<ScopeView>)
    ensures
        enclosing_function(scope) matches Some((name, t)) ==> exists|i: int|
            0 <= i < scope.len() && #[trigger] scope[i] == ScopeView::Function(name, t),
    decreases scope.len(),
{
    if scope.len() > 0 {
        match scope.last() {
            ScopeView::Function(name, t) => {
                assert(scope[scope.len() - 1] == ScopeView::Function(name, t));
            },
            _ => {
                lemma_enclosing_in(scope.drop_last());
                if enclosing_function(scope) is Some {
                    let found = enclosing_function(scope)->Some_0;
                    let i = choose|i: int|
                        0 <= i < scope.drop_last().len() && #[trigger] scope.drop_last()[i]
                            == ScopeView::Function(found.0, found.1);
                    assert(scope[i] == ScopeView::Function(found.0, found.1));
                }
            },
        }
    }
}

/// Alignment moves an offset up, by less than the alignment.
pub proof fn lemma_aligned_bounds(offset: nat, type_size: nat)
    ensures
        offset <= aligned(offset, type_size),
        type_size > 0 ==> aligned(offset, type_size) < offset + type_size,
        type_size > 0 ==> aligned(offset, type_size) % type_size == 0,
{
    if type_size > 0 && offset % type_size != 0 {
        let r = (offset + type_size - offset % type_size) as nat;
        assert(r % type_size == 0) by (nonlinear_arith)
            requires
                r == offset + type_size - offset % type_size,
                type_size > 0,
        ;
        assert(offset % type_size < type_size) by (nonlinear_arith)
            requires
                type_size > 0,
        ;
    }
}

} // verus!
