//! The typing rules of the checker, stated as functions from a checking state
//! to the next one. The checker in `typecheck` is proved to compute exactly
//! these functions.
use vstd::prelude::*;
use crate::ast::{
    expr_v, Block, ElseBranch, Expr, Item, MatchArm, Param, Pattern, Program, SExpr, Stmt,
    StructLiteralField, TypeNode,
};
use crate::checked_type::{
    builtin_return_spec, compat, display_text, from_type_view, is_builtin_variant_spec, named_val,
    numeric_result, TypeVal,
};
use crate::error::{fresh_diag, push_dedup, DiagnosticView, ErrorCode, Severity};
use crate::source::{Span, Spanned};
use crate::text::{debug_str_text, decimal};

verus! {

/// A variable in scope.
pub struct VarModel {
    pub mutable: bool,
    pub ty: TypeVal,
    /// Where it was declared (the `let mut` autofix inserts after `let`).
    pub decl_span: Span,
}

/// A function or method signature.
pub struct SigModel {
    pub params: Seq<TypeVal>,
    pub ret: TypeVal,
}

/// What the checker knows of the program's declarations.
pub struct Env {
    pub functions: Seq<(Seq<char>, SigModel)>,
    /// (type name, method name, signature whose first parameter is `self`).
    pub methods: Seq<(Seq<char>, Seq<char>, SigModel)>,
    pub structs: Seq<(Seq<char>, Seq<(Seq<char>, TypeVal)>)>,
}

/// The checker's state while it walks function bodies.
pub struct CheckState {
    /// Innermost scope last; within a scope, the latest declaration last.
    pub scopes: Seq<Seq<(Seq<char>, VarModel)>>,
    /// Return types of the enclosing functions, innermost last.
    pub returns: Seq<TypeVal>,
    pub diags: Seq<DiagnosticView>,
    /// The inferred type of every expression, in the order inferred, under
    /// the expression's key.
    pub types: Seq<(SExpr, TypeVal)>,
}

/// The key under which the type of `e` is recorded: the node in plain-value
/// form, its span and the spans and contents of everything below it.
pub open spec fn type_key(e: Spanned<Expr>) -> SExpr {
    expr_v(e)
}

/// The signature declared last under `name`.
pub open spec fn find_fn(fs: Seq<(Seq<char>, SigModel)>, name: Seq<char>) -> Option<SigModel>
    decreases fs.len(),
{
    if fs.len() == 0 {
        None
    } else if fs.last().0 == name {
        Some(fs.last().1)
    } else {
        find_fn(fs.drop_last(), name)
    }
}

/// The method `name` of type `ty` declared last.
pub open spec fn find_method(
    ms: Seq<(Seq<char>, Seq<char>, SigModel)>,
    ty: Seq<char>,
    name: Seq<char>,
) -> Option<SigModel>
    decreases ms.len(),
{
    if ms.len() == 0 {
        None
    } else if ms.last().0 == ty && ms.last().1 == name {
        Some(ms.last().2)
    } else {
        find_method(ms.drop_last(), ty, name)
    }
}

/// The fields of the struct declared last under `name`.
pub open spec fn find_struct(
    ss: Seq<(Seq<char>, Seq<(Seq<char>, TypeVal)>)>,
    name: Seq<char>,
) -> Option<Seq<(Seq<char>, TypeVal)>>
    decreases ss.len(),
{
    if ss.len() == 0 {
        None
    } else if ss.last().0 == name {
        Some(ss.last().1)
    } else {
        find_struct(ss.drop_last(), name)
    }
}

/// The position of the first field named `f` at or after position `k`.
pub open spec fn field_from(fields: Seq<(Seq<char>, TypeVal)>, f: Seq<char>, k: int) -> Option<int>
    decreases fields.len() - k,
{
    if k < 0 || k >= fields.len() {
        None
    } else if fields[k].0 == f {
        Some(k)
    } else {
        field_from(fields, f, k + 1)
    }
}

/// The latest declaration of `name` within one scope.
pub open spec fn scope_find(scope: Seq<(Seq<char>, VarModel)>, name: Seq<char>) -> Option<VarModel>
    decreases scope.len(),
{
    if scope.len() == 0 {
        None
    } else if scope.last().0 == name {
        Some(scope.last().1)
    } else {
        scope_find(scope.drop_last(), name)
    }
}

/// The innermost declaration of `name`.
pub open spec fn lookup_var(scopes: Seq<Seq<(Seq<char>, VarModel)>>, name: Seq<char>) -> Option<VarModel>
    decreases scopes.len(),
{
    if scopes.len() == 0 {
        None
    } else {
        match scope_find(scopes.last(), name) {
            Some(v) => Some(v),
            None => lookup_var(scopes.drop_last(), name),
        }
    }
}

impl CheckState {
    pub open spec fn emit(self, span: Span, code: ErrorCode, message: Seq<char>) -> CheckState {
        CheckState {
            diags: push_dedup(self.diags, fresh_diag(code, Severity::Error, span, message)),
            ..self
        }
    }

    pub open spec fn record(self, key: SExpr, t: TypeVal) -> CheckState {
        CheckState { types: self.types.push((key, t)), ..self }
    }

    pub open spec fn push_scope(self) -> CheckState {
        CheckState { scopes: self.scopes.push(Seq::empty()), ..self }
    }

    pub open spec fn pop_scope(self) -> CheckState {
        if self.scopes.len() > 0 {
            CheckState { scopes: self.scopes.drop_last(), ..self }
        } else {
            self
        }
    }

    /// Declares in the innermost scope; with no scope open, nothing changes.
    pub open spec fn declare(self, name: Seq<char>, mutable: bool, ty: TypeVal, decl_span: Span) -> CheckState {
        if self.scopes.len() > 0 {
            CheckState {
                scopes: self.scopes.drop_last().push(
                    self.scopes.last().push((name, VarModel { mutable, ty, decl_span })),
                ),
                ..self
            }
        } else {
            self
        }
    }

    pub open spec fn push_return(self, t: TypeVal) -> CheckState {
        CheckState { returns: self.returns.push(t), ..self }
    }

    pub open spec fn pop_return(self) -> CheckState {
        if self.returns.len() > 0 {
            CheckState { returns: self.returns.drop_last(), ..self }
        } else {
            self
        }
    }

    pub open spec fn current_return(self) -> TypeVal {
        if self.returns.len() > 0 {
            self.returns.last()
        } else {
            TypeVal::Unknown
        }
    }
}

/// A mismatch unless `actual` may be used where `expected` is.
pub open spec fn expect_assignable(
    st: CheckState,
    expected: TypeVal,
    actual: TypeVal,
    context: Seq<char>,
    span: Span,
) -> CheckState {
    if compat(expected, actual) {
        st
    } else {
        st.emit(
            span,
            ErrorCode::TypeMismatch,
            context + " expects "@ + display_text(expected) + ", got "@ + display_text(actual),
        )
    }
}

pub open spec fn expect_bool(st: CheckState, ty: TypeVal, context: Seq<char>, span: Span) -> CheckState {
    if ty is Unknown || ty.is_bool() {
        st
    } else {
        st.emit(span, ErrorCode::TypeBoolRequired, context + " must be bool, got "@ + display_text(ty))
    }
}

pub open spec fn expect_numeric(st: CheckState, ty: TypeVal, context: Seq<char>, span: Span) -> CheckState {
    if ty is Unknown || ty.is_numeric() {
        st
    } else {
        st.emit(
            span,
            ErrorCode::TypeNumericRequired,
            context + " must be numeric, got "@ + display_text(ty),
        )
    }
}

/// Both operands numeric, and of combinable types.
pub open spec fn expect_numeric_pair(
    st: CheckState,
    op: Seq<char>,
    l: TypeVal,
    r: TypeVal,
    span: Span,
) -> CheckState {
    let s1 = expect_numeric(st, l, "left operand of "@ + op, span);
    let s2 = expect_numeric(s1, r, "right operand of "@ + op, span);
    if l is Unknown || r is Unknown || compat(l, r) || compat(r, l) {
        s2
    } else {
        s2.emit(
            span,
            ErrorCode::TypeOperatorMismatch,
            "operator "@ + op + " cannot combine "@ + display_text(l) + " and "@ + display_text(r),
        )
    }
}

pub open spec fn is_arith_op(op: Seq<char>) -> bool {
    op == "+"@ || op == "-"@ || op == "*"@ || op == "/"@ || op == "%"@ || op == "&"@ || op == "|"@
        || op == "^"@ || op == "<<"@ || op == ">>"@
}

pub open spec fn is_order_op(op: Seq<char>) -> bool {
    op == ">"@ || op == ">="@ || op == "<"@ || op == "<="@
}

/// Reports `t` unless it is a string (or unknown).
pub open spec fn string_operand(st: CheckState, t: TypeVal, message: Seq<char>, span: Span) -> CheckState {
    if !t.is_string() && !(t is Unknown) {
        st.emit(span, ErrorCode::TypeOperatorMismatch, message)
    } else {
        st
    }
}

/// A binary operator applied to operands of types `l` and `r`.
pub open spec fn binary_rule(
    st: CheckState,
    op: Seq<char>,
    l: TypeVal,
    r: TypeVal,
    span: Span,
    lspan: Span,
    rspan: Span,
) -> (CheckState, TypeVal) {
    let bool_t = named_val("bool"@);
    if op == "+"@ && (l.is_string() || r.is_string()) {
        let s1 = string_operand(st, l, "cannot concatenate String with "@ + display_text(l), span);
        let s2 = string_operand(s1, r, "cannot concatenate String with "@ + display_text(r), span);
        (s2, named_val("String"@))
    } else if is_arith_op(op) {
        (expect_numeric_pair(st, op, l, r, span), numeric_result(l, r))
    } else if is_order_op(op) {
        if l.is_string() || r.is_string() {
            let s1 = string_operand(
                st,
                l,
                "cannot compare String with "@ + display_text(l) + " using "@ + op,
                span,
            );
            let s2 = string_operand(
                s1,
                r,
                "cannot compare String with "@ + display_text(r) + " using "@ + op,
                span,
            );
            (s2, bool_t)
        } else {
            (expect_numeric_pair(st, op, l, r, span), bool_t)
        }
    } else if op == "=="@ || op == "!="@ {
        if !(l is Unknown) && !(r is Unknown) && !compat(l, r) && !compat(r, l) {
            (
                st.emit(
                    span,
                    ErrorCode::TypeOperatorMismatch,
                    "operator "@ + op + " cannot compare "@ + display_text(l) + " and "@
                        + display_text(r),
                ),
                bool_t,
            )
        } else {
            (st, bool_t)
        }
    } else if op == "&&"@ || op == "||"@ {
        let s1 = expect_bool(st, l, "left operand of "@ + op, lspan);
        (expect_bool(s1, r, "right operand of "@ + op, rspan), bool_t)
    } else {
        (st, TypeVal::Unknown)
    }
}

/// A unary operator applied to an operand of type `t`.
pub open spec fn unary_rule(st: CheckState, op: Seq<char>, t: TypeVal, vspan: Span) -> (CheckState, TypeVal) {
    if op == "!"@ {
        (expect_bool(st, t, "operand of !"@, vspan), named_val("bool"@))
    } else if op == "-"@ {
        (expect_numeric(st, t, "operand of unary -"@, vspan), t)
    } else if op == "~"@ {
        (expect_numeric(st, t, "operand of ~"@, vspan), t)
    } else {
        (st, TypeVal::Unknown)
    }
}

/// Indexing a value of type `obj` with an index of type `idx`.
pub open spec fn index_rule(st: CheckState, obj: TypeVal, idx: TypeVal, span: Span) -> (CheckState, TypeVal) {
    let s1 = if !(idx is Unknown) && !(idx is IntLiteral) && !idx.is_integer_scalar() {
        st.emit(
            span,
            ErrorCode::TypeMismatch,
            "array index must be an integer, got "@ + display_text(idx),
        )
    } else {
        st
    };
    let bad = s1.emit(span, ErrorCode::TypeMismatch, "cannot index into "@ + display_text(obj));
    match obj {
        TypeVal::Named { name, args } => {
            if (name == "Array"@ && args.len() == 2) || (name == "Slice"@ && args.len() == 1) || (
            name == "Vec"@ && args.len() == 1) {
                (s1, args[0])
            } else {
                (bad, TypeVal::Unknown)
            }
        },
        TypeVal::Unknown => (s1, TypeVal::Unknown),
        _ => (bad, TypeVal::Unknown),
    }
}

/// The type of field `field` of a value of type `obj`.
pub open spec fn field_rule(env: Env, obj: TypeVal, field: Seq<char>) -> TypeVal {
    match obj {
        TypeVal::Named { name, .. } => match find_struct(env.structs, name) {
            Some(fields) => match field_from(fields, field, 0) {
                Some(j) => fields[j].1,
                None => TypeVal::Unknown,
            },
            None => TypeVal::Unknown,
        },
        _ => TypeVal::Unknown,
    }
}

/// The element type a `for` loop gets from an iterable of type `it`.
pub open spec fn for_elem_rule(st: CheckState, it: TypeVal, span: Span) -> (CheckState, TypeVal) {
    let bad = st.emit(
        span,
        ErrorCode::TypeForInExpectsSlice,
        "for-in expects Slice<T>, Array<T, N>, or a..b range, got "@ + display_text(it),
    );
    match it {
        TypeVal::Named { name, args } => {
            if (name == "Slice"@ && args.len() == 1) || (name == "Vec"@ && args.len() == 1) || (
            name == "Array"@ && args.len() == 2) {
                (st, args[0])
            } else {
                (bad, TypeVal::Unknown)
            }
        },
        TypeVal::Unknown => (st, TypeVal::Unknown),
        _ => (bad, TypeVal::Unknown),
    }
}

/// Where the `let mut` autofix inserts `mut `: four bytes after the start of
/// the declaration (just after `let `).
pub open spec fn mut_insert_point(decl: Span) -> Span {
    let at = if decl.start <= u32::MAX - 4 {
        (decl.start + 4) as u32
    } else {
        decl.start
    };
    Span { file_id: decl.file_id, start: at, end: at }
}

/// The diagnostic for assigning to an immutable variable, with its autofix.
pub open spec fn immutable_assign_diag(span: Span, name: Seq<char>, decl: Span) -> DiagnosticView {
    let d = fresh_diag(
        ErrorCode::TypeImmutableAssign,
        Severity::Error,
        span,
        "cannot assign to immutable variable "@ + debug_str_text(name) + "; declare it with `let mut "@
            + name + "` if reassignment is intended"@,
    );
    DiagnosticView { suggestions: d.suggestions.push((mut_insert_point(decl), "mut "@)), ..d }
}

/// Infers the type of `e` and records it.
pub open spec fn infer(env: Env, st: CheckState, e: Spanned<Expr>) -> (CheckState, TypeVal)
    decreases e, 3nat,
{
    let (s1, t) = infer_node(env, st, e);
    (s1.record(type_key(e), t), t)
}

/// The type of `e` and the state after checking it (its own entry not yet
/// recorded).
pub open spec fn infer_node(env: Env, st: CheckState, e: Spanned<Expr>) -> (CheckState, TypeVal)
    decreases e, 2nat,
{
    let span = e.span;
    proof {
        assert(decreases_to!(e => e.node));
    }
    match e.node {
        Expr::IntLiteral { .. } => (st, TypeVal::IntLiteral),
        Expr::FloatLiteral { .. } => (st, TypeVal::FloatLiteral),
        Expr::StringLiteral { .. } => (st, TypeVal::StringLiteral),
        Expr::BoolLiteral { .. } => (st, named_val("bool"@)),
        Expr::Identifier { name } => {
            if is_builtin_variant_spec(name@) {
                (st, TypeVal::Unknown)
            } else {
                match lookup_var(st.scopes, name@) {
                    Some(v) => (st, v.ty),
                    None => (
                        st.emit(
                            span,
                            ErrorCode::TypeUnknownVar,
                            "unknown variable "@ + debug_str_text(name@),
                        ),
                        TypeVal::Unknown,
                    ),
                }
            }
        },
        Expr::ArrayLiteral { elements } => {
            proof {
                assert(decreases_to!(e.node => elements));
                assert(decreases_to!(elements => elements@));
            }
            let (s1, ts) = infer_list(env, st, elements@, elements@.len() as int);
            (s1, TypeVal::ArrayLiteral(ts))
        },
        Expr::BinaryExpr { .. } => infer_binary(env, st, e),
        Expr::UnaryExpr { op, value } => {
            proof {
                assert(decreases_to!(e.node => *value));
            }
            let (s1, t) = infer(env, st, *value);
            unary_rule(s1, op@, t, value.span)
        },
        Expr::AssignmentExpr { target, value } => {
            proof {
                assert(decreases_to!(e.node => *target));
                assert(decreases_to!(e.node => *value));
            }
            let (s1, tt) = assign_target(env, st, *target);
            let (s2, vt) = infer(env, s1, *value);
            (expect_assignable(s2, tt, vt, "assignment value"@, value.span), tt)
        },
        Expr::CallExpr { .. } => infer_call(env, st, e),
        Expr::FieldAccessExpr { object, field } => {
            proof {
                assert(decreases_to!(e.node => *object));
            }
            let (s1, ot) = infer(env, st, *object);
            (s1, field_rule(env, ot, field@))
        },
        Expr::IndexExpr { object, index } => {
            proof {
                assert(decreases_to!(e.node => *object));
                assert(decreases_to!(e.node => *index));
            }
            let (s1, ot) = infer(env, st, *object);
            let (s2, it) = infer(env, s1, *index);
            index_rule(s2, ot, it, span)
        },
        Expr::StructLiteral { name, fields } => {
            match find_struct(env.structs, name@) {
                Some(decl) => {
                    proof {
                        assert(decreases_to!(e.node => fields));
                        assert(decreases_to!(fields => fields@));
                    }
                    (
                        struct_fields(env, st, fields@, decl, name@, fields@.len() as int),
                        named_val(name@),
                    )
                },
                None => (
                    st.emit(
                        span,
                        ErrorCode::TypeMismatch,
                        "unknown struct type "@ + debug_str_text(name@),
                    ),
                    TypeVal::Unknown,
                ),
            }
        },
        Expr::RangeExpr { start, end } => {
            proof {
                assert(decreases_to!(e.node => *start));
                assert(decreases_to!(e.node => *end));
            }
            let (s1, st_t) = infer(env, st, *start);
            let (s2, en_t) = infer(env, s1, *end);
            let s3 = expect_numeric(s2, st_t, "range start"@, start.span);
            (expect_numeric(s3, en_t, "range end"@, end.span), TypeVal::Unknown)
        },
    }
}

/// Infers `es[0..n]` in order.
pub open spec fn infer_list(env: Env, st: CheckState, es: Seq<Spanned<Expr>>, n: int) -> (CheckState, Seq<TypeVal>)
    decreases es, n,
{
    if n <= 0 || n > es.len() {
        (st, Seq::empty())
    } else {
        proof {
            assert(decreases_to!(es => es[n - 1]));
        }
        let (s1, ts) = infer_list(env, st, es, n - 1);
        let (s2, t) = infer(env, s1, es[n - 1]);
        (s2, ts.push(t))
    }
}

/// Checks `es[0..n]` against the parameters from position `first` on.
pub open spec fn check_args(
    env: Env,
    st: CheckState,
    es: Seq<Spanned<Expr>>,
    params: Seq<TypeVal>,
    first: int,
    what: Seq<char>,
    n: int,
) -> CheckState
    decreases es, n,
{
    if n <= 0 || n > es.len() {
        st
    } else {
        proof {
            assert(decreases_to!(es => es[n - 1]));
        }
        let s1 = check_args(env, st, es, params, first, what, n - 1);
        let (s2, t) = infer(env, s1, es[n - 1]);
        expect_assignable(
            s2,
            params[n - 1 + first],
            t,
            "argument "@ + decimal(n as nat) + what,
            es[n - 1].span,
        )
    }
}

/// Checks the first `n` fields of a literal of struct `sname`.
pub open spec fn struct_fields(
    env: Env,
    st: CheckState,
    fs: Seq<StructLiteralField>,
    decl: Seq<(Seq<char>, TypeVal)>,
    sname: Seq<char>,
    n: int,
) -> CheckState
    decreases fs, n,
{
    if n <= 0 || n > fs.len() {
        st
    } else {
        proof {
            assert(decreases_to!(fs => fs[n - 1]));
            assert(decreases_to!(fs[n - 1] => fs[n - 1].value));
        }
        let s1 = struct_fields(env, st, fs, decl, sname, n - 1);
        let f = fs[n - 1];
        let (s2, vt) = infer(env, s1, f.value);
        match field_from(decl, f.name@, 0) {
            Some(j) => expect_assignable(
                s2,
                decl[j].1,
                vt,
                "struct field "@ + debug_str_text(f.name@),
                f.value.span,
            ),
            None => s2.emit(
                f.value.span,
                ErrorCode::TypeMismatch,
                "struct "@ + debug_str_text(sname) + " has no field "@ + debug_str_text(f.name@),
            ),
        }
    }
}

pub open spec fn infer_binary(env: Env, st: CheckState, e: Spanned<Expr>) -> (CheckState, TypeVal)
    decreases e, 1nat,
{
    proof {
        assert(decreases_to!(e => e.node));
    }
    match e.node {
        Expr::BinaryExpr { op, left, right } => {
            proof {
                assert(decreases_to!(e.node => *left));
                assert(decreases_to!(e.node => *right));
            }
            let (s1, lt) = infer(env, st, *left);
            let (s2, rt) = infer(env, s1, *right);
            binary_rule(s2, op@, lt, rt, e.span, left.span, right.span)
        },
        _ => (st, TypeVal::Unknown),
    }
}

/// A call: of a declared function, of a builtin, or of a method.
pub open spec fn infer_call(env: Env, st: CheckState, e: Spanned<Expr>) -> (CheckState, TypeVal)
    decreases e, 1nat,
{
    let span = e.span;
    proof {
        assert(decreases_to!(e => e.node));
    }
    match e.node {
        Expr::CallExpr { callee, args } => {
            proof {
                assert(decreases_to!(e.node => *callee));
                assert(decreases_to!(e.node => args));
                assert(decreases_to!(args => args@));
            }
            let n = args@.len() as int;
            match callee.node {
                Expr::Identifier { name } => match find_fn(env.functions, name@) {
                    Some(sig) => {
                        if args@.len() != sig.params.len() {
                            let s1 = st.emit(
                                span,
                                ErrorCode::TypeArgCount,
                                "function "@ + debug_str_text(name@) + " expects "@ + decimal(
                                    sig.params.len(),
                                ) + " arguments, got "@ + decimal(args@.len()),
                            );
                            (infer_list(env, s1, args@, n).0, TypeVal::Unknown)
                        } else {
                            (
                                check_args(
                                    env,
                                    st,
                                    args@,
                                    sig.params,
                                    0,
                                    " for function "@ + debug_str_text(name@),
                                    n,
                                ),
                                sig.ret,
                            )
                        }
                    },
                    None => (
                        infer_list(env, st, args@, n).0,
                        match builtin_return_spec(name@) {
                            Some(t) => t,
                            None => TypeVal::Unknown,
                        },
                    ),
                },
                Expr::FieldAccessExpr { object, field } => {
                    proof {
                        assert(decreases_to!(callee.node => *object));
                    }
                    let (s1, ot) = infer(env, st, *object);
                    match ot {
                        TypeVal::Named { name: ty_name, .. } => match find_method(
                            env.methods,
                            ty_name,
                            field@,
                        ) {
                            Some(sig) => {
                                let expected: nat = if sig.params.len() > 0 {
                                    (sig.params.len() - 1) as nat
                                } else {
                                    0
                                };
                                if args@.len() != expected {
                                    let s2 = s1.emit(
                                        span,
                                        ErrorCode::TypeArgCount,
                                        "method "@ + debug_str_text(ty_name) + "."@ + debug_str_text(
                                            field@,
                                        ) + " expects "@ + decimal(expected) + " arguments, got "@
                                            + decimal(args@.len()),
                                    );
                                    (infer_list(env, s2, args@, n).0, TypeVal::Unknown)
                                } else {
                                    (
                                        check_args(
                                            env,
                                            s1,
                                            args@,
                                            sig.params,
                                            1,
                                            " for method "@ + debug_str_text(ty_name) + "."@
                                                + debug_str_text(field@),
                                            n,
                                        ),
                                        sig.ret,
                                    )
                                }
                            },
                            None => (infer_list(env, s1, args@, n).0, TypeVal::Unknown),
                        },
                        _ => (infer_list(env, s1, args@, n).0, TypeVal::Unknown),
                    }
                },
                _ => {
                    let (s1, _) = infer(env, st, *callee);
                    (infer_list(env, s1, args@, n).0, TypeVal::Unknown)
                },
            }
        },
        _ => (st, TypeVal::Unknown),
    }
}

/// The left side of an assignment: the type it accepts.
pub open spec fn assign_target(env: Env, st: CheckState, t: Spanned<Expr>) -> (CheckState, TypeVal)
    decreases t, 0nat,
{
    let span = t.span;
    proof {
        assert(decreases_to!(t => t.node));
    }
    match t.node {
        Expr::Identifier { name } => match lookup_var(st.scopes, name@) {
            Some(v) => {
                if v.mutable {
                    (st, v.ty)
                } else {
                    (
                        CheckState {
                            diags: push_dedup(
                                st.diags,
                                immutable_assign_diag(span, name@, v.decl_span),
                            ),
                            ..st
                        },
                        TypeVal::Unknown,
                    )
                }
            },
            None => (
                st.emit(
                    span,
                    ErrorCode::TypeUnknownAssignTarget,
                    "cannot assign to unknown variable "@ + debug_str_text(name@),
                ),
                TypeVal::Unknown,
            ),
        },
        Expr::FieldAccessExpr { object, .. } => {
            proof {
                assert(decreases_to!(t.node => *object));
            }
            (assign_target(env, st, *object).0, TypeVal::Unknown)
        },
        Expr::IndexExpr { object, .. } => {
            proof {
                assert(decreases_to!(t.node => *object));
            }
            let (s1, ot) = infer(env, st, *object);
            let bad = s1.emit(
                span,
                ErrorCode::TypeMismatch,
                "cannot assign to index of "@ + display_text(ot),
            );
            match ot {
                TypeVal::Named { name, args } => {
                    if (name == "Array"@ && args.len() == 2) || (name == "Vec"@ && args.len() == 1) {
                        (s1, args[0])
                    } else {
                        (bad, TypeVal::Unknown)
                    }
                },
                TypeVal::Unknown => (s1, TypeVal::Unknown),
                _ => (bad, TypeVal::Unknown),
            }
        },
        _ => (
            st.emit(
                span,
                ErrorCode::TypeAssignmentTarget,
                "assignment target must be a variable or field access"@,
            ),
            TypeVal::Unknown,
        ),
    }
}

/// Checks a statement.
pub open spec fn check_stmt(env: Env, st: CheckState, s: Spanned<Stmt>) -> CheckState
    decreases s, 1nat,
{
    proof {
        assert(decreases_to!(s => s.node));
    }
    match s.node {
        Stmt::LetStmt { mutable, name, ty, value } => {
            let declared = from_type_view(ty@);
            let (s1, actual) = infer(env, st, value);
            let s2 = expect_assignable(
                s1,
                declared,
                actual,
                "initializer for variable "@ + debug_str_text(name@),
                value.span,
            );
            s2.declare(name@, mutable, declared, s.span)
        },
        Stmt::IfStmt { condition, then_block, else_branch } => {
            let (s1, ct) = infer(env, st, condition);
            let s2 = expect_bool(s1, ct, "if condition"@, condition.span);
            let s3 = check_block(env, s2, then_block);
            match else_branch {
                Some(ElseBranch::Block(b)) => {
                    proof {
                        assert(decreases_to!(s.node => else_branch));
                    }
                    check_block(env, s3, b)
                },
                Some(ElseBranch::IfStmt(inner)) => {
                    proof {
                        assert(decreases_to!(s.node => else_branch));
                    }
                    check_stmt(env, s3, *inner)
                },
                None => s3,
            }
        },
        Stmt::ForStmt { iterator, iterable, body } => {
            let (s1, it) = infer(env, st, iterable);
            let (s2, elem) = if iterable.node is RangeExpr {
                (s1, named_val("i32"@))
            } else {
                for_elem_rule(s1, it, iterable.span)
            };
            let s3 = s2.push_scope().declare(iterator@, false, elem, s.span);
            proof {
                assert(decreases_to!(s.node => body));
                assert(decreases_to!(body => body.statements));
                assert(decreases_to!(body.statements => body.statements@));
            }
            check_stmts(env, s3, body.statements@, body.statements@.len() as int).pop_scope()
        },
        Stmt::WhileStmt { condition, body } => {
            let (s1, ct) = infer(env, st, condition);
            let s2 = expect_bool(s1, ct, "while condition"@, condition.span);
            check_block(env, s2, body)
        },
        Stmt::MatchStmt { value, arms } => {
            let (s1, _) = infer(env, st, value);
            proof {
                assert(decreases_to!(s.node => arms));
                assert(decreases_to!(arms => arms@));
            }
            check_arms(env, s1, arms@, arms@.len() as int, s.span)
        },
        Stmt::ReturnStmt { value } => {
            let expected = st.current_return();
            match value {
                Some(v) => {
                    let (s1, actual) = infer(env, st, v);
                    expect_assignable(s1, expected, actual, "return value"@, v.span)
                },
                None => st.emit(
                    s.span,
                    ErrorCode::TypeReturnMissingValue,
                    "return statement missing value for function returning "@ + display_text(
                        expected,
                    ),
                ),
            }
        },
        Stmt::ExprStmt { expr } => infer(env, st, expr).0,
        Stmt::BreakStmt | Stmt::ContinueStmt => st,
    }
}

/// Checks `ss[0..n]` in order.
pub open spec fn check_stmts(env: Env, st: CheckState, ss: Seq<Spanned<Stmt>>, n: int) -> CheckState
    decreases ss, n,
{
    if n <= 0 || n > ss.len() {
        st
    } else {
        proof {
            assert(decreases_to!(ss => ss[n - 1]));
        }
        check_stmt(env, check_stmts(env, st, ss, n - 1), ss[n - 1])
    }
}

/// A block opens a scope of its own.
pub open spec fn check_block(env: Env, st: CheckState, b: Block) -> CheckState
    decreases b, 2nat,
{
    proof {
        assert(decreases_to!(b => b.statements));
        assert(decreases_to!(b.statements => b.statements@));
    }
    check_stmts(env, st.push_scope(), b.statements@, b.statements@.len() as int).pop_scope()
}

/// Declares the first `n` pattern bindings, of unknown type.
pub open spec fn declare_bindings(st: CheckState, bs: Seq<String>, n: int, span: Span) -> CheckState
    decreases n,
{
    if n <= 0 || n > bs.len() {
        st
    } else {
        declare_bindings(st, bs, n - 1, span).declare(bs[n - 1]@, false, TypeVal::Unknown, span)
    }
}

/// Checks the first `n` arms of a `match`; each arm has a scope holding its
/// bindings.
pub open spec fn check_arms(env: Env, st: CheckState, arms: Seq<MatchArm>, n: int, span: Span) -> CheckState
    decreases arms, n,
{
    if n <= 0 || n > arms.len() {
        st
    } else {
        proof {
            assert(decreases_to!(arms => arms[n - 1]));
            assert(decreases_to!(arms[n - 1] => arms[n - 1].body));
            assert(decreases_to!(arms[n - 1].body => arms[n - 1].body.statements));
            assert(decreases_to!(arms[n - 1].body.statements => arms[n - 1].body.statements@));
        }
        let s1 = check_arms(env, st, arms, n - 1, span);
        let Pattern::VariantPattern { bindings, .. } = arms[n - 1].pattern;
        let s2 = declare_bindings(s1.push_scope(), bindings@, bindings@.len() as int, span);
        let body = arms[n - 1].body.statements@;
        check_stmts(env, s2, body, body.len() as int).pop_scope()
    }
}

/// Declares the first `n` parameters.
pub open spec fn declare_params(st: CheckState, ps: Seq<Param>, n: int) -> CheckState
    decreases n,
{
    if n <= 0 || n > ps.len() {
        st
    } else {
        declare_params(st, ps, n - 1).declare(
            ps[n - 1].name@,
            false,
            from_type_view(ps[n - 1].ty@),
            Span { file_id: 0, start: 0, end: 0 },
        )
    }
}

/// Checks the body of a function or method in a scope holding its parameters.
pub open spec fn check_fn_body(env: Env, st: CheckState, params: Seq<Param>, ret: TypeNode, body: Block) -> CheckState {
    let s1 = st.push_scope().push_return(from_type_view(ret@));
    let s2 = declare_params(s1, params, params.len() as int);
    check_stmts(env, s2, body.statements@, body.statements@.len() as int).pop_return().pop_scope()
}

/// Checks the first `n` methods of an `impl` block.
pub open spec fn check_methods(env: Env, st: CheckState, ms: Seq<Spanned<Item>>, n: int) -> CheckState
    decreases n,
{
    if n <= 0 || n > ms.len() {
        st
    } else {
        let s1 = check_methods(env, st, ms, n - 1);
        match ms[n - 1].node {
            Item::FnDecl { params, return_type, body, .. } => check_fn_body(env, s1, params@, return_type, body),
            _ => s1,
        }
    }
}

/// Checks the first `n` items.
pub open spec fn check_items(env: Env, st: CheckState, items: Seq<Spanned<Item>>, n: int) -> CheckState
    decreases n,
{
    if n <= 0 || n > items.len() {
        st
    } else {
        let s1 = check_items(env, st, items, n - 1);
        match items[n - 1].node {
            Item::FnDecl { params, return_type, body, .. } => check_fn_body(env, s1, params@, return_type, body),
            Item::ImplDecl { methods, .. } => check_methods(env, s1, methods@, methods@.len() as int),
            _ => s1,
        }
    }
}

pub open spec fn param_types(ps: Seq<Param>) -> Seq<TypeVal> {
    ps.map_values(|p: Param| from_type_view(p.ty@))
}

pub open spec fn sig_of(params: Seq<Param>, ret: TypeNode) -> SigModel {
    SigModel { params: param_types(params), ret: from_type_view(ret@) }
}

/// The functions declared by the first `n` items, in order.
pub open spec fn collect_fns(items: Seq<Spanned<Item>>, n: int) -> Seq<(Seq<char>, SigModel)>
    decreases n,
{
    if n <= 0 || n > items.len() {
        Seq::empty()
    } else {
        let prev = collect_fns(items, n - 1);
        match items[n - 1].node {
            Item::FnDecl { name, params, return_type, .. } => prev.push((name@, sig_of(params@, return_type))),
            _ => prev,
        }
    }
}

/// The structs declared by the first `n` items, in order.
pub open spec fn collect_structs(items: Seq<Spanned<Item>>, n: int) -> Seq<(Seq<char>, Seq<(Seq<char>, TypeVal)>)>
    decreases n,
{
    if n <= 0 || n > items.len() {
        Seq::empty()
    } else {
        let prev = collect_structs(items, n - 1);
        match items[n - 1].node {
            Item::StructDecl { name, fields } => prev.push(
                (name@, fields@.map_values(|f: crate::ast::FieldDecl| (f.name@, from_type_view(f.ty@)))),
            ),
            _ => prev,
        }
    }
}

/// The methods of type `ty` declared by the first `n` members of an `impl`.
pub open spec fn impl_methods(ty: Seq<char>, ms: Seq<Spanned<Item>>, n: int) -> Seq<(Seq<char>, Seq<char>, SigModel)>
    decreases n,
{
    if n <= 0 || n > ms.len() {
        Seq::empty()
    } else {
        let prev = impl_methods(ty, ms, n - 1);
        match ms[n - 1].node {
            Item::FnDecl { name, params, return_type, .. } => prev.push((ty, name@, sig_of(params@, return_type))),
            _ => prev,
        }
    }
}

/// The methods declared by the `impl` blocks among the first `n` items.
pub open spec fn collect_methods(items: Seq<Spanned<Item>>, n: int) -> Seq<(Seq<char>, Seq<char>, SigModel)>
    decreases n,
{
    if n <= 0 || n > items.len() {
        Seq::empty()
    } else {
        let prev = collect_methods(items, n - 1);
        match items[n - 1].node {
            Item::ImplDecl { self_type, methods } => prev + impl_methods(self_type@, methods@, methods@.len() as int),
            _ => prev,
        }
    }
}

pub open spec fn env_of(program: Program) -> Env {
    let items = program.items@;
    Env {
        functions: collect_fns(items, items.len() as int),
        methods: collect_methods(items, items.len() as int),
        structs: collect_structs(items, items.len() as int),
    }
}

pub open spec fn initial_state() -> CheckState {
    CheckState { scopes: Seq::empty(), returns: Seq::empty(), diags: Seq::empty(), types: Seq::empty() }
}

/// The state after type-checking `program`: its diagnostics, and the type of
/// every expression.
pub open spec fn type_check(program: Program) -> CheckState {
    let items = program.items@;
    check_items(env_of(program), initial_state(), items, items.len() as int)
}

/// The poison type is accepted everywhere: once an expression is of unknown
/// type (after an error), no check reports it again.
pub proof fn law_unknown_is_never_reported(st: CheckState, t: TypeVal, context: Seq<char>, span: Span)
    ensures
        expect_assignable(st, TypeVal::Unknown, t, context, span) == st,
        expect_assignable(st, t, TypeVal::Unknown, context, span) == st,
        expect_bool(st, TypeVal::Unknown, context, span) == st,
        expect_numeric(st, TypeVal::Unknown, context, span) == st,
        forall|op: Seq<char>|
            expect_numeric_pair(st, op, TypeVal::Unknown, t, span) == expect_numeric(
                st,
                t,
                "right operand of "@ + op,
                span,
            ),
{
    crate::checked_type::law_compat_poison_and_reflexive(t, t);
}

} // verus!
