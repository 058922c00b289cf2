//! The type checker. It accumulates diagnostics instead of stopping at the
//! first error: after an error it continues with the `Unknown` type, which
//! every check accepts.
use vstd::prelude::*;
use crate::ast::{
    clone_expr, expr_same, expr_v, Block, ElseBranch, Expr, Item, Param, Pattern, Program, SExpr, Stmt,
    TypeNode,
};
use crate::checked_type::{
    builtin_return_type, from_type_view, lemma_tvs, tvs, checked_type_to_node, clone_checked,
    display_text, is_builtin_variant, named_val, numeric_result_type, to_node_spec, type_from_node,
    types_compatible, CheckedType, TypeVal,
};
use crate::error::{Diagnostic, DiagnosticView, Diagnostics, ErrorCode, Severity};
use crate::lexer::text_eq;
use crate::source::{Span, Spanned};
use crate::text::{debug_str, decimal_string, text_of};
use crate::type_rules::{
    assign_target, check_args, expect_assignable, expect_bool, expect_numeric, expect_numeric_pair,
    field_from, find_fn, find_method, find_struct, immutable_assign_diag, infer, infer_binary,
    infer_call, infer_list, infer_node, lookup_var, mut_insert_point, scope_find, struct_fields,
    check_block, check_stmts, check_stmt, check_arms, declare_bindings, check_items, check_methods,
    check_fn_body, declare_params, collect_fns, collect_structs, collect_methods, impl_methods,
    sig_of, param_types, type_key, env_of, initial_state, type_check, CheckState, Env, SigModel, VarModel,
};

verus! {

/// The type checker's error codes.
pub open spec fn is_type_code(c: ErrorCode) -> bool {
    c == ErrorCode::TypeUnknownVar || c == ErrorCode::TypeImmutableAssign || c
        == ErrorCode::TypeUnknownAssignTarget || c == ErrorCode::TypeAssignmentTarget || c
        == ErrorCode::TypeMismatch || c == ErrorCode::TypeArgCount || c
        == ErrorCode::TypeBoolRequired || c == ErrorCode::TypeNumericRequired || c
        == ErrorCode::TypeOperatorMismatch || c == ErrorCode::TypeForInExpectsSlice || c
        == ErrorCode::TypeReturnMissingValue
}

/// A type error: error severity, a type-checker code, no notes; the
/// immutable-assignment error carries exactly one autofix, inserting `mut `
/// at a point (a zero-width range), and the others carry none.
pub open spec fn is_type_error(d: DiagnosticView) -> bool {
    &&& d.severity == Severity::Error
    &&& is_type_code(d.code)
    &&& d.notes.len() == 0
    &&& d.code == ErrorCode::TypeImmutableAssign ==> {
        &&& d.suggestions.len() == 1
        &&& d.suggestions[0].1 == "mut "@
        &&& d.suggestions[0].0.start == d.suggestions[0].0.end
    }
    &&& d.code != ErrorCode::TypeImmutableAssign ==> d.suggestions.len() == 0
}

pub open spec fn all_type_errors(ds: Seq<DiagnosticView>) -> bool {
    forall|k: int| 0 <= k < ds.len() ==> is_type_error(#[trigger] ds[k])
}

struct VarInfo {
    mutable: bool,
    ty: CheckedType,
    /// Where the variable was declared (for the `let mut` autofix).
    decl_span: Span,
}

impl VarInfo {
    spec fn model(&self) -> VarModel {
        VarModel { mutable: self.mutable, ty: self.ty@, decl_span: self.decl_span }
    }
}

spec fn scope_model(s: Seq<(String, VarInfo)>) -> Seq<(Seq<char>, VarModel)> {
    s.map_values(|p: (String, VarInfo)| (p.0@, p.1.model()))
}

fn clone_var(v: &VarInfo) -> (r: VarInfo)
    ensures
        r.model() == v.model(),
{
    VarInfo { mutable: v.mutable, ty: clone_checked(&v.ty), decl_span: v.decl_span }
}

struct FnSig {
    params: Vec<CheckedType>,
    return_type: CheckedType,
}

spec fn types_model(v: Seq<CheckedType>) -> Seq<TypeVal> {
    v.map_values(|t: CheckedType| t@)
}

impl FnSig {
    spec fn model(&self) -> SigModel {
        SigModel { params: types_model(self.params@), ret: self.return_type@ }
    }
}

spec fn fields_model(v: Seq<(String, CheckedType)>) -> Seq<(Seq<char>, TypeVal)> {
    v.map_values(|p: (String, CheckedType)| (p.0@, p.1@))
}

fn clone_types(v: &Vec<CheckedType>) -> (r: Vec<CheckedType>)
    ensures
        r@.len() == v@.len(),
        forall|j: int| 0 <= j < v@.len() ==> r@[j]@ == v@[j]@,
{
    let mut out: Vec<CheckedType> = Vec::new();
    let mut k: usize = 0;
    while k < v.len()
        invariant
            k <= v.len(),
            out@.len() == k,
            forall|j: int| 0 <= j < k ==> out@[j]@ == v@[j]@,
        decreases v.len() - k,
    {
        out.push(clone_checked(&v[k]));
        k = k + 1;
    }
    out
}

fn clone_sig(s: &FnSig) -> (r: FnSig)
    ensures
        r.model() == s.model(),
        r.params@.len() == s.params@.len(),
{
    let r = FnSig { params: clone_types(&s.params), return_type: clone_checked(&s.return_type) };
    assert(types_model(r.params@) =~= types_model(s.params@));
    r
}

fn clone_fields(v: &Vec<(String, CheckedType)>) -> (r: Vec<(String, CheckedType)>)
    ensures
        fields_model(r@) == fields_model(v@),
{
    let mut out: Vec<(String, CheckedType)> = Vec::new();
    let mut k: usize = 0;
    while k < v.len()
        invariant
            k <= v.len(),
            out@.len() == k,
            forall|j: int| 0 <= j < k ==> out@[j].0@ == v@[j].0@ && out@[j].1@ == v@[j].1@,
        decreases v.len() - k,
    {
        out.push((v[k].0.clone(), clone_checked(&v[k].1)));
        k = k + 1;
    }
    assert(fields_model(out@) =~= fields_model(v@));
    out
}

/// The position of the first field named `name`.
fn field_index(fields: &Vec<(String, CheckedType)>, name: &String) -> (r: Option<usize>)
    ensures
        r matches Some(j) ==> j < fields@.len() && field_from(fields_model(fields@), name@, 0)
            == Some(j as int),
        r is None ==> field_from(fields_model(fields@), name@, 0) is None,
{
    let ghost fm = fields_model(fields@);
    let mut j: usize = 0;
    while j < fields.len()
        invariant
            j <= fields.len(),
            fm == fields_model(fields@),
            field_from(fm, name@, 0) == field_from(fm, name@, j as int),
        decreases fields.len() - j,
    {
        if fields[j].0 == *name {
            return Some(j);
        }
        j = j + 1;
    }
    None
}

/// Inferred type of expressions, keyed by the expression in plain-value form
/// (its span and everything below it); the latest entry for a key wins.
pub struct TypeMap {
    entries: Vec<(Spanned<Expr>, CheckedType)>,
}

/// The type recorded last under `key`, if any.
pub open spec fn lookup_type(entries: Seq<(SExpr, TypeVal)>, key: SExpr) -> Option<TypeVal>
    decreases entries.len(),
{
    if entries.len() == 0 {
        None
    } else if entries.last().0 == key {
        Some(entries.last().1)
    } else {
        lookup_type(entries.drop_last(), key)
    }
}

/// Every recorded expression reads back its own type, unless another recorded
/// expression with the same plain-value form (span and contents) was given a
/// different type.
pub proof fn law_recorded_type_reads_back(entries: Seq<(SExpr, TypeVal)>, i: int)
    requires
        0 <= i < entries.len(),
        forall|j: int| 0 <= j < entries.len() && #[trigger] entries[j].0 == entries[i].0 ==> entries[j].1 == entries[i].1,
    ensures
        lookup_type(entries, entries[i].0) == Some(entries[i].1),
    decreases entries.len(),
{
    let key = entries[i].0;
    if entries.last().0 != key {
        let rest = entries.drop_last();
        assert(i < rest.len());
        assert forall|j: int| 0 <= j < rest.len() && #[trigger] rest[j].0 == rest[i].0 implies rest[j].1
            == rest[i].1 by {
            assert(rest[j] == entries[j]);
        }
        law_recorded_type_reads_back(rest, i);
    } else {
        assert(entries[entries.len() - 1].0 == key);
    }
}

impl TypeMap {
    pub closed spec fn entries_view(&self) -> Seq<(SExpr, TypeVal)> {
        self.entries@.map_values(|e: (Spanned<Expr>, CheckedType)| (expr_v(e.0), e.1@))
    }

    fn find(&self, expr: &Spanned<Expr>) -> (r: Option<&CheckedType>)
        ensures
            r matches Some(t) ==> lookup_type(self.entries_view(), type_key(*expr)) == Some(t@),
            r is None ==> lookup_type(self.entries_view(), type_key(*expr)) is None,
    {
        let ghost key = type_key(*expr);
        let mut k = self.entries.len();
        assert(self.entries_view().take(k as int) =~= self.entries_view());
        while k > 0
            invariant
                k <= self.entries@.len(),
                key == type_key(*expr),
                lookup_type(self.entries_view(), key) == lookup_type(
                    self.entries_view().take(k as int),
                    key,
                ),
            decreases k,
        {
            proof {
                let ev = self.entries_view();
                assert(ev.take(k as int).drop_last() =~= ev.take(k - 1));
                assert(ev.take(k as int).last() == ev[k - 1]);
            }
            if expr_same(&self.entries[k - 1].0, expr) {
                assert(self.entries_view()[k - 1].0 == key);
                return Some(&self.entries[k - 1].1);
            }
            k = k - 1;
        }
        None
    }

    /// Whether the expression inferred to a string type (`String` or a
    /// string literal).
    pub fn is_string(&self, expr: &Spanned<Expr>) -> (r: bool)
        ensures
            r == (lookup_type(self.entries_view(), type_key(*expr)) matches Some(t) && t.is_string()),
    {
        match self.find(expr) {
            Some(t) => t.is_string(),
            None => false,
        }
    }

    /// The named type of an expression, if it has one with no type arguments.
    pub fn named_type(&self, expr: &Spanned<Expr>) -> (r: Option<String>)
        ensures
            r matches Some(n) ==> (lookup_type(self.entries_view(), type_key(*expr)) matches Some(t)
                && t == named_val(n@)),
            r is None ==> !(lookup_type(self.entries_view(), type_key(*expr)) matches Some(
                TypeVal::Named { name, args },
            ) && args.len() == 0),
    {
        match self.find(expr) {
            Some(t) => match t {
                CheckedType::Named { name, args } => {
                    proof {
                        crate::checked_type::lemma_tvs(args@);
                    }
                    if args.len() == 0 {
                        assert(crate::checked_type::tvs(args@) =~= Seq::<TypeVal>::empty());
                        Some(name.clone())
                    } else {
                        None
                    }
                },
                _ => None,
            },
            None => None,
        }
    }

    /// A type annotation for an expression's inferred type, when possible.
    pub fn type_node(&self, expr: &Spanned<Expr>) -> (r: Option<TypeNode>)
        ensures
            r matches Some(n) ==> (lookup_type(self.entries_view(), type_key(*expr)) matches Some(t)
                && to_node_spec(t) == Some(n@)),
            r is None ==> (lookup_type(self.entries_view(), type_key(*expr)) matches Some(t)
                ==> to_node_spec(t) is None),
    {
        match self.find(expr) {
            Some(t) => checked_type_to_node(t),
            None => None,
        }
    }
}

/// Type checker state.
struct Checker {
    scopes: Vec<Vec<(String, VarInfo)>>,
    functions: Vec<(String, FnSig)>,
    /// Methods declared in `impl` blocks: (type name, method name, signature
    /// whose first parameter is `self`).
    methods: Vec<(String, String, FnSig)>,
    structs: Vec<(String, Vec<(String, CheckedType)>)>,
    return_types: Vec<CheckedType>,
    diags: Diagnostics,
    types: Vec<(Spanned<Expr>, CheckedType)>,
}

/// `"<text>" + debug(name)`.
fn with_debug(text: &str, name: &String) -> (r: String)
    ensures
        r@ == text@ + crate::text::debug_str_text(name@),
{
    let mut m = text_of(text);
    m.append(debug_str(name.as_str()).as_str());
    m
}

impl Checker {
    spec fn inv(&self) -> bool {
        all_type_errors(self.diags@)
    }

    /// The declarations collected from the program.
    spec fn env(&self) -> Env {
        Env {
            functions: self.functions@.map_values(|f: (String, FnSig)| (f.0@, f.1.model())),
            methods: self.methods@.map_values(
                |m: (String, String, FnSig)| (m.0@, m.1@, m.2.model()),
            ),
            structs: self.structs@.map_values(
                |s: (String, Vec<(String, CheckedType)>)| (s.0@, fields_model(s.1@)),
            ),
        }
    }

    /// Scopes, return types, diagnostics and recorded types.
    spec fn state(&self) -> CheckState {
        CheckState {
            scopes: self.scopes@.map_values(|s: Vec<(String, VarInfo)>| scope_model(s@)),
            returns: types_model(self.return_types@),
            diags: self.diags@,
            types: self.types@.map_values(|e: (Spanned<Expr>, CheckedType)| (expr_v(e.0), e.1@)),
        }
    }

    fn new() -> (r: Checker)
        ensures
            r.inv(),
            r.state() == initial_state(),
            r.env() == (Env { functions: Seq::empty(), methods: Seq::empty(), structs: Seq::empty() }),
    {
        let r = Checker {
            scopes: Vec::new(),
            functions: Vec::new(),
            methods: Vec::new(),
            structs: Vec::new(),
            return_types: Vec::new(),
            diags: Diagnostics::new(),
            types: Vec::new(),
        };
        proof {
            assert(r.state().scopes =~= Seq::<Seq<(Seq<char>, VarModel)>>::empty());
            assert(r.state().returns =~= Seq::<TypeVal>::empty());
            assert(r.state().types =~= Seq::<(SExpr, TypeVal)>::empty());
            assert(r.env().functions =~= Seq::<(Seq<char>, SigModel)>::empty());
            assert(r.env().methods =~= Seq::<(Seq<char>, Seq<char>, SigModel)>::empty());
            assert(r.env().structs =~= Seq::<(Seq<char>, Seq<(Seq<char>, TypeVal)>)>::empty());
        }
        r
    }

    fn emit(&mut self, span: Span, code: ErrorCode, message: String)
        requires
            old(self).inv(),
            is_type_code(code),
            code != ErrorCode::TypeImmutableAssign,
        ensures
            final(self).inv(),
            final(self).env() == old(self).env(),
            final(self).state() == old(self).state().emit(span, code, message@),
    {
        self.diags.push(Diagnostic::error(code, span, message));
    }

    /// The parameter types of a declaration.
    fn param_types_of(params: &Vec<Param>) -> (r: Vec<CheckedType>)
        ensures
            types_model(r@) == param_types(params@),
    {
        let mut ps: Vec<CheckedType> = Vec::new();
        let mut j: usize = 0;
        while j < params.len()
            invariant
                j <= params@.len(),
                ps@.len() == j,
                forall|i: int| 0 <= i < j ==> #[trigger] ps@[i]@ == from_type_view(params@[i].ty@),
            decreases params.len() - j,
        {
            ps.push(type_from_node(&params[j].ty));
            j = j + 1;
        }
        assert(types_model(ps@) =~= param_types(params@));
        ps
    }

    fn collect_functions(&mut self, program: &Program)
        requires
            old(self).inv(),
        ensures
            final(self).inv(),
            final(self).state() == old(self).state(),
            final(self).env() == (Env {
                functions: old(self).env().functions + collect_fns(
                    program.items@,
                    program.items@.len() as int,
                ),
                ..old(self).env()
            }),
    {
        let ghost env0 = self.env();
        let mut k: usize = 0;
        assert(collect_fns(program.items@, 0) =~= Seq::<(Seq<char>, SigModel)>::empty());
        assert(env0.functions + collect_fns(program.items@, 0) =~= env0.functions);
        while k < program.items.len()
            invariant
                self.inv(),
                k <= program.items@.len(),
                self.state() == old(self).state(),
                self.env() == (Env {
                    functions: env0.functions + collect_fns(program.items@, k as int),
                    ..env0
                }),
            decreases program.items.len() - k,
        {
            if let Item::FnDecl { name, params, return_type, .. } = &program.items[k].node {
                let ps = Self::param_types_of(params);
                let sig = FnSig { params: ps, return_type: type_from_node(return_type) };
                let ghost before = self.env().functions;
                self.functions.push((name.clone(), sig));
                proof {
                    assert(self.env().functions =~= before.push(
                        (name@, sig_of(params@, *return_type)),
                    ));
                    assert(self.env().functions =~= env0.functions + collect_fns(
                        program.items@,
                        k + 1,
                    ));
                }
            } else {
                assert(collect_fns(program.items@, k + 1) == collect_fns(program.items@, k as int));
            }
            k = k + 1;
        }
    }

    fn collect_structs(&mut self, program: &Program)
        requires
            old(self).inv(),
        ensures
            final(self).inv(),
            final(self).state() == old(self).state(),
            final(self).env() == (Env {
                structs: old(self).env().structs + collect_structs(
                    program.items@,
                    program.items@.len() as int,
                ),
                ..old(self).env()
            }),
    {
        let ghost env0 = self.env();
        let mut k: usize = 0;
        assert(env0.structs + collect_structs(program.items@, 0) =~= env0.structs);
        while k < program.items.len()
            invariant
                self.inv(),
                k <= program.items@.len(),
                self.state() == old(self).state(),
                self.env() == (Env {
                    structs: env0.structs + collect_structs(program.items@, k as int),
                    ..env0
                }),
            decreases program.items.len() - k,
        {
            if let Item::StructDecl { name, fields } = &program.items[k].node {
                let mut fs: Vec<(String, CheckedType)> = Vec::new();
                let mut j: usize = 0;
                while j < fields.len()
                    invariant
                        j <= fields@.len(),
                        fs@.len() == j,
                        forall|i: int|
                            0 <= i < j ==> #[trigger] fs@[i].0@ == fields@[i].name@ && fs@[i].1@
                                == from_type_view(fields@[i].ty@),
                    decreases fields.len() - j,
                {
                    fs.push((fields[j].name.clone(), type_from_node(&fields[j].ty)));
                    j = j + 1;
                }
                let ghost fm = fields@.map_values(
                    |f: crate::ast::FieldDecl| (f.name@, from_type_view(f.ty@)),
                );
                assert(fields_model(fs@) =~= fm);
                let ghost before = self.env().structs;
                self.structs.push((name.clone(), fs));
                proof {
                    assert(self.env().structs =~= before.push((name@, fm)));
                    assert(self.env().structs =~= env0.structs + collect_structs(
                        program.items@,
                        k + 1,
                    ));
                }
            } else {
                assert(collect_structs(program.items@, k + 1) == collect_structs(
                    program.items@,
                    k as int,
                ));
            }
            k = k + 1;
        }
    }

    /// Registers every `impl Type` method (parameters include `self`).
    fn collect_methods(&mut self, program: &Program)
        requires
            old(self).inv(),
        ensures
            final(self).inv(),
            final(self).state() == old(self).state(),
            final(self).env() == (Env {
                methods: old(self).env().methods + collect_methods(
                    program.items@,
                    program.items@.len() as int,
                ),
                ..old(self).env()
            }),
    {
        let ghost env0 = self.env();
        let mut k: usize = 0;
        assert(env0.methods + collect_methods(program.items@, 0) =~= env0.methods);
        while k < program.items.len()
            invariant
                self.inv(),
                k <= program.items@.len(),
                self.state() == old(self).state(),
                self.env() == (Env {
                    methods: env0.methods + collect_methods(program.items@, k as int),
                    ..env0
                }),
            decreases program.items.len() - k,
        {
            if let Item::ImplDecl { self_type, methods } = &program.items[k].node {
                let ghost base = self.env().methods;
                let mut m: usize = 0;
                assert(base + impl_methods(self_type@, methods@, 0) =~= base);
                while m < methods.len()
                    invariant
                        self.inv(),
                        m <= methods@.len(),
                        self.state() == old(self).state(),
                        self.env() == (Env {
                            methods: base + impl_methods(self_type@, methods@, m as int),
                            ..env0
                        }),
                    decreases methods.len() - m,
                {
                    if let Item::FnDecl { name, params, return_type, .. } = &methods[m].node {
                        let ps = Self::param_types_of(params);
                        let sig = FnSig { params: ps, return_type: type_from_node(return_type) };
                        let ghost before = self.env().methods;
                        self.methods.push((self_type.clone(), name.clone(), sig));
                        proof {
                            assert(self.env().methods =~= before.push(
                                (self_type@, name@, sig_of(params@, *return_type)),
                            ));
                            assert(self.env().methods =~= base + impl_methods(
                                self_type@,
                                methods@,
                                m + 1,
                            ));
                        }
                    } else {
                        assert(impl_methods(self_type@, methods@, m + 1) == impl_methods(
                            self_type@,
                            methods@,
                            m as int,
                        ));
                    }
                    m = m + 1;
                }
                proof {
                    assert(self.env().methods =~= env0.methods + collect_methods(
                        program.items@,
                        k + 1,
                    ));
                }
            } else {
                assert(collect_methods(program.items@, k + 1) == collect_methods(
                    program.items@,
                    k as int,
                ));
            }
            k = k + 1;
        }
    }

    fn find_function(&self, name: &String) -> (r: Option<FnSig>)
        ensures
            r matches Some(sig) ==> find_fn(self.env().functions, name@) == Some(sig.model()),
            r is None ==> find_fn(self.env().functions, name@) is None,
    {
        let ghost fs = self.env().functions;
        let mut k = self.functions.len();
        assert(fs.take(k as int) =~= fs);
        while k > 0
            invariant
                k <= self.functions@.len(),
                fs == self.env().functions,
                find_fn(fs, name@) == find_fn(fs.take(k as int), name@),
            decreases k,
        {
            proof {
                assert(fs.take(k as int).drop_last() =~= fs.take(k - 1));
                assert(fs.take(k as int).last() == fs[k - 1]);
            }
            if self.functions[k - 1].0 == *name {
                return Some(clone_sig(&self.functions[k - 1].1));
            }
            k = k - 1;
        }
        None
    }

    fn find_method(&self, ty: &String, name: &String) -> (r: Option<FnSig>)
        ensures
            r matches Some(sig) ==> find_method(self.env().methods, ty@, name@) == Some(
                sig.model(),
            ),
            r is None ==> find_method(self.env().methods, ty@, name@) is None,
    {
        let ghost ms = self.env().methods;
        let mut k = self.methods.len();
        assert(ms.take(k as int) =~= ms);
        while k > 0
            invariant
                k <= self.methods@.len(),
                ms == self.env().methods,
                find_method(ms, ty@, name@) == find_method(ms.take(k as int), ty@, name@),
            decreases k,
        {
            proof {
                assert(ms.take(k as int).drop_last() =~= ms.take(k - 1));
                assert(ms.take(k as int).last() == ms[k - 1]);
            }
            if self.methods[k - 1].0 == *ty && self.methods[k - 1].1 == *name {
                return Some(clone_sig(&self.methods[k - 1].2));
            }
            k = k - 1;
        }
        None
    }

    fn find_struct(&self, name: &String) -> (r: Option<Vec<(String, CheckedType)>>)
        ensures
            r matches Some(fs) ==> find_struct(self.env().structs, name@) == Some(
                fields_model(fs@),
            ),
            r is None ==> find_struct(self.env().structs, name@) is None,
    {
        let ghost ss = self.env().structs;
        let mut k = self.structs.len();
        assert(ss.take(k as int) =~= ss);
        while k > 0
            invariant
                k <= self.structs@.len(),
                ss == self.env().structs,
                find_struct(ss, name@) == find_struct(ss.take(k as int), name@),
            decreases k,
        {
            proof {
                assert(ss.take(k as int).drop_last() =~= ss.take(k - 1));
                assert(ss.take(k as int).last() == ss[k - 1]);
            }
            if self.structs[k - 1].0 == *name {
                return Some(clone_fields(&self.structs[k - 1].1));
            }
            k = k - 1;
        }
        None
    }

    fn check_items(&mut self, program: &Program)
        requires
            old(self).inv(),
        ensures
            final(self).inv(),
            final(self).env() == old(self).env(),
            final(self).state() == check_items(
                old(self).env(),
                old(self).state(),
                program.items@,
                program.items@.len() as int,
            ),
    {
        let ghost env = self.env();
        let ghost st0 = self.state();
        let mut k: usize = 0;
        while k < program.items.len()
            invariant
                self.inv(),
                k <= program.items@.len(),
                self.env() == env,
                self.state() == check_items(env, st0, program.items@, k as int),
            decreases program.items.len() - k,
        {
            match &program.items[k].node {
                Item::FnDecl { params, return_type, body, .. } => {
                    self.check_fn_body(params, return_type, body);
                },
                Item::ImplDecl { methods, .. } => {
                    let ghost sk = self.state();
                    let mut m: usize = 0;
                    while m < methods.len()
                        invariant
                            self.inv(),
                            m <= methods@.len(),
                            self.env() == env,
                            self.state() == check_methods(env, sk, methods@, m as int),
                        decreases methods.len() - m,
                    {
                        if let Item::FnDecl { params, return_type, body, .. } = &methods[m].node {
                            self.check_fn_body(params, return_type, body);
                        }
                        m = m + 1;
                    }
                },
                Item::StructDecl { .. } | Item::TypeAliasDecl { .. } => {},
            }
            k = k + 1;
        }
    }

    /// Declares the parameters and checks the body of a function or method.
    fn check_fn_body(&mut self, params: &Vec<Param>, return_type: &TypeNode, body: &Block)
        requires
            old(self).inv(),
        ensures
            final(self).inv(),
            final(self).env() == old(self).env(),
            final(self).state() == check_fn_body(
                old(self).env(),
                old(self).state(),
                params@,
                *return_type,
                *body,
            ),
    {
        let ghost env = self.env();
        self.push_scope();
        let ghost before = self.state();
        self.return_types.push(type_from_node(return_type));
        proof {
            assert(self.state().returns =~= before.push_return(from_type_view(return_type@)).returns);
        }
        let ghost s1 = self.state();
        let mut k: usize = 0;
        while k < params.len()
            invariant
                self.inv(),
                k <= params@.len(),
                self.env() == env,
                self.state() == declare_params(s1, params@, k as int),
            decreases params.len() - k,
        {
            self.declare(&params[k].name, false, type_from_node(&params[k].ty), Span::unknown(0));
            k = k + 1;
        }
        self.check_statements(&body.statements);
        let ghost s4 = self.state();
        self.return_types.pop();
        proof {
            assert(self.state().returns =~= s4.pop_return().returns);
        }
        self.pop_scope();
    }

    fn push_scope(&mut self)
        requires
            old(self).inv(),
        ensures
            final(self).inv(),
            final(self).env() == old(self).env(),
            final(self).state() == old(self).state().push_scope(),
    {
        self.scopes.push(Vec::new());
        proof {
            assert(scope_model(Seq::<(String, VarInfo)>::empty()) =~= Seq::<(Seq<char>, VarModel)>::empty());
            assert(self.state().scopes =~= old(self).state().push_scope().scopes);
        }
    }

    fn pop_scope(&mut self)
        requires
            old(self).inv(),
        ensures
            final(self).inv(),
            final(self).env() == old(self).env(),
            final(self).state() == old(self).state().pop_scope(),
    {
        self.scopes.pop();
        proof {
            assert(self.state().scopes =~= old(self).state().pop_scope().scopes);
        }
    }

    /// Declares a variable in the innermost scope (shadowing any earlier one).
    fn declare(&mut self, name: &String, mutable: bool, ty: CheckedType, decl_span: Span)
        requires
            old(self).inv(),
        ensures
            final(self).inv(),
            final(self).env() == old(self).env(),
            final(self).state() == old(self).state().declare(name@, mutable, ty@, decl_span),
    {
        let n = self.scopes.len();
        if n > 0 {
            let mut scope = self.scopes.pop().unwrap();
            let ghost before = scope@;
            scope.push((name.clone(), VarInfo { mutable, ty, decl_span }));
            self.scopes.push(scope);
            proof {
                let o = old(self).state();
                assert(scope_model(scope@) =~= scope_model(before).push(
                    (name@, VarModel { mutable, ty: ty@, decl_span }),
                ));
                assert(o.scopes.last() == scope_model(before));
                assert(self.state().scopes =~= o.declare(name@, mutable, ty@, decl_span).scopes);
            }
        }
    }

    /// The innermost declaration of `name`.
    fn lookup(&self, name: &String) -> (r: Option<VarInfo>)
        ensures
            r matches Some(v) ==> lookup_var(self.state().scopes, name@) == Some(v.model()),
            r is None ==> lookup_var(self.state().scopes, name@) is None,
    {
        let ghost sc = self.state().scopes;
        let mut s = self.scopes.len();
        assert(sc.take(s as int) =~= sc);
        while s > 0
            invariant
                s <= self.scopes@.len(),
                sc == self.state().scopes,
                lookup_var(sc, name@) == lookup_var(sc.take(s as int), name@),
            decreases s,
        {
            let scope = &self.scopes[s - 1];
            let ghost sm = scope_model(scope@);
            proof {
                assert(sc.take(s as int).drop_last() =~= sc.take(s - 1));
                assert(sc.take(s as int).last() == sm);
            }
            let mut k = scope.len();
            assert(sm.take(k as int) =~= sm);
            while k > 0
                invariant
                    k <= scope@.len(),
                    0 < s <= self.scopes@.len(),
                    sm == scope_model(scope@),
                    sc == self.state().scopes,
                    sc.take(s as int).last() == sm,
                    lookup_var(sc, name@) == lookup_var(sc.take(s as int), name@),
                    scope_find(sm, name@) == scope_find(sm.take(k as int), name@),
                decreases k,
            {
                proof {
                    assert(sm.take(k as int).drop_last() =~= sm.take(k - 1));
                    assert(sm.take(k as int).last() == sm[k - 1]);
                }
                if scope[k - 1].0 == *name {
                    return Some(clone_var(&scope[k - 1].1));
                }
                k = k - 1;
            }
            s = s - 1;
        }
        None
    }

    fn current_return_type(&self) -> (r: CheckedType)
        ensures
            r@ == self.state().current_return(),
    {
        let n = self.return_types.len();
        if n > 0 {
            clone_checked(&self.return_types[n - 1])
        } else {
            CheckedType::Unknown
        }
    }

    fn check_block(&mut self, block: &Block)
        requires
            old(self).inv(),
        ensures
            final(self).inv(),
            final(self).env() == old(self).env(),
            final(self).state() == check_block(old(self).env(), old(self).state(), *block),
        decreases block, 4nat,
    {
        self.push_scope();
        proof {
            assert(decreases_to!(*block => block.statements));
        }
        self.check_statements(&block.statements);
        self.pop_scope();
    }

    fn check_statements(&mut self, statements: &Vec<Spanned<Stmt>>)
        requires
            old(self).inv(),
        ensures
            final(self).inv(),
            final(self).env() == old(self).env(),
            final(self).state() == check_stmts(
                old(self).env(),
                old(self).state(),
                statements@,
                statements@.len() as int,
            ),
        decreases statements, 4nat,
    {
        let ghost env = self.env();
        let ghost st0 = self.state();
        let mut k: usize = 0;
        while k < statements.len()
            invariant
                self.inv(),
                k <= statements@.len(),
                self.env() == env,
                self.state() == check_stmts(env, st0, statements@, k as int),
            decreases statements.len() - k,
        {
            proof {
                assert(decreases_to!(*statements => statements@));
                assert(decreases_to!(statements@ => statements@[k as int]));
            }
            self.check_stmt(&statements[k]);
            k = k + 1;
        }
    }

    fn check_stmt(&mut self, stmt: &Spanned<Stmt>)
        requires
            old(self).inv(),
        ensures
            final(self).inv(),
            final(self).env() == old(self).env(),
            final(self).state() == check_stmt(old(self).env(), old(self).state(), *stmt),
        decreases stmt, 4nat,
    {
        proof {
            assert(decreases_to!(*stmt => stmt.node));
        }
        match &stmt.node {
            Stmt::LetStmt { mutable, name, ty, value } => {
                let declared = type_from_node(ty);
                let actual = self.infer_expr(value);
                let context = with_debug("initializer for variable ", name);
                self.expect_assignable(&declared, &actual, context, value.span);
                self.declare(name, *mutable, declared, stmt.span);
            },
            Stmt::IfStmt { .. } => self.check_if_stmt(stmt),
            Stmt::ForStmt { .. } => self.check_for_stmt(stmt),
            Stmt::WhileStmt { condition, body } => {
                let condition_ty = self.infer_expr(condition);
                self.expect_bool(&condition_ty, "while condition", condition.span);
                self.check_block(body);
            },
            Stmt::MatchStmt { .. } => self.check_match_stmt(stmt),
            Stmt::ReturnStmt { value } => {
                let expected = self.current_return_type();
                match value {
                    Some(v) => {
                        let actual = self.infer_expr(v);
                        self.expect_assignable(&expected, &actual, text_of("return value"), v.span);
                    },
                    None => {
                        let mut m = text_of("return statement missing value for function returning ");
                        m.append(expected.display().as_str());
                        self.emit(stmt.span, ErrorCode::TypeReturnMissingValue, m);
                    },
                }
            },
            Stmt::ExprStmt { expr } => {
                self.infer_expr(expr);
            },
            Stmt::BreakStmt | Stmt::ContinueStmt => {},
        }
    }

    fn check_if_stmt(&mut self, stmt: &Spanned<Stmt>)
        requires
            old(self).inv(),
            stmt.node is IfStmt,
        ensures
            final(self).inv(),
            final(self).env() == old(self).env(),
            final(self).state() == check_stmt(old(self).env(), old(self).state(), *stmt),
        decreases stmt, 3nat,
    {
        let Stmt::IfStmt { condition, then_block, else_branch } = &stmt.node else {
            return;
        };
        proof {
            assert(decreases_to!(*stmt => stmt.node));
        }
        let condition_ty = self.infer_expr(condition);
        self.expect_bool(&condition_ty, "if condition", condition.span);
        self.check_block(then_block);
        match else_branch {
            Some(ElseBranch::Block(block)) => {
                proof {
                    assert(decreases_to!(stmt.node => *else_branch));
                }
                self.check_block(block)
            },
            Some(ElseBranch::IfStmt(inner)) => {
                proof {
                    assert(decreases_to!(stmt.node => *else_branch));
                }
                self.check_stmt(inner)
            },
            None => {},
        }
    }

    fn check_for_stmt(&mut self, stmt: &Spanned<Stmt>)
        requires
            old(self).inv(),
            stmt.node is ForStmt,
        ensures
            final(self).inv(),
            final(self).env() == old(self).env(),
            final(self).state() == check_stmt(old(self).env(), old(self).state(), *stmt),
        decreases stmt, 3nat,
    {
        let Stmt::ForStmt { iterator, iterable, body } = &stmt.node else {
            return;
        };
        proof {
            assert(decreases_to!(*stmt => stmt.node));
        }
        let is_range = matches!(&iterable.node, Expr::RangeExpr { .. });
        let iterable_ty = self.infer_expr(iterable);
        let iterator_ty = if is_range {
            CheckedType::named("i32")
        } else {
            match &iterable_ty {
                CheckedType::Named { name, args } => {
                    proof {
                        lemma_tvs(args@);
                    }
                    if (text_eq(name, "Slice") && args.len() == 1) || (text_eq(name, "Vec")
                        && args.len() == 1) || (text_eq(name, "Array") && args.len() == 2) {
                        clone_checked(&args[0])
                    } else {
                        self.emit_for_error(&iterable_ty, iterable.span);
                        CheckedType::Unknown
                    }
                },
                CheckedType::Unknown => CheckedType::Unknown,
                _ => {
                    self.emit_for_error(&iterable_ty, iterable.span);
                    CheckedType::Unknown
                },
            }
        };
        self.push_scope();
        self.declare(iterator, false, iterator_ty, stmt.span);
        proof {
            assert(decreases_to!(stmt.node => *body));
            assert(decreases_to!(*body => body.statements));
        }
        self.check_statements(&body.statements);
        self.pop_scope();
    }

    #[verifier::loop_isolation(false)]
    fn check_match_stmt(&mut self, stmt: &Spanned<Stmt>)
        requires
            old(self).inv(),
            stmt.node is MatchStmt,
        ensures
            final(self).inv(),
            final(self).env() == old(self).env(),
            final(self).state() == check_stmt(old(self).env(), old(self).state(), *stmt),
        decreases stmt, 3nat,
    {
        let ghost env = self.env();
        let Stmt::MatchStmt { value, arms } = &stmt.node else {
            return;
        };
        proof {
            assert(decreases_to!(*stmt => stmt.node));
        }
        self.infer_expr(value);
        let ghost st1 = self.state();
        let mut k: usize = 0;
        while k < arms.len()
            invariant
                self.inv(),
                k <= arms@.len(),
                self.env() == env,
                self.state() == check_arms(env, st1, arms@, k as int, stmt.span),
            decreases arms.len() - k,
        {
            let ghost sk = self.state();
            self.push_scope();
            let Pattern::VariantPattern { bindings, .. } = &arms[k].pattern;
            let ghost sp = self.state();
            let mut b: usize = 0;
            while b < bindings.len()
                invariant
                    self.inv(),
                    b <= bindings@.len(),
                    self.env() == env,
                    self.state() == declare_bindings(sp, bindings@, b as int, stmt.span),
                decreases bindings.len() - b,
            {
                self.declare(&bindings[b], false, CheckedType::Unknown, stmt.span);
                b = b + 1;
            }
            proof {
                assert(decreases_to!(stmt.node => *arms));
                assert(decreases_to!(*arms => arms@));
                assert(decreases_to!(arms@ => arms@[k as int]));
                assert(decreases_to!(arms@[k as int] => arms@[k as int].body));
                assert(decreases_to!(arms@[k as int].body => arms@[k as int].body.statements));
            }
            self.check_statements(&arms[k].body.statements);
            self.pop_scope();
            k = k + 1;
        }
    }

    fn emit_for_error(&mut self, ty: &CheckedType, span: Span)
        requires
            old(self).inv(),
        ensures
            final(self).inv(),
            final(self).env() == old(self).env(),
            final(self).state() == old(self).state().emit(
                span,
                ErrorCode::TypeForInExpectsSlice,
                "for-in expects Slice<T>, Array<T, N>, or a..b range, got "@ + display_text(ty@),
            ),
    {
        let mut m = text_of("for-in expects Slice<T>, Array<T, N>, or a..b range, got ");
        m.append(ty.display().as_str());
        self.emit(span, ErrorCode::TypeForInExpectsSlice, m);
    }

    /// Infers the type of `expr` and records it in the type map.
    fn infer_expr(&mut self, expr: &Spanned<Expr>) -> (r: CheckedType)
        requires
            old(self).inv(),
        ensures
            final(self).inv(),
            final(self).env() == old(self).env(),
            (final(self).state(), r@) == infer(old(self).env(), old(self).state(), *expr),
        decreases expr, 3nat,
    {
        let ty = self.infer_expr_inner(expr);
        let ghost before = self.state();
        self.types.push((clone_expr(expr), clone_checked(&ty)));
        proof {
            assert(self.state().types =~= before.record(type_key(*expr), ty@).types);
        }
        ty
    }

    fn infer_expr_inner(&mut self, expr: &Spanned<Expr>) -> (r: CheckedType)
        requires
            old(self).inv(),
        ensures
            final(self).inv(),
            final(self).env() == old(self).env(),
            (final(self).state(), r@) == infer_node(old(self).env(), old(self).state(), *expr),
        decreases expr, 2nat,
    {
        let span = expr.span;
        proof {
            assert(decreases_to!(*expr => expr.node));
        }
        match &expr.node {
            Expr::IntLiteral { .. } => CheckedType::IntLiteral,
            Expr::FloatLiteral { .. } => CheckedType::FloatLiteral,
            Expr::StringLiteral { .. } => CheckedType::StringLiteral,
            Expr::BoolLiteral { .. } => CheckedType::named("bool"),
            Expr::Identifier { name } => {
                if is_builtin_variant(name) {
                    CheckedType::Unknown
                } else {
                    match self.lookup(name) {
                        Some(var) => var.ty,
                        None => {
                            let m = with_debug("unknown variable ", name);
                            self.emit(span, ErrorCode::TypeUnknownVar, m);
                            CheckedType::Unknown
                        },
                    }
                }
            },
            Expr::ArrayLiteral { .. } => self.infer_array_literal(expr),
            Expr::BinaryExpr { .. } => self.infer_binary_expr(expr),
            Expr::UnaryExpr { .. } | Expr::AssignmentExpr { .. } | Expr::RangeExpr { .. } => {
                self.infer_operator_expr(expr)
            },
            Expr::CallExpr { .. } => self.infer_call_expr(expr),
            Expr::FieldAccessExpr { .. } | Expr::IndexExpr { .. } => self.infer_access_expr(expr),
            Expr::StructLiteral { .. } => self.infer_struct_literal(expr),
        }
    }

    #[verifier::loop_isolation(false)]
    fn infer_array_literal(&mut self, expr: &Spanned<Expr>) -> (r: CheckedType)
        requires
            old(self).inv(),
            expr.node is ArrayLiteral,
        ensures
            final(self).inv(),
            final(self).env() == old(self).env(),
            (final(self).state(), r@) == infer_node(old(self).env(), old(self).state(), *expr),
        decreases expr, 1nat,
    {
        let ghost env = self.env();
        let ghost st0 = self.state();
        let Expr::ArrayLiteral { elements } = &expr.node else {
            return CheckedType::Unknown;
        };
        proof {
            assert(decreases_to!(*expr => expr.node));
        }
        let mut element_types: Vec<CheckedType> = Vec::new();
        let mut k: usize = 0;
        while k < elements.len()
            invariant
                self.inv(),
                k <= elements@.len(),
                element_types@.len() == k,
                self.env() == env,
                (self.state(), types_model(element_types@)) == infer_list(
                    env,
                    st0,
                    elements@,
                    k as int,
                ),
            decreases elements.len() - k,
        {
            proof {
                assert(decreases_to!(expr.node => *elements));
                assert(decreases_to!(*elements => elements@));
                assert(decreases_to!(elements@ => elements@[k as int]));
            }
            let ghost before = types_model(element_types@);
            let t = self.infer_expr(&elements[k]);
            element_types.push(t);
            proof {
                assert(types_model(element_types@) =~= before.push(element_types@[k as int]@));
            }
            k = k + 1;
        }
        proof {
            lemma_tvs(element_types@);
            assert(tvs(element_types@) =~= types_model(element_types@));
        }
        CheckedType::ArrayLiteral(element_types)
    }

    /// Unary operators, assignments and ranges.
    fn infer_operator_expr(&mut self, expr: &Spanned<Expr>) -> (r: CheckedType)
        requires
            old(self).inv(),
            expr.node is UnaryExpr || expr.node is AssignmentExpr || expr.node is RangeExpr,
        ensures
            final(self).inv(),
            final(self).env() == old(self).env(),
            (final(self).state(), r@) == infer_node(old(self).env(), old(self).state(), *expr),
        decreases expr, 1nat,
    {
        proof {
            assert(decreases_to!(*expr => expr.node));
        }
        match &expr.node {
            Expr::UnaryExpr { op, value } => {
                proof {
                    assert(decreases_to!(expr.node => **value));
                }
                let value_ty = self.infer_expr(value);
                if text_eq(op, "!") {
                    self.expect_bool(&value_ty, "operand of !", value.span);
                    CheckedType::named("bool")
                } else if text_eq(op, "-") {
                    self.expect_numeric(&value_ty, "operand of unary -", value.span);
                    value_ty
                } else if text_eq(op, "~") {
                    self.expect_numeric(&value_ty, "operand of ~", value.span);
                    value_ty
                } else {
                    CheckedType::Unknown
                }
            },
            Expr::AssignmentExpr { target, value } => {
                proof {
                    assert(decreases_to!(expr.node => **target));
                    assert(decreases_to!(expr.node => **value));
                }
                let target_ty = self.check_assignment_target(target);
                let value_ty = self.infer_expr(value);
                self.expect_assignable(&target_ty, &value_ty, text_of("assignment value"), value.span);
                target_ty
            },
            Expr::RangeExpr { start, end } => {
                proof {
                    assert(decreases_to!(expr.node => **start));
                    assert(decreases_to!(expr.node => **end));
                }
                let start_ty = self.infer_expr(start);
                let end_ty = self.infer_expr(end);
                self.expect_numeric(&start_ty, "range start", start.span);
                self.expect_numeric(&end_ty, "range end", end.span);
                CheckedType::Unknown
            },
            _ => CheckedType::Unknown,
        }
    }

    /// Field access and indexing.
    fn infer_access_expr(&mut self, expr: &Spanned<Expr>) -> (r: CheckedType)
        requires
            old(self).inv(),
            expr.node is FieldAccessExpr || expr.node is IndexExpr,
        ensures
            final(self).inv(),
            final(self).env() == old(self).env(),
            (final(self).state(), r@) == infer_node(old(self).env(), old(self).state(), *expr),
        decreases expr, 1nat,
    {
        let span = expr.span;
        proof {
            assert(decreases_to!(*expr => expr.node));
        }
        match &expr.node {
            Expr::FieldAccessExpr { object, field } => {
                proof {
                    assert(decreases_to!(expr.node => **object));
                }
                let obj_ty = self.infer_expr(object);
                if let CheckedType::Named { name, .. } = &obj_ty {
                    if let Some(fields) = self.find_struct(name) {
                        if let Some(j) = field_index(&fields, field) {
                            return clone_checked(&fields[j].1);
                        }
                    }
                }
                CheckedType::Unknown
            },
            Expr::IndexExpr { object, index } => {
                proof {
                    assert(decreases_to!(expr.node => **object));
                    assert(decreases_to!(expr.node => **index));
                }
                let obj_ty = self.infer_expr(object);
                let idx_ty = self.infer_expr(index);
                if !idx_ty.is_unknown() && !idx_ty.is_int_literal() && !idx_ty.is_integer_scalar() {
                    let mut m = text_of("array index must be an integer, got ");
                    m.append(idx_ty.display().as_str());
                    self.emit(span, ErrorCode::TypeMismatch, m);
                }
                match &obj_ty {
                    CheckedType::Named { name, args } => {
                        proof {
                            lemma_tvs(args@);
                        }
                        if (text_eq(name, "Array") && args.len() == 2) || (text_eq(name, "Slice")
                            && args.len() == 1) || (text_eq(name, "Vec") && args.len() == 1) {
                            clone_checked(&args[0])
                        } else {
                            let mut m = text_of("cannot index into ");
                            m.append(obj_ty.display().as_str());
                            self.emit(span, ErrorCode::TypeMismatch, m);
                            CheckedType::Unknown
                        }
                    },
                    CheckedType::Unknown => CheckedType::Unknown,
                    _ => {
                        let mut m = text_of("cannot index into ");
                        m.append(obj_ty.display().as_str());
                        self.emit(span, ErrorCode::TypeMismatch, m);
                        CheckedType::Unknown
                    },
                }
            },
            _ => CheckedType::Unknown,
        }
    }

    #[verifier::loop_isolation(false)]
    fn infer_struct_literal(&mut self, expr: &Spanned<Expr>) -> (r: CheckedType)
        requires
            old(self).inv(),
            expr.node is StructLiteral,
        ensures
            final(self).inv(),
            final(self).env() == old(self).env(),
            (final(self).state(), r@) == infer_node(old(self).env(), old(self).state(), *expr),
        decreases expr, 1nat,
    {
        let ghost env = self.env();
        let ghost st0 = self.state();
        let span = expr.span;
        let Expr::StructLiteral { name, fields } = &expr.node else {
            return CheckedType::Unknown;
        };
        proof {
            assert(decreases_to!(*expr => expr.node));
        }
        match self.find_struct(name) {
            Some(decl_fields) => {
                let ghost decl = fields_model(decl_fields@);
                let mut k: usize = 0;
                while k < fields.len()
                    invariant
                        self.inv(),
                        k <= fields@.len(),
                        self.env() == env,
                        decl == fields_model(decl_fields@),
                        self.state() == struct_fields(env, st0, fields@, decl, name@, k as int),
                    decreases fields.len() - k,
                {
                    proof {
                        assert(decreases_to!(expr.node => *fields));
                        assert(decreases_to!(*fields => fields@));
                        assert(decreases_to!(fields@ => fields@[k as int]));
                        assert(decreases_to!(fields@[k as int] => fields@[k as int].value));
                    }
                    let f = &fields[k];
                    let val_ty = self.infer_expr(&f.value);
                    match field_index(&decl_fields, &f.name) {
                        Some(j) => {
                            let context = with_debug("struct field ", &f.name);
                            self.expect_assignable(&decl_fields[j].1, &val_ty, context, f.value.span);
                        },
                        None => {
                            let mut m = with_debug("struct ", name);
                            m.append(" has no field ");
                            m.append(debug_str(f.name.as_str()).as_str());
                            self.emit(f.value.span, ErrorCode::TypeMismatch, m);
                        },
                    }
                    k = k + 1;
                }
                CheckedType::named(name.as_str())
            },
            None => {
                let m = with_debug("unknown struct type ", name);
                self.emit(span, ErrorCode::TypeMismatch, m);
                CheckedType::Unknown
            },
        }
    }

    fn infer_binary_expr(&mut self, expr: &Spanned<Expr>) -> (r: CheckedType)
        requires
            old(self).inv(),
            expr.node is BinaryExpr,
        ensures
            final(self).inv(),
            final(self).env() == old(self).env(),
            (final(self).state(), r@) == infer_binary(old(self).env(), old(self).state(), *expr),
        decreases expr, 1nat,
    {
        let Expr::BinaryExpr { op, left, right } = &expr.node else {
            return CheckedType::Unknown;
        };
        proof {
            assert(decreases_to!(*expr => expr.node));
            assert(decreases_to!(expr.node => **left));
            assert(decreases_to!(expr.node => **right));
        }
        let span = expr.span;
        let left_ty = self.infer_expr(left);
        let right_ty = self.infer_expr(right);
        if text_eq(op, "+") && (left_ty.is_string() || right_ty.is_string()) {
            if !left_ty.is_string() && !left_ty.is_unknown() {
                let mut m = text_of("cannot concatenate String with ");
                m.append(left_ty.display().as_str());
                self.emit(span, ErrorCode::TypeOperatorMismatch, m);
            }
            if !right_ty.is_string() && !right_ty.is_unknown() {
                let mut m = text_of("cannot concatenate String with ");
                m.append(right_ty.display().as_str());
                self.emit(span, ErrorCode::TypeOperatorMismatch, m);
            }
            return CheckedType::named("String");
        }
        if text_eq(op, "+") || text_eq(op, "-") || text_eq(op, "*") || text_eq(op, "/") || text_eq(
            op,
            "%",
        ) || text_eq(op, "&") || text_eq(op, "|") || text_eq(op, "^") || text_eq(op, "<<")
            || text_eq(op, ">>") {
            self.expect_numeric_pair(op, &left_ty, &right_ty, span);
            return numeric_result_type(&left_ty, &right_ty);
        }
        if text_eq(op, ">") || text_eq(op, ">=") || text_eq(op, "<") || text_eq(op, "<=") {
            if left_ty.is_string() || right_ty.is_string() {
                if !left_ty.is_string() && !left_ty.is_unknown() {
                    let mut m = text_of("cannot compare String with ");
                    m.append(left_ty.display().as_str());
                    m.append(" using ");
                    m.append(op.as_str());
                    self.emit(span, ErrorCode::TypeOperatorMismatch, m);
                }
                if !right_ty.is_string() && !right_ty.is_unknown() {
                    let mut m = text_of("cannot compare String with ");
                    m.append(right_ty.display().as_str());
                    m.append(" using ");
                    m.append(op.as_str());
                    self.emit(span, ErrorCode::TypeOperatorMismatch, m);
                }
            } else {
                self.expect_numeric_pair(op, &left_ty, &right_ty, span);
            }
            return CheckedType::named("bool");
        }
        if text_eq(op, "==") || text_eq(op, "!=") {
            if !left_ty.is_unknown() && !right_ty.is_unknown() && !types_compatible(
                &left_ty,
                &right_ty,
            ) && !types_compatible(&right_ty, &left_ty) {
                let mut m = text_of("operator ");
                m.append(op.as_str());
                m.append(" cannot compare ");
                m.append(left_ty.display().as_str());
                m.append(" and ");
                m.append(right_ty.display().as_str());
                self.emit(span, ErrorCode::TypeOperatorMismatch, m);
            }
            return CheckedType::named("bool");
        }
        if text_eq(op, "&&") || text_eq(op, "||") {
            let mut lc = text_of("left operand of ");
            lc.append(op.as_str());
            self.expect_bool_ctx(&left_ty, lc, left.span);
            let mut rc = text_of("right operand of ");
            rc.append(op.as_str());
            self.expect_bool_ctx(&right_ty, rc, right.span);
            return CheckedType::named("bool");
        }
        CheckedType::Unknown
    }

    fn infer_args(&mut self, args: &Vec<Spanned<Expr>>, ghost_parent: &Spanned<Expr>)
        requires
            old(self).inv(),
            decreases_to!(*ghost_parent => *args),
        ensures
            final(self).inv(),
            final(self).env() == old(self).env(),
            final(self).state() == infer_list(
                old(self).env(),
                old(self).state(),
                args@,
                args@.len() as int,
            ).0,
        decreases ghost_parent, 0nat,
    {
        let ghost env = self.env();
        let ghost st0 = self.state();
        let mut k: usize = 0;
        while k < args.len()
            invariant
                self.inv(),
                k <= args@.len(),
                self.env() == env,
                self.state() == infer_list(env, st0, args@, k as int).0,
                decreases_to!(*ghost_parent => *args),
            decreases args.len() - k,
        {
            proof {
                assert(decreases_to!(*args => args@));
                assert(decreases_to!(args@ => args@[k as int]));
            }
            self.infer_expr(&args[k]);
            k = k + 1;
        }
    }

    /// Checks each argument against the matching parameter type, starting at
    /// parameter `first_param`.
    fn check_args(
        &mut self,
        args: &Vec<Spanned<Expr>>,
        params: &Vec<CheckedType>,
        first_param: usize,
        what: &String,
        ghost_parent: &Spanned<Expr>,
    )
        requires
            old(self).inv(),
            decreases_to!(*ghost_parent => *args),
            args.len() == 0 || args.len() + first_param <= params.len(),
        ensures
            final(self).inv(),
            final(self).env() == old(self).env(),
            final(self).state() == check_args(
                old(self).env(),
                old(self).state(),
                args@,
                types_model(params@),
                first_param as int,
                what@,
                args@.len() as int,
            ),
        decreases ghost_parent, 0nat,
    {
        let ghost env = self.env();
        let ghost st0 = self.state();
        let mut k: usize = 0;
        while k < args.len()
            invariant
                self.inv(),
                k <= args@.len(),
                self.env() == env,
                self.state() == check_args(
                    env,
                    st0,
                    args@,
                    types_model(params@),
                    first_param as int,
                    what@,
                    k as int,
                ),
                decreases_to!(*ghost_parent => *args),
                args.len() == 0 || args.len() + first_param <= params.len(),
            decreases args.len() - k,
        {
            proof {
                assert(decreases_to!(*args => args@));
                assert(decreases_to!(args@ => args@[k as int]));
            }
            let arg_ty = self.infer_expr(&args[k]);
            let mut context = text_of("argument ");
            context.append(decimal_string(k + 1).as_str());
            context.append(what.as_str());
            self.expect_assignable(&params[k + first_param], &arg_ty, context, args[k].span);
            k = k + 1;
        }
    }

    #[verifier::loop_isolation(false)]
    fn infer_call_expr(&mut self, expr: &Spanned<Expr>) -> (r: CheckedType)
        requires
            old(self).inv(),
            expr.node is CallExpr,
        ensures
            final(self).inv(),
            final(self).env() == old(self).env(),
            (final(self).state(), r@) == infer_call(old(self).env(), old(self).state(), *expr),
        decreases expr, 1nat,
    {
        let Expr::CallExpr { callee, args } = &expr.node else {
            return CheckedType::Unknown;
        };
        proof {
            assert(decreases_to!(*expr => expr.node));
            assert(decreases_to!(expr.node => **callee));
            assert(decreases_to!(expr.node => *args));
        }
        let span = expr.span;
        if let Expr::Identifier { name } = &callee.node {
            if let Some(sig) = self.find_function(name) {
                if args.len() != sig.params.len() {
                    let mut m = with_debug("function ", name);
                    m.append(" expects ");
                    m.append(decimal_string(sig.params.len()).as_str());
                    m.append(" arguments, got ");
                    m.append(decimal_string(args.len()).as_str());
                    self.emit(span, ErrorCode::TypeArgCount, m);
                    self.infer_args(args, expr);
                    return CheckedType::Unknown;
                }
                let what = with_debug(" for function ", name);
                self.check_args(args, &sig.params, 0, &what, expr);
                return sig.return_type;
            }
            self.infer_args(args, expr);
            return match builtin_return_type(name) {
                Some(t) => t,
                None => CheckedType::Unknown,
            };
        }
        if let Expr::FieldAccessExpr { object, field } = &callee.node {
            proof {
                assert(decreases_to!(callee.node => **object));
            }
            let obj_ty = self.infer_expr(object);
            if let CheckedType::Named { name: ty_name, .. } = &obj_ty {
                if let Some(sig) = self.find_method(ty_name, field) {
                    let expected = if sig.params.len() > 0 {
                        sig.params.len() - 1
                    } else {
                        0
                    };
                    if args.len() != expected {
                        let mut m = with_debug("method ", ty_name);
                        m.append(".");
                        m.append(debug_str(field.as_str()).as_str());
                        m.append(" expects ");
                        m.append(decimal_string(expected).as_str());
                        m.append(" arguments, got ");
                        m.append(decimal_string(args.len()).as_str());
                        self.emit(span, ErrorCode::TypeArgCount, m);
                        self.infer_args(args, expr);
                        return CheckedType::Unknown;
                    }
                    let mut what = with_debug(" for method ", ty_name);
                    what.append(".");
                    what.append(debug_str(field.as_str()).as_str());
                    self.check_args(args, &sig.params, 1, &what, expr);
                    return sig.return_type;
                }
            }
            self.infer_args(args, expr);
            return CheckedType::Unknown;
        }
        self.infer_expr(callee);
        self.infer_args(args, expr);
        CheckedType::Unknown
    }

    fn check_assignment_target(&mut self, target: &Spanned<Expr>) -> (r: CheckedType)
        requires
            old(self).inv(),
        ensures
            final(self).inv(),
            final(self).env() == old(self).env(),
            (final(self).state(), r@) == assign_target(old(self).env(), old(self).state(), *target),
        decreases target, 0nat,
    {
        let span = target.span;
        proof {
            assert(decreases_to!(*target => target.node));
        }
        match &target.node {
            Expr::Identifier { name } => match self.lookup(name) {
                Some(var) => {
                    if var.mutable {
                        var.ty
                    } else {
                        let mut m = with_debug("cannot assign to immutable variable ", name);
                        m.append("; declare it with `let mut ");
                        m.append(name.as_str());
                        m.append("` if reassignment is intended");
                        let d = Diagnostic::error(ErrorCode::TypeImmutableAssign, span, m);
                        let at = if var.decl_span.start <= u32::MAX - 4 {
                            var.decl_span.start + 4
                        } else {
                            var.decl_span.start
                        };
                        let insert_at = Span::new(var.decl_span.file_id, at, at);
                        let d = d.with_suggestion(insert_at, text_of("mut "));
                        proof {
                            assert(insert_at == mut_insert_point(var.decl_span));
                            assert(d@ == immutable_assign_diag(span, name@, var.decl_span));
                        }
                        self.diags.push(d);
                        CheckedType::Unknown
                    }
                },
                None => {
                    let m = with_debug("cannot assign to unknown variable ", name);
                    self.emit(span, ErrorCode::TypeUnknownAssignTarget, m);
                    CheckedType::Unknown
                },
            },
            Expr::FieldAccessExpr { object, .. } => {
                proof {
                    assert(decreases_to!(target.node => **object));
                }
                self.check_assignment_target(object);
                CheckedType::Unknown
            },
            Expr::IndexExpr { object, .. } => {
                proof {
                    assert(decreases_to!(target.node => **object));
                }
                let obj_ty = self.infer_expr(object);
                match &obj_ty {
                    CheckedType::Named { name, args } => {
                        proof {
                            lemma_tvs(args@);
                        }
                        if (text_eq(name, "Array") && args.len() == 2) || (text_eq(name, "Vec")
                            && args.len() == 1) {
                            clone_checked(&args[0])
                        } else {
                            let mut m = text_of("cannot assign to index of ");
                            m.append(obj_ty.display().as_str());
                            self.emit(span, ErrorCode::TypeMismatch, m);
                            CheckedType::Unknown
                        }
                    },
                    CheckedType::Unknown => CheckedType::Unknown,
                    _ => {
                        let mut m = text_of("cannot assign to index of ");
                        m.append(obj_ty.display().as_str());
                        self.emit(span, ErrorCode::TypeMismatch, m);
                        CheckedType::Unknown
                    },
                }
            },
            _ => {
                self.emit(
                    span,
                    ErrorCode::TypeAssignmentTarget,
                    text_of("assignment target must be a variable or field access"),
                );
                CheckedType::Unknown
            },
        }
    }

    /// Reports a mismatch unless `actual` may be used where `expected` is.
    fn expect_assignable(
        &mut self,
        expected: &CheckedType,
        actual: &CheckedType,
        context: String,
        span: Span,
    )
        requires
            old(self).inv(),
        ensures
            final(self).inv(),
            final(self).env() == old(self).env(),
            final(self).state() == expect_assignable(
                old(self).state(),
                expected@,
                actual@,
                context@,
                span,
            ),
    {
        if !types_compatible(expected, actual) {
            let mut m = context;
            m.append(" expects ");
            m.append(expected.display().as_str());
            m.append(", got ");
            m.append(actual.display().as_str());
            self.emit(span, ErrorCode::TypeMismatch, m);
        }
    }

    fn expect_bool(&mut self, ty: &CheckedType, context: &str, span: Span)
        requires
            old(self).inv(),
        ensures
            final(self).inv(),
            final(self).env() == old(self).env(),
            final(self).state() == expect_bool(old(self).state(), ty@, context@, span),
    {
        self.expect_bool_ctx(ty, text_of(context), span);
    }

    fn expect_bool_ctx(&mut self, ty: &CheckedType, context: String, span: Span)
        requires
            old(self).inv(),
        ensures
            final(self).inv(),
            final(self).env() == old(self).env(),
            final(self).state() == expect_bool(old(self).state(), ty@, context@, span),
    {
        if !(ty.is_unknown() || ty.is_bool()) {
            let mut m = context;
            m.append(" must be bool, got ");
            m.append(ty.display().as_str());
            self.emit(span, ErrorCode::TypeBoolRequired, m);
        }
    }

    fn expect_numeric_pair(&mut self, op: &String, left: &CheckedType, right: &CheckedType, span: Span)
        requires
            old(self).inv(),
        ensures
            final(self).inv(),
            final(self).env() == old(self).env(),
            final(self).state() == expect_numeric_pair(
                old(self).state(),
                op@,
                left@,
                right@,
                span,
            ),
    {
        let mut lc = text_of("left operand of ");
        lc.append(op.as_str());
        self.expect_numeric_ctx(left, lc, span);
        let mut rc = text_of("right operand of ");
        rc.append(op.as_str());
        self.expect_numeric_ctx(right, rc, span);
        if left.is_unknown() || right.is_unknown() {
            return;
        }
        if !(types_compatible(left, right) || types_compatible(right, left)) {
            let mut m = text_of("operator ");
            m.append(op.as_str());
            m.append(" cannot combine ");
            m.append(left.display().as_str());
            m.append(" and ");
            m.append(right.display().as_str());
            self.emit(span, ErrorCode::TypeOperatorMismatch, m);
        }
    }

    fn expect_numeric(&mut self, ty: &CheckedType, context: &str, span: Span)
        requires
            old(self).inv(),
        ensures
            final(self).inv(),
            final(self).env() == old(self).env(),
            final(self).state() == expect_numeric(old(self).state(), ty@, context@, span),
    {
        self.expect_numeric_ctx(ty, text_of(context), span);
    }

    fn expect_numeric_ctx(&mut self, ty: &CheckedType, context: String, span: Span)
        requires
            old(self).inv(),
        ensures
            final(self).inv(),
            final(self).env() == old(self).env(),
            final(self).state() == expect_numeric(old(self).state(), ty@, context@, span),
    {
        if !(ty.is_unknown() || ty.is_numeric()) {
            let mut m = context;
            m.append(" must be numeric, got ");
            m.append(ty.display().as_str());
            self.emit(span, ErrorCode::TypeNumericRequired, m);
        }
    }
}

/// Type-checks `program`, returning all accumulated diagnostics (empty =
/// clean). Every diagnostic is a type error.
pub fn check_program(program: &Program) -> (r: Diagnostics)
    ensures
        r@ == type_check(*program).diags,
        all_type_errors(r@),
{
    check_program_typed(program).0
}

/// Like [`check_program`], also returning the inferred type of every
/// expression.
pub fn check_program_typed(program: &Program) -> (r: (Diagnostics, TypeMap))
    ensures
        r.0@ == type_check(*program).diags,
        r.1.entries_view() == type_check(*program).types,
        all_type_errors(r.0@),
{
    let mut checker = Checker::new();
    checker.collect_functions(program);
    checker.collect_structs(program);
    checker.collect_methods(program);
    proof {
        let e = checker.env();
        let items = program.items@;
        assert(e.functions =~= collect_fns(items, items.len() as int));
        assert(e.structs =~= collect_structs(items, items.len() as int));
        assert(e.methods =~= collect_methods(items, items.len() as int));
        assert(e == env_of(*program));
    }
    checker.check_items(program);
    (checker.diags, TypeMap { entries: checker.types })
}

/// Type errors are numbered `E3xxx`.
pub proof fn law_type_codes_are_numbered_3xxx(c: ErrorCode)
    requires
        is_type_code(c),
    ensures
        3000 <= c.number() < 4000,
{
}

} // verus!
