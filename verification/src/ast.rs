//! The syntax tree produced by the parser.
use vstd::prelude::*;
use crate::source::{Span, Spanned};

verus! {

#[derive(Debug)]
pub struct Program {
    pub kind: &'static str,
    pub module: ModuleDecl,
    pub imports: Vec<ImportDecl>,
    pub items: Vec<Spanned<Item>>,
}

#[derive(Debug)]
pub struct ModuleDecl {
    pub kind: &'static str,
    pub path: Vec<String>,
}

#[derive(Debug)]
pub struct ImportDecl {
    pub kind: &'static str,
    pub path: Vec<String>,
}

#[derive(Debug)]
pub enum Item {
    StructDecl { name: String, fields: Vec<FieldDecl> },
    TypeAliasDecl { name: String, ty: TypeNode },
    FnDecl { name: String, params: Vec<Param>, return_type: TypeNode, body: Block },
    /// `impl Type { fn ... }`: methods whose first parameter is conventionally
    /// `self`.
    ImplDecl { self_type: String, methods: Vec<Spanned<Item>> },
}

#[derive(Debug)]
pub struct FieldDecl {
    pub kind: &'static str,
    pub name: String,
    pub ty: TypeNode,
}

#[derive(Debug)]
pub struct Param {
    pub kind: &'static str,
    pub name: String,
    pub ty: TypeNode,
}

#[derive(Debug)]
pub struct Block {
    pub kind: &'static str,
    pub statements: Vec<Spanned<Stmt>>,
}

#[derive(Debug)]
pub enum Stmt {
    LetStmt { mutable: bool, name: String, ty: TypeNode, value: Spanned<Expr> },
    IfStmt { condition: Spanned<Expr>, then_block: Block, else_branch: Option<ElseBranch> },
    ForStmt { iterator: String, iterable: Spanned<Expr>, body: Block },
    WhileStmt { condition: Spanned<Expr>, body: Block },
    MatchStmt { value: Spanned<Expr>, arms: Vec<MatchArm> },
    ReturnStmt { value: Option<Spanned<Expr>> },
    BreakStmt,
    ContinueStmt,
    ExprStmt { expr: Spanned<Expr> },
}

#[derive(Debug)]
pub enum ElseBranch {
    Block(Block),
    IfStmt(Box<Spanned<Stmt>>),
}

#[derive(Debug)]
pub struct MatchArm {
    pub kind: &'static str,
    pub pattern: Pattern,
    pub body: Block,
}

#[derive(Debug)]
pub enum Pattern {
    VariantPattern { name: String, bindings: Vec<String> },
}

#[derive(Debug)]
pub enum TypeNode {
    TypeExpr { name: String, args: Vec<TypeNode> },
    ConstTypeArg { value: String },
}

#[derive(Debug)]
pub struct StructLiteralField {
    pub kind: &'static str,
    pub name: String,
    pub value: Spanned<Expr>,
}

#[derive(Debug)]
pub enum Expr {
    IntLiteral { value: String },
    FloatLiteral { value: String },
    StringLiteral { value: String },
    BoolLiteral { value: bool },
    Identifier { name: String },
    ArrayLiteral { elements: Vec<Spanned<Expr>> },
    BinaryExpr { op: String, left: Box<Spanned<Expr>>, right: Box<Spanned<Expr>> },
    UnaryExpr { op: String, value: Box<Spanned<Expr>> },
    AssignmentExpr { target: Box<Spanned<Expr>>, value: Box<Spanned<Expr>> },
    CallExpr { callee: Box<Spanned<Expr>>, args: Vec<Spanned<Expr>> },
    FieldAccessExpr { object: Box<Spanned<Expr>>, field: String },
    IndexExpr { object: Box<Spanned<Expr>>, index: Box<Spanned<Expr>> },
    /// `start..end`, the iterable of a numeric `for` loop.
    RangeExpr { start: Box<Spanned<Expr>>, end: Box<Spanned<Expr>> },
    StructLiteral { name: String, fields: Vec<StructLiteralField> },
}

impl Clone for TypeNode {
    fn clone(&self) -> (r: Self)
        ensures
            r@ == self@,
    {
        clone_type(self)
    }
}

/// Deep copy of a type annotation.
#[verifier::loop_isolation(false)]
pub fn clone_type(t: &TypeNode) -> (r: TypeNode)
    ensures
        r@ == t@,
    decreases t,
{
    match t {
        TypeNode::TypeExpr { name, args } => {
            let mut out: Vec<TypeNode> = Vec::new();
            let mut k: usize = 0;
            while k < args.len()
                invariant
                    k <= args.len(),
                    out@.len() == k,
                    forall|j: int| 0 <= j < k ==> out@[j]@ == args@[j]@,
                decreases args.len() - k,
            {
                proof {
                    assert(decreases_to!(*t => *args));
                    assert(decreases_to!(*args => args@));
                    assert(decreases_to!(args@ => args@[k as int]));
                }
                out.push(clone_type(&args[k]));
                k = k + 1;
            }
            let r = TypeNode::TypeExpr { name: name.clone(), args: out };
            proof {
                lemma_types_view(out@);
                lemma_types_view(args@);
                assert(types_view(out@) =~= types_view(args@));
            }
            r
        },
        TypeNode::ConstTypeArg { value } => TypeNode::ConstTypeArg { value: value.clone() },
    }
}

/// Deep copy of an expression node; the span is kept.
#[verifier::loop_isolation(false)]
pub fn clone_expr(e: &Spanned<Expr>) -> (r: Spanned<Expr>)
    ensures
        r.span == e.span,
        expr_v(r) == expr_v(*e),
        expr_kinds_ok(r) == expr_kinds_ok(*e),
    decreases e,
{
    proof {
        assert(decreases_to!(*e => e.node));
    }
    let node = match &e.node {
        Expr::IntLiteral { value } => Expr::IntLiteral { value: value.clone() },
        Expr::FloatLiteral { value } => Expr::FloatLiteral { value: value.clone() },
        Expr::StringLiteral { value } => Expr::StringLiteral { value: value.clone() },
        Expr::BoolLiteral { value } => Expr::BoolLiteral { value: *value },
        Expr::Identifier { name } => Expr::Identifier { name: name.clone() },
        Expr::ArrayLiteral { elements } => {
            Expr::ArrayLiteral { elements: clone_expr_list(elements) }
        },
        Expr::BinaryExpr { op, left, right } => {
            proof {
                assert(decreases_to!(e.node => **left));
                assert(decreases_to!(e.node => **right));
            }
            Expr::BinaryExpr {
                op: op.clone(),
                left: Box::new(clone_expr(left)),
                right: Box::new(clone_expr(right)),
            }
        },
        Expr::UnaryExpr { op, value } => {
            proof {
                assert(decreases_to!(e.node => **value));
            }
            Expr::UnaryExpr { op: op.clone(), value: Box::new(clone_expr(value)) }
        },
        Expr::AssignmentExpr { target, value } => {
            proof {
                assert(decreases_to!(e.node => **target));
                assert(decreases_to!(e.node => **value));
            }
            Expr::AssignmentExpr {
                target: Box::new(clone_expr(target)),
                value: Box::new(clone_expr(value)),
            }
        },
        Expr::CallExpr { callee, args } => {
            proof {
                assert(decreases_to!(e.node => **callee));
            }
            Expr::CallExpr { callee: Box::new(clone_expr(callee)), args: clone_expr_list(args) }
        },
        Expr::FieldAccessExpr { object, field } => {
            proof {
                assert(decreases_to!(e.node => **object));
            }
            Expr::FieldAccessExpr { object: Box::new(clone_expr(object)), field: field.clone() }
        },
        Expr::IndexExpr { object, index } => {
            proof {
                assert(decreases_to!(e.node => **object));
                assert(decreases_to!(e.node => **index));
            }
            Expr::IndexExpr {
                object: Box::new(clone_expr(object)),
                index: Box::new(clone_expr(index)),
            }
        },
        Expr::RangeExpr { start, end } => {
            proof {
                assert(decreases_to!(e.node => **start));
                assert(decreases_to!(e.node => **end));
            }
            Expr::RangeExpr { start: Box::new(clone_expr(start)), end: Box::new(clone_expr(end)) }
        },
        Expr::StructLiteral { name, fields } => {
            let mut out: Vec<StructLiteralField> = Vec::new();
            let mut k: usize = 0;
            while k < fields.len()
                invariant
                    k <= fields@.len(),
                    out@.len() == k,
                    forall|j: int|
                        0 <= j < k ==> #[trigger] out@[j].name@ == fields@[j].name@ && expr_v(
                            out@[j].value,
                        ) == expr_v(fields@[j].value) && out@[j].kind == fields@[j].kind
                            && expr_kinds_ok(out@[j].value) == expr_kinds_ok(fields@[j].value),
                decreases fields.len() - k,
            {
                proof {
                    assert(decreases_to!(e.node => *fields));
                    assert(decreases_to!(*fields => fields@));
                    assert(decreases_to!(fields@ => fields@[k as int]));
                    assert(decreases_to!(fields@[k as int] => fields@[k as int].value));
                }
                let f = &fields[k];
                out.push(
                    StructLiteralField {
                        kind: f.kind,
                        name: f.name.clone(),
                        value: clone_expr(&f.value),
                    },
                );
                k = k + 1;
            }
            proof {
                lemma_field_inits_v(out@);
                lemma_field_inits_v(fields@);
                assert(field_inits_v(out@) =~= field_inits_v(fields@));
                lemma_field_inits_kinds(out@);
                lemma_field_inits_kinds(fields@);
                if field_inits_kinds_ok(fields@) {
                    assert forall|j: int| 0 <= j < out@.len() implies (#[trigger] out@[j]).kind@
                        == "StructLiteralField"@ && expr_kinds_ok(out@[j].value) by {
                        assert(fields@[j].kind@ == "StructLiteralField"@ && expr_kinds_ok(
                            fields@[j].value,
                        ));
                        assert(out@[j].name@ == fields@[j].name@);
                    }
                }
                if field_inits_kinds_ok(out@) {
                    assert forall|j: int| 0 <= j < fields@.len() implies (#[trigger] fields@[j]).kind@
                        == "StructLiteralField"@ && expr_kinds_ok(fields@[j].value) by {
                        assert(out@[j].kind@ == "StructLiteralField"@ && expr_kinds_ok(
                            out@[j].value,
                        ));
                        assert(out@[j].name@ == fields@[j].name@);
                    }
                }
            }
            Expr::StructLiteral { name: name.clone(), fields: out }
        },
    };
    Spanned { node, span: e.span }
}

/// Deep copy of a list of expression nodes.
pub fn clone_expr_list(v: &Vec<Spanned<Expr>>) -> (r: Vec<Spanned<Expr>>)
    ensures
        r@.len() == v@.len(),
        forall|j: int| 0 <= j < v@.len() ==> r@[j].span == v@[j].span,
        exprs_v(r@) == exprs_v(v@),
        exprs_kinds_ok(r@) == exprs_kinds_ok(v@),
    decreases v,
{
    let mut out: Vec<Spanned<Expr>> = Vec::new();
    let mut k: usize = 0;
    while k < v.len()
        invariant
            k <= v.len(),
            out@.len() == k,
            forall|j: int| 0 <= j < k ==> out@[j].span == v@[j].span,
            forall|j: int| 0 <= j < k ==> #[trigger] expr_v(out@[j]) == expr_v(v@[j]),
            forall|j: int| 0 <= j < k ==> #[trigger] expr_kinds_ok(out@[j]) == expr_kinds_ok(v@[j]),
        decreases v.len() - k,
    {
        proof {
            assert(decreases_to!(*v => v@));
            assert(decreases_to!(v@ => v@[k as int]));
        }
        out.push(clone_expr(&v[k]));
        k = k + 1;
    }
    proof {
        lemma_exprs_v(out@);
        lemma_exprs_v(v@);
        assert(exprs_v(out@) =~= exprs_v(v@));
        lemma_exprs_kinds(out@);
        lemma_exprs_kinds(v@);
        if exprs_kinds_ok(v@) {
            assert forall|j: int| 0 <= j < out@.len() implies #[trigger] expr_kinds_ok(out@[j]) by {
                assert(expr_kinds_ok(v@[j]));
            }
        }
        if exprs_kinds_ok(out@) {
            assert forall|j: int| 0 <= j < v@.len() implies #[trigger] expr_kinds_ok(v@[j]) by {
                assert(expr_kinds_ok(out@[j]));
            }
        }
    }
    out
}


/// Whether two expressions are the same in plain-value form: same spans and
/// the same structure throughout.
pub fn expr_same(a: &Spanned<Expr>, b: &Spanned<Expr>) -> (r: bool)
    ensures
        r == (expr_v(*a) == expr_v(*b)),
    decreases a,
{
    proof {
        assert(decreases_to!(*a => a.node));
    }
    if a.span != b.span {
        return false;
    }
    match &a.node {
        Expr::IntLiteral { value: x } => match &b.node {
            Expr::IntLiteral { value: y } => *x == *y,
            _ => false,
        },
        Expr::FloatLiteral { value: x } => match &b.node {
            Expr::FloatLiteral { value: y } => *x == *y,
            _ => false,
        },
        Expr::StringLiteral { value: x } => match &b.node {
            Expr::StringLiteral { value: y } => *x == *y,
            _ => false,
        },
        Expr::BoolLiteral { value: x } => match &b.node {
            Expr::BoolLiteral { value: y } => *x == *y,
            _ => false,
        },
        Expr::Identifier { name: x } => match &b.node {
            Expr::Identifier { name: y } => *x == *y,
            _ => false,
        },
        Expr::ArrayLiteral { elements: x } => match &b.node {
            Expr::ArrayLiteral { elements: y } => {
                proof {
                    assert(decreases_to!(a.node => *x));
                }
                exprs_same(x, y)
            },
            _ => false,
        },
        Expr::BinaryExpr { op: o1, left: l1, right: r1 } => match &b.node {
            Expr::BinaryExpr { op: o2, left: l2, right: r2 } => {
                proof {
                    assert(decreases_to!(a.node => **l1));
                    assert(decreases_to!(a.node => **r1));
                }
                *o1 == *o2 && expr_same(l1, l2) && expr_same(r1, r2)
            },
            _ => false,
        },
        Expr::UnaryExpr { op: o1, value: v1 } => match &b.node {
            Expr::UnaryExpr { op: o2, value: v2 } => {
                proof {
                    assert(decreases_to!(a.node => **v1));
                }
                *o1 == *o2 && expr_same(v1, v2)
            },
            _ => false,
        },
        Expr::AssignmentExpr { target: t1, value: v1 } => match &b.node {
            Expr::AssignmentExpr { target: t2, value: v2 } => {
                proof {
                    assert(decreases_to!(a.node => **t1));
                    assert(decreases_to!(a.node => **v1));
                }
                expr_same(t1, t2) && expr_same(v1, v2)
            },
            _ => false,
        },
        Expr::CallExpr { callee: c1, args: x } => match &b.node {
            Expr::CallExpr { callee: c2, args: y } => {
                proof {
                    assert(decreases_to!(a.node => **c1));
                    assert(decreases_to!(a.node => *x));
                }
                expr_same(c1, c2) && exprs_same(x, y)
            },
            _ => false,
        },
        Expr::FieldAccessExpr { object: o1, field: f1 } => match &b.node {
            Expr::FieldAccessExpr { object: o2, field: f2 } => {
                proof {
                    assert(decreases_to!(a.node => **o1));
                }
                *f1 == *f2 && expr_same(o1, o2)
            },
            _ => false,
        },
        Expr::IndexExpr { object: o1, index: i1 } => match &b.node {
            Expr::IndexExpr { object: o2, index: i2 } => {
                proof {
                    assert(decreases_to!(a.node => **o1));
                    assert(decreases_to!(a.node => **i1));
                }
                expr_same(o1, o2) && expr_same(i1, i2)
            },
            _ => false,
        },
        Expr::RangeExpr { start: s1, end: e1 } => match &b.node {
            Expr::RangeExpr { start: s2, end: e2 } => {
                proof {
                    assert(decreases_to!(a.node => **s1));
                    assert(decreases_to!(a.node => **e1));
                }
                expr_same(s1, s2) && expr_same(e1, e2)
            },
            _ => false,
        },
        Expr::StructLiteral { name: n1, fields: f1 } => match &b.node {
            Expr::StructLiteral { name: n2, fields: f2 } => {
                proof {
                    assert(decreases_to!(a.node => *f1));
                }
                *n1 == *n2 && field_inits_same(f1, f2)
            },
            _ => false,
        },
    }
}

/// Whether two lists of expressions are the same in plain-value form.
pub fn exprs_same(a: &Vec<Spanned<Expr>>, b: &Vec<Spanned<Expr>>) -> (r: bool)
    ensures
        r == (exprs_v(a@) == exprs_v(b@)),
    decreases a,
{
    proof {
        lemma_exprs_v(a@);
        lemma_exprs_v(b@);
    }
    if a.len() != b.len() {
        return false;
    }
    let mut k: usize = 0;
    while k < a.len()
        invariant
            k <= a.len() == b.len(),
            exprs_v(a@).len() == a.len(),
            exprs_v(b@).len() == b.len(),
            forall|j: int| 0 <= j < a.len() ==> #[trigger] exprs_v(a@)[j] == expr_v(a@[j]),
            forall|j: int| 0 <= j < b.len() ==> #[trigger] exprs_v(b@)[j] == expr_v(b@[j]),
            forall|j: int| 0 <= j < k ==> expr_v(#[trigger] a@[j]) == expr_v(b@[j]),
        decreases a.len() - k,
    {
        proof {
            assert(decreases_to!(*a => a@));
            assert(decreases_to!(a@ => a@[k as int]));
        }
        if !expr_same(&a[k], &b[k]) {
            assert(exprs_v(a@)[k as int] != exprs_v(b@)[k as int]);
            return false;
        }
        k = k + 1;
    }
    assert(exprs_v(a@) =~= exprs_v(b@));
    true
}

/// Whether two lists of struct-literal fields are the same in plain-value
/// form.
pub fn field_inits_same(a: &Vec<StructLiteralField>, b: &Vec<StructLiteralField>) -> (r: bool)
    ensures
        r == (field_inits_v(a@) == field_inits_v(b@)),
    decreases a,
{
    proof {
        lemma_field_inits_v(a@);
        lemma_field_inits_v(b@);
    }
    if a.len() != b.len() {
        return false;
    }
    let mut k: usize = 0;
    while k < a.len()
        invariant
            k <= a.len() == b.len(),
            field_inits_v(a@).len() == a.len(),
            field_inits_v(b@).len() == b.len(),
            forall|j: int|
                0 <= j < a.len() ==> #[trigger] field_inits_v(a@)[j] == (a@[j].name@, expr_v(a@[j].value)),
            forall|j: int|
                0 <= j < b.len() ==> #[trigger] field_inits_v(b@)[j] == (b@[j].name@, expr_v(b@[j].value)),
            forall|j: int| 0 <= j < k ==> field_inits_v(a@)[j] == #[trigger] field_inits_v(b@)[j],
        decreases a.len() - k,
    {
        proof {
            assert(decreases_to!(*a => a@));
            assert(decreases_to!(a@ => a@[k as int]));
            assert(decreases_to!(a@[k as int] => a@[k as int].value));
        }
        let same = a[k].name == b[k].name && expr_same(&a[k].value, &b[k].value);
        if !same {
            assert(field_inits_v(a@)[k as int] != field_inits_v(b@)[k as int]);
            return false;
        }
        k = k + 1;
    }
    assert(field_inits_v(a@) =~= field_inits_v(b@));
    true
}

/// The plain-value form of an expression with its span.
pub struct SExpr {
    pub node: ExprV,
    pub span: Span,
}

/// The plain-value form of an [`Expr`].
pub enum ExprV {
    IntLiteral(Seq<char>),
    FloatLiteral(Seq<char>),
    StringLiteral(Seq<char>),
    BoolLiteral(bool),
    Identifier(Seq<char>),
    ArrayLiteral(Seq<SExpr>),
    BinaryExpr(Seq<char>, Box<SExpr>, Box<SExpr>),
    UnaryExpr(Seq<char>, Box<SExpr>),
    AssignmentExpr(Box<SExpr>, Box<SExpr>),
    CallExpr(Box<SExpr>, Seq<SExpr>),
    FieldAccessExpr(Box<SExpr>, Seq<char>),
    IndexExpr(Box<SExpr>, Box<SExpr>),
    RangeExpr(Box<SExpr>, Box<SExpr>),
    StructLiteral(Seq<char>, Seq<(Seq<char>, SExpr)>),
}

pub open spec fn expr_v(e: Spanned<Expr>) -> SExpr
    decreases e, 0nat,
{
    proof {
        assert(decreases_to!(e => e.node));
    }
    let node = match e.node {
        Expr::IntLiteral { value } => ExprV::IntLiteral(value@),
        Expr::FloatLiteral { value } => ExprV::FloatLiteral(value@),
        Expr::StringLiteral { value } => ExprV::StringLiteral(value@),
        Expr::BoolLiteral { value } => ExprV::BoolLiteral(value),
        Expr::Identifier { name } => ExprV::Identifier(name@),
        Expr::ArrayLiteral { elements } => {
            proof {
                assert(decreases_to!(e.node => elements));
                assert(decreases_to!(elements => elements@));
            }
            ExprV::ArrayLiteral(exprs_v(elements@))
        },
        Expr::BinaryExpr { op, left, right } => {
            proof {
                assert(decreases_to!(e.node => *left));
                assert(decreases_to!(e.node => *right));
            }
            ExprV::BinaryExpr(op@, Box::new(expr_v(*left)), Box::new(expr_v(*right)))
        },
        Expr::UnaryExpr { op, value } => {
            proof {
                assert(decreases_to!(e.node => *value));
            }
            ExprV::UnaryExpr(op@, Box::new(expr_v(*value)))
        },
        Expr::AssignmentExpr { target, value } => {
            proof {
                assert(decreases_to!(e.node => *target));
                assert(decreases_to!(e.node => *value));
            }
            ExprV::AssignmentExpr(Box::new(expr_v(*target)), Box::new(expr_v(*value)))
        },
        Expr::CallExpr { callee, args } => {
            proof {
                assert(decreases_to!(e.node => *callee));
                assert(decreases_to!(e.node => args));
                assert(decreases_to!(args => args@));
            }
            ExprV::CallExpr(Box::new(expr_v(*callee)), exprs_v(args@))
        },
        Expr::FieldAccessExpr { object, field } => {
            proof {
                assert(decreases_to!(e.node => *object));
            }
            ExprV::FieldAccessExpr(Box::new(expr_v(*object)), field@)
        },
        Expr::IndexExpr { object, index } => {
            proof {
                assert(decreases_to!(e.node => *object));
                assert(decreases_to!(e.node => *index));
            }
            ExprV::IndexExpr(Box::new(expr_v(*object)), Box::new(expr_v(*index)))
        },
        Expr::RangeExpr { start, end } => {
            proof {
                assert(decreases_to!(e.node => *start));
                assert(decreases_to!(e.node => *end));
            }
            ExprV::RangeExpr(Box::new(expr_v(*start)), Box::new(expr_v(*end)))
        },
        Expr::StructLiteral { name, fields } => {
            proof {
                assert(decreases_to!(e.node => fields));
                assert(decreases_to!(fields => fields@));
            }
            ExprV::StructLiteral(name@, field_inits_v(fields@))
        },
    };
    SExpr { node, span: e.span }
}

pub open spec fn exprs_v(s: Seq<Spanned<Expr>>) -> Seq<SExpr>
    decreases s, s.len(),
{
    if s.len() == 0 {
        Seq::empty()
    } else {
        proof {
            assert(decreases_to!(s => s.last()));
            vstd::seq::axiom_seq_subrange_decreases(s, 0, s.len() - 1);
        }
        exprs_v(s.drop_last()).push(expr_v(s.last()))
    }
}

pub open spec fn field_inits_v(s: Seq<StructLiteralField>) -> Seq<(Seq<char>, SExpr)>
    decreases s, s.len(),
{
    if s.len() == 0 {
        Seq::empty()
    } else {
        proof {
            assert(decreases_to!(s => s.last()));
            assert(decreases_to!(s.last() => s.last().value));
            vstd::seq::axiom_seq_subrange_decreases(s, 0, s.len() - 1);
        }
        field_inits_v(s.drop_last()).push((s.last().name@, expr_v(s.last().value)))
    }
}

/// The plain-value form of a statement with its span.
pub struct SStmt {
    pub node: StmtV,
    pub span: Span,
}

pub enum ElseV {
    Block(Seq<SStmt>),
    IfStmt(Box<SStmt>),
}

/// A `match` arm: the variant name, its bindings and the body.
pub struct ArmV {
    pub variant: Seq<char>,
    pub bindings: Seq<Seq<char>>,
    pub body: Seq<SStmt>,
}

/// The plain-value form of a [`Stmt`]; a block is its statements.
pub enum StmtV {
    LetStmt(bool, Seq<char>, TypeView, SExpr),
    IfStmt(SExpr, Seq<SStmt>, Option<ElseV>),
    ForStmt(Seq<char>, SExpr, Seq<SStmt>),
    WhileStmt(SExpr, Seq<SStmt>),
    MatchStmt(SExpr, Seq<ArmV>),
    ReturnStmt(Option<SExpr>),
    BreakStmt,
    ContinueStmt,
    ExprStmt(SExpr),
}

pub open spec fn strings_v(s: Seq<String>) -> Seq<Seq<char>> {
    s.map_values(|x: String| x@)
}

pub open spec fn stmt_v(st: Spanned<Stmt>) -> SStmt
    decreases st, 1nat,
{
    proof {
        assert(decreases_to!(st => st.node));
    }
    let node = match st.node {
        Stmt::LetStmt { mutable, name, ty, value } => StmtV::LetStmt(mutable, name@, ty@, expr_v(value)),
        Stmt::IfStmt { condition, then_block, else_branch } => {
            proof {
                assert(decreases_to!(st.node => then_block));
                assert(decreases_to!(then_block => then_block.statements));
                assert(decreases_to!(then_block.statements => then_block.statements@));
            }
            let els = match else_branch {
                Some(ElseBranch::Block(b)) => {
                    proof {
                        assert(decreases_to!(st.node => else_branch));
                        assert(decreases_to!(b => b.statements));
                        assert(decreases_to!(b.statements => b.statements@));
                    }
                    Some(ElseV::Block(stmts_v(b.statements@)))
                },
                Some(ElseBranch::IfStmt(inner)) => {
                    proof {
                        assert(decreases_to!(st.node => else_branch));
                    }
                    Some(ElseV::IfStmt(Box::new(stmt_v(*inner))))
                },
                None => None,
            };
            StmtV::IfStmt(expr_v(condition), stmts_v(then_block.statements@), els)
        },
        Stmt::ForStmt { iterator, iterable, body } => {
            proof {
                assert(decreases_to!(st.node => body));
                assert(decreases_to!(body => body.statements));
                assert(decreases_to!(body.statements => body.statements@));
            }
            StmtV::ForStmt(iterator@, expr_v(iterable), stmts_v(body.statements@))
        },
        Stmt::WhileStmt { condition, body } => {
            proof {
                assert(decreases_to!(st.node => body));
                assert(decreases_to!(body => body.statements));
                assert(decreases_to!(body.statements => body.statements@));
            }
            StmtV::WhileStmt(expr_v(condition), stmts_v(body.statements@))
        },
        Stmt::MatchStmt { value, arms } => {
            proof {
                assert(decreases_to!(st.node => arms));
                assert(decreases_to!(arms => arms@));
            }
            StmtV::MatchStmt(expr_v(value), arms_v(arms@))
        },
        Stmt::ReturnStmt { value } => StmtV::ReturnStmt(
            match value {
                Some(v) => Some(expr_v(v)),
                None => None,
            },
        ),
        Stmt::BreakStmt => StmtV::BreakStmt,
        Stmt::ContinueStmt => StmtV::ContinueStmt,
        Stmt::ExprStmt { expr } => StmtV::ExprStmt(expr_v(expr)),
    };
    SStmt { node, span: st.span }
}

pub open spec fn stmts_v(s: Seq<Spanned<Stmt>>) -> Seq<SStmt>
    decreases s, s.len(),
{
    if s.len() == 0 {
        Seq::empty()
    } else {
        proof {
            assert(decreases_to!(s => s.last()));
            vstd::seq::axiom_seq_subrange_decreases(s, 0, s.len() - 1);
        }
        stmts_v(s.drop_last()).push(stmt_v(s.last()))
    }
}

pub open spec fn arms_v(s: Seq<MatchArm>) -> Seq<ArmV>
    decreases s, s.len(),
{
    if s.len() == 0 {
        Seq::empty()
    } else {
        proof {
            let a = s.last();
            assert(decreases_to!(s => a));
            assert(decreases_to!(a => a.body));
            assert(decreases_to!(a.body => a.body.statements));
            assert(decreases_to!(a.body.statements => a.body.statements@));
            vstd::seq::axiom_seq_subrange_decreases(s, 0, s.len() - 1);
        }
        let a = s.last();
        let Pattern::VariantPattern { name, bindings } = a.pattern;
        arms_v(s.drop_last()).push(
            ArmV { variant: name@, bindings: strings_v(bindings@), body: stmts_v(a.body.statements@) },
        )
    }
}


pub proof fn lemma_exprs_v(s: Seq<Spanned<Expr>>)
    ensures
        exprs_v(s).len() == s.len(),
        forall|k: int| 0 <= k < s.len() ==> #[trigger] exprs_v(s)[k] == expr_v(s[k]),
    decreases s.len(),
{
    if s.len() > 0 {
        lemma_exprs_v(s.drop_last());
    }
}

pub proof fn lemma_field_inits_v(s: Seq<StructLiteralField>)
    ensures
        field_inits_v(s).len() == s.len(),
        forall|k: int|
            0 <= k < s.len() ==> #[trigger] field_inits_v(s)[k] == (s[k].name@, expr_v(s[k].value)),
    decreases s.len(),
{
    if s.len() > 0 {
        lemma_field_inits_v(s.drop_last());
    }
}

pub proof fn lemma_stmts_v(s: Seq<Spanned<Stmt>>)
    ensures
        stmts_v(s).len() == s.len(),
        forall|k: int| 0 <= k < s.len() ==> #[trigger] stmts_v(s)[k] == stmt_v(s[k]),
    decreases s.len(),
{
    if s.len() > 0 {
        lemma_stmts_v(s.drop_last());
    }
}


/// The plain-value form of an item with its span.
pub struct SItem {
    pub node: ItemV,
    pub span: Span,
}

/// The plain-value form of an [`Item`]; fields and parameters are
/// (name, type) pairs, a body is its statements.
pub enum ItemV {
    StructDecl(Seq<char>, Seq<(Seq<char>, TypeView)>),
    TypeAliasDecl(Seq<char>, TypeView),
    FnDecl(Seq<char>, Seq<(Seq<char>, TypeView)>, TypeView, Seq<SStmt>),
    ImplDecl(Seq<char>, Seq<SItem>),
}

pub open spec fn params_v(ps: Seq<Param>) -> Seq<(Seq<char>, TypeView)> {
    ps.map_values(|p: Param| (p.name@, p.ty@))
}

pub open spec fn field_decls_v(fs: Seq<FieldDecl>) -> Seq<(Seq<char>, TypeView)> {
    fs.map_values(|f: FieldDecl| (f.name@, f.ty@))
}

pub open spec fn item_v(it: Spanned<Item>) -> SItem
    decreases it, 0nat,
{
    proof {
        assert(decreases_to!(it => it.node));
    }
    let node = match it.node {
        Item::StructDecl { name, fields } => ItemV::StructDecl(name@, field_decls_v(fields@)),
        Item::TypeAliasDecl { name, ty } => ItemV::TypeAliasDecl(name@, ty@),
        Item::FnDecl { name, params, return_type, body } => ItemV::FnDecl(
            name@,
            params_v(params@),
            return_type@,
            stmts_v(body.statements@),
        ),
        Item::ImplDecl { self_type, methods } => {
            proof {
                assert(decreases_to!(it.node => methods));
                assert(decreases_to!(methods => methods@));
            }
            ItemV::ImplDecl(self_type@, items_v(methods@))
        },
    };
    SItem { node, span: it.span }
}

pub open spec fn items_v(s: Seq<Spanned<Item>>) -> Seq<SItem>
    decreases s, s.len(),
{
    if s.len() == 0 {
        Seq::empty()
    } else {
        proof {
            assert(decreases_to!(s => s.last()));
            vstd::seq::axiom_seq_subrange_decreases(s, 0, s.len() - 1);
        }
        items_v(s.drop_last()).push(item_v(s.last()))
    }
}

pub proof fn lemma_items_v(s: Seq<Spanned<Item>>)
    ensures
        items_v(s).len() == s.len(),
        forall|k: int| 0 <= k < s.len() ==> #[trigger] items_v(s)[k] == item_v(s[k]),
    decreases s.len(),
{
    if s.len() > 0 {
        lemma_items_v(s.drop_last());
    }
}

/// The plain-value form of a [`Program`]: the module path, each import's
/// path, and the items.
pub struct ProgramV {
    pub module: Seq<Seq<char>>,
    pub imports: Seq<Seq<Seq<char>>>,
    pub items: Seq<SItem>,
}

pub open spec fn imports_v(s: Seq<ImportDecl>) -> Seq<Seq<Seq<char>>> {
    s.map_values(|d: ImportDecl| strings_v(d.path@))
}

pub open spec fn program_v(p: Program) -> ProgramV {
    ProgramV { module: strings_v(p.module.path@), imports: imports_v(p.imports@), items: items_v(p.items@) }
}

/// Every node below `e` that carries a kind tag carries its own: each field of
/// a struct literal is tagged "StructLiteralField".
pub open spec fn expr_kinds_ok(e: Spanned<Expr>) -> bool
    decreases e, 0nat,
{
    proof {
        assert(decreases_to!(e => e.node));
    }
    match e.node {
        Expr::ArrayLiteral { elements } => {
            proof {
                assert(decreases_to!(e.node => elements));
                assert(decreases_to!(elements => elements@));
            }
            exprs_kinds_ok(elements@)
        },
        Expr::BinaryExpr { op, left, right } => {
            proof {
                assert(decreases_to!(e.node => *left));
                assert(decreases_to!(e.node => *right));
            }
            expr_kinds_ok(*left) && expr_kinds_ok(*right)
        },
        Expr::UnaryExpr { op, value } => {
            proof {
                assert(decreases_to!(e.node => *value));
            }
            expr_kinds_ok(*value)
        },
        Expr::AssignmentExpr { target, value } => {
            proof {
                assert(decreases_to!(e.node => *target));
                assert(decreases_to!(e.node => *value));
            }
            expr_kinds_ok(*target) && expr_kinds_ok(*value)
        },
        Expr::CallExpr { callee, args } => {
            proof {
                assert(decreases_to!(e.node => *callee));
                assert(decreases_to!(e.node => args));
                assert(decreases_to!(args => args@));
            }
            expr_kinds_ok(*callee) && exprs_kinds_ok(args@)
        },
        Expr::FieldAccessExpr { object, field } => {
            proof {
                assert(decreases_to!(e.node => *object));
            }
            expr_kinds_ok(*object)
        },
        Expr::IndexExpr { object, index } => {
            proof {
                assert(decreases_to!(e.node => *object));
                assert(decreases_to!(e.node => *index));
            }
            expr_kinds_ok(*object) && expr_kinds_ok(*index)
        },
        Expr::RangeExpr { start, end } => {
            proof {
                assert(decreases_to!(e.node => *start));
                assert(decreases_to!(e.node => *end));
            }
            expr_kinds_ok(*start) && expr_kinds_ok(*end)
        },
        Expr::StructLiteral { name, fields } => {
            proof {
                assert(decreases_to!(e.node => fields));
                assert(decreases_to!(fields => fields@));
            }
            field_inits_kinds_ok(fields@)
        },
        _ => true,
    }
}

pub open spec fn exprs_kinds_ok(s: Seq<Spanned<Expr>>) -> bool
    decreases s, s.len(),
{
    if s.len() == 0 {
        true
    } else {
        proof {
            assert(decreases_to!(s => s.last()));
            vstd::seq::axiom_seq_subrange_decreases(s, 0, s.len() - 1);
        }
        exprs_kinds_ok(s.drop_last()) && expr_kinds_ok(s.last())
    }
}

pub open spec fn field_inits_kinds_ok(s: Seq<StructLiteralField>) -> bool
    decreases s, s.len(),
{
    if s.len() == 0 {
        true
    } else {
        proof {
            assert(decreases_to!(s => s.last()));
            assert(decreases_to!(s.last() => s.last().value));
            vstd::seq::axiom_seq_subrange_decreases(s, 0, s.len() - 1);
        }
        field_inits_kinds_ok(s.drop_last()) && s.last().kind@ == "StructLiteralField"@
            && expr_kinds_ok(s.last().value)
    }
}

/// Every node of the statement that carries a kind tag carries its own
/// ("Block", "MatchArm", and those of its expressions).
pub open spec fn stmt_kinds_ok(st: Spanned<Stmt>) -> bool
    decreases st, 1nat,
{
    proof {
        assert(decreases_to!(st => st.node));
    }
    match st.node {
        Stmt::LetStmt { mutable, name, ty, value } => expr_kinds_ok(value),
        Stmt::IfStmt { condition, then_block, else_branch } => {
            proof {
                assert(decreases_to!(st.node => then_block));
                assert(decreases_to!(then_block => then_block.statements));
                assert(decreases_to!(then_block.statements => then_block.statements@));
            }
            let els_ok = match else_branch {
                Some(ElseBranch::Block(b)) => {
                    proof {
                        assert(decreases_to!(st.node => else_branch));
                        assert(decreases_to!(b => b.statements));
                        assert(decreases_to!(b.statements => b.statements@));
                    }
                    b.kind@ == "Block"@ && stmts_kinds_ok(b.statements@)
                },
                Some(ElseBranch::IfStmt(inner)) => {
                    proof {
                        assert(decreases_to!(st.node => else_branch));
                    }
                    stmt_kinds_ok(*inner)
                },
                None => true,
            };
            expr_kinds_ok(condition) && then_block.kind@ == "Block"@ && stmts_kinds_ok(
                then_block.statements@,
            ) && els_ok
        },
        Stmt::ForStmt { iterator, iterable, body } => {
            proof {
                assert(decreases_to!(st.node => body));
                assert(decreases_to!(body => body.statements));
                assert(decreases_to!(body.statements => body.statements@));
            }
            expr_kinds_ok(iterable) && body.kind@ == "Block"@ && stmts_kinds_ok(body.statements@)
        },
        Stmt::WhileStmt { condition, body } => {
            proof {
                assert(decreases_to!(st.node => body));
                assert(decreases_to!(body => body.statements));
                assert(decreases_to!(body.statements => body.statements@));
            }
            expr_kinds_ok(condition) && body.kind@ == "Block"@ && stmts_kinds_ok(body.statements@)
        },
        Stmt::MatchStmt { value, arms } => {
            proof {
                assert(decreases_to!(st.node => arms));
                assert(decreases_to!(arms => arms@));
            }
            expr_kinds_ok(value) && arms_kinds_ok(arms@)
        },
        Stmt::ReturnStmt { value } => match value {
            Some(v) => expr_kinds_ok(v),
            None => true,
        },
        Stmt::BreakStmt => true,
        Stmt::ContinueStmt => true,
        Stmt::ExprStmt { expr } => expr_kinds_ok(expr),
    }
}

pub open spec fn stmts_kinds_ok(s: Seq<Spanned<Stmt>>) -> bool
    decreases s, s.len(),
{
    if s.len() == 0 {
        true
    } else {
        proof {
            assert(decreases_to!(s => s.last()));
            vstd::seq::axiom_seq_subrange_decreases(s, 0, s.len() - 1);
        }
        stmts_kinds_ok(s.drop_last()) && stmt_kinds_ok(s.last())
    }
}

pub open spec fn arms_kinds_ok(s: Seq<MatchArm>) -> bool
    decreases s, s.len(),
{
    if s.len() == 0 {
        true
    } else {
        proof {
            let a = s.last();
            assert(decreases_to!(s => a));
            assert(decreases_to!(a => a.body));
            assert(decreases_to!(a.body => a.body.statements));
            assert(decreases_to!(a.body.statements => a.body.statements@));
            vstd::seq::axiom_seq_subrange_decreases(s, 0, s.len() - 1);
        }
        let a = s.last();
        arms_kinds_ok(s.drop_last()) && a.kind@ == "MatchArm"@ && a.body.kind@ == "Block"@
            && stmts_kinds_ok(a.body.statements@)
    }
}

/// The kind tag of a block and of everything in it.
pub open spec fn block_kinds_ok(b: Block) -> bool {
    b.kind@ == "Block"@ && stmts_kinds_ok(b.statements@)
}

pub open spec fn params_kinds_ok(ps: Seq<Param>) -> bool {
    forall|k: int| 0 <= k < ps.len() ==> (#[trigger] ps[k]).kind@ == "Param"@
}

pub open spec fn field_decls_kinds_ok(fs: Seq<FieldDecl>) -> bool {
    forall|k: int| 0 <= k < fs.len() ==> (#[trigger] fs[k]).kind@ == "FieldDecl"@
}

/// Every node of the item that carries a kind tag carries its own.
pub open spec fn item_node_kinds_ok(n: Item) -> bool
    decreases n, 0nat,
{
    match n {
        Item::StructDecl { name, fields } => field_decls_kinds_ok(fields@),
        Item::TypeAliasDecl { name, ty } => true,
        Item::FnDecl { name, params, return_type, body } => params_kinds_ok(params@)
            && block_kinds_ok(body),
        Item::ImplDecl { self_type, methods } => {
            proof {
                assert(decreases_to!(n => methods));
                assert(decreases_to!(methods => methods@));
            }
            items_kinds_ok(methods@)
        },
    }
}

pub open spec fn item_kinds_ok(it: Spanned<Item>) -> bool {
    item_node_kinds_ok(it.node)
}

pub open spec fn items_kinds_ok(s: Seq<Spanned<Item>>) -> bool
    decreases s, s.len(),
{
    if s.len() == 0 {
        true
    } else {
        proof {
            assert(decreases_to!(s => s.last()));
            assert(decreases_to!(s.last() => s.last().node));
            vstd::seq::axiom_seq_subrange_decreases(s, 0, s.len() - 1);
        }
        items_kinds_ok(s.drop_last()) && item_node_kinds_ok(s.last().node)
    }
}

/// The kind tags of a whole program: "Program", "ModuleDecl", "ImportDecl"
/// and those of every item.
pub open spec fn program_kinds_ok(p: Program) -> bool {
    &&& p.kind@ == "Program"@
    &&& p.module.kind@ == "ModuleDecl"@
    &&& forall|k: int| 0 <= k < p.imports.len() ==> (#[trigger] p.imports@[k]).kind@ == "ImportDecl"@
    &&& items_kinds_ok(p.items@)
}

pub proof fn lemma_exprs_kinds(s: Seq<Spanned<Expr>>)
    ensures
        exprs_kinds_ok(s) <==> forall|k: int| 0 <= k < s.len() ==> #[trigger] expr_kinds_ok(s[k]),
    decreases s.len(),
{
    if s.len() > 0 {
        let t = s.drop_last();
        lemma_exprs_kinds(t);
        if exprs_kinds_ok(s) {
            assert forall|k: int| 0 <= k < s.len() implies #[trigger] expr_kinds_ok(s[k]) by {
                if k < s.len() - 1 {
                    assert(t[k] == s[k]);
                }
            }
        }
        if forall|k: int| 0 <= k < s.len() ==> #[trigger] expr_kinds_ok(s[k]) {
            assert forall|k: int| 0 <= k < t.len() implies #[trigger] expr_kinds_ok(t[k]) by {
                assert(t[k] == s[k]);
            }
            assert(expr_kinds_ok(s[s.len() - 1]));
        }
    }
}

pub proof fn lemma_field_inits_kinds(s: Seq<StructLiteralField>)
    ensures
        field_inits_kinds_ok(s) <==> forall|k: int|
            0 <= k < s.len() ==> (#[trigger] s[k]).kind@ == "StructLiteralField"@ && expr_kinds_ok(
                s[k].value,
            ),
    decreases s.len(),
{
    if s.len() > 0 {
        let t = s.drop_last();
        lemma_field_inits_kinds(t);
        if field_inits_kinds_ok(s) {
            assert forall|k: int| 0 <= k < s.len() implies (#[trigger] s[k]).kind@
                == "StructLiteralField"@ && expr_kinds_ok(s[k].value) by {
                if k < s.len() - 1 {
                    assert(t[k] == s[k]);
                }
            }
        }
        if forall|k: int|
            0 <= k < s.len() ==> (#[trigger] s[k]).kind@ == "StructLiteralField"@ && expr_kinds_ok(
                s[k].value,
            ) {
            assert forall|k: int| 0 <= k < t.len() implies (#[trigger] t[k]).kind@
                == "StructLiteralField"@ && expr_kinds_ok(t[k].value) by {
                assert(t[k] == s[k]);
            }
            assert(s[s.len() - 1].kind@ == "StructLiteralField"@);
        }
    }
}

/// The plain-value form of a type annotation.
pub enum TypeView {
    TypeExpr { name: Seq<char>, args: Seq<TypeView> },
    ConstTypeArg { value: Seq<char> },
}

pub open spec fn type_view(t: TypeNode) -> TypeView
    decreases t,
{
    match t {
        TypeNode::TypeExpr { name, args } => {
            proof {
                assert(decreases_to!(t => args));
                assert(decreases_to!(args => args@));
            }
            TypeView::TypeExpr { name: name@, args: types_view(args@) }
        },
        TypeNode::ConstTypeArg { value } => TypeView::ConstTypeArg { value: value@ },
    }
}

pub open spec fn types_view(s: Seq<TypeNode>) -> Seq<TypeView>
    decreases s,
{
    if s.len() == 0 {
        Seq::empty()
    } else {
        seq![type_view(s[0])] + types_view(s.drop_first())
    }
}

pub proof fn lemma_types_view(s: Seq<TypeNode>)
    ensures
        types_view(s).len() == s.len(),
        forall|j: int| 0 <= j < s.len() ==> #[trigger] types_view(s)[j] == type_view(s[j]),
    decreases s.len(),
{
    if s.len() > 0 {
        lemma_types_view(s.drop_first());
        assert forall|j: int| 0 <= j < s.len() implies #[trigger] types_view(s)[j] == type_view(
            s[j],
        ) by {
            if j > 0 {
                assert(s.drop_first()[j - 1] == s[j]);
            }
        }
    }
}

impl View for TypeNode {
    type V = TypeView;

    open spec fn view(&self) -> TypeView {
        type_view(*self)
    }
}

} // verus!
