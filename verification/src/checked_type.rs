//! The type checker's notion of a type, with compatibility, numeric result
//! rules and display text.
use vstd::prelude::*;
use crate::ast::{lemma_types_view, type_view, types_view, TypeNode, TypeView};
use crate::lexer::text_eq;
use crate::text::{decimal, decimal_string, text_of};

verus! {

/// An inferred type. `Unknown` is the poison value used after an error: every
/// check accepts it, so one mistake yields one diagnostic.
#[derive(Debug)]
pub enum CheckedType {
    Unknown,
    IntLiteral,
    FloatLiteral,
    StringLiteral,
    Named { name: String, args: Vec<CheckedType> },
    Const(String),
    ArrayLiteral(Vec<CheckedType>),
}

/// The plain-value form of a [`CheckedType`].
pub enum TypeVal {
    Unknown,
    IntLiteral,
    FloatLiteral,
    StringLiteral,
    Named { name: Seq<char>, args: Seq<TypeVal> },
    Const(Seq<char>),
    ArrayLiteral(Seq<TypeVal>),
}

pub open spec fn tv(t: CheckedType) -> TypeVal
    decreases t,
{
    match t {
        CheckedType::Unknown => TypeVal::Unknown,
        CheckedType::IntLiteral => TypeVal::IntLiteral,
        CheckedType::FloatLiteral => TypeVal::FloatLiteral,
        CheckedType::StringLiteral => TypeVal::StringLiteral,
        CheckedType::Named { name, args } => {
            proof {
                assert(decreases_to!(t => args));
                assert(decreases_to!(args => args@));
            }
            TypeVal::Named { name: name@, args: tvs(args@) }
        },
        CheckedType::Const(v) => TypeVal::Const(v@),
        CheckedType::ArrayLiteral(elts) => {
            proof {
                assert(decreases_to!(t => elts));
                assert(decreases_to!(elts => elts@));
            }
            TypeVal::ArrayLiteral(tvs(elts@))
        },
    }
}

pub open spec fn tvs(s: Seq<CheckedType>) -> Seq<TypeVal>
    decreases s,
{
    if s.len() == 0 {
        Seq::empty()
    } else {
        seq![tv(s[0])] + tvs(s.drop_first())
    }
}

pub proof fn lemma_tvs(s: Seq<CheckedType>)
    ensures
        tvs(s).len() == s.len(),
        forall|j: int| 0 <= j < s.len() ==> #[trigger] tvs(s)[j] == tv(s[j]),
    decreases s.len(),
{
    if s.len() > 0 {
        lemma_tvs(s.drop_first());
        assert forall|j: int| 0 <= j < s.len() implies #[trigger] tvs(s)[j] == tv(s[j]) by {
            if j > 0 {
                assert(s.drop_first()[j - 1] == s[j]);
            }
        }
    }
}

impl View for CheckedType {
    type V = TypeVal;

    open spec fn view(&self) -> TypeVal {
        tv(*self)
    }
}

pub open spec fn named_val(name: Seq<char>) -> TypeVal {
    TypeVal::Named { name, args: Seq::empty() }
}

impl TypeVal {
    pub open spec fn is_named0(self, n: Seq<char>) -> bool {
        self matches TypeVal::Named { name, args } && name == n && args.len() == 0
    }

    pub open spec fn is_bool(self) -> bool {
        self.is_named0("bool"@)
    }

    pub open spec fn is_string(self) -> bool {
        self is StringLiteral || self.is_named0("String"@)
    }

    pub open spec fn is_integer_scalar(self) -> bool {
        self.is_named0("i32"@) || self.is_named0("i64"@)
    }

    pub open spec fn is_float_scalar(self) -> bool {
        self.is_named0("f32"@) || self.is_named0("f64"@)
    }

    pub open spec fn is_numeric(self) -> bool {
        self is IntLiteral || self is FloatLiteral || self.is_integer_scalar()
            || self.is_float_scalar()
    }
}

/// Value of a decimal literal as `str::parse::<usize>` reads it: an optional
/// `+`, then one or more ASCII digits, with no overflow.
pub open spec fn parse_usize_spec(s: Seq<char>) -> Option<nat> {
    let digits = digits_part(s);
    if digits.len() == 0 || !all_digits(digits) {
        None
    } else if digits_value(digits) > usize::MAX {
        None
    } else {
        Some(digits_value(digits))
    }
}

/// `s` without a leading `+`.
pub open spec fn digits_part(s: Seq<char>) -> Seq<char> {
    if s.len() > 0 && s[0] == '+' {
        s.drop_first()
    } else {
        s
    }
}

pub open spec fn all_digits(d: Seq<char>) -> bool {
    forall|k: int| 0 <= k < d.len() ==> '0' <= #[trigger] d[k] <= '9'
}

pub open spec fn digits_value(d: Seq<char>) -> nat
    decreases d.len(),
{
    if d.len() == 0 {
        0
    } else {
        digits_value(d.drop_last()) * 10 + ((d.last() as u32 - '0' as u32) as nat)
    }
}

/// Length `N` of an `Array<T, N>`, when `N` is a constant that fits `usize`.
pub open spec fn array_len_spec(t: TypeVal) -> Option<nat> {
    match t {
        TypeVal::Const(v) => parse_usize_spec(v),
        _ => None,
    }
}

/// Whether a value of type `a` may be used where `e` is expected.
pub open spec fn compat(e: TypeVal, a: TypeVal) -> bool
    decreases e,
{
    if e is Unknown || a is Unknown {
        true
    } else {
        match (e, a) {
            (TypeVal::Named { name, args }, TypeVal::ArrayLiteral(elts)) if name == "Array"@
                && args.len() == 2 => {
                match array_len_spec(args[1]) {
                    None => true,
                    Some(n) => elts.len() == n && forall|k: int|
                        0 <= k < elts.len() ==> compat(args[0], #[trigger] elts[k]),
                }
            },
            (TypeVal::Named { name, .. }, TypeVal::IntLiteral) if name == "i32"@ || name
                == "i64"@ => true,
            (TypeVal::Named { name, .. }, TypeVal::FloatLiteral) if name == "f32"@ || name
                == "f64"@ => true,
            (TypeVal::Named { name, .. }, TypeVal::StringLiteral) if name == "String"@ || name
                == "Str"@ => true,
            _ => e == a,
        }
    }
}

/// `Unknown` is accepted everywhere and accepts everything, and every type
/// accepts itself.
pub proof fn law_compat_poison_and_reflexive(e: TypeVal, a: TypeVal)
    ensures
        compat(TypeVal::Unknown, a),
        compat(e, TypeVal::Unknown),
        compat(a, a),
{
}

/// Result type of an arithmetic or bitwise operator on two numeric operands:
/// `Unknown` if either is unknown, the common type if equal, the concrete
/// type when a literal meets a scalar of its kind, a literal when both are
/// literals of one kind, and `Unknown` otherwise.
pub open spec fn numeric_result(l: TypeVal, r: TypeVal) -> TypeVal {
    if l is Unknown || r is Unknown {
        TypeVal::Unknown
    } else if l == r {
        l
    } else if l is IntLiteral && r.is_integer_scalar() {
        r
    } else if r is IntLiteral && l.is_integer_scalar() {
        l
    } else if l is FloatLiteral && r.is_float_scalar() {
        r
    } else if r is FloatLiteral && l.is_float_scalar() {
        l
    } else {
        TypeVal::Unknown
    }
}

pub open spec fn join_text(parts: Seq<Seq<char>>, sep: Seq<char>) -> Seq<char>
    decreases parts.len(),
{
    if parts.len() == 0 {
        Seq::empty()
    } else if parts.len() == 1 {
        parts[0]
    } else {
        join_text(parts.drop_last(), sep) + sep + parts.last()
    }
}

/// Where part `k` starts in `join_text(parts, sep)` when `sep` has `sep_len`
/// characters: after every earlier part, each followed by a separator.
pub open spec fn join_offset(parts: Seq<Seq<char>>, sep_len: int, k: int) -> int
    decreases k,
{
    if k <= 0 {
        0
    } else {
        join_offset(parts, sep_len, k - 1) + parts[k - 1].len() + sep_len
    }
}

proof fn lemma_join_offset_prefix(parts: Seq<Seq<char>>, sep_len: int, k: int)
    requires
        0 <= k < parts.len(),
    ensures
        join_offset(parts.drop_last(), sep_len, k) == join_offset(parts, sep_len, k),
    decreases k,
{
    if k > 0 {
        lemma_join_offset_prefix(parts, sep_len, k - 1);
    }
}

proof fn lemma_join_len(parts: Seq<Seq<char>>, sep: Seq<char>)
    requires
        parts.len() > 0,
    ensures
        join_text(parts, sep).len() == join_offset(parts, sep.len() as int, parts.len() - 1)
            + parts.last().len(),
    decreases parts.len(),
{
    if parts.len() > 1 {
        let pre = parts.drop_last();
        lemma_join_len(pre, sep);
        lemma_join_offset_prefix(parts, sep.len() as int, parts.len() - 2);
    }
}

proof fn lemma_join_part(parts: Seq<Seq<char>>, sep: Seq<char>, k: int)
    requires
        0 <= k < parts.len(),
    ensures
        join_text(parts, sep).subrange(
            join_offset(parts, sep.len() as int, k),
            join_offset(parts, sep.len() as int, k) + parts[k].len(),
        ) == parts[k],
    decreases parts.len(),
{
    let sl = sep.len() as int;
    let j = join_text(parts, sep);
    if parts.len() == 1 {
        assert(parts[0].subrange(0, parts[0].len() as int) =~= parts[0]);
    } else {
        let pre = parts.drop_last();
        let jp = join_text(pre, sep);
        let n = parts.len() - 1;
        lemma_join_len(pre, sep);
        lemma_join_offset_prefix(parts, sl, n - 1);
        assert(j == jp + sep + parts.last());
        assert(pre.last() == parts[n - 1]);
        if k < n {
            lemma_join_part(pre, sep, k);
            lemma_join_offset_prefix(parts, sl, k);
            lemma_join_offset_grows(parts, sl, k, n - 1);
            assert(pre[k] == parts[k]);
            let o = join_offset(parts, sl, k);
            assert(j.subrange(o, o + parts[k].len()) =~= jp.subrange(o, o + parts[k].len()));
        } else {
            let o = join_offset(parts, sl, n);
            assert(j.subrange(o, o + parts[k].len()) =~= parts.last());
        }
    }
}

proof fn lemma_join_sep(parts: Seq<Seq<char>>, sep: Seq<char>, k: int)
    requires
        0 <= k < parts.len() - 1,
    ensures
        join_text(parts, sep).subrange(
            join_offset(parts, sep.len() as int, k) + parts[k].len(),
            join_offset(parts, sep.len() as int, k + 1),
        ) == sep,
    decreases parts.len(),
{
    let sl = sep.len() as int;
    let j = join_text(parts, sep);
    let pre = parts.drop_last();
    let jp = join_text(pre, sep);
    let n = parts.len() - 1;
    lemma_join_len(pre, sep);
    lemma_join_offset_prefix(parts, sl, n - 1);
    assert(j == jp + sep + parts.last());
    assert(pre.last() == parts[n - 1]);
    if k < n - 1 {
        lemma_join_sep(pre, sep, k);
        lemma_join_offset_prefix(parts, sl, k);
        lemma_join_offset_prefix(parts, sl, k + 1);
        lemma_join_offset_grows(parts, sl, k + 1, n - 1);
        lemma_join_offset_nonneg(parts, sl, k);
        assert(pre[k] == parts[k]);
        let o = join_offset(parts, sl, k) + parts[k].len();
        let e = join_offset(parts, sl, k + 1);
        assert(e == o + sl);
        assert(j.subrange(o, e) =~= jp.subrange(o, e));
    } else {
        assert(j.subrange(jp.len() as int, jp.len() + sl) =~= sep);
    }
}

/// Joining lays the parts out in order with one separator between each two
/// neighbours and nothing else: part `k` starts at `join_offset(parts, |sep|,
/// k)`, a separator follows every part but the last, and the text ends with
/// the last part.
pub proof fn law_join_places_each_part(parts: Seq<Seq<char>>, sep: Seq<char>)
    ensures
        parts.len() == 0 ==> join_text(parts, sep).len() == 0,
        parts.len() > 0 ==> join_text(parts, sep).len() == join_offset(
            parts,
            sep.len() as int,
            parts.len() - 1,
        ) + parts.last().len(),
        forall|k: int|
            0 <= k < parts.len() ==> join_text(parts, sep).subrange(
                join_offset(parts, sep.len() as int, k),
                join_offset(parts, sep.len() as int, k) + parts[k].len(),
            ) == #[trigger] parts[k],
        forall|k: int|
            0 <= k < parts.len() - 1 ==> join_text(parts, sep).subrange(
                join_offset(parts, sep.len() as int, k) + (#[trigger] parts[k]).len(),
                join_offset(parts, sep.len() as int, k + 1),
            ) == sep,
        forall|k: int|
            0 <= k < parts.len() ==> 0 <= join_offset(parts, sep.len() as int, k) && join_offset(
                parts,
                sep.len() as int,
                k,
            ) + (#[trigger] parts[k]).len() <= join_text(parts, sep).len(),
{
    if parts.len() > 0 {
        lemma_join_len(parts, sep);
    }
    assert forall|k: int| 0 <= k < parts.len() implies 0 <= join_offset(parts, sep.len() as int, k)
        && join_offset(parts, sep.len() as int, k) + (#[trigger] parts[k]).len() <= join_text(
        parts,
        sep,
    ).len() by {
        lemma_join_offset_grows(parts, sep.len() as int, k, parts.len() - 1);
    }
    assert forall|k: int| 0 <= k < parts.len() implies join_text(parts, sep).subrange(
        join_offset(parts, sep.len() as int, k),
        join_offset(parts, sep.len() as int, k) + parts[k].len(),
    ) == #[trigger] parts[k] by {
        lemma_join_part(parts, sep, k);
    }
    assert forall|k: int| 0 <= k < parts.len() - 1 implies join_text(parts, sep).subrange(
        join_offset(parts, sep.len() as int, k) + (#[trigger] parts[k]).len(),
        join_offset(parts, sep.len() as int, k + 1),
    ) == sep by {
        lemma_join_sep(parts, sep, k);
    }
}

proof fn lemma_join_offset_grows(parts: Seq<Seq<char>>, sep_len: int, a: int, b: int)
    requires
        0 <= a <= b < parts.len(),
        sep_len >= 0,
    ensures
        0 <= join_offset(parts, sep_len, a),
        join_offset(parts, sep_len, a) + parts[a].len() <= join_offset(parts, sep_len, b) + parts[b].len(),
    decreases b - a,
{
    lemma_join_offset_nonneg(parts, sep_len, a);
    if a < b {
        lemma_join_offset_grows(parts, sep_len, a + 1, b);
    }
}

proof fn lemma_join_offset_nonneg(parts: Seq<Seq<char>>, sep_len: int, k: int)
    requires
        sep_len >= 0,
        k <= parts.len(),
    ensures
        join_offset(parts, sep_len, k) >= 0,
    decreases k,
{
    if k > 0 {
        lemma_join_offset_nonneg(parts, sep_len, k - 1);
    }
}

/// How a type is written in diagnostics.
pub open spec fn display_text(t: TypeVal) -> Seq<char>
    decreases t,
{
    match t {
        TypeVal::Unknown => "unknown"@,
        TypeVal::IntLiteral => "integer literal"@,
        TypeVal::FloatLiteral => "float literal"@,
        TypeVal::StringLiteral => "string literal"@,
        TypeVal::Named { name, args } => {
            if args.len() == 0 {
                name
            } else {
                name + "<"@ + join_text(display_all(args), ", "@) + ">"@
            }
        },
        TypeVal::Const(v) => v,
        TypeVal::ArrayLiteral(elts) => "array literal with "@ + decimal(elts.len()) + " elements"@,
    }
}

pub open spec fn display_all(ts: Seq<TypeVal>) -> Seq<Seq<char>>
    decreases ts,
{
    if ts.len() == 0 {
        Seq::empty()
    } else {
        seq![display_text(ts[0])] + display_all(ts.drop_first())
    }
}

pub proof fn lemma_display_all(ts: Seq<TypeVal>)
    ensures
        display_all(ts).len() == ts.len(),
        forall|j: int| 0 <= j < ts.len() ==> #[trigger] display_all(ts)[j] == display_text(ts[j]),
    decreases ts.len(),
{
    if ts.len() > 0 {
        lemma_display_all(ts.drop_first());
        assert forall|j: int| 0 <= j < ts.len() implies #[trigger] display_all(ts)[j]
            == display_text(ts[j]) by {
            if j > 0 {
                assert(ts.drop_first()[j - 1] == ts[j]);
            }
        }
    }
}

/// The checked type that a written type annotation stands for.
pub open spec fn from_type_view(t: TypeView) -> TypeVal
    decreases t,
{
    match t {
        TypeView::TypeExpr { name, args } => TypeVal::Named { name, args: from_type_views(args) },
        TypeView::ConstTypeArg { value } => TypeVal::Const(value),
    }
}

pub open spec fn from_type_views(ts: Seq<TypeView>) -> Seq<TypeVal>
    decreases ts,
{
    if ts.len() == 0 {
        Seq::empty()
    } else {
        seq![from_type_view(ts[0])] + from_type_views(ts.drop_first())
    }
}

pub proof fn lemma_from_type_views(ts: Seq<TypeView>)
    ensures
        from_type_views(ts).len() == ts.len(),
        forall|j: int| 0 <= j < ts.len() ==> #[trigger] from_type_views(ts)[j] == from_type_view(ts[j]),
    decreases ts.len(),
{
    if ts.len() > 0 {
        lemma_from_type_views(ts.drop_first());
        assert forall|j: int| 0 <= j < ts.len() implies #[trigger] from_type_views(ts)[j]
            == from_type_view(ts[j]) by {
            if j > 0 {
                assert(ts.drop_first()[j - 1] == ts[j]);
            }
        }
    }
}

impl Clone for CheckedType {
    fn clone(&self) -> (r: Self)
        ensures
            r@ == self@,
    {
        clone_checked(self)
    }
}

fn clone_list(v: &Vec<CheckedType>) -> (r: Vec<CheckedType>)
    ensures
        tvs(r@) == tvs(v@),
    decreases v,
{
    let mut out: Vec<CheckedType> = Vec::new();
    let mut k: usize = 0;
    while k < v.len()
        invariant
            k <= v.len(),
            out@.len() == k,
            forall|j: int| 0 <= j < k ==> out@[j]@ == v@[j]@,
        decreases v.len() - k,
    {
        proof {
            assert(decreases_to!(*v => v@));
            assert(decreases_to!(v@ => v@[k as int]));
        }
        out.push(clone_checked(&v[k]));
        k = k + 1;
    }
    proof {
        lemma_tvs(out@);
        lemma_tvs(v@);
        assert(tvs(out@) =~= tvs(v@));
    }
    out
}

/// Deep copy of a checked type.
pub fn clone_checked(t: &CheckedType) -> (r: CheckedType)
    ensures
        r@ == t@,
    decreases t,
{
    match t {
        CheckedType::Unknown => CheckedType::Unknown,
        CheckedType::IntLiteral => CheckedType::IntLiteral,
        CheckedType::FloatLiteral => CheckedType::FloatLiteral,
        CheckedType::StringLiteral => CheckedType::StringLiteral,
        CheckedType::Named { name, args } => {
            proof {
                assert(decreases_to!(*t => *args));
            }
            CheckedType::Named { name: name.clone(), args: clone_list(args) }
        },
        CheckedType::Const(v) => CheckedType::Const(v.clone()),
        CheckedType::ArrayLiteral(elts) => {
            proof {
                assert(decreases_to!(*t => *elts));
            }
            CheckedType::ArrayLiteral(clone_list(elts))
        },
    }
}

fn list_eq(a: &Vec<CheckedType>, b: &Vec<CheckedType>) -> (r: bool)
    ensures
        r == (tvs(a@) == tvs(b@)),
    decreases a,
{
    proof {
        lemma_tvs(a@);
        lemma_tvs(b@);
    }
    if a.len() != b.len() {
        return false;
    }
    let mut k: usize = 0;
    while k < a.len()
        invariant
            k <= a.len(),
            a.len() == b.len(),
            tvs(a@).len() == a@.len(),
            tvs(b@).len() == b@.len(),
            forall|j: int| 0 <= j < a@.len() ==> #[trigger] tvs(a@)[j] == tv(a@[j]),
            forall|j: int| 0 <= j < b@.len() ==> #[trigger] tvs(b@)[j] == tv(b@[j]),
            forall|j: int| 0 <= j < k ==> a@[j]@ == b@[j]@,
        decreases a.len() - k,
    {
        proof {
            assert(decreases_to!(*a => a@));
            assert(decreases_to!(a@ => a@[k as int]));
        }
        if !checked_eq(&a[k], &b[k]) {
            assert(tvs(a@)[k as int] != tvs(b@)[k as int]);
            return false;
        }
        k = k + 1;
    }
    assert(tvs(a@) =~= tvs(b@));
    true
}

/// Structural equality of checked types.
pub fn checked_eq(a: &CheckedType, b: &CheckedType) -> (r: bool)
    ensures
        r == (a@ == b@),
    decreases a,
{
    match (a, b) {
        (CheckedType::Unknown, CheckedType::Unknown) => true,
        (CheckedType::IntLiteral, CheckedType::IntLiteral) => true,
        (CheckedType::FloatLiteral, CheckedType::FloatLiteral) => true,
        (CheckedType::StringLiteral, CheckedType::StringLiteral) => true,
        (CheckedType::Named { name: n1, args: a1 }, CheckedType::Named { name: n2, args: a2 }) => {
            proof {
                assert(decreases_to!(*a => *a1));
            }
            *n1 == *n2 && list_eq(a1, a2)
        },
        (CheckedType::Const(v1), CheckedType::Const(v2)) => *v1 == *v2,
        (CheckedType::ArrayLiteral(e1), CheckedType::ArrayLiteral(e2)) => {
            proof {
                assert(decreases_to!(*a => *e1));
            }
            list_eq(e1, e2)
        },
        _ => false,
    }
}

impl CheckedType {
    pub fn named(name: &str) -> (r: Self)
        ensures
            r@ == named_val(name@),
    {
        let r = CheckedType::Named { name: text_of(name), args: Vec::new() };
        assert(tvs(Seq::<CheckedType>::empty()) =~= Seq::<TypeVal>::empty());
        r
    }

    pub fn is_unknown(&self) -> (r: bool)
        ensures
            r == (self@ is Unknown),
    {
        matches!(self, CheckedType::Unknown)
    }

    pub fn is_int_literal(&self) -> (r: bool)
        ensures
            r == (self@ is IntLiteral),
    {
        matches!(self, CheckedType::IntLiteral)
    }

    pub fn is_float_literal(&self) -> (r: bool)
        ensures
            r == (self@ is FloatLiteral),
    {
        matches!(self, CheckedType::FloatLiteral)
    }

    fn is_named0(&self, n: &str) -> (r: bool)
        ensures
            r == self@.is_named0(n@),
    {
        proof {
            if let CheckedType::Named { name, args } = self {
                lemma_tvs(args@);
            }
        }
        match self {
            CheckedType::Named { name, args } => args.len() == 0 && text_eq(name, n),
            _ => false,
        }
    }

    pub fn is_bool(&self) -> (r: bool)
        ensures
            r == self@.is_bool(),
    {
        self.is_named0("bool")
    }

    pub fn is_string(&self) -> (r: bool)
        ensures
            r == self@.is_string(),
    {
        matches!(self, CheckedType::StringLiteral) || self.is_named0("String")
    }

    pub fn is_integer_scalar(&self) -> (r: bool)
        ensures
            r == self@.is_integer_scalar(),
    {
        self.is_named0("i32") || self.is_named0("i64")
    }

    pub fn is_float_scalar(&self) -> (r: bool)
        ensures
            r == self@.is_float_scalar(),
    {
        self.is_named0("f32") || self.is_named0("f64")
    }

    pub fn is_numeric(&self) -> (r: bool)
        ensures
            r == self@.is_numeric(),
    {
        self.is_int_literal() || self.is_float_literal() || self.is_integer_scalar()
            || self.is_float_scalar()
    }

    /// How the type is written in diagnostics.
    #[verifier::loop_isolation(false)]
    pub fn display(&self) -> (r: String)
        ensures
            r@ == display_text(self@),
        decreases self,
    {
        match self {
            CheckedType::Unknown => text_of("unknown"),
            CheckedType::IntLiteral => text_of("integer literal"),
            CheckedType::FloatLiteral => text_of("float literal"),
            CheckedType::StringLiteral => text_of("string literal"),
            CheckedType::Named { name, args } => {
                proof {
                    lemma_tvs(args@);
                    lemma_display_all(tvs(args@));
                }
                if args.len() == 0 {
                    name.clone()
                } else {
                    let mut out = name.clone();
                    out.append("<");
                    let ghost base = out@;
                    let mut k: usize = 0;
                    while k < args.len()
                        invariant
                            k <= args.len(),
                            args.len() > 0,
                            tvs(args@).len() == args@.len(),
                            forall|j: int| 0 <= j < args@.len() ==> #[trigger] tvs(args@)[j] == tv(args@[j]),
                            display_all(tvs(args@)).len() == args@.len(),
                            forall|j: int| 0 <= j < args@.len() ==> #[trigger] display_all(tvs(args@))[j] == display_text(tvs(args@)[j]),
                            out@ == base + join_text(display_all(tvs(args@)).take(k as int), ", "@),
                        decreases args.len() - k,
                    {
                        proof {
                            assert(decreases_to!(*self => *args));
                            assert(decreases_to!(*args => args@));
                            assert(decreases_to!(args@ => args@[k as int]));
                        }
                        let part = args[k].display();
                        let ghost parts = display_all(tvs(args@));
                        if k > 0 {
                            out.append(", ");
                        }
                        out.append(part.as_str());
                        proof {
                            assert(parts.take(k + 1).drop_last() =~= parts.take(k as int));
                            if k == 0 {
                                assert(parts.take(1) =~= seq![parts[0]]);
                            }
                        }
                        k = k + 1;
                    }
                    out.append(">");
                    assert(display_all(tvs(args@)).take(args.len() as int) =~= display_all(tvs(args@)));
                    out
                }
            },
            CheckedType::Const(v) => v.clone(),
            CheckedType::ArrayLiteral(elts) => {
                proof {
                    lemma_tvs(elts@);
                }
                let mut out = text_of("array literal with ");
                out.append(decimal_string(elts.len()).as_str());
                out.append(" elements");
                out
            },
        }
    }
}

/// Builtins whose result is a `String`.
pub open spec fn is_string_builtin(n: Seq<char>) -> bool {
    n == "str_concat"@ || n == "str_lower"@ || n == "str_upper"@ || n == "str_replace"@ || n == "str_replace_first"@ || n == "str_repeat"@ || n == "str_slice"@ || n == "str_trim"@ || n == "str_reverse"@ || n == "str_translate"@ || n == "chr"@ || n == "int_to_str"@ || n == "float_to_str"@ || n == "read_file"@ || n == "read_stdin"@ || n == "recv_str"@ || n == "rbuf_str"@ || n == "argv"@ || n == "sb_str"@
}

/// Builtins whose result is an `i32`.
pub open spec fn is_i32_builtin(n: Seq<char>) -> bool {
    n == "str_len"@ || n == "str_char_at"@ || n == "str_find"@ || n == "str_find_from"@ || n == "str_to_int"@ || n == "str_to_int_oct"@ || n == "str_cmp"@ || n == "argc"@ || n == "vec_len"@ || n == "abs"@ || n == "max"@ || n == "min"@ || n == "rbuf_byte_at"@ || n == "fork"@ || n == "wait_pid_status"@ || n == "stat_field"@ || n == "recv_n"@ || n == "read_rbuf"@ || n == "open_append"@ || n == "close_fd"@ || n == "seek"@ || n == "tcp_connect"@ || n == "sendfile_range"@ || n == "now_s"@
}

/// Builtins whose result is an `f64`.
pub open spec fn is_f64_builtin(n: Seq<char>) -> bool {
    n == "str_to_float"@ || n == "int_to_f64"@
}

/// Declared result type of a compiler builtin, where it is tracked.
pub open spec fn builtin_return_spec(n: Seq<char>) -> Option<TypeVal> {
    if is_string_builtin(n) {
        Some(named_val("String"@))
    } else if is_i32_builtin(n) {
        Some(named_val("i32"@))
    } else if is_f64_builtin(n) {
        Some(named_val("f64"@))
    } else {
        None
    }
}

/// Declared return type of each compiler builtin (lowered directly in
/// codegen). The boolean string-search builtins and the void ones are left
/// untracked (`None`).
pub fn builtin_return_type(name: &String) -> (r: Option<CheckedType>)
    ensures
        r matches Some(t) ==> builtin_return_spec(name@) == Some(t@),
        r is None ==> builtin_return_spec(name@) is None,
{
    if text_eq(name, "str_concat") || text_eq(name, "str_lower") || text_eq(name, "str_upper") || text_eq(name, "str_replace") || text_eq(name, "str_replace_first") || text_eq(name, "str_repeat") || text_eq(name, "str_slice") || text_eq(name, "str_trim") || text_eq(name, "str_reverse") || text_eq(name, "str_translate") || text_eq(name, "chr") || text_eq(name, "int_to_str") || text_eq(name, "float_to_str") || text_eq(name, "read_file") || text_eq(name, "read_stdin") || text_eq(name, "recv_str") || text_eq(name, "rbuf_str") || text_eq(name, "argv") || text_eq(name, "sb_str") {
        Some(CheckedType::named("String"))
    } else if text_eq(name, "str_len") || text_eq(name, "str_char_at") || text_eq(name, "str_find") || text_eq(name, "str_find_from") || text_eq(name, "str_to_int") || text_eq(name, "str_to_int_oct") || text_eq(name, "str_cmp") || text_eq(name, "argc") || text_eq(name, "vec_len") || text_eq(name, "abs") || text_eq(name, "max") || text_eq(name, "min") || text_eq(name, "rbuf_byte_at") || text_eq(name, "fork") || text_eq(name, "wait_pid_status") || text_eq(name, "stat_field") || text_eq(name, "recv_n") || text_eq(name, "read_rbuf") || text_eq(name, "open_append") || text_eq(name, "close_fd") || text_eq(name, "seek") || text_eq(name, "tcp_connect") || text_eq(name, "sendfile_range") || text_eq(name, "now_s") {
        Some(CheckedType::named("i32"))
    } else if text_eq(name, "str_to_float") || text_eq(name, "int_to_f64") {
        Some(CheckedType::named("f64"))
    } else {
        None
    }
}

/// The string-producing builtins (`str_concat`, `str_slice`, `int_to_str`,
/// ...) have the result type `String`.
pub proof fn law_string_builtins_return_string(n: Seq<char>)
    requires
        n == "str_concat"@
            || n == "str_lower"@
            || n == "str_upper"@
            || n == "str_replace"@
            || n == "str_replace_first"@
            || n == "str_repeat"@
            || n == "str_slice"@
            || n == "str_trim"@
            || n == "str_reverse"@
            || n == "str_translate"@
            || n == "chr"@
            || n == "int_to_str"@
            || n == "float_to_str"@
            || n == "read_file"@
            || n == "read_stdin"@
            || n == "recv_str"@
            || n == "rbuf_str"@
            || n == "argv"@
            || n == "sb_str"@,
    ensures
        builtin_return_spec(n) == Some(named_val("String"@)),
{
    reveal_strlit("str_concat");
    reveal_strlit("str_lower");
    reveal_strlit("str_upper");
    reveal_strlit("str_replace");
    reveal_strlit("str_replace_first");
    reveal_strlit("str_repeat");
    reveal_strlit("str_slice");
    reveal_strlit("str_trim");
    reveal_strlit("str_reverse");
    reveal_strlit("str_translate");
    reveal_strlit("chr");
    reveal_strlit("int_to_str");
    reveal_strlit("float_to_str");
    reveal_strlit("read_file");
    reveal_strlit("read_stdin");
    reveal_strlit("recv_str");
    reveal_strlit("rbuf_str");
    reveal_strlit("argv");
    reveal_strlit("sb_str");

}

/// The builtins that compute a number or a position (`str_len`, `str_find`,
/// `str_to_int`, ...) have the result type `i32`.
pub proof fn law_i32_builtins_return_i32(n: Seq<char>)
    requires
        n == "str_len"@
            || n == "str_char_at"@
            || n == "str_find"@
            || n == "str_find_from"@
            || n == "str_to_int"@
            || n == "str_to_int_oct"@
            || n == "str_cmp"@
            || n == "argc"@
            || n == "vec_len"@
            || n == "abs"@
            || n == "max"@
            || n == "min"@
            || n == "rbuf_byte_at"@
            || n == "fork"@
            || n == "wait_pid_status"@
            || n == "stat_field"@
            || n == "recv_n"@
            || n == "read_rbuf"@
            || n == "open_append"@
            || n == "close_fd"@
            || n == "seek"@
            || n == "tcp_connect"@
            || n == "sendfile_range"@
            || n == "now_s"@,
    ensures
        builtin_return_spec(n) == Some(named_val("i32"@)),
{
    reveal_strlit("str_len");
    reveal_strlit("str_char_at");
    reveal_strlit("str_find");
    reveal_strlit("str_find_from");
    reveal_strlit("str_to_int");
    reveal_strlit("str_to_int_oct");
    reveal_strlit("str_cmp");
    reveal_strlit("argc");
    reveal_strlit("vec_len");
    reveal_strlit("abs");
    reveal_strlit("max");
    reveal_strlit("min");
    reveal_strlit("rbuf_byte_at");
    reveal_strlit("fork");
    reveal_strlit("wait_pid_status");
    reveal_strlit("stat_field");
    reveal_strlit("recv_n");
    reveal_strlit("read_rbuf");
    reveal_strlit("open_append");
    reveal_strlit("close_fd");
    reveal_strlit("seek");
    reveal_strlit("tcp_connect");
    reveal_strlit("sendfile_range");
    reveal_strlit("now_s");
    reveal_strlit("str_concat");
    reveal_strlit("str_lower");
    reveal_strlit("str_upper");
    reveal_strlit("str_replace");
    reveal_strlit("str_replace_first");
    reveal_strlit("str_repeat");
    reveal_strlit("str_slice");
    reveal_strlit("str_trim");
    reveal_strlit("str_reverse");
    reveal_strlit("str_translate");
    reveal_strlit("chr");
    reveal_strlit("int_to_str");
    reveal_strlit("float_to_str");
    reveal_strlit("read_file");
    reveal_strlit("read_stdin");
    reveal_strlit("recv_str");
    reveal_strlit("rbuf_str");
    reveal_strlit("argv");
    reveal_strlit("sb_str");
    assert("str_len"@.len() == 7);
    assert("str_char_at"@.len() == 11);
    assert("str_find"@.len() == 8);
    assert("str_find_from"@.len() == 13);
    assert("str_to_int"@.len() == 10);
    assert("str_to_int_oct"@.len() == 14);
    assert("str_cmp"@.len() == 7);
    assert("argc"@.len() == 4);
    assert("vec_len"@.len() == 7);
    assert("abs"@.len() == 3);
    assert("max"@.len() == 3);
    assert("min"@.len() == 3);
    assert("rbuf_byte_at"@.len() == 12);
    assert("fork"@.len() == 4);
    assert("wait_pid_status"@.len() == 15);
    assert("stat_field"@.len() == 10);
    assert("recv_n"@.len() == 6);
    assert("read_rbuf"@.len() == 9);
    assert("open_append"@.len() == 11);
    assert("close_fd"@.len() == 8);
    assert("seek"@.len() == 4);
    assert("tcp_connect"@.len() == 11);
    assert("sendfile_range"@.len() == 14);
    assert("now_s"@.len() == 5);
    assert("str_concat"@.len() == 10);
    assert("str_lower"@.len() == 9);
    assert("str_upper"@.len() == 9);
    assert("str_replace"@.len() == 11);
    assert("str_replace_first"@.len() == 17);
    assert("str_repeat"@.len() == 10);
    assert("str_slice"@.len() == 9);
    assert("str_trim"@.len() == 8);
    assert("str_reverse"@.len() == 11);
    assert("str_translate"@.len() == 13);
    assert("chr"@.len() == 3);
    assert("int_to_str"@.len() == 10);
    assert("float_to_str"@.len() == 12);
    assert("read_file"@.len() == 9);
    assert("read_stdin"@.len() == 10);
    assert("recv_str"@.len() == 8);
    assert("rbuf_str"@.len() == 8);
    assert("argv"@.len() == 4);
    assert("sb_str"@.len() == 6);
    assert("str_char_at"@[4] != "str_replace"@[4]);
    assert("str_char_at"@[4] != "str_reverse"@[4]);
    assert("str_find"@[4] != "str_trim"@[4]);
    assert("str_find"@[0] != "recv_str"@[0]);
    assert("str_find"@[0] != "rbuf_str"@[0]);
    assert("str_find_from"@[4] != "str_translate"@[4]);
    assert("str_to_int"@[4] != "str_concat"@[4]);
    assert("str_to_int"@[4] != "str_repeat"@[4]);
    assert("str_to_int"@[0] != "int_to_str"@[0]);
    assert("str_to_int"@[0] != "read_stdin"@[0]);
    assert("argc"@[3] != "argv"@[3]);
    assert("abs"@[0] != "chr"@[0]);
    assert("max"@[0] != "chr"@[0]);
    assert("min"@[0] != "chr"@[0]);
    assert("rbuf_byte_at"@[0] != "float_to_str"@[0]);
    assert("fork"@[0] != "argv"@[0]);
    assert("stat_field"@[2] != "str_concat"@[2]);
    assert("stat_field"@[2] != "str_repeat"@[2]);
    assert("stat_field"@[0] != "int_to_str"@[0]);
    assert("stat_field"@[0] != "read_stdin"@[0]);
    assert("recv_n"@[0] != "sb_str"@[0]);
    assert("read_rbuf"@[0] != "str_lower"@[0]);
    assert("read_rbuf"@[0] != "str_upper"@[0]);
    assert("read_rbuf"@[0] != "str_slice"@[0]);
    assert("read_rbuf"@[5] != "read_file"@[5]);
    assert("open_append"@[0] != "str_replace"@[0]);
    assert("open_append"@[0] != "str_reverse"@[0]);
    assert("close_fd"@[0] != "str_trim"@[0]);
    assert("close_fd"@[0] != "recv_str"@[0]);
    assert("close_fd"@[0] != "rbuf_str"@[0]);
    assert("seek"@[0] != "argv"@[0]);
    assert("tcp_connect"@[0] != "str_replace"@[0]);
    assert("tcp_connect"@[0] != "str_reverse"@[0]);
}

/// `str_to_float` and `int_to_f64` have the result type `f64`.
pub proof fn law_f64_builtins_return_f64(n: Seq<char>)
    requires
        n == "str_to_float"@
            || n == "int_to_f64"@,
    ensures
        builtin_return_spec(n) == Some(named_val("f64"@)),
{
    reveal_strlit("str_to_float");
    reveal_strlit("int_to_f64");
    reveal_strlit("str_concat");
    reveal_strlit("str_lower");
    reveal_strlit("str_upper");
    reveal_strlit("str_replace");
    reveal_strlit("str_replace_first");
    reveal_strlit("str_repeat");
    reveal_strlit("str_slice");
    reveal_strlit("str_trim");
    reveal_strlit("str_reverse");
    reveal_strlit("str_translate");
    reveal_strlit("chr");
    reveal_strlit("int_to_str");
    reveal_strlit("float_to_str");
    reveal_strlit("read_file");
    reveal_strlit("read_stdin");
    reveal_strlit("recv_str");
    reveal_strlit("rbuf_str");
    reveal_strlit("argv");
    reveal_strlit("sb_str");
    reveal_strlit("str_len");
    reveal_strlit("str_char_at");
    reveal_strlit("str_find");
    reveal_strlit("str_find_from");
    reveal_strlit("str_to_int");
    reveal_strlit("str_to_int_oct");
    reveal_strlit("str_cmp");
    reveal_strlit("argc");
    reveal_strlit("vec_len");
    reveal_strlit("abs");
    reveal_strlit("max");
    reveal_strlit("min");
    reveal_strlit("rbuf_byte_at");
    reveal_strlit("fork");
    reveal_strlit("wait_pid_status");
    reveal_strlit("stat_field");
    reveal_strlit("recv_n");
    reveal_strlit("read_rbuf");
    reveal_strlit("open_append");
    reveal_strlit("close_fd");
    reveal_strlit("seek");
    reveal_strlit("tcp_connect");
    reveal_strlit("sendfile_range");
    reveal_strlit("now_s");
    assert("str_to_float"@.len() == 12);
    assert("int_to_f64"@.len() == 10);
    assert("str_concat"@.len() == 10);
    assert("str_lower"@.len() == 9);
    assert("str_upper"@.len() == 9);
    assert("str_replace"@.len() == 11);
    assert("str_replace_first"@.len() == 17);
    assert("str_repeat"@.len() == 10);
    assert("str_slice"@.len() == 9);
    assert("str_trim"@.len() == 8);
    assert("str_reverse"@.len() == 11);
    assert("str_translate"@.len() == 13);
    assert("chr"@.len() == 3);
    assert("int_to_str"@.len() == 10);
    assert("float_to_str"@.len() == 12);
    assert("read_file"@.len() == 9);
    assert("read_stdin"@.len() == 10);
    assert("recv_str"@.len() == 8);
    assert("rbuf_str"@.len() == 8);
    assert("argv"@.len() == 4);
    assert("sb_str"@.len() == 6);
    assert("str_len"@.len() == 7);
    assert("str_char_at"@.len() == 11);
    assert("str_find"@.len() == 8);
    assert("str_find_from"@.len() == 13);
    assert("str_to_int"@.len() == 10);
    assert("str_to_int_oct"@.len() == 14);
    assert("str_cmp"@.len() == 7);
    assert("argc"@.len() == 4);
    assert("vec_len"@.len() == 7);
    assert("abs"@.len() == 3);
    assert("max"@.len() == 3);
    assert("min"@.len() == 3);
    assert("rbuf_byte_at"@.len() == 12);
    assert("fork"@.len() == 4);
    assert("wait_pid_status"@.len() == 15);
    assert("stat_field"@.len() == 10);
    assert("recv_n"@.len() == 6);
    assert("read_rbuf"@.len() == 9);
    assert("open_append"@.len() == 11);
    assert("close_fd"@.len() == 8);
    assert("seek"@.len() == 4);
    assert("tcp_connect"@.len() == 11);
    assert("sendfile_range"@.len() == 14);
    assert("now_s"@.len() == 5);
    assert("str_to_float"@[0] != "float_to_str"@[0]);
    assert("str_to_float"@[0] != "rbuf_byte_at"@[0]);
    assert("int_to_f64"@[0] != "str_concat"@[0]);
    assert("int_to_f64"@[0] != "str_repeat"@[0]);
    assert("int_to_f64"@[7] != "int_to_str"@[7]);
    assert("int_to_f64"@[0] != "read_stdin"@[0]);
    assert("int_to_f64"@[0] != "str_to_int"@[0]);
    assert("int_to_f64"@[0] != "stat_field"@[0]);
}

/// The boolean string searches (`str_contains`, `str_starts_with`,
/// `str_ends_with`, `str_eq`) are left untracked: their C runtime returns an
/// int 0/1 that programs use both as a number and as a condition.
pub proof fn law_boolean_search_builtins_untracked(n: Seq<char>)
    requires
        n == "str_contains"@
            || n == "str_starts_with"@
            || n == "str_ends_with"@
            || n == "str_eq"@,
    ensures
        builtin_return_spec(n) is None,
{
    reveal_strlit("str_contains");
    reveal_strlit("str_starts_with");
    reveal_strlit("str_ends_with");
    reveal_strlit("str_eq");
    reveal_strlit("str_concat");
    reveal_strlit("str_lower");
    reveal_strlit("str_upper");
    reveal_strlit("str_replace");
    reveal_strlit("str_replace_first");
    reveal_strlit("str_repeat");
    reveal_strlit("str_slice");
    reveal_strlit("str_trim");
    reveal_strlit("str_reverse");
    reveal_strlit("str_translate");
    reveal_strlit("chr");
    reveal_strlit("int_to_str");
    reveal_strlit("float_to_str");
    reveal_strlit("read_file");
    reveal_strlit("read_stdin");
    reveal_strlit("recv_str");
    reveal_strlit("rbuf_str");
    reveal_strlit("argv");
    reveal_strlit("sb_str");
    reveal_strlit("str_len");
    reveal_strlit("str_char_at");
    reveal_strlit("str_find");
    reveal_strlit("str_find_from");
    reveal_strlit("str_to_int");
    reveal_strlit("str_to_int_oct");
    reveal_strlit("str_cmp");
    reveal_strlit("argc");
    reveal_strlit("vec_len");
    reveal_strlit("abs");
    reveal_strlit("max");
    reveal_strlit("min");
    reveal_strlit("rbuf_byte_at");
    reveal_strlit("fork");
    reveal_strlit("wait_pid_status");
    reveal_strlit("stat_field");
    reveal_strlit("recv_n");
    reveal_strlit("read_rbuf");
    reveal_strlit("open_append");
    reveal_strlit("close_fd");
    reveal_strlit("seek");
    reveal_strlit("tcp_connect");
    reveal_strlit("sendfile_range");
    reveal_strlit("now_s");
    reveal_strlit("str_to_float");
    reveal_strlit("int_to_f64");
    assert("str_contains"@.len() == 12);
    assert("str_starts_with"@.len() == 15);
    assert("str_ends_with"@.len() == 13);
    assert("str_eq"@.len() == 6);
    assert("str_concat"@.len() == 10);
    assert("str_lower"@.len() == 9);
    assert("str_upper"@.len() == 9);
    assert("str_replace"@.len() == 11);
    assert("str_replace_first"@.len() == 17);
    assert("str_repeat"@.len() == 10);
    assert("str_slice"@.len() == 9);
    assert("str_trim"@.len() == 8);
    assert("str_reverse"@.len() == 11);
    assert("str_translate"@.len() == 13);
    assert("chr"@.len() == 3);
    assert("int_to_str"@.len() == 10);
    assert("float_to_str"@.len() == 12);
    assert("read_file"@.len() == 9);
    assert("read_stdin"@.len() == 10);
    assert("recv_str"@.len() == 8);
    assert("rbuf_str"@.len() == 8);
    assert("argv"@.len() == 4);
    assert("sb_str"@.len() == 6);
    assert("str_len"@.len() == 7);
    assert("str_char_at"@.len() == 11);
    assert("str_find"@.len() == 8);
    assert("str_find_from"@.len() == 13);
    assert("str_to_int"@.len() == 10);
    assert("str_to_int_oct"@.len() == 14);
    assert("str_cmp"@.len() == 7);
    assert("argc"@.len() == 4);
    assert("vec_len"@.len() == 7);
    assert("abs"@.len() == 3);
    assert("max"@.len() == 3);
    assert("min"@.len() == 3);
    assert("rbuf_byte_at"@.len() == 12);
    assert("fork"@.len() == 4);
    assert("wait_pid_status"@.len() == 15);
    assert("stat_field"@.len() == 10);
    assert("recv_n"@.len() == 6);
    assert("read_rbuf"@.len() == 9);
    assert("open_append"@.len() == 11);
    assert("close_fd"@.len() == 8);
    assert("seek"@.len() == 4);
    assert("tcp_connect"@.len() == 11);
    assert("sendfile_range"@.len() == 14);
    assert("now_s"@.len() == 5);
    assert("str_to_float"@.len() == 12);
    assert("int_to_f64"@.len() == 10);
    assert("str_contains"@[0] != "float_to_str"@[0]);
    assert("str_contains"@[0] != "rbuf_byte_at"@[0]);
    assert("str_contains"@[4] != "str_to_float"@[4]);
    assert("str_starts_with"@[0] != "wait_pid_status"@[0]);
    assert("str_ends_with"@[4] != "str_translate"@[4]);
    assert("str_ends_with"@[4] != "str_find_from"@[4]);
    assert("str_eq"@[1] != "sb_str"@[1]);
    assert("str_eq"@[0] != "recv_n"@[0]);
}

/// The variant constructors of the built-in `Option` and `Result`.
pub open spec fn is_builtin_variant_spec(n: Seq<char>) -> bool {
    n == "Some"@ || n == "None"@ || n == "Ok"@ || n == "Err"@
}

pub fn is_builtin_variant(name: &String) -> (r: bool)
    ensures
        r == is_builtin_variant_spec(name@),
{
    text_eq(name, "Some") || text_eq(name, "None") || text_eq(name, "Ok") || text_eq(name, "Err")
}

/// `str::parse::<usize>` on `s`.
pub fn parse_usize(s: &String) -> (r: Option<usize>)
    ensures
        r matches Some(v) ==> parse_usize_spec(s@) == Some(v as nat),
        r is None ==> parse_usize_spec(s@) is None,
{
    let cs = crate::text::str_chars(s.as_str());
    let mut k: usize = 0;
    if cs.len() > 0 && cs[0] == '+' {
        k = 1;
    }
    let ghost digits = digits_part(s@);
    assert(digits =~= cs@.skip(k as int));
    if k >= cs.len() {
        return None;
    }
    let mut value: usize = 0;
    let start = k;
    while k < cs.len()
        invariant
            start <= k <= cs.len(),
            start < cs.len(),
            cs@ == s@,
            digits == cs@.skip(start as int),
            digits == digits_part(s@),
            digits.len() > 0,
            forall|j: int| start <= j < k ==> '0' <= #[trigger] cs@[j] <= '9',
            value as nat == digits_value(cs@.subrange(start as int, k as int)),
        decreases cs.len() - k,
    {
        let c = cs[k];
        proof {
            assert(cs@.subrange(start as int, k + 1).drop_last() =~= cs@.subrange(start as int, k as int));
        }
        if !('0' <= c && c <= '9') {
            proof {
                let j = (k - start) as int;
                assert(digits[j] == c);
                assert(!('0' <= digits[j] <= '9'));
                assert(!all_digits(digits));
            }
            return None;
        }
        let d = (c as u32 - '0' as u32) as usize;
        if value > (usize::MAX - d) / 10 {
            proof {
                assert(value * 10 + d > usize::MAX) by (nonlinear_arith)
                    requires value > (usize::MAX - d) / 10, d < 10;
                assert(cs@.subrange(start as int, k + 1) =~= digits.take((k - start) as int + 1));
                assert(digits_value(digits.take((k - start) as int + 1)) == value * 10 + d);
                if all_digits(digits) {
                    lemma_digits_value_mono(digits, (k - start) as int + 1);
                }
            }
            return None;
        }
        assert(value * 10 + d <= usize::MAX) by (nonlinear_arith)
            requires value <= (usize::MAX - d) / 10, d < 10;
        value = value * 10 + d;
        k = k + 1;
    }
    assert(cs@.subrange(start as int, cs.len() as int) =~= digits);
    Some(value)
}

/// A prefix's value never exceeds the whole value.
pub proof fn lemma_digits_value_mono(d: Seq<char>, n: int)
    requires
        0 <= n <= d.len(),
        forall|k: int| 0 <= k < d.len() ==> '0' <= #[trigger] d[k] <= '9',
    ensures
        digits_value(d.take(n)) <= digits_value(d),
    decreases d.len() - n,
{
    if n < d.len() {
        lemma_digits_value_mono(d, n + 1);
        assert(d.take(n + 1).drop_last() =~= d.take(n));
        assert(digits_value(d.take(n)) <= digits_value(d.take(n)) * 10) by (nonlinear_arith);
    } else {
        assert(d.take(n) =~= d);
    }
}

/// Length of an `Array<T, N>` type argument.
pub fn array_len(ty: &CheckedType) -> (r: Option<usize>)
    ensures
        r matches Some(v) ==> array_len_spec(ty@) == Some(v as nat),
        r is None ==> array_len_spec(ty@) is None,
{
    match ty {
        CheckedType::Const(value) => parse_usize(value),
        _ => None,
    }
}

/// The checked type of a written type annotation.
#[verifier::loop_isolation(false)]
pub fn type_from_node(ty: &TypeNode) -> (r: CheckedType)
    ensures
        r@ == from_type_view(ty@),
    decreases ty,
{
    match ty {
        TypeNode::TypeExpr { name, args } => {
            let mut out: Vec<CheckedType> = Vec::new();
            let mut k: usize = 0;
            proof {
                lemma_types_view(args@);
                lemma_from_type_views(types_view(args@));
            }
            while k < args.len()
                invariant
                    k <= args.len(),
                    out@.len() == k,
                    forall|j: int| 0 <= j < k ==> out@[j]@ == from_type_view(args@[j]@),
                decreases args.len() - k,
            {
                proof {
                    assert(decreases_to!(*ty => *args));
                    assert(decreases_to!(*args => args@));
                    assert(decreases_to!(args@ => args@[k as int]));
                }
                out.push(type_from_node(&args[k]));
                k = k + 1;
            }
            proof {
                lemma_tvs(out@);
                assert(tvs(out@) =~= from_type_views(types_view(args@)));
            }
            CheckedType::Named { name: name.clone(), args: out }
        },
        TypeNode::ConstTypeArg { value } => CheckedType::Const(value.clone()),
    }
}

/// Whether a value of type `actual` may be used where `expected` is.
#[verifier::loop_isolation(false)]
pub fn types_compatible(expected: &CheckedType, actual: &CheckedType) -> (r: bool)
    ensures
        r == compat(expected@, actual@),
    decreases expected,
{
    if expected.is_unknown() || actual.is_unknown() {
        return true;
    }
    if let (CheckedType::Named { name, args }, CheckedType::ArrayLiteral(elts)) = (expected, actual) {
        proof {
            lemma_tvs(args@);
            lemma_tvs(elts@);
        }
        if text_eq(name, "Array") && args.len() == 2 {
            match array_len(&args[1]) {
                None => {
                    return true;
                },
                Some(n) => {
                    if elts.len() != n {
                        return false;
                    }
                    let mut k: usize = 0;
                    while k < elts.len()
                        invariant
                            k <= elts.len(),
                            forall|j: int| 0 <= j < k ==> compat(tv(args@[0]), #[trigger] tvs(elts@)[j]),
                        decreases elts.len() - k,
                    {
                        proof {
                            assert(decreases_to!(*expected => *args));
                            assert(decreases_to!(*args => args@));
                            assert(decreases_to!(args@ => args@[0]));
                        }
                        if !types_compatible(&args[0], &elts[k]) {
                            assert(!compat(tv(args@[0]), tvs(elts@)[k as int]));
                            return false;
                        }
                        k = k + 1;
                    }
                    return true;
                },
            }
        }
    }
    match (expected, actual) {
        (CheckedType::Named { name, .. }, CheckedType::IntLiteral) => {
            if text_eq(name, "i32") || text_eq(name, "i64") {
                return true;
            }
        },
        (CheckedType::Named { name, .. }, CheckedType::FloatLiteral) => {
            if text_eq(name, "f32") || text_eq(name, "f64") {
                return true;
            }
        },
        (CheckedType::Named { name, .. }, CheckedType::StringLiteral) => {
            if text_eq(name, "String") || text_eq(name, "Str") {
                return true;
            }
        },
        _ => {},
    }
    checked_eq(expected, actual)
}

/// Exec form of [`numeric_result`].
pub fn numeric_result_type(left: &CheckedType, right: &CheckedType) -> (r: CheckedType)
    ensures
        r@ == numeric_result(left@, right@),
{
    if left.is_unknown() || right.is_unknown() {
        return CheckedType::Unknown;
    }
    if checked_eq(left, right) {
        return left.clone();
    }
    if left.is_int_literal() && right.is_integer_scalar() {
        return right.clone();
    }
    if right.is_int_literal() && left.is_integer_scalar() {
        return left.clone();
    }
    if left.is_float_literal() && right.is_float_scalar() {
        return right.clone();
    }
    if right.is_float_literal() && left.is_float_scalar() {
        return left.clone();
    }
    CheckedType::Unknown
}

/// The type annotation that a checked type can be written as, if any
/// (unknown, constant and array-literal types have none).
pub open spec fn to_node_spec(t: TypeVal) -> Option<TypeView>
    decreases t,
{
    match t {
        TypeVal::IntLiteral => Some(TypeView::TypeExpr { name: "i32"@, args: Seq::empty() }),
        TypeVal::FloatLiteral => Some(TypeView::TypeExpr { name: "f64"@, args: Seq::empty() }),
        TypeVal::StringLiteral => Some(TypeView::TypeExpr { name: "String"@, args: Seq::empty() }),
        TypeVal::Named { name, args } => match to_nodes_spec(args) {
            Some(ns) => Some(TypeView::TypeExpr { name, args: ns }),
            None => None,
        },
        _ => None,
    }
}

pub open spec fn to_nodes_spec(ts: Seq<TypeVal>) -> Option<Seq<TypeView>>
    decreases ts,
{
    if ts.len() == 0 {
        Some(Seq::empty())
    } else {
        match (to_node_spec(ts[0]), to_nodes_spec(ts.drop_first())) {
            (Some(n), Some(rest)) => Some(seq![n] + rest),
            _ => None,
        }
    }
}

proof fn lemma_to_nodes(ts: Seq<TypeVal>, k: int)
    requires
        0 <= k <= ts.len(),
        forall|j: int| 0 <= j < k ==> #[trigger] to_node_spec(ts[j]) is Some,
    ensures
        to_nodes_spec(ts.take(k)) is Some,
        to_nodes_spec(ts.take(k)).unwrap().len() == k,
        forall|j: int| 0 <= j < k ==> #[trigger] to_nodes_spec(ts.take(k)).unwrap()[j] == to_node_spec(ts[j]).unwrap(),
        k < ts.len() && to_node_spec(ts[k]) is None ==> to_nodes_spec(ts) is None,
    decreases k,
{
    if k < ts.len() && to_node_spec(ts[k]) is None {
        lemma_to_nodes_none(ts, k);
    }
    if k > 0 {
        let t = ts.take(k);
        assert forall|j: int| 0 <= j < k - 1 implies #[trigger] to_node_spec(ts.drop_first()[j]) is Some by {
            assert(ts.drop_first()[j] == ts[j + 1]);
        }
        lemma_to_nodes(ts.drop_first(), k - 1);
        assert(t.drop_first() =~= ts.drop_first().take(k - 1));
        assert(t[0] == ts[0]);
        assert(to_node_spec(ts[0]) is Some);
        let rest = to_nodes_spec(ts.drop_first().take(k - 1)).unwrap();
        assert(to_nodes_spec(t) == Some(seq![to_node_spec(ts[0]).unwrap()] + rest));
        assert forall|j: int| 0 <= j < k implies #[trigger] to_nodes_spec(ts.take(k)).unwrap()[j] == to_node_spec(ts[j]).unwrap() by {
            if j > 0 {
                assert(ts.drop_first()[j - 1] == ts[j]);
            }
        }
    } else {
        assert(ts.take(0) =~= Seq::<TypeVal>::empty());
    }
}

proof fn lemma_to_nodes_none(ts: Seq<TypeVal>, k: int)
    requires
        0 <= k < ts.len(),
        to_node_spec(ts[k]) is None,
    ensures
        to_nodes_spec(ts) is None,
    decreases k,
{
    if k > 0 {
        lemma_to_nodes_none(ts.drop_first(), k - 1);
    }
}

/// Best-effort `CheckedType` to `TypeNode` conversion.
#[verifier::loop_isolation(false)]
pub fn checked_type_to_node(ty: &CheckedType) -> (r: Option<TypeNode>)
    ensures
        r matches Some(n) ==> to_node_spec(ty@) == Some(n@),
        r is None ==> to_node_spec(ty@) is None,
    decreases ty,
{
    match ty {
        CheckedType::IntLiteral => {
            let n = TypeNode::TypeExpr { name: text_of("i32"), args: Vec::new() };
            assert(types_view(Seq::<TypeNode>::empty()) =~= Seq::<TypeView>::empty());
            Some(n)
        },
        CheckedType::FloatLiteral => {
            let n = TypeNode::TypeExpr { name: text_of("f64"), args: Vec::new() };
            assert(types_view(Seq::<TypeNode>::empty()) =~= Seq::<TypeView>::empty());
            Some(n)
        },
        CheckedType::StringLiteral => {
            let n = TypeNode::TypeExpr { name: text_of("String"), args: Vec::new() };
            assert(types_view(Seq::<TypeNode>::empty()) =~= Seq::<TypeView>::empty());
            Some(n)
        },
        CheckedType::Named { name, args } => {
            proof {
                lemma_tvs(args@);
            }
            let mut out: Vec<TypeNode> = Vec::new();
            let mut k: usize = 0;
            while k < args.len()
                invariant
                    k <= args.len(),
                    out@.len() == k,
                    forall|j: int| 0 <= j < k ==> #[trigger] to_node_spec(tvs(args@)[j]) is Some,
                    forall|j: int| 0 <= j < k ==> Some(#[trigger] out@[j]@) == to_node_spec(tvs(args@)[j]),
                decreases args.len() - k,
            {
                proof {
                    assert(decreases_to!(*ty => *args));
                    assert(decreases_to!(*args => args@));
                    assert(decreases_to!(args@ => args@[k as int]));
                }
                match checked_type_to_node(&args[k]) {
                    Some(n) => out.push(n),
                    None => {
                        proof {
                            lemma_to_nodes(tvs(args@), k as int);
                        }
                        return None;
                    },
                }
                k = k + 1;
            }
            proof {
                assert(tvs(args@).take(k as int) =~= tvs(args@));
                lemma_to_nodes(tvs(args@), k as int);
                lemma_types_view(out@);
                let ts = tvs(args@);
                let ns = to_nodes_spec(ts.take(k as int)).unwrap();
                assert(to_nodes_spec(ts) == to_nodes_spec(ts.take(k as int)));
                assert forall|j: int| 0 <= j < k implies #[trigger] types_view(out@)[j] == ns[j] by {
                    assert(types_view(out@)[j] == type_view(out@[j]));
                    assert(Some(out@[j]@) == to_node_spec(ts[j]));
                }
                assert(types_view(out@) =~= ns);
            }
            Some(TypeNode::TypeExpr { name: name.clone(), args: out })
        },
        _ => None,
    }
}

} // verus!
