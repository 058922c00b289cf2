//! Symbol index: a program's top-level functions and structs with their
//! source ranges, signatures and doc comments (the data behind hover,
//! go-to-definition and completion).
use vstd::prelude::*;
use crate::ast::{
    field_decls_v, item_v, items_v, lemma_types_view, params_v, types_view, FieldDecl, Item, ItemV, Param,
    SItem, TypeNode, TypeView,
};
use crate::checked_type::join_text;
use crate::source::{line_col_of, line_starts_of, LineIndex, Span, Spanned};
use crate::text::{
    at_char_boundary, byte_len, byte_offset, char_width, chars_to_string, is_white_space,
    is_whitespace, lemma_byte_offset_full, lemma_byte_offset_mono, lemma_byte_offset_step,
    str_chars,
};

verus! {

/// 1-based source range (line/col .. end line/end col), LSP-style.
#[derive(Clone, Copy, Debug, PartialEq, Eq, Structural)]
pub struct Range {
    pub line: u32,
    pub col: u32,
    pub end_line: u32,
    pub end_col: u32,
}

#[derive(Debug)]
pub struct FunctionSymbol {
    pub name: String,
    pub params: Vec<String>,
    pub return_type: String,
    pub range: Range,
    pub doc: Option<String>,
}

#[derive(Debug)]
pub struct StructSymbol {
    pub name: String,
    pub fields: Vec<String>,
    pub range: Range,
    pub doc: Option<String>,
}

#[derive(Debug)]
pub struct SymbolIndex {
    pub functions: Vec<FunctionSymbol>,
    pub structs: Vec<StructSymbol>,
}

// ---------------------------------------------------------------------------
// Type rendering
// ---------------------------------------------------------------------------

/// How a type annotation is written: `i32`, `Vec<i32>`, `Array<Student, 3>`.
pub open spec fn type_text(t: TypeView) -> Seq<char>
    decreases t,
{
    match t {
        TypeView::TypeExpr { name, args } => {
            if args.len() == 0 {
                name
            } else {
                name + "<"@ + join_text(type_texts(args), ", "@) + ">"@
            }
        },
        TypeView::ConstTypeArg { value } => value,
    }
}

pub open spec fn type_texts(ts: Seq<TypeView>) -> Seq<Seq<char>>
    decreases ts,
{
    if ts.len() == 0 {
        Seq::empty()
    } else {
        seq![type_text(ts[0])] + type_texts(ts.drop_first())
    }
}

proof fn lemma_type_texts(ts: Seq<TypeView>)
    ensures
        type_texts(ts).len() == ts.len(),
        forall|j: int| 0 <= j < ts.len() ==> #[trigger] type_texts(ts)[j] == type_text(ts[j]),
    decreases ts.len(),
{
    if ts.len() > 0 {
        lemma_type_texts(ts.drop_first());
        assert forall|j: int| 0 <= j < ts.len() implies #[trigger] type_texts(ts)[j] == type_text(
            ts[j],
        ) by {
            if j > 0 {
                assert(ts.drop_first()[j - 1] == ts[j]);
            }
        }
    }
}

/// Renders a type annotation as xlang source text.
#[verifier::loop_isolation(false)]
pub fn type_to_str(ty: &TypeNode) -> (r: String)
    ensures
        r@ == type_text(ty@),
    decreases ty,
{
    match ty {
        TypeNode::TypeExpr { name, args } => {
            proof {
                lemma_types_view(args@);
                lemma_type_texts(types_view(args@));
            }
            if args.len() == 0 {
                name.clone()
            } else {
                let ghost parts = type_texts(types_view(args@));
                let mut out = name.clone();
                out.append("<");
                let ghost base = out@;
                let mut k: usize = 0;
                while k < args.len()
                    invariant
                        k <= args.len(),
                        out@ == base + join_text(parts.take(k as int), ", "@),
                    decreases args.len() - k,
                {
                    proof {
                        assert(decreases_to!(*ty => *args));
                        assert(decreases_to!(*args => args@));
                        assert(decreases_to!(args@ => args@[k as int]));
                    }
                    let part = type_to_str(&args[k]);
                    if k > 0 {
                        out.append(", ");
                    }
                    out.append(part.as_str());
                    proof {
                        assert(parts.take(k + 1).drop_last() =~= parts.take(k as int));
                        if k == 0 {
                            assert(parts.take(1) =~= seq![parts[0]]);
                        }
                    }
                    k = k + 1;
                }
                out.append(">");
                assert(parts.take(args.len() as int) =~= parts);
                out
            }
        },
        TypeNode::ConstTypeArg { value } => value.clone(),
    }
}

// ---------------------------------------------------------------------------
// Lines and doc comments
// ---------------------------------------------------------------------------

/// `l` without a trailing `'\r'`.
pub open spec fn strip_cr(l: Seq<char>) -> Seq<char> {
    if l.len() > 0 && l.last() == '\r' {
        l.drop_last()
    } else {
        l
    }
}

/// `str::lines` from index `i`, the current line starting at `start`: split
/// at each `'\n'` (dropping a `'\r'` before it); no empty line after a final
/// `'\n'`.
pub open spec fn lines_from(s: Seq<char>, start: int, i: int) -> Seq<Seq<char>>
    decreases s.len() - i,
{
    if i < 0 || i >= s.len() {
        if 0 <= start < s.len() {
            seq![s.subrange(start, s.len() as int)]
        } else {
            Seq::empty()
        }
    } else if s[i] == '\n' {
        seq![strip_cr(s.subrange(start, i))] + lines_from(s, i + 1, i + 1)
    } else {
        lines_from(s, start, i + 1)
    }
}

pub open spec fn lines_of(s: Seq<char>) -> Seq<Seq<char>> {
    lines_from(s, 0, 0)
}

/// Index of the first non-whitespace character at or after `k` (or the end).
pub open spec fn skip_ws(l: Seq<char>, k: int) -> int
    decreases l.len() - k,
{
    if 0 <= k < l.len() && is_white_space(l[k]) {
        skip_ws(l, k + 1)
    } else {
        k
    }
}

/// One past the last non-whitespace character before `k` (or 0).
pub open spec fn skip_ws_back(l: Seq<char>, k: int) -> int
    decreases k,
{
    if 0 < k <= l.len() && is_white_space(l[k - 1]) {
        skip_ws_back(l, k - 1)
    } else {
        k
    }
}

pub open spec fn trim_start(l: Seq<char>) -> Seq<char> {
    l.skip(skip_ws(l, 0))
}

pub open spec fn trim(l: Seq<char>) -> Seq<char> {
    let t = trim_start(l);
    t.take(skip_ws_back(t, t.len() as int))
}

pub open spec fn is_doc_line(l: Seq<char>) -> bool {
    let t = trim_start(l);
    t.len() >= 3 && t[0] == '/' && t[1] == '/' && t[2] == '/'
}

/// The text of a `///` line: after the slashes, leading whitespace removed.
pub open spec fn doc_line_text(l: Seq<char>) -> Seq<char> {
    trim_start(trim_start(l).skip(3))
}

/// Last line at or before `i` that is not blank (or -1).
pub open spec fn last_nonblank(ls: Seq<Seq<char>>, i: int) -> int
    decreases i + 1,
{
    if i < 0 || i >= ls.len() {
        i
    } else if trim(ls[i]).len() == 0 {
        last_nonblank(ls, i - 1)
    } else {
        i
    }
}

/// The texts of the run of `///` lines ending at line `i`, in order.
pub open spec fn doc_run(ls: Seq<Seq<char>>, i: int) -> Seq<Seq<char>>
    decreases i + 1,
{
    if i < 0 || i >= ls.len() || !is_doc_line(ls[i]) {
        Seq::empty()
    } else {
        doc_run(ls, i - 1).push(doc_line_text(ls[i]))
    }
}

/// The doc comment that ends right before the text `before`: consecutive
/// `///` lines after skipping trailing blank lines, joined with `'\n'`.
pub open spec fn doc_of(before: Seq<char>) -> Option<Seq<char>> {
    let ls = lines_of(before);
    let run = doc_run(ls, last_nonblank(ls, ls.len() - 1));
    if run.len() == 0 {
        None
    } else {
        Some(join_text(run, seq!['\n']))
    }
}

/// The characters of `s` that lie before byte offset `b`, a character
/// boundary.
pub open spec fn text_before(s: Seq<char>, b: int) -> Seq<char> {
    s.take(choose|i: int| 0 <= i <= s.len() && byte_offset(s, i) == b)
}

/// The lines of `cs`, each as a vector of characters.
fn split_lines(cs: &Vec<char>) -> (r: Vec<Vec<char>>)
    ensures
        r@.map_values(|l: Vec<char>| l@) == lines_of(cs@),
{
    let mut out: Vec<Vec<char>> = Vec::new();
    let mut cur: Vec<char> = Vec::new();
    let mut start: usize = 0;
    let mut i: usize = 0;
    while i < cs.len()
        invariant
            start <= i <= cs.len(),
            cur@ == cs@.subrange(start as int, i as int),
            lines_of(cs@) == out@.map_values(|l: Vec<char>| l@) + lines_from(cs@, start as int, i as int),
        decreases cs.len() - i,
    {
        let c = cs[i];
        if c == '\n' {
            let mut line = cur;
            let n = line.len();
            if n > 0 && line[n - 1] == '\r' {
                line.pop();
            }
            let ghost before = out@.map_values(|l: Vec<char>| l@);
            proof {
                assert(line@ == strip_cr(cs@.subrange(start as int, i as int)));
            }
            out.push(line);
            proof {
                assert(out@.map_values(|l: Vec<char>| l@) =~= before.push(strip_cr(cs@.subrange(start as int, i as int))));
                assert(before + lines_from(cs@, start as int, i as int) =~= out@.map_values(|l: Vec<char>| l@) + lines_from(cs@, i + 1, i + 1));
            }
            cur = Vec::new();
            start = i + 1;
            i = i + 1;
            assert(cur@ =~= cs@.subrange(start as int, i as int));
        } else {
            cur.push(c);
            i = i + 1;
            assert(cur@ =~= cs@.subrange(start as int, i as int));
        }
    }
    if start < cs.len() {
        let ghost before = out@.map_values(|l: Vec<char>| l@);
        out.push(cur);
        assert(out@.map_values(|l: Vec<char>| l@) =~= before + lines_from(cs@, start as int, i as int));
    } else {
        assert(lines_from(cs@, start as int, i as int) =~= Seq::<Seq<char>>::empty());
        assert(out@.map_values(|l: Vec<char>| l@) =~= out@.map_values(|l: Vec<char>| l@) + Seq::<Seq<char>>::empty());
    }
    out
}

fn skip_ws_exec(l: &Vec<char>, k: usize) -> (r: usize)
    requires
        k <= l.len(),
    ensures
        r == skip_ws(l@, k as int),
        k <= r <= l.len(),
{
    let mut j = k;
    while j < l.len() && is_whitespace(l[j])
        invariant
            k <= j <= l.len(),
            skip_ws(l@, j as int) == skip_ws(l@, k as int),
        decreases l.len() - j,
    {
        j = j + 1;
    }
    j
}

pub(crate) fn skip_ws_back_exec(l: &Vec<char>, from: usize, k: usize) -> (r: usize)
    requires
        from <= k <= l.len(),
    ensures
        r == from + skip_ws_back(l@.skip(from as int), (k - from) as int),
        from <= r <= k,
{
    let ghost t = l@.skip(from as int);
    let mut j = k;
    while j > from && is_whitespace(l[j - 1])
        invariant
            from <= j <= k <= l.len(),
            t == l@.skip(from as int),
            skip_ws_back(t, (j - from) as int) == skip_ws_back(t, (k - from) as int),
        decreases j,
    {
        assert(t[j - from - 1] == l@[j - 1]);
        j = j - 1;
    }
    proof {
        if j > from {
            assert(t[j - from - 1] == l@[j - 1]);
        }
    }
    j
}

proof fn lemma_skip_ws_shift(l: Seq<char>, from: int, k: int)
    requires
        0 <= from <= k <= l.len(),
    ensures
        skip_ws(l.skip(from), k - from) == skip_ws(l, k) - from,
    decreases l.len() - k,
{
    if k < l.len() {
        assert(l.skip(from)[k - from] == l[k]);
        lemma_skip_ws_shift(l, from, k + 1);
    }
}

/// Whether the line holds only whitespace.
fn is_blank_line(l: &Vec<char>) -> (r: bool)
    ensures
        r == (trim(l@).len() == 0),
{
    let a = skip_ws_exec(l, 0);
    let e = skip_ws_back_exec(l, a, l.len());
    proof {
        let t = trim_start(l@);
        assert(t =~= l@.skip(a as int));
        assert(trim(l@).len() == e - a);
    }
    e == a
}

/// The text of a `///` line, or `None` for any other line.
fn doc_line(l: &Vec<char>) -> (r: Option<Vec<char>>)
    ensures
        r is Some <==> is_doc_line(l@),
        r matches Some(t) ==> t@ == doc_line_text(l@),
{
    let a = skip_ws_exec(l, 0);
    proof {
        assert(trim_start(l@) =~= l@.skip(a as int));
    }
    if l.len() - a >= 3 && l[a] == '/' && l[a + 1] == '/' && l[a + 2] == '/' {
        let c = skip_ws_exec(l, a + 3);
        let mut text: Vec<char> = Vec::new();
        let mut m: usize = c;
        while m < l.len()
            invariant
                c <= m <= l.len(),
                text@ == l@.subrange(c as int, m as int),
            decreases l.len() - m,
        {
            text.push(l[m]);
            m = m + 1;
            assert(text@ =~= l@.subrange(c as int, m as int));
        }
        proof {
            let from = (a + 3) as int;
            lemma_skip_ws_shift(l@, from, from);
            assert(trim_start(l@).skip(3) =~= l@.skip(from));
            assert(l@.skip(from).skip(c - from) =~= l@.subrange(c as int, l.len() as int));
        }
        Some(text)
    } else {
        None
    }
}

/// `b` moved back to the end of `s` when it lies past it.
pub open spec fn clamp_offset(s: Seq<char>, b: int) -> int {
    if b <= byte_len(s) {
        b
    } else {
        byte_len(s) as int
    }
}

/// The doc comment (`///` lines) right before byte offset `item_start` of
/// `source`, joined with newlines.
pub fn doc_before(source: &str, item_start: u32) -> (r: Option<String>)
    requires
        at_char_boundary(source@, clamp_offset(source@, item_start as int)),
    ensures
        r matches Some(d) ==> doc_of(text_before(source@, clamp_offset(source@, item_start as int)))
            == Some(d@),
        r is None ==> doc_of(text_before(source@, clamp_offset(source@, item_start as int))) is None,
{
    let cs = str_chars(source);
    let ghost b = clamp_offset(source@, item_start as int);
    // Count the characters before the boundary.
    let mut n: usize = 0;
    let mut off: u64 = 0;
    while n < cs.len() && off < item_start as u64
        invariant
            n <= cs.len(),
            cs@ == source@,
            off == byte_offset(cs@, n as int),
            n > 0 ==> byte_offset(cs@, n - 1) < item_start,
        decreases cs.len() - n,
    {
        proof {
            lemma_byte_offset_step(cs@, n as int);
        }
        off = off + char_width(cs[n]) as u64;
        n = n + 1;
    }
    proof {
        lemma_byte_offset_full(cs@);
        let len = cs@.len() as int;
        let i = choose|i: int| 0 <= i <= cs@.len() && byte_offset(cs@, i) == b;
        if (n as int) < i {
            lemma_byte_offset_mono(cs@, n as int, i);
        } else if i < n {
            lemma_byte_offset_mono(cs@, i, n - 1);
            lemma_byte_offset_mono(cs@, n - 1, len);
        }
        assert(i == n);
        assert(text_before(source@, b) == cs@.take(n as int));
    }
    let mut before: Vec<char> = Vec::new();
    let mut k: usize = 0;
    while k < n
        invariant
            k <= n <= cs.len(),
            before@ == cs@.take(k as int),
        decreases n - k,
    {
        before.push(cs[k]);
        k = k + 1;
        assert(before@ =~= cs@.take(k as int));
    }
    let lines = split_lines(&before);
    let ghost ls = lines_of(before@);
    // Skip trailing blank lines.
    let mut i: usize = lines.len();
    while i > 0 && is_blank_line(&lines[i - 1])
        invariant
            i <= lines@.len(),
            lines@.map_values(|l: Vec<char>| l@) == ls,
            last_nonblank(ls, ls.len() - 1) == last_nonblank(ls, i - 1),
        decreases i,
    {
        assert(ls[i - 1] == lines@[i - 1]@);
        i = i - 1;
    }
    proof {
        if i > 0 {
            assert(ls[i - 1] == lines@[i - 1]@);
        }
        assert(last_nonblank(ls, ls.len() - 1) == i - 1);
    }
    // Collect the run of `///` lines that ends there.
    let mut run: Vec<Vec<char>> = Vec::new();
    let mut j: usize = i;
    while j > 0
        invariant
            j <= i <= lines@.len(),
            lines@.map_values(|l: Vec<char>| l@) == ls,
            doc_run(ls, i - 1) == doc_run(ls, j - 1) + run@.map_values(|l: Vec<char>| l@),
        ensures
            doc_run(ls, i - 1) == run@.map_values(|l: Vec<char>| l@),
        decreases j,
    {
        assert(ls[j - 1] == lines@[j - 1]@);
        match doc_line(&lines[j - 1]) {
            Some(t) => {
                let ghost tv = t@;
                let ghost old_run = run@.map_values(|l: Vec<char>| l@);
                run.insert(0, t);
                proof {
                    assert(run@.map_values(|l: Vec<char>| l@) =~= seq![tv] + old_run);
                    assert(doc_run(ls, j - 1) == doc_run(ls, j - 2).push(tv));
                    assert(doc_run(ls, j - 2).push(tv) + old_run =~= doc_run(ls, j - 2) + (seq![tv]
                        + old_run));
                }
                j = j - 1;
            },
            None => {
                assert(doc_run(ls, j - 1) =~= Seq::<Seq<char>>::empty());
                assert(doc_run(ls, j - 1) + run@.map_values(|l: Vec<char>| l@) =~= run@.map_values(
                    |l: Vec<char>| l@,
                ));
                break ;
            },
        }
    }
    proof {
        if j == 0 {
            assert(doc_run(ls, -1) =~= Seq::<Seq<char>>::empty());
            assert(doc_run(ls, -1) + run@.map_values(|l: Vec<char>| l@) =~= run@.map_values(
                |l: Vec<char>| l@,
            ));
        }
    }
    if run.len() == 0 {
        return None;
    }
    let ghost parts = run@.map_values(|l: Vec<char>| l@);
    let mut out = String::new();
    let mut q: usize = 0;
    while q < run.len()
        invariant
            q <= run.len(),
            parts == run@.map_values(|l: Vec<char>| l@),
            out@ == join_text(parts.take(q as int), seq!['\n']),
        decreases run.len() - q,
    {
        let ghost prev = out@;
        if q > 0 {
            out.push('\n');
        }
        let t = chars_to_string(run[q].as_slice());
        out.append(t.as_str());
        proof {
            assert(parts[q as int] == run@[q as int]@);
            assert(parts.take(q + 1).drop_last() =~= parts.take(q as int));
            if q == 0 {
                assert(parts.take(1) =~= seq![parts[0]]);
            } else {
                assert(prev.push('\n') =~= prev + seq!['\n']);
            }
        }
        q = q + 1;
    }
    assert(parts.take(run.len() as int) =~= parts);
    Some(out)
}

// ---------------------------------------------------------------------------
// The index
// ---------------------------------------------------------------------------

/// The plain-value content of a [`FunctionSymbol`].
pub struct FunctionSymbolView {
    pub name: Seq<char>,
    pub params: Seq<Seq<char>>,
    pub return_type: Seq<char>,
    pub range: Range,
    pub doc: Option<Seq<char>>,
}

/// The plain-value content of a [`StructSymbol`].
pub struct StructSymbolView {
    pub name: Seq<char>,
    pub fields: Seq<Seq<char>>,
    pub range: Range,
    pub doc: Option<Seq<char>>,
}

pub open spec fn opt_text(o: Option<String>) -> Option<Seq<char>> {
    match o {
        Some(s) => Some(s@),
        None => None,
    }
}

impl View for FunctionSymbol {
    type V = FunctionSymbolView;

    open spec fn view(&self) -> FunctionSymbolView {
        FunctionSymbolView {
            name: self.name@,
            params: self.params@.map_values(|p: String| p@),
            return_type: self.return_type@,
            range: self.range,
            doc: opt_text(self.doc),
        }
    }
}

impl View for StructSymbol {
    type V = StructSymbolView;

    open spec fn view(&self) -> StructSymbolView {
        StructSymbolView {
            name: self.name@,
            fields: self.fields@.map_values(|p: String| p@),
            range: self.range,
            doc: opt_text(self.doc),
        }
    }
}

impl View for SymbolIndex {
    type V = (Seq<FunctionSymbolView>, Seq<StructSymbolView>);

    open spec fn view(&self) -> (Seq<FunctionSymbolView>, Seq<StructSymbolView>) {
        (
            self.functions@.map_values(|f: FunctionSymbol| f@),
            self.structs@.map_values(|s: StructSymbol| s@),
        )
    }
}

/// The range of `span` in a text whose lines start at `starts`; each
/// number is cut to 32 bits.
pub open spec fn range_spec(starts: Seq<int>, span: Span) -> Range {
    let (line, col) = line_col_of(starts, span.start as int);
    let (end_line, end_col) = line_col_of(starts, span.end as int);
    Range { line: line as u32, col: col as u32, end_line: end_line as u32, end_col: end_col as u32 }
}

/// `name: Type`, as a parameter or a field is listed.
pub open spec fn binding_text(name: Seq<char>, ty: TypeView) -> Seq<char> {
    name + ": "@ + type_text(ty)
}

/// The doc comment of an item that starts at byte `start` of `source`.
pub open spec fn doc_at(source: Seq<char>, start: u32) -> Option<Seq<char>> {
    doc_of(text_before(source, clamp_offset(source, start as int)))
}

/// The function entries for items in plain-value form, in order.
pub open spec fn function_symbols_of(items: Seq<SItem>, source: Seq<char>) -> Seq<
    FunctionSymbolView,
>
    decreases items.len(),
{
    if items.len() == 0 {
        Seq::empty()
    } else {
        let prev = function_symbols_of(items.drop_last(), source);
        let it = items.last();
        match it.node {
            ItemV::FnDecl(name, params, return_type, _) => prev.push(
                FunctionSymbolView {
                    name,
                    params: params.map_values(|p: (Seq<char>, TypeView)| binding_text(p.0, p.1)),
                    return_type: type_text(return_type),
                    range: range_spec(line_starts_of(source), it.span),
                    doc: doc_at(source, it.span.start),
                },
            ),
            _ => prev,
        }
    }
}

/// The struct entries for items in plain-value form, in order.
pub open spec fn struct_symbols_of(items: Seq<SItem>, source: Seq<char>) -> Seq<StructSymbolView>
    decreases items.len(),
{
    if items.len() == 0 {
        Seq::empty()
    } else {
        let prev = struct_symbols_of(items.drop_last(), source);
        let it = items.last();
        match it.node {
            ItemV::StructDecl(name, fields) => prev.push(
                StructSymbolView {
                    name,
                    fields: fields.map_values(|f: (Seq<char>, TypeView)| binding_text(f.0, f.1)),
                    range: range_spec(line_starts_of(source), it.span),
                    doc: doc_at(source, it.span.start),
                },
            ),
            _ => prev,
        }
    }
}

/// The entries of items depend on their plain-value form alone.
pub proof fn lemma_symbols_of_views(items: Seq<Spanned<Item>>, source: Seq<char>)
    ensures
        function_symbols(items, source) == function_symbols_of(items_v(items), source),
        struct_symbols(items, source) == struct_symbols_of(items_v(items), source),
    decreases items.len(),
{
    if items.len() > 0 {
        let p = items.drop_last();
        lemma_symbols_of_views(p, source);
        let iv = items_v(items);
        let it = items.last();
        assert(iv == items_v(p).push(item_v(it)));
        assert(iv.drop_last() =~= items_v(p));
        assert(iv.last() == item_v(it));
        match it.node {
            Item::FnDecl { name, params, return_type, .. } => {
                assert(params@.map_values(|q: Param| binding_text(q.name@, q.ty@)) =~= params_v(
                    params@,
                ).map_values(|q: (Seq<char>, TypeView)| binding_text(q.0, q.1)));
            },
            Item::StructDecl { name, fields } => {
                assert(fields@.map_values(|f: FieldDecl| binding_text(f.name@, f.ty@))
                    =~= field_decls_v(fields@).map_values(
                    |f: (Seq<char>, TypeView)| binding_text(f.0, f.1),
                ));
            },
            _ => {},
        }
    }
}

/// The function entries for `items`, in order.
pub open spec fn function_symbols(items: Seq<Spanned<Item>>, source: Seq<char>) -> Seq<
    FunctionSymbolView,
>
    decreases items.len(),
{
    if items.len() == 0 {
        Seq::empty()
    } else {
        let prev = function_symbols(items.drop_last(), source);
        let it = items.last();
        match it.node {
            Item::FnDecl { name, params, return_type, .. } => prev.push(
                FunctionSymbolView {
                    name: name@,
                    params: params@.map_values(|p: Param| binding_text(p.name@, p.ty@)),
                    return_type: type_text(return_type@),
                    range: range_spec(line_starts_of(source), it.span),
                    doc: doc_at(source, it.span.start),
                },
            ),
            _ => prev,
        }
    }
}

/// The struct entries for `items`, in order.
pub open spec fn struct_symbols(items: Seq<Spanned<Item>>, source: Seq<char>) -> Seq<
    StructSymbolView,
>
    decreases items.len(),
{
    if items.len() == 0 {
        Seq::empty()
    } else {
        let prev = struct_symbols(items.drop_last(), source);
        let it = items.last();
        match it.node {
            Item::StructDecl { name, fields } => prev.push(
                StructSymbolView {
                    name: name@,
                    fields: fields@.map_values(|f: FieldDecl| binding_text(f.name@, f.ty@)),
                    range: range_spec(line_starts_of(source), it.span),
                    doc: doc_at(source, it.span.start),
                },
            ),
            _ => prev,
        }
    }
}

/// Every item starts at a character boundary of `source` (or past its end).
pub open spec fn items_at_boundaries(items: Seq<Spanned<Item>>, source: Seq<char>) -> bool {
    forall|k: int|
        0 <= k < items.len() ==> at_char_boundary(
            source,
            clamp_offset(source, (#[trigger] items[k]).span.start as int),
        )
}

fn range_of(span: &Span, lines: &LineIndex) -> (r: Range)
    ensures
        r == range_spec(lines.starts(), *span),
{
    let (line, col) = lines.line_col(span.start);
    let (end_line, end_col) = lines.line_col(span.end);
    Range { line: line as u32, col: col as u32, end_line: end_line as u32, end_col: end_col as u32 }
}

/// `name: Type`.
fn binding_string(name: &String, ty: &TypeNode) -> (r: String)
    ensures
        r@ == binding_text(name@, ty@),
{
    let mut out = name.clone();
    out.append(": ");
    let t = type_to_str(ty);
    out.append(t.as_str());
    out
}

/// Builds the symbol index of a program's top-level items over its source
/// text.
pub fn build_index(items: &[Spanned<Item>], source: &str) -> (r: SymbolIndex)
    requires
        byte_len(source@) <= u32::MAX,
        items_at_boundaries(items@, source@),
    ensures
        r@.0 == function_symbols(items@, source@),
        r@.1 == struct_symbols(items@, source@),
{
    let lines = LineIndex::new(source);
    let mut functions: Vec<FunctionSymbol> = Vec::new();
    let mut structs: Vec<StructSymbol> = Vec::new();
    let mut k: usize = 0;
    while k < items.len()
        invariant
            k <= items.len(),
            byte_len(source@) <= u32::MAX,
            items_at_boundaries(items@, source@),
            lines.starts() == line_starts_of(source@),
            functions@.map_values(|f: FunctionSymbol| f@) == function_symbols(
                items@.take(k as int),
                source@,
            ),
            structs@.map_values(|s: StructSymbol| s@) == struct_symbols(items@.take(k as int), source@),
        decreases items.len() - k,
    {
        let item = &items[k];
        assert(items@.take(k + 1).drop_last() =~= items@.take(k as int));
        assert(items@.take(k + 1).last() == items@[k as int]);
        assert(at_char_boundary(source@, clamp_offset(source@, items@[k as int].span.start as int)));
        let range = range_of(&item.span, &lines);
        let doc = doc_before(source, item.span.start);
        let ghost docv = opt_text(doc);
        assert(docv == doc_at(source@, item.span.start));
        match &item.node {
            Item::FnDecl { name, params, return_type, .. } => {
                let mut ps: Vec<String> = Vec::new();
                let mut q: usize = 0;
                while q < params.len()
                    invariant
                        q <= params.len(),
                        ps@.map_values(|p: String| p@) == params@.take(q as int).map_values(
                            |p: Param| binding_text(p.name@, p.ty@),
                        ),
                    decreases params.len() - q,
                {
                    let t = binding_string(&params[q].name, &params[q].ty);
                    let ghost old_ps = ps@.map_values(|p: String| p@);
                    let ghost tv = t@;
                    ps.push(t);
                    assert(ps@.map_values(|p: String| p@) =~= old_ps.push(tv));
                    assert(params@.take(q + 1) =~= params@.take(q as int).push(params@[q as int]));
                    assert(ps@.map_values(|p: String| p@) =~= params@.take(q + 1).map_values(
                        |p: Param| binding_text(p.name@, p.ty@),
                    ));
                    q = q + 1;
                }
                assert(params@.take(params.len() as int) =~= params@);
                let ghost before = functions@.map_values(|f: FunctionSymbol| f@);
                let f = FunctionSymbol {
                    name: name.clone(),
                    params: ps,
                    return_type: type_to_str(return_type),
                    range,
                    doc,
                };
                functions.push(f);
                assert(functions@.map_values(|f: FunctionSymbol| f@) =~= before.push(f@));
                assert(structs@.map_values(|s: StructSymbol| s@) =~= struct_symbols(
                    items@.take(k + 1),
                    source@,
                ));
            },
            Item::StructDecl { name, fields } => {
                let mut fs: Vec<String> = Vec::new();
                let mut q: usize = 0;
                while q < fields.len()
                    invariant
                        q <= fields.len(),
                        fs@.map_values(|p: String| p@) == fields@.take(q as int).map_values(
                            |f: FieldDecl| binding_text(f.name@, f.ty@),
                        ),
                    decreases fields.len() - q,
                {
                    let t = binding_string(&fields[q].name, &fields[q].ty);
                    let ghost old_fs = fs@.map_values(|p: String| p@);
                    let ghost tv = t@;
                    fs.push(t);
                    assert(fs@.map_values(|p: String| p@) =~= old_fs.push(tv));
                    assert(fields@.take(q + 1) =~= fields@.take(q as int).push(fields@[q as int]));
                    assert(fs@.map_values(|p: String| p@) =~= fields@.take(q + 1).map_values(
                        |f: FieldDecl| binding_text(f.name@, f.ty@),
                    ));
                    q = q + 1;
                }
                assert(fields@.take(fields.len() as int) =~= fields@);
                let ghost before = structs@.map_values(|s: StructSymbol| s@);
                let s = StructSymbol { name: name.clone(), fields: fs, range, doc };
                structs.push(s);
                assert(structs@.map_values(|s: StructSymbol| s@) =~= before.push(s@));
                assert(functions@.map_values(|f: FunctionSymbol| f@) =~= function_symbols(
                    items@.take(k + 1),
                    source@,
                ));
            },
            _ => {
                assert(functions@.map_values(|f: FunctionSymbol| f@) =~= function_symbols(
                    items@.take(k + 1),
                    source@,
                ));
                assert(structs@.map_values(|s: StructSymbol| s@) =~= struct_symbols(
                    items@.take(k + 1),
                    source@,
                ));
            },
        }
        k = k + 1;
    }
    assert(items@.take(items.len() as int) =~= items@);
    SymbolIndex { functions, structs }
}

} // verus!
