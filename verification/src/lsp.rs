//! Language-server logic over a document's text: live diagnostics, hover
//! (signature and doc at a position), go-to-definition (the defining range)
//! and completion (the top-level names).
use vstd::prelude::*;
use crate::ast::{item_v, items_v, lemma_items_v, program_v, Item, ItemV, Program, SItem};
use crate::checked_type::{join_offset, join_text, law_join_places_each_part};
use crate::driver::{diagnostics_to_serializable, parse_source, serial_view, SerializableDiagnostic};
use crate::error::{push_all, DiagnosticView};
use crate::lexer::lex;

use crate::source::{line_starts_of, Spanned};
use crate::symbols::{
    build_index, function_symbols, function_symbols_of,
    lemma_symbols_of_views, opt_text, struct_symbols, struct_symbols_of,
    FunctionSymbolView, Range, StructSymbolView, SymbolIndex,
};
use crate::text::{
    byte_len, lemma_lex_transitive, lemma_lex_trichotomy, lex_lt, str_chars, text_less, text_of,
};
use crate::type_rules::type_check;
use crate::grammar::p_recovering;

verus! {

// ---------------------------------------------------------------------------
// Diagnostics
// ---------------------------------------------------------------------------

/// The diagnostics that [`parse_source`] may report for `source`: the
/// lexer's, then syntax errors, then the type errors of the parsed program,
/// pushed with de-duplication.
pub open spec fn front_end_diagnostics(source: Seq<char>, ds: Seq<DiagnosticView>) -> bool {
    let parsed = p_recovering(lex(source).0, 0);
    exists|p: Program|
        {
            &&& program_v(p) == parsed.0
            &&& ds == #[trigger] push_all(
                push_all(push_all(Seq::empty(), lex(source).1), parsed.1),
                type_check(p).diags,
            )
        }
}

/// All diagnostics for `source`, in serializable form.
pub fn diagnostics(source: &str, file: &str) -> (r: Vec<SerializableDiagnostic>)
    requires
        byte_len(source@) <= u32::MAX,
    ensures
        exists|ds: Seq<DiagnosticView>|
            {
                &&& front_end_diagnostics(source@, ds)
                &&& r@.map_values(|s: SerializableDiagnostic| s@) == ds.map_values(
                    |d: DiagnosticView| serial_view(d, line_starts_of(source@), file@),
                )
            },
{
    let (program, diags) = parse_source(source, file);
    proof {
        let p = program->Some_0;
        assert(diags@ == push_all(
            push_all(push_all(Seq::empty(), lex(source@).1), p_recovering(lex(source@).0, 0).1),
            type_check(p).diags,
        ));
        assert(front_end_diagnostics(source@, diags@));
    }
    diagnostics_to_serializable(&diags, source, file)
}

// ---------------------------------------------------------------------------
// Hover and go-to-definition
// ---------------------------------------------------------------------------

/// The position `(line, col)` lies within `r`, both ends included.
pub open spec fn contains_pos(r: Range, line: u32, col: u32) -> bool {
    &&& (line > r.line || (line == r.line && col >= r.col))
    &&& (line < r.end_line || (line == r.end_line && col <= r.end_col))
}

/// `fn name(params) -> ret`.
pub open spec fn fn_signature(f: FunctionSymbolView) -> Seq<char> {
    "fn "@ + f.name + "("@ + join_text(f.params, ", "@) + ") -> "@ + f.return_type
}

/// `struct Name { fields }`.
pub open spec fn struct_signature(s: StructSymbolView) -> Seq<char> {
    "struct "@ + s.name + " { "@ + join_text(s.fields, ", "@) + " }"@
}

/// The hover signature of a struct is `struct `, its name, ` { `, then every
/// field's `name: type` text in declaration order with `, ` between each two,
/// and finally ` }`.
pub proof fn law_struct_signature_lists_fields(s: StructSymbolView)
    ensures
        ({
            let sig = struct_signature(s);
            let head = s.name.len() + 10int;
            let n = s.fields.len() as int;
            &&& sig.subrange(0, 7) == seq!['s', 't', 'r', 'u', 'c', 't', ' ']
            &&& sig.subrange(7, 7 + s.name.len() as int) == s.name
            &&& sig.subrange(7 + s.name.len() as int, head) == seq![' ', '{', ' ']
            &&& forall|k: int|
                0 <= k < n ==> sig.subrange(
                    head + join_offset(s.fields, 2, k),
                    head + join_offset(s.fields, 2, k) + s.fields[k].len(),
                ) == #[trigger] s.fields[k]
            &&& forall|k: int|
                0 <= k < n - 1 ==> sig.subrange(
                    head + join_offset(s.fields, 2, k) + (#[trigger] s.fields[k]).len(),
                    head + join_offset(s.fields, 2, k + 1),
                ) == seq![',', ' ']
            &&& sig.len() == head + (if n == 0 {
                0
            } else {
                join_offset(s.fields, 2, n - 1) + s.fields[n - 1].len()
            }) + 2
            &&& sig.subrange(sig.len() - 2, sig.len() as int) == seq![' ', '}']
        }),
{
    lemma_struct_signature_shape(s);
    let sig = struct_signature(s);
    let head = s.name.len() + 10int;
    assert forall|k: int| 0 <= k < s.fields.len() implies sig.subrange(
        head + join_offset(s.fields, 2, k),
        head + join_offset(s.fields, 2, k) + s.fields[k].len(),
    ) == #[trigger] s.fields[k] by {
        lemma_struct_signature_field(s, k);
    }
    assert forall|k: int| 0 <= k < s.fields.len() - 1 implies sig.subrange(
        head + join_offset(s.fields, 2, k) + (#[trigger] s.fields[k]).len(),
        head + join_offset(s.fields, 2, k + 1),
    ) == seq![',', ' '] by {
        lemma_struct_signature_sep(s, k);
    }
}

/// `struct_signature(s)` is `struct ` + name + ` { ` + the joined fields + ` }`
/// character by character.
proof fn lemma_struct_signature_shape(s: StructSymbolView)
    ensures
        struct_signature(s) == seq!['s', 't', 'r', 'u', 'c', 't', ' '] + s.name + seq![' ', '{', ' ']
            + join_text(s.fields, seq![',', ' ']) + seq![' ', '}'],
        ({
            let sig = struct_signature(s);
            let head = s.name.len() + 10int;
            let n = s.fields.len() as int;
            &&& sig.subrange(0, 7) == seq!['s', 't', 'r', 'u', 'c', 't', ' ']
            &&& sig.subrange(7, 7 + s.name.len() as int) == s.name
            &&& sig.subrange(7 + s.name.len() as int, head) == seq![' ', '{', ' ']
            &&& sig.len() == head + (if n == 0 {
                0
            } else {
                join_offset(s.fields, 2, n - 1) + s.fields[n - 1].len()
            }) + 2
            &&& sig.subrange(sig.len() - 2, sig.len() as int) == seq![' ', '}']
        }),
{
    reveal_strlit("struct ");
    reveal_strlit(" { ");
    reveal_strlit(" }");
    reveal_strlit(", ");
    assert(", "@ =~= seq![',', ' ']);
    assert("struct "@ =~= seq!['s', 't', 'r', 'u', 'c', 't', ' ']);
    assert(" { "@ =~= seq![' ', '{', ' ']);
    assert(" }"@ =~= seq![' ', '}']);
    law_join_places_each_part(s.fields, seq![',', ' ']);
    let sig = struct_signature(s);
    let head = s.name.len() + 10int;
    assert(sig.subrange(0, 7) =~= seq!['s', 't', 'r', 'u', 'c', 't', ' ']);
    assert(sig.subrange(7, 7 + s.name.len() as int) =~= s.name);
    assert(sig.subrange(7 + s.name.len() as int, head) =~= seq![' ', '{', ' ']);
    assert(sig.subrange(sig.len() - 2, sig.len() as int) =~= seq![' ', '}']);
}

proof fn lemma_struct_signature_field(s: StructSymbolView, k: int)
    requires
        0 <= k < s.fields.len(),
    ensures
        struct_signature(s).subrange(
            s.name.len() + 10 + join_offset(s.fields, 2, k),
            s.name.len() + 10 + join_offset(s.fields, 2, k) + s.fields[k].len(),
        ) == s.fields[k],
{
    lemma_struct_signature_shape(s);
    let sep = seq![',', ' '];
    let j = join_text(s.fields, sep);
    law_join_places_each_part(s.fields, sep);
    assert(s.fields[k] == s.fields[k]);
    let a = seq!['s', 't', 'r', 'u', 'c', 't', ' '] + s.name + seq![' ', '{', ' '];
    let head = s.name.len() + 10int;
    assert(a.len() == head);
    let o = join_offset(s.fields, 2, k);
    let sig = struct_signature(s);
    assert(sig == a + j + seq![' ', '}']);
    assert(sig.subrange(head + o, head + o + s.fields[k].len()) =~= j.subrange(o, o + s.fields[k].len()));
}

proof fn lemma_struct_signature_sep(s: StructSymbolView, k: int)
    requires
        0 <= k < s.fields.len() - 1,
    ensures
        struct_signature(s).subrange(
            s.name.len() + 10 + join_offset(s.fields, 2, k) + s.fields[k].len(),
            s.name.len() + 10 + join_offset(s.fields, 2, k + 1),
        ) == seq![',', ' '],
{
    lemma_struct_signature_shape(s);
    let sep = seq![',', ' '];
    let j = join_text(s.fields, sep);
    law_join_places_each_part(s.fields, sep);
    assert(s.fields[k] == s.fields[k]);
    assert(s.fields[k + 1] == s.fields[k + 1]);
    let a = seq!['s', 't', 'r', 'u', 'c', 't', ' '] + s.name + seq![' ', '{', ' '];
    let head = s.name.len() + 10int;
    assert(a.len() == head);
    let o = join_offset(s.fields, 2, k) + s.fields[k].len();
    let e = join_offset(s.fields, 2, k + 1);
    assert(e == o + 2);
    let sig = struct_signature(s);
    assert(sig == a + j + seq![' ', '}']);
    assert(sig.subrange(head + o, head + e) =~= j.subrange(o, e));
}

/// The first function whose range contains the position.
pub open spec fn fn_hit(fs: Seq<FunctionSymbolView>, line: u32, col: u32) -> Option<
    (Seq<char>, Range, Option<Seq<char>>),
>
    decreases fs.len(),
{
    if fs.len() == 0 {
        None
    } else if contains_pos(fs[0].range, line, col) {
        Some((fn_signature(fs[0]), fs[0].range, fs[0].doc))
    } else {
        fn_hit(fs.drop_first(), line, col)
    }
}

/// The first struct whose range contains the position.
pub open spec fn struct_hit(ss: Seq<StructSymbolView>, line: u32, col: u32) -> Option<
    (Seq<char>, Range, Option<Seq<char>>),
>
    decreases ss.len(),
{
    if ss.len() == 0 {
        None
    } else if contains_pos(ss[0].range, line, col) {
        Some((struct_signature(ss[0]), ss[0].range, ss[0].doc))
    } else {
        struct_hit(ss.drop_first(), line, col)
    }
}

/// The symbol at a position: functions are looked at before structs.
pub open spec fn symbol_hit(
    fs: Seq<FunctionSymbolView>,
    ss: Seq<StructSymbolView>,
    line: u32,
    col: u32,
) -> Option<(Seq<char>, Range, Option<Seq<char>>)> {
    match fn_hit(fs, line, col) {
        Some(h) => Some(h),
        None => struct_hit(ss, line, col),
    }
}

pub open spec fn hit_view(h: Option<(String, Range, Option<String>)>) -> Option<
    (Seq<char>, Range, Option<Seq<char>>),
> {
    match h {
        Some((sig, r, doc)) => Some((sig@, r, opt_text(doc))),
        None => None,
    }
}

/// The symbol index of the parse of `source`: the function and struct entries
/// of the items that parsing with recovery yields.
pub open spec fn parsed_symbols(source: Seq<char>) -> (Seq<FunctionSymbolView>, Seq<StructSymbolView>) {
    let items = p_recovering(lex(source).0, 0).0.items;
    (function_symbols_of(items, source), struct_symbols_of(items, source))
}

fn contains(r: &Range, line: u32, col: u32) -> (b: bool)
    ensures
        b == contains_pos(*r, line, col),
{
    let after_start = line > r.line || (line == r.line && col >= r.col);
    let before_end = line < r.end_line || (line == r.end_line && col <= r.end_col);
    after_start && before_end
}

/// `parts` joined with `sep`.
fn join_strings(parts: &Vec<String>, sep: &str) -> (r: String)
    ensures
        r@ == join_text(parts@.map_values(|p: String| p@), sep@),
{
    let ghost ps = parts@.map_values(|p: String| p@);
    let mut out = String::new();
    let mut k: usize = 0;
    while k < parts.len()
        invariant
            k <= parts.len(),
            ps == parts@.map_values(|p: String| p@),
            out@ == join_text(ps.take(k as int), sep@),
        decreases parts.len() - k,
    {
        if k > 0 {
            out.append(sep);
        }
        out.append(parts[k].as_str());
        proof {
            assert(ps[k as int] == parts@[k as int]@);
            assert(ps.take(k + 1).drop_last() =~= ps.take(k as int));
            if k == 0 {
                assert(ps.take(1) =~= seq![ps[0]]);
            }
        }
        k = k + 1;
    }
    assert(ps.take(parts.len() as int) =~= ps);
    out
}

fn clone_doc(d: &Option<String>) -> (r: Option<String>)
    ensures
        opt_text(r) == opt_text(*d),
{
    match d {
        Some(s) => Some(s.clone()),
        None => None,
    }
}

/// The symbol of `index` whose range contains `(line, col)`: its signature,
/// its range and its doc comment. Functions are looked at before structs.
pub fn symbol_in_index(index: &SymbolIndex, line: u32, col: u32) -> (r: Option<
    (String, Range, Option<String>),
>)
    ensures
        hit_view(r) == symbol_hit(index@.0, index@.1, line, col),
{
    let ghost fs = index@.0;
    let ghost ss = index@.1;
    assert(fs.skip(0) =~= fs);
    assert(ss.skip(0) =~= ss);
    let mut k: usize = 0;
    while k < index.functions.len()
        invariant
            k <= index.functions.len(),
            fs == index@.0,
            fn_hit(fs, line, col) == fn_hit(fs.skip(k as int), line, col),
        decreases index.functions.len() - k,
    {
        let f = &index.functions[k];
        proof {
            assert(fs.skip(k as int)[0] == f@);
            assert(fs.skip(k as int).drop_first() =~= fs.skip(k + 1));
        }
        if contains(&f.range, line, col) {
            let mut sig = text_of("fn ");
            sig.append(f.name.as_str());
            sig.append("(");
            let ps = join_strings(&f.params, ", ");
            sig.append(ps.as_str());
            sig.append(") -> ");
            sig.append(f.return_type.as_str());
            return Some((sig, f.range, clone_doc(&f.doc)));
        }
        k = k + 1;
    }
    proof {
        assert(fs.skip(k as int) =~= Seq::<FunctionSymbolView>::empty());
    }
    let mut j: usize = 0;
    while j < index.structs.len()
        invariant
            j <= index.structs.len(),
            ss == index@.1,
            fs == index@.0,
            fn_hit(fs, line, col) is None,
            struct_hit(ss, line, col) == struct_hit(ss.skip(j as int), line, col),
        decreases index.structs.len() - j,
    {
        let s = &index.structs[j];
        proof {
            assert(ss.skip(j as int)[0] == s@);
            assert(ss.skip(j as int).drop_first() =~= ss.skip(j + 1));
        }
        if contains(&s.range, line, col) {
            let mut sig = text_of("struct ");
            sig.append(s.name.as_str());
            sig.append(" { ");
            let fl = join_strings(&s.fields, ", ");
            sig.append(fl.as_str());
            sig.append(" }");
            let doc = clone_doc(&s.doc);
            proof {
                let sv = ss.skip(j as int)[0];
                assert(sv == s@);
                assert(struct_hit(ss.skip(j as int), line, col) == Some(
                    (struct_signature(sv), sv.range, sv.doc),
                ));
                assert(sig@ == struct_signature(sv));
                assert(opt_text(doc) == sv.doc);
                assert(symbol_hit(fs, ss, line, col) == struct_hit(ss, line, col));
            }
            return Some((sig, s.range, doc));
        }
        j = j + 1;
    }
    proof {
        assert(ss.skip(j as int) =~= Seq::<StructSymbolView>::empty());
    }
    None
}

/// The symbol (function or struct) whose definition range contains
/// `(line, col)`: its signature (hover), its range (go-to-definition) and
/// its doc comment.
pub fn symbol_at(source: &str, file: &str, line: u32, col: u32) -> (r: Option<
    (String, Range, Option<String>),
>)
    requires
        byte_len(source@) <= u32::MAX,
    ensures
        hit_view(r) == symbol_hit(parsed_symbols(source@).0, parsed_symbols(source@).1, line, col),
{
    let (program, _diags) = parse_source(source, file);
    match program {
        Some(p) => {
            let index = build_index(p.items.as_slice(), source);
            let r = symbol_in_index(&index, line, col);
            proof {
                lemma_symbols_of_views(p.items@, source@);
            }
            r
        },
        None => None,
    }
}

/// The hover text for a symbol hit: the signature, then a blank line and
/// the doc comment when there is a non-empty one.
pub open spec fn hover_text(h: Option<(Seq<char>, Range, Option<Seq<char>>)>) -> Option<Seq<char>> {
    match h {
        Some((sig, _, doc)) => match doc {
            Some(d) => if d.len() > 0 {
                Some(sig + "\n\n"@ + d)
            } else {
                Some(sig)
            },
            None => Some(sig),
        },
        None => None,
    }
}

/// Hover text (signature and doc) at a 1-based `(line, col)`.
pub fn hover(source: &str, file: &str, line: u32, col: u32) -> (r: Option<String>)
    requires
        byte_len(source@) <= u32::MAX,
    ensures
        opt_text(r) == hover_text(
            symbol_hit(parsed_symbols(source@).0, parsed_symbols(source@).1, line, col),
        ),
{
    match symbol_at(source, file, line, col) {
        Some((sig, _range, doc)) => match doc {
            Some(d) => {
                if !d.as_str().is_empty() {
                    let mut out = sig;
                    out.append("\n\n");
                    out.append(d.as_str());
                    Some(out)
                } else {
                    Some(sig)
                }
            },
            None => Some(sig),
        },
        None => None,
    }
}

/// The defining range at a 1-based `(line, col)`, for go-to-definition.
pub fn definition(source: &str, file: &str, line: u32, col: u32) -> (r: Option<Range>)
    requires
        byte_len(source@) <= u32::MAX,
    ensures
        r == (match symbol_hit(parsed_symbols(source@).0, parsed_symbols(source@).1, line, col) {
            Some(h) => Some(h.1),
            None => None,
        }),
{
    match symbol_at(source, file, line, col) {
        Some((_sig, range, _doc)) => Some(range),
        None => None,
    }
}

// ---------------------------------------------------------------------------
// Completion
// ---------------------------------------------------------------------------

/// Strictly ascending, hence without repeats.
pub open spec fn strictly_sorted(s: Seq<Seq<char>>) -> bool {
    forall|i: int, j: int| 0 <= i < j < s.len() ==> lex_lt(#[trigger] s[i], #[trigger] s[j])
}

/// The distinct texts of `names`, in ascending order.
pub fn sorted_unique(names: &Vec<String>) -> (r: Vec<String>)
    ensures
        strictly_sorted(r@.map_values(|s: String| s@)),
        r@.map_values(|s: String| s@).to_set() == names@.map_values(|s: String| s@).to_set(),
{
    let ghost nv = names@.map_values(|s: String| s@);
    let mut out: Vec<String> = Vec::new();
    let mut keys: Vec<Vec<char>> = Vec::new();
    let mut k: usize = 0;
    while k < names.len()
        invariant
            k <= names.len(),
            nv == names@.map_values(|s: String| s@),
            out@.len() == keys@.len(),
            forall|i: int| 0 <= i < keys@.len() ==> #[trigger] keys@[i]@ == out@[i]@,
            strictly_sorted(out@.map_values(|s: String| s@)),
            out@.map_values(|s: String| s@).to_set() == nv.take(k as int).to_set(),
        decreases names.len() - k,
    {
        let key = str_chars(names[k].as_str());
        let ghost ov = out@.map_values(|s: String| s@);
        let mut p: usize = 0;
        while p < keys.len() && text_less(&keys[p], &key)
            invariant
                p <= keys@.len(),
                out@.len() == keys@.len(),
                ov == out@.map_values(|s: String| s@),
                forall|i: int| 0 <= i < keys@.len() ==> #[trigger] keys@[i]@ == out@[i]@,
                forall|i: int| 0 <= i < p ==> lex_lt(#[trigger] ov[i], key@),
            decreases keys@.len() - p,
        {
            assert(ov[p as int] == keys@[p as int]@);
            p = p + 1;
        }
        let present = p < keys.len() && !text_less(&key, &keys[p]);
        proof {
            assert(nv[k as int] == key@);
            assert(nv.take(k + 1) =~= nv.take(k as int).push(key@));
            nv.take(k as int).lemma_push_to_set_commute(key@);
            if p < keys.len() {
                assert(ov[p as int] == keys@[p as int]@);
                lemma_lex_trichotomy(key@, ov[p as int]);
            }
        }
        if present {
            proof {
                assert(ov[p as int] == key@);
                assert(ov.to_set().contains(key@));
                assert(nv.take(k + 1).to_set() =~= nv.take(k as int).to_set().insert(key@));
            }
        } else {
            let name = names[k].clone();
            let ghost kv = key@;
            let ghost old_keys = keys@;
            let ghost old_out = out@;
            proof {
                if p < keys.len() {
                    assert(lex_lt(kv, ov[p as int]));
                }
            }
            out.insert(p, name);
            keys.insert(p, key);
            proof {
                let nov = out@.map_values(|s: String| s@);
                assert(nov =~= ov.insert(p as int, kv));
                assert forall|i: int| 0 <= i < keys@.len() implies #[trigger] keys@[i]@ == out@[i]@ by {
                    if i < p {
                        assert(keys@[i] == old_keys[i] && out@[i] == old_out[i]);
                    } else if i > p {
                        assert(keys@[i] == old_keys[i - 1] && out@[i] == old_out[i - 1]);
                    }
                }
                assert forall|i: int, j: int| 0 <= i < j < nov.len() implies lex_lt(
                    #[trigger] nov[i],
                    #[trigger] nov[j],
                ) by {
                    if j < p {
                        assert(nov[i] == ov[i] && nov[j] == ov[j]);
                    } else if j == p {
                        assert(nov[i] == ov[i]);
                    } else if i == p {
                        assert(nov[j] == ov[j - 1]);
                        if j - 1 > p {
                            lemma_lex_transitive(kv, ov[p as int], ov[j - 1]);
                        }
                    } else if i < p {
                        assert(nov[i] == ov[i] && nov[j] == ov[j - 1]);
                    } else {
                        assert(nov[i] == ov[i - 1] && nov[j] == ov[j - 1]);
                    }
                }
                assert(nov.to_set() =~= ov.to_set().insert(kv)) by {
                    assert forall|x: Seq<char>| nov.to_set().contains(x) implies ov.to_set().insert(
                        kv,
                    ).contains(x) by {
                        let i = choose|i: int| 0 <= i < nov.len() && nov[i] == x;
                        if i < p {
                            assert(nov[i] == ov[i]);
                        } else if i > p {
                            assert(nov[i] == ov[i - 1]);
                        }
                    }
                    assert forall|x: Seq<char>| ov.to_set().insert(kv).contains(x) implies nov.to_set().contains(
                        x,
                    ) by {
                        if x == kv {
                            assert(nov[p as int] == kv);
                        } else {
                            let i = choose|i: int| 0 <= i < ov.len() && ov[i] == x;
                            if i < p {
                                assert(nov[i] == ov[i]);
                            } else {
                                assert(nov[i + 1] == ov[i]);
                            }
                        }
                    }
                }
                assert(nv.take(k + 1).to_set() =~= nv.take(k as int).to_set().insert(kv));
            }
        }
        k = k + 1;
    }
    assert(nv.take(names.len() as int) =~= nv);
    out
}

/// The names of the functions, then of the structs.
pub open spec fn index_names(fs: Seq<FunctionSymbolView>, ss: Seq<StructSymbolView>) -> Seq<
    Seq<char>,
> {
    fs.map_values(|f: FunctionSymbolView| f.name) + ss.map_values(|s: StructSymbolView| s.name)
}

/// The top-level names of `index` (functions and structs), sorted, without
/// repeats.
pub fn index_completion_names(index: &SymbolIndex) -> (r: Vec<String>)
    ensures
        strictly_sorted(r@.map_values(|s: String| s@)),
        r@.map_values(|s: String| s@).to_set() == index_names(index@.0, index@.1).to_set(),
{
    let mut names: Vec<String> = Vec::new();
    let mut k: usize = 0;
    while k < index.functions.len()
        invariant
            k <= index.functions.len(),
            names@.map_values(|s: String| s@) == index@.0.take(k as int).map_values(
                |f: FunctionSymbolView| f.name,
            ),
        decreases index.functions.len() - k,
    {
        let ghost old_v = names@.map_values(|s: String| s@);
        let nm = index.functions[k].name.clone();
        let ghost nmv = nm@;
        names.push(nm);
        proof {
            assert(names@.map_values(|s: String| s@) =~= old_v.push(nmv));
            assert(index@.0.take(k + 1) =~= index@.0.take(k as int).push(index@.0[k as int]));
            assert(index@.0[k as int] == index.functions@[k as int]@);
            assert(names@.map_values(|s: String| s@) =~= index@.0.take(k + 1).map_values(
                |f: FunctionSymbolView| f.name,
            ));
        }
        k = k + 1;
    }
    assert(index@.0.take(index.functions.len() as int) =~= index@.0);
    let ghost fnames = names@.map_values(|s: String| s@);
    let mut j: usize = 0;
    while j < index.structs.len()
        invariant
            j <= index.structs.len(),
            names@.map_values(|s: String| s@) == fnames + index@.1.take(j as int).map_values(
                |s: StructSymbolView| s.name,
            ),
        decreases index.structs.len() - j,
    {
        let ghost old_v = names@.map_values(|s: String| s@);
        let nm = index.structs[j].name.clone();
        let ghost nmv = nm@;
        names.push(nm);
        proof {
            assert(names@.map_values(|s: String| s@) =~= old_v.push(nmv));
            assert(index@.1.take(j + 1) =~= index@.1.take(j as int).push(index@.1[j as int]));
            assert(index@.1[j as int] == index.structs@[j as int]@);
            assert(names@.map_values(|s: String| s@) =~= fnames + index@.1.take(j + 1).map_values(
                |s: StructSymbolView| s.name,
            ));
        }
        j = j + 1;
    }
    assert(index@.1.take(index.structs.len() as int) =~= index@.1);
    assert(names@.map_values(|s: String| s@) =~= index_names(index@.0, index@.1));
    sorted_unique(&names)
}

/// Whether the item is a function named `n`.
pub open spec fn declares_fn(it: SItem, n: Seq<char>) -> bool {
    it.node matches ItemV::FnDecl(m, _, _, _) && m == n
}

/// Whether the item is a struct named `n`.
pub open spec fn declares_struct(it: SItem, n: Seq<char>) -> bool {
    it.node matches ItemV::StructDecl(m, _) && m == n
}

/// The names declared by functions and structs among `items` (type aliases
/// and impl blocks declare none).
pub open spec fn declared_names(items: Seq<SItem>) -> Set<Seq<char>> {
    Set::new(
        |n: Seq<char>|
            exists|k: int|
                0 <= k < items.len() && (declares_fn(#[trigger] items[k], n) || declares_struct(
                    items[k],
                    n,
                )),
    )
}

proof fn lemma_fn_names(items: Seq<Spanned<Item>>, source: Seq<char>, n: Seq<char>)
    ensures
        function_symbols(items, source).map_values(|f: FunctionSymbolView| f.name).contains(n)
            <==> exists|k: int| 0 <= k < items.len() && declares_fn(item_v(#[trigger] items[k]), n),
    decreases items.len(),
{
    let names = function_symbols(items, source).map_values(|f: FunctionSymbolView| f.name);
    if items.len() > 0 {
        let p = items.drop_last();
        let last = items.last();
        lemma_fn_names(p, source, n);
        let pnames = function_symbols(p, source).map_values(|f: FunctionSymbolView| f.name);
        let here = declares_fn(item_v(last), n);
        if names.contains(n) {
            let j = choose|j: int| 0 <= j < names.len() && names[j] == n;
            if j < pnames.len() {
                assert(pnames[j] == n);
                assert(pnames.contains(n));
                let k = choose|k: int| 0 <= k < p.len() && declares_fn(item_v(#[trigger] p[k]), n);
                assert(items[k] == p[k]);
            } else {
                assert(items[items.len() - 1] == last);
            }
        }
        if exists|k: int| 0 <= k < items.len() && declares_fn(item_v(#[trigger] items[k]), n) {
            let k = choose|k: int| 0 <= k < items.len() && declares_fn(item_v(#[trigger] items[k]), n);
            if k < p.len() {
                assert(p[k] == items[k]);
                assert(pnames.contains(n));
                let j = choose|j: int| 0 <= j < pnames.len() && pnames[j] == n;
                assert(names[j] == n);
            } else {
                assert(items[k] == last);
                assert(names[names.len() - 1] == n);
            }
        }
    }
}

proof fn lemma_struct_names(items: Seq<Spanned<Item>>, source: Seq<char>, n: Seq<char>)
    ensures
        struct_symbols(items, source).map_values(|s: StructSymbolView| s.name).contains(n)
            <==> exists|k: int| 0 <= k < items.len() && declares_struct(item_v(#[trigger] items[k]), n),
    decreases items.len(),
{
    let names = struct_symbols(items, source).map_values(|s: StructSymbolView| s.name);
    if items.len() > 0 {
        let p = items.drop_last();
        let last = items.last();
        lemma_struct_names(p, source, n);
        let pnames = struct_symbols(p, source).map_values(|s: StructSymbolView| s.name);
        if names.contains(n) {
            let j = choose|j: int| 0 <= j < names.len() && names[j] == n;
            if j < pnames.len() {
                assert(pnames[j] == n);
                assert(pnames.contains(n));
                let k = choose|k: int| 0 <= k < p.len() && declares_struct(item_v(#[trigger] p[k]), n);
                assert(items[k] == p[k]);
            } else {
                assert(items[items.len() - 1] == last);
            }
        }
        if exists|k: int| 0 <= k < items.len() && declares_struct(item_v(#[trigger] items[k]), n) {
            let k = choose|k: int| 0 <= k < items.len() && declares_struct(item_v(#[trigger] items[k]), n);
            if k < p.len() {
                assert(p[k] == items[k]);
                assert(pnames.contains(n));
                let j = choose|j: int| 0 <= j < pnames.len() && pnames[j] == n;
                assert(names[j] == n);
            } else {
                assert(items[k] == last);
                assert(names[names.len() - 1] == n);
            }
        }
    }
}

/// The names of a symbol index are exactly the names that its items declare
/// as functions or structs.
pub proof fn law_index_names_are_declared_names(items: Seq<Spanned<Item>>, source: Seq<char>)
    ensures
        index_names(function_symbols(items, source), struct_symbols(items, source)).to_set()
            == declared_names(items_v(items)),
{
    let fs = function_symbols(items, source);
    let ss = struct_symbols(items, source);
    let fnames = fs.map_values(|f: FunctionSymbolView| f.name);
    let snames = ss.map_values(|s: StructSymbolView| s.name);
    let all = index_names(fs, ss);
    let iv = items_v(items);
    lemma_items_v(items);
    assert forall|n: Seq<char>| all.to_set().contains(n) == declared_names(iv).contains(n) by {
        lemma_fn_names(items, source, n);
        lemma_struct_names(items, source, n);
        assert(all.contains(n) <==> fnames.contains(n) || snames.contains(n)) by {
            if all.contains(n) {
                let j = choose|j: int| 0 <= j < all.len() && all[j] == n;
                if j < fnames.len() {
                    assert(fnames[j] == n);
                } else {
                    assert(snames[j - fnames.len()] == n);
                }
            }
            if fnames.contains(n) {
                let j = choose|j: int| 0 <= j < fnames.len() && fnames[j] == n;
                assert(all[j] == n);
            }
            if snames.contains(n) {
                let j = choose|j: int| 0 <= j < snames.len() && snames[j] == n;
                assert(all[j + fnames.len()] == n);
            }
        }
        if declared_names(iv).contains(n) {
            let k = choose|k: int|
                0 <= k < iv.len() && (declares_fn(#[trigger] iv[k], n) || declares_struct(iv[k], n));
            assert(iv[k] == item_v(items[k]));
        }
        if exists|k: int| 0 <= k < items.len() && declares_fn(item_v(#[trigger] items[k]), n) {
            let k = choose|k: int| 0 <= k < items.len() && declares_fn(item_v(#[trigger] items[k]), n);
            assert(iv[k] == item_v(items[k]));
        }
        if exists|k: int| 0 <= k < items.len() && declares_struct(item_v(#[trigger] items[k]), n) {
            let k = choose|k: int| 0 <= k < items.len() && declares_struct(item_v(#[trigger] items[k]), n);
            assert(iv[k] == item_v(items[k]));
        }
    }
    assert(all.to_set() =~= declared_names(iv));
}

/// Top-level names for completion (all functions and structs), sorted and
/// without repeats.
pub fn completion_names(source: &str, file: &str) -> (r: Vec<String>)
    requires
        byte_len(source@) <= u32::MAX,
    ensures
        strictly_sorted(r@.map_values(|s: String| s@)),
        r@.map_values(|s: String| s@).to_set() == declared_names(
            p_recovering(lex(source@).0, 0).0.items,
        ),
{
    let (program, _diags) = parse_source(source, file);
    let program = match program {
        Some(p) => p,
        None => return Vec::new(),
    };
    let index = build_index(program.items.as_slice(), source);
    let r = index_completion_names(&index);
    proof {
        law_index_names_are_declared_names(program.items@, source@);
    }
    r
}

} // verus!
