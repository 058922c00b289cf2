//! Pipeline glue: running the front end over a source text, turning
//! diagnostics into their machine-readable and gcc-style forms, applying
//! autofixes, and the decisions of the sandboxed runner.
use vstd::prelude::*;
use vstd::utf8::{decode_utf8, encode_utf8, valid_utf8};
use crate::ast::{program_v, Program};
use crate::checked_type::join_text;
use crate::error::{
    push_all, Diagnostic, DiagnosticView, Diagnostics, ErrorCode, Severity, TextEdit, XError,
    XResult,
};
use crate::lexer::{law_lex_tokens_ordered, lex, Lexer};
use crate::parser::{is_syntax_error, Parser};
use crate::source::{line_col_of, line_starts_of, LineIndex, Span};
use crate::symbols::{clamp_offset, items_at_boundaries};
use crate::text::{byte_len, decimal, decimal_string, text_of};
use crate::typecheck::check_program;
use crate::type_rules::type_check;
use crate::grammar::p_recovering;

verus! {

broadcast use vstd::utf8::group_utf8_lib;

// ---------------------------------------------------------------------------
// Running the front end
// ---------------------------------------------------------------------------

/// Lexes, parses (recovering from syntax errors) and type-checks `source`,
/// collecting every diagnostic: the lexer's first, then the parser's, then
/// the type checker's, each pushed with de-duplication. The (possibly
/// partial) program is always returned.
pub fn parse_source(source: &str, file: &str) -> (r: (Option<Program>, Diagnostics))
    requires
        byte_len(source@) <= u32::MAX,
    ensures
        r.0 is Some,
        items_at_boundaries(r.0->Some_0.items@, source@),
        program_v(r.0->Some_0) == p_recovering(lex(source@).0, 0).0,
        crate::ast::program_kinds_ok(r.0->Some_0),
        r.1@ == push_all(
            push_all(push_all(Seq::empty(), lex(source@).1), p_recovering(lex(source@).0, 0).1),
            type_check(r.0->Some_0).diags,
        ),
        forall|k: int|
            0 <= k < p_recovering(lex(source@).0, 0).1.len() ==> is_syntax_error(
                #[trigger] p_recovering(lex(source@).0, 0).1[k],
            ),
{
    let mut diags = Diagnostics::new();
    let lexer = Lexer::new(source);
    let (tokens, lex_diags) = lexer.tokenize();
    proof {
        law_lex_tokens_ordered(source@);
    }
    diags.extend(lex_diags);
    let ghost d1 = diags@;
    let mut parser = Parser::new(tokens, file);
    let ghost toks = parser.toks();
    let (program, parse_diags) = parser.parse_recovering();
    let pd = Diagnostics { items: parse_diags };
    let ghost pdv = pd@;
    assert(pdv =~= crate::parser::diag_views(parse_diags@));
    proof {
        assert forall|k: int| 0 <= k < pdv.len() implies is_syntax_error(#[trigger] pdv[k]) by {
            assert(pdv[k] == parse_diags@[k]@);
        }
    }
    diags.extend(pd);
    let td = check_program(&program);
    let ghost tdv = td@;
    diags.extend(td);
    proof {
        let items = program.items@;
        assert forall|k: int| 0 <= k < items.len() implies at_char_boundary_clamped(
            source@,
            (#[trigger] items[k]).span.start,
        ) by {
            let j = choose|j: int| 0 <= j < toks.len() && toks[j].start == items[k].span.start;
            assert(toks[j].start <= toks[j].end);
        }
        assert(d1 == push_all(Seq::empty(), lex(source@).1));
        assert(diags@ == push_all(push_all(push_all(Seq::empty(), lex(source@).1), pdv), tdv));
    }
    (Some(program), diags)
}

/// `b`, moved back to the end of `s` when past it, is a character boundary.
pub open spec fn at_char_boundary_clamped(s: Seq<char>, b: u32) -> bool {
    crate::text::at_char_boundary(s, clamp_offset(s, b as int))
}

/// The messages of `ds`, in order.
pub open spec fn messages(ds: Seq<DiagnosticView>) -> Seq<Seq<char>> {
    ds.map_values(|d: DiagnosticView| d.message)
}

/// Some diagnostic of `ds` is an error.
pub open spec fn has_error(ds: Seq<DiagnosticView>) -> bool {
    exists|k: int| 0 <= k < ds.len() && ds[k].severity == Severity::Error
}

/// The whole-file verdict used before code generation: the program when it
/// parsed and carries no error; otherwise a `Parse` error listing every
/// diagnostic message, joined with `"; "`.
pub fn accept_parsed(program: Option<Program>, diags: &Diagnostics) -> (r: XResult<Program>)
    ensures
        match r {
            Ok(p) => program == Some(p) && !has_error(diags@),
            Err(XError::Parse(m)) => (program is None || has_error(diags@)) && m@ == join_text(
                messages(diags@),
                "; "@,
            ),
            Err(_) => false,
        },
{
    let errors = diags.has_errors();
    match program {
        Some(p) => {
            if !errors {
                return Ok(p);
            }
        },
        None => {},
    }
    let ghost parts = messages(diags@);
    let mut out = String::new();
    let mut k: usize = 0;
    while k < diags.items.len()
        invariant
            k <= diags.items.len(),
            parts == messages(diags@),
            out@ == join_text(parts.take(k as int), "; "@),
        decreases diags.items.len() - k,
    {
        if k > 0 {
            out.append("; ");
        }
        out.append(diags.items[k].message.as_str());
        proof {
            assert(parts[k as int] == diags.items@[k as int].message@);
            assert(parts.take(k + 1).drop_last() =~= parts.take(k as int));
            if k == 0 {
                assert(parts.take(1) =~= seq![parts[0]]);
            }
        }
        k = k + 1;
    }
    assert(parts.take(diags.items.len() as int) =~= parts);
    Err(XError::Parse(out))
}

// ---------------------------------------------------------------------------
// Machine-readable diagnostics
// ---------------------------------------------------------------------------

/// A range with both 1-based line/column positions and the raw byte span.
#[derive(Clone, Copy, Debug, PartialEq, Eq, Structural)]
pub struct SerializableRange {
    pub line: usize,
    pub col: usize,
    pub end_line: usize,
    pub end_col: usize,
    pub start: u32,
    pub end: u32,
}

/// A machine-applicable fix: replace `range` with `new_text`.
#[derive(Debug)]
pub struct SerializableTextEdit {
    pub range: SerializableRange,
    pub new_text: String,
}

/// A diagnostic in the shape of an LSP `Diagnostic`.
#[derive(Debug)]
pub struct SerializableDiagnostic {
    pub severity: Severity,
    pub code: ErrorCode,
    pub message: String,
    pub file: String,
    pub range: SerializableRange,
    pub suggestions: Vec<SerializableTextEdit>,
}

/// The plain-value content of a [`SerializableDiagnostic`].
pub struct SerializableDiagnosticView {
    pub severity: Severity,
    pub code: ErrorCode,
    pub message: Seq<char>,
    pub file: Seq<char>,
    pub range: SerializableRange,
    pub suggestions: Seq<(SerializableRange, Seq<char>)>,
}

impl View for SerializableDiagnostic {
    type V = SerializableDiagnosticView;

    open spec fn view(&self) -> SerializableDiagnosticView {
        SerializableDiagnosticView {
            severity: self.severity,
            code: self.code,
            message: self.message@,
            file: self.file@,
            range: self.range,
            suggestions: self.suggestions@.map_values(
                |e: SerializableTextEdit| (e.range, e.new_text@),
            ),
        }
    }
}

/// The last byte a span covers: `end - 1`, but never before `start`.
pub open spec fn last_byte(span: Span) -> u32 {
    let e: u32 = if span.end >= 1 {
        (span.end - 1) as u32
    } else {
        0
    };
    if e >= span.start {
        e
    } else {
        span.start
    }
}

/// The serializable range of `span` in a text whose lines start at `starts`.
pub open spec fn serial_range(starts: Seq<int>, span: Span) -> SerializableRange {
    let (line, col) = line_col_of(starts, span.start as int);
    let (end_line, end_col) = line_col_of(starts, last_byte(span) as int);
    SerializableRange { line, col, end_line, end_col, start: span.start, end: span.end }
}

pub open spec fn serial_view(d: DiagnosticView, starts: Seq<int>, file: Seq<char>) -> SerializableDiagnosticView {
    SerializableDiagnosticView {
        severity: d.severity,
        code: d.code,
        message: d.message,
        file,
        range: serial_range(starts, d.span),
        suggestions: d.suggestions.map_values(
            |e: (Span, Seq<char>)| (serial_range(starts, e.0), e.1),
        ),
    }
}

fn last_byte_of(span: Span) -> (r: u32)
    ensures
        r == last_byte(span),
{
    let e = if span.end >= 1 {
        span.end - 1
    } else {
        0
    };
    if e >= span.start {
        e
    } else {
        span.start
    }
}

fn serial_range_of(index: &LineIndex, span: Span) -> (r: SerializableRange)
    ensures
        r == serial_range(index.starts(), span),
{
    let (line, col) = index.line_col(span.start);
    let (end_line, end_col) = index.line_col(last_byte_of(span));
    SerializableRange { line, col, end_line, end_col, start: span.start, end: span.end }
}

/// Converts diagnostics to their serializable form, resolving byte spans to
/// 1-based line/column positions in `source`.
pub fn diagnostics_to_serializable(diags: &Diagnostics, source: &str, file: &str) -> (r: Vec<
    SerializableDiagnostic,
>)
    requires
        byte_len(source@) <= u32::MAX,
    ensures
        r@.map_values(|s: SerializableDiagnostic| s@) == diags@.map_values(
            |d: DiagnosticView| serial_view(d, line_starts_of(source@), file@),
        ),
{
    let index = LineIndex::new(source);
    let ghost starts = index.starts();
    let mut out: Vec<SerializableDiagnostic> = Vec::new();
    let mut k: usize = 0;
    while k < diags.items.len()
        invariant
            k <= diags.items.len(),
            starts == index.starts(),
            starts == line_starts_of(source@),
            out@.map_values(|s: SerializableDiagnostic| s@) == diags@.take(k as int).map_values(
                |d: DiagnosticView| serial_view(d, starts, file@),
            ),
        decreases diags.items.len() - k,
    {
        let d = &diags.items[k];
        let mut sugg: Vec<SerializableTextEdit> = Vec::new();
        let mut q: usize = 0;
        while q < d.suggestions.len()
            invariant
                q <= d.suggestions.len(),
                starts == index.starts(),
                sugg@.map_values(|e: SerializableTextEdit| (e.range, e.new_text@)) == d@.suggestions.take(
                    q as int,
                ).map_values(|e: (Span, Seq<char>)| (serial_range(starts, e.0), e.1)),
            decreases d.suggestions.len() - q,
        {
            let s = &d.suggestions[q];
            let e = SerializableTextEdit {
                range: serial_range_of(&index, s.range),
                new_text: s.new_text.clone(),
            };
            let ghost old_v = sugg@.map_values(|e: SerializableTextEdit| (e.range, e.new_text@));
            let ghost ev = (e.range, e.new_text@);
            sugg.push(e);
            proof {
                assert(sugg@.map_values(|e: SerializableTextEdit| (e.range, e.new_text@))
                    =~= old_v.push(ev));
                assert(d@.suggestions[q as int] == (s.range, s.new_text@));
                assert(d@.suggestions.take(q + 1) =~= d@.suggestions.take(q as int).push(
                    d@.suggestions[q as int],
                ));
            }
            q = q + 1;
        }
        assert(d@.suggestions.take(d.suggestions.len() as int) =~= d@.suggestions);
        let sd = SerializableDiagnostic {
            severity: d.severity,
            code: d.code,
            message: d.message.clone(),
            file: text_of(file),
            range: serial_range_of(&index, d.span),
            suggestions: sugg,
        };
        let ghost old_out = out@.map_values(|s: SerializableDiagnostic| s@);
        let ghost sv = sd@;
        out.push(sd);
        proof {
            assert(diags@[k as int] == d@);
            assert(sv == serial_view(d@, starts, file@));
            assert(out@.map_values(|s: SerializableDiagnostic| s@) =~= old_out.push(sv));
            assert(diags@.take(k + 1) =~= diags@.take(k as int).push(diags@[k as int]));
        }
        k = k + 1;
    }
    assert(diags@.take(diags.items.len() as int) =~= diags@);
    out
}

// ---------------------------------------------------------------------------
// gcc-style lines
// ---------------------------------------------------------------------------

/// The severity word of a gcc-style line.
pub open spec fn gcc_severity(s: Severity) -> Seq<char> {
    match s {
        Severity::Error => "error"@,
        Severity::Warning => "warning"@,
        Severity::Information => "note"@,
        Severity::Hint => "hint"@,
    }
}

/// `file:line:col: severity[code]: message`.
pub open spec fn gcc_line(d: DiagnosticView, starts: Seq<int>, file: Seq<char>) -> Seq<char> {
    let (line, col) = line_col_of(starts, d.span.start as int);
    file + ":"@ + decimal(line as nat) + ":"@ + decimal(col as nat) + ": "@ + gcc_severity(
        d.severity,
    ) + "["@ + d.code.code_text() + "]: "@ + d.message
}

fn gcc_severity_str(s: Severity) -> (r: &'static str)
    ensures
        r@ == gcc_severity(s),
{
    match s {
        Severity::Error => "error",
        Severity::Warning => "warning",
        Severity::Information => "note",
        Severity::Hint => "hint",
    }
}

/// Renders each diagnostic as a gcc-style line.
pub fn diagnostics_to_gcc(diags: &Diagnostics, source: &str, file: &str) -> (r: Vec<String>)
    requires
        byte_len(source@) <= u32::MAX,
    ensures
        r@.map_values(|s: String| s@) == diags@.map_values(
            |d: DiagnosticView| gcc_line(d, line_starts_of(source@), file@),
        ),
{
    let index = LineIndex::new(source);
    let ghost starts = index.starts();
    let mut out: Vec<String> = Vec::new();
    let mut k: usize = 0;
    while k < diags.items.len()
        invariant
            k <= diags.items.len(),
            starts == index.starts(),
            starts == line_starts_of(source@),
            out@.map_values(|s: String| s@) == diags@.take(k as int).map_values(
                |d: DiagnosticView| gcc_line(d, starts, file@),
            ),
        decreases diags.items.len() - k,
    {
        let d = &diags.items[k];
        let (line, col) = index.line_col(d.span.start);
        let mut s = text_of(file);
        s.append(":");
        let ls = decimal_string(line);
        s.append(ls.as_str());
        s.append(":");
        let cs = decimal_string(col);
        s.append(cs.as_str());
        s.append(": ");
        s.append(gcc_severity_str(d.severity));
        s.append("[");
        s.append(d.code.code_str());
        s.append("]: ");
        s.append(d.message.as_str());
        let ghost old_out = out@.map_values(|s: String| s@);
        let ghost sv = s@;
        out.push(s);
        proof {
            assert(diags@[k as int] == d@);
            assert(sv == gcc_line(d@, starts, file@));
            assert(out@.map_values(|s: String| s@) =~= old_out.push(sv));
            assert(diags@.take(k + 1) =~= diags@.take(k as int).push(diags@[k as int]));
        }
        k = k + 1;
    }
    assert(diags@.take(diags.items.len() as int) =~= diags@);
    out
}

// ---------------------------------------------------------------------------
// Autofixes
// ---------------------------------------------------------------------------

/// Every suggestion of every diagnostic, in order.
pub open spec fn all_edits(ds: Seq<DiagnosticView>) -> Seq<(Span, Seq<char>)>
    decreases ds.len(),
{
    if ds.len() == 0 {
        Seq::empty()
    } else {
        all_edits(ds.drop_last()) + ds.last().suggestions
    }
}

/// Inserts `e` into `sorted` (ordered by start, descending) after every edit
/// that starts at or after it.
pub open spec fn insert_desc(sorted: Seq<(Span, Seq<char>)>, e: (Span, Seq<char>)) -> Seq<
    (Span, Seq<char>),
>
    decreases sorted.len(),
{
    if sorted.len() == 0 {
        seq![e]
    } else if sorted[0].0.start >= e.0.start {
        seq![sorted[0]] + insert_desc(sorted.drop_first(), e)
    } else {
        seq![e] + sorted
    }
}

/// Stable sort by start offset, descending.
pub open spec fn sort_desc(es: Seq<(Span, Seq<char>)>) -> Seq<(Span, Seq<char>)>
    decreases es.len(),
{
    if es.len() == 0 {
        Seq::empty()
    } else {
        insert_desc(sort_desc(es.drop_last()), es.last())
    }
}

/// Replaces the bytes of the edit's range with its text, when the range lies
/// within `bytes`; otherwise leaves `bytes` as they are.
pub open spec fn splice_edit(bytes: Seq<u8>, e: (Span, Seq<char>)) -> Seq<u8> {
    let s = e.0.start as int;
    let t = e.0.end as int;
    if s <= bytes.len() && t <= bytes.len() && s <= t {
        bytes.take(s) + encode_utf8(e.1) + bytes.skip(t)
    } else {
        bytes
    }
}

/// Applies the edits one after another.
pub open spec fn splice_all(bytes: Seq<u8>, es: Seq<(Span, Seq<char>)>) -> Seq<u8>
    decreases es.len(),
{
    if es.len() == 0 {
        bytes
    } else {
        splice_edit(splice_all(bytes, es.drop_last()), es.last())
    }
}

/// What `String::from_utf8_lossy` makes of a byte sequence: the decoded
/// text, with each invalid sequence replaced by U+FFFD.
pub uninterp spec fn lossy_text(bytes: Seq<u8>) -> Seq<char>;

/// Decodes `bytes` with `String::from_utf8_lossy`. Claimed: the result is
/// `lossy_text` of the bytes, and on valid UTF-8 it is the decoded text
/// unchanged, as std documents.
#[verifier::external_body]
pub(crate) fn utf8_lossy(bytes: &[u8]) -> (r: String)
    ensures
        r@ == lossy_text(bytes@),
        valid_utf8(bytes@) ==> r@ == decode_utf8(bytes@),
{
    String::from_utf8_lossy(bytes).into_owned()
}

proof fn lemma_insert_desc(s: Seq<(Span, Seq<char>)>, e: (Span, Seq<char>), p: int)
    requires
        0 <= p <= s.len(),
        forall|i: int| 0 <= i < p ==> s[i].0.start >= e.0.start,
        p < s.len() ==> s[p].0.start < e.0.start,
    ensures
        insert_desc(s, e) == s.take(p) + seq![e] + s.skip(p),
    decreases p,
{
    if p == 0 {
        assert(s.take(0) + seq![e] + s.skip(0) =~= seq![e] + s);
    } else {
        let t = s.drop_first();
        assert forall|i: int| 0 <= i < p - 1 implies t[i].0.start >= e.0.start by {
            assert(t[i] == s[i + 1]);
        }
        if p < s.len() {
            assert(t[p - 1] == s[p]);
        }
        lemma_insert_desc(t, e, p - 1);
        assert(s.take(p) + seq![e] + s.skip(p) =~= seq![s[0]] + (t.take(p - 1) + seq![e] + t.skip(
            p - 1,
        )));
    }
}

pub open spec fn edits_view(es: Seq<TextEdit>) -> Seq<(Span, Seq<char>)> {
    es.map_values(|e: TextEdit| (e.range, e.new_text@))
}

/// Every suggestion of `diags`, in order.
fn collect_edits(diags: &Diagnostics) -> (r: Vec<TextEdit>)
    ensures
        edits_view(r@) == all_edits(diags@),
{
    let mut edits: Vec<TextEdit> = Vec::new();
    let mut k: usize = 0;
    while k < diags.items.len()
        invariant
            k <= diags.items.len(),
            edits_view(edits@) == all_edits(diags@.take(k as int)),
        decreases diags.items.len() - k,
    {
        let d = &diags.items[k];
        let ghost base = edits_view(edits@);
        let mut q: usize = 0;
        while q < d.suggestions.len()
            invariant
                q <= d.suggestions.len(),
                edits_view(edits@) == base + d@.suggestions.take(q as int),
            decreases d.suggestions.len() - q,
        {
            let e = d.suggestions[q].clone();
            let ghost old_v = edits_view(edits@);
            edits.push(e);
            proof {
                assert(edits_view(edits@) =~= old_v.push(d@.suggestions[q as int]));
                assert(base + d@.suggestions.take(q + 1) =~= (base + d@.suggestions.take(
                    q as int,
                )).push(d@.suggestions[q as int]));
            }
            q = q + 1;
        }
        proof {
            assert(d@.suggestions.take(d.suggestions.len() as int) =~= d@.suggestions);
            assert(diags@.take(k + 1).drop_last() =~= diags@.take(k as int));
            assert(diags@.take(k + 1).last() == d@);
        }
        k = k + 1;
    }
    assert(diags@.take(diags.items.len() as int) =~= diags@);
    edits
}

/// `edits`, stably sorted by start offset, descending.
fn sort_edits_desc(edits: Vec<TextEdit>) -> (r: Vec<TextEdit>)
    ensures
        edits_view(r@) == sort_desc(edits_view(edits@)),
{
    let ghost ev = edits_view(edits@);
    let mut sorted: Vec<TextEdit> = Vec::new();
    let mut k: usize = 0;
    while k < edits.len()
        invariant
            k <= edits.len(),
            ev == edits_view(edits@),
            edits_view(sorted@) == sort_desc(ev.take(k as int)),
            sorted@.len() == k,
        decreases edits.len() - k,
    {
        let e = edits[k].clone();
        let start = e.range.start;
        let ghost sv = edits_view(sorted@);
        let mut p: usize = 0;
        while p < sorted.len() && sorted[p].range.start >= start
            invariant
                p <= sorted.len(),
                sv == edits_view(sorted@),
                forall|i: int| 0 <= i < p ==> sv[i].0.start >= start,
            decreases sorted.len() - p,
        {
            p = p + 1;
        }
        let ghost evk = (e.range, e.new_text@);
        proof {
            if p < sorted.len() {
                assert(sv[p as int].0.start < start);
            }
            lemma_insert_desc(sv, evk, p as int);
            assert(ev.take(k + 1).drop_last() =~= ev.take(k as int));
            assert(ev.take(k + 1).last() == evk);
        }
        sorted.insert(p, e);
        assert(edits_view(sorted@) =~= sv.take(p as int) + seq![evk] + sv.skip(p as int));
        k = k + 1;
    }
    assert(ev.take(edits.len() as int) =~= ev);
    sorted
}

/// `out` with the bytes of `e`'s range replaced by its text, when the range
/// lies within `out`.
fn splice_one(out: Vec<u8>, e: &TextEdit) -> (r: Vec<u8>)
    ensures
        r@ == splice_edit(out@, (e.range, e.new_text@)),
{
    let s = e.range.start as usize;
    let t = e.range.end as usize;
    if s <= out.len() && t <= out.len() && s <= t {
        let text = e.new_text.as_str().as_bytes();
        let mut r: Vec<u8> = Vec::new();
        let mut i: usize = 0;
        while i < s
            invariant
                i <= s <= out.len(),
                r@ == out@.take(i as int),
            decreases s - i,
        {
            r.push(out[i]);
            i = i + 1;
            assert(r@ =~= out@.take(i as int));
        }
        let mut j: usize = 0;
        while j < text.len()
            invariant
                j <= text.len(),
                r@ == out@.take(s as int) + text@.take(j as int),
            decreases text.len() - j,
        {
            r.push(text[j]);
            j = j + 1;
            assert(r@ =~= out@.take(s as int) + text@.take(j as int));
        }
        assert(text@.take(text.len() as int) =~= text@);
        let mut m: usize = t;
        while m < out.len()
            invariant
                t <= m <= out.len(),
                r@ == out@.take(s as int) + text@ + out@.subrange(t as int, m as int),
            decreases out.len() - m,
        {
            r.push(out[m]);
            m = m + 1;
            assert(r@ =~= out@.take(s as int) + text@ + out@.subrange(t as int, m as int));
        }
        assert(out@.subrange(t as int, out.len() as int) =~= out@.skip(t as int));
        r
    } else {
        out
    }
}

/// Applies every suggestion of `diags` to `source`: the edits are applied
/// right to left (stably sorted by start offset, descending) so that earlier
/// offsets stay valid, and an edit whose range does not lie within the text
/// is skipped. With no suggestions the source comes back unchanged.
pub fn apply_suggestions(source: &str, diags: &Diagnostics) -> (r: String)
    ensures
        r@ == lossy_text(splice_all(encode_utf8(source@), sort_desc(all_edits(diags@)))),
        valid_utf8(splice_all(encode_utf8(source@), sort_desc(all_edits(diags@)))) ==> r@
            == decode_utf8(splice_all(encode_utf8(source@), sort_desc(all_edits(diags@)))),
        all_edits(diags@).len() == 0 ==> r@ == source@,
{
    let edits = collect_edits(diags);
    let sorted = sort_edits_desc(edits);
    let bytes = source.as_bytes();
    let mut out: Vec<u8> = Vec::new();
    let mut i: usize = 0;
    while i < bytes.len()
        invariant
            i <= bytes.len(),
            out@ == bytes@.take(i as int),
        decreases bytes.len() - i,
    {
        out.push(bytes[i]);
        i = i + 1;
        assert(out@ =~= bytes@.take(i as int));
    }
    assert(bytes@.take(bytes.len() as int) =~= bytes@);
    let ghost sv = edits_view(sorted@);
    let mut k: usize = 0;
    while k < sorted.len()
        invariant
            k <= sorted.len(),
            sv == edits_view(sorted@),
            out@ == splice_all(encode_utf8(source@), sv.take(k as int)),
        decreases sorted.len() - k,
    {
        out = splice_one(out, &sorted[k]);
        proof {
            assert(sv.take(k + 1).drop_last() =~= sv.take(k as int));
            assert(sv.take(k + 1).last() == sv[k as int]);
        }
        k = k + 1;
    }
    assert(sv.take(sorted.len() as int) =~= sv);
    let r = utf8_lossy(out.as_slice());
    proof {
        if all_edits(diags@).len() == 0 {
            assert(sort_desc(all_edits(diags@)) =~= Seq::<(Span, Seq<char>)>::empty());
            vstd::utf8::encode_utf8_valid_utf8(source@);
            vstd::utf8::encode_utf8_decode_utf8(source@);
        }
    }
    r
}

/// Counts the machine-applicable suggestions across all diagnostics.
pub fn suggestion_count(diags: &Diagnostics) -> (r: usize)
    requires
        all_edits(diags@).len() <= usize::MAX,
    ensures
        r == all_edits(diags@).len(),
{
    let mut total: usize = 0;
    let mut k: usize = 0;
    while k < diags.items.len()
        invariant
            k <= diags.items.len(),
            all_edits(diags@).len() <= usize::MAX,
            total == all_edits(diags@.take(k as int)).len(),
        decreases diags.items.len() - k,
    {
        proof {
            assert(diags@.take(k + 1).drop_last() =~= diags@.take(k as int));
            assert(diags@.take(k + 1).last() == diags.items@[k as int]@);
            lemma_edit_count_prefix(diags@, k + 1);
        }
        total = total + diags.items[k].suggestions.len();
        k = k + 1;
    }
    assert(diags@.take(diags.items.len() as int) =~= diags@);
    total
}

proof fn lemma_edit_count_prefix(ds: Seq<DiagnosticView>, n: int)
    requires
        0 <= n <= ds.len(),
    ensures
        all_edits(ds.take(n)).len() <= all_edits(ds).len(),
    decreases ds.len(),
{
    if n < ds.len() {
        assert(ds.drop_last().take(n) =~= ds.take(n));
        lemma_edit_count_prefix(ds.drop_last(), n);
    } else {
        assert(ds.take(n) =~= ds);
    }
}

// ---------------------------------------------------------------------------
// The sandboxed runner's decisions
// ---------------------------------------------------------------------------

/// How long a program may run before it is killed, by default.
pub const DEFAULT_RUN_SAFE_TIMEOUT_MS: u64 = 2000;

/// How many bytes of each output stream are kept, by default.
pub const DEFAULT_RUN_SAFE_OUTPUT_LIMIT_BYTES: usize = 64 * 1024;

#[derive(Clone, Copy, Debug)]
pub struct RunSafeOptions {
    pub timeout_ms: u64,
    pub output_limit_bytes: usize,
}

impl Default for RunSafeOptions {
    fn default() -> (r: Self)
        ensures
            r.timeout_ms == DEFAULT_RUN_SAFE_TIMEOUT_MS,
            r.output_limit_bytes == DEFAULT_RUN_SAFE_OUTPUT_LIMIT_BYTES,
    {
        RunSafeOptions {
            timeout_ms: DEFAULT_RUN_SAFE_TIMEOUT_MS,
            output_limit_bytes: DEFAULT_RUN_SAFE_OUTPUT_LIMIT_BYTES,
        }
    }
}

/// The outcome of a sandboxed run.
#[derive(Debug)]
pub struct RunSafeResult {
    pub status: String,
    pub exit_code: Option<i32>,
    pub stdout: String,
    pub stderr: String,
    pub stdout_truncated: bool,
    pub stderr_truncated: bool,
    pub duration_ms: u64,
    pub timeout_ms: u64,
    pub output_limit_bytes: usize,
    pub error: Option<String>,
}

/// Captured output of a stream: its first bytes, decoded, and whether more
/// came than the limit allowed.
#[derive(Debug)]
pub struct CapturedOutput {
    pub text: String,
    pub truncated: bool,
}

pub open spec fn min_len(limit: usize, n: nat) -> int {
    if n < limit {
        n as int
    } else {
        limit as int
    }
}

/// The first `limit` bytes of `bytes`.
pub open spec fn kept_bytes(bytes: Seq<u8>, limit: usize) -> Seq<u8> {
    bytes.take(min_len(limit, bytes.len()))
}

/// What is kept of `bytes` under `limit`: the first `limit` bytes, decoded.
pub open spec fn kept_text(bytes: Seq<u8>, limit: usize) -> Seq<char> {
    lossy_text(kept_bytes(bytes, limit))
}

/// Captures the output of a finished command: at most `limit` bytes of it,
/// and whether it was longer.
pub fn capture_command_output(bytes: &[u8], limit: usize) -> (r: CapturedOutput)
    ensures
        r.text@ == kept_text(bytes@, limit),
        valid_utf8(kept_bytes(bytes@, limit)) ==> r.text@ == decode_utf8(kept_bytes(bytes@, limit)),
        r.truncated == (bytes@.len() > limit),
{
    let take = if limit < bytes.len() {
        limit
    } else {
        bytes.len()
    };
    let mut kept: Vec<u8> = Vec::new();
    let mut i: usize = 0;
    while i < take
        invariant
            i <= take <= bytes.len(),
            kept@ == bytes@.take(i as int),
        decreases take - i,
    {
        kept.push(bytes[i]);
        i = i + 1;
        assert(kept@ =~= bytes@.take(i as int));
    }
    CapturedOutput { text: utf8_lossy(kept.as_slice()), truncated: bytes.len() > limit }
}

/// Incremental capture of a stream that arrives in chunks: keeps the first
/// `limit` bytes and notes whether more arrived.
pub struct OutputCapture {
    bytes: Vec<u8>,
    truncated: bool,
    limit: usize,
    seen: Ghost<Seq<u8>>,
}

impl OutputCapture {
    /// The kept bytes are the first `limit` bytes of everything that arrived,
    /// and `truncated` tells whether more arrived.
    pub closed spec fn wf(self) -> bool {
        &&& self.bytes@ == self.seen@.take(min_len(self.limit, self.seen@.len()))
        &&& self.truncated == (self.seen@.len() > self.limit)
    }

    /// Everything that has arrived so far.
    pub closed spec fn seen(self) -> Seq<u8> {
        self.seen@
    }

    pub closed spec fn limit(self) -> usize {
        self.limit
    }

    pub fn new(limit: usize) -> (r: Self)
        ensures
            r.wf(),
            r.seen() == Seq::<u8>::empty(),
            r.limit() == limit,
    {
        let bytes: Vec<u8> = Vec::new();
        assert(bytes@ =~= Seq::<u8>::empty().take(0));
        OutputCapture { bytes, truncated: false, limit, seen: Ghost(Seq::empty()) }
    }

    /// Takes in the next chunk of the stream.
    pub fn absorb(&mut self, chunk: &[u8])
        requires
            old(self).wf(),
        ensures
            final(self).wf(),
            final(self).seen() == old(self).seen() + chunk@,
            final(self).limit() == old(self).limit(),
    {
        let n = chunk.len();
        let remaining = if self.bytes.len() < self.limit {
            self.limit - self.bytes.len()
        } else {
            0
        };
        let ghost all = self.seen@ + chunk@;
        proof {
            assert(self.bytes@.len() == min_len(self.limit, self.seen@.len()));
        }
        if remaining > 0 {
            let take = if remaining < n {
                remaining
            } else {
                n
            };
            let ghost base = self.bytes@;
            let mut i: usize = 0;
            while i < take
                invariant
                    i <= take <= n == chunk@.len(),
                    self.bytes@ == base + chunk@.take(i as int),
                    self.limit == old(self).limit,
                    self.seen == old(self).seen,
                    self.truncated == old(self).truncated,
                decreases take - i,
            {
                self.bytes.push(chunk[i]);
                i = i + 1;
                assert(self.bytes@ =~= base + chunk@.take(i as int));
            }
        }
        self.truncated = self.truncated || n > remaining;
        self.seen = Ghost(all);
        assert(self.bytes@ =~= all.take(min_len(self.limit, all.len())));
    }

    /// The captured output: the first `limit` bytes of everything that
    /// arrived, decoded, and whether more arrived.
    pub fn finish(self) -> (r: CapturedOutput)
        requires
            self.wf(),
        ensures
            r.text@ == kept_text(self.seen(), self.limit()),
            valid_utf8(kept_bytes(self.seen(), self.limit())) ==> r.text@ == decode_utf8(
                kept_bytes(self.seen(), self.limit()),
            ),
            r.truncated == (self.seen().len() > self.limit()),
    {
        CapturedOutput { text: utf8_lossy(self.bytes.as_slice()), truncated: self.truncated }
    }
}

/// Size of the chunks a stream is read in.
pub const READ_CHUNK_BYTES: usize = 8192;

/// Reads `data` the way a stream is read, in chunks of [`READ_CHUNK_BYTES`],
/// keeping at most `limit` bytes. The chunking does not show in the result:
/// it is what [`capture_command_output`] gives for the whole of `data`.
pub fn read_limited(data: &[u8], limit: usize) -> (r: CapturedOutput)
    ensures
        r.text@ == kept_text(data@, limit),
        valid_utf8(kept_bytes(data@, limit)) ==> r.text@ == decode_utf8(kept_bytes(data@, limit)),
        r.truncated == (data@.len() > limit),
{
    let mut cap = OutputCapture::new(limit);
    let mut pos: usize = 0;
    while pos < data.len()
        invariant
            pos <= data.len(),
            cap.wf(),
            cap.seen() == data@.take(pos as int),
            cap.limit() == limit,
        decreases data.len() - pos,
    {
        let end = if data.len() - pos > READ_CHUNK_BYTES {
            pos + READ_CHUNK_BYTES
        } else {
            data.len()
        };
        let mut chunk: Vec<u8> = Vec::new();
        let mut i: usize = pos;
        while i < end
            invariant
                pos <= i <= end <= data.len(),
                chunk@ == data@.subrange(pos as int, i as int),
            decreases end - i,
        {
            chunk.push(data[i]);
            i = i + 1;
            assert(chunk@ =~= data@.subrange(pos as int, i as int));
        }
        cap.absorb(chunk.as_slice());
        assert(data@.take(pos as int) + data@.subrange(pos as int, end as int) =~= data@.take(
            end as int,
        ));
        pos = end;
    }
    assert(data@.take(data.len() as int) =~= data@);
    cap.finish()
}

/// What the runner does next while waiting for the program.
#[derive(Clone, Copy, Debug, PartialEq, Eq, Structural)]
pub enum PollAction {
    /// The program has exited: collect its status.
    Finished,
    /// The time is up: kill the program.
    Kill,
    /// Sleep a little and poll again.
    Wait,
}

/// One polling decision: a program that has exited is finished; otherwise
/// it is killed once `elapsed_ms` reaches the timeout.
pub fn poll_step(exited: bool, elapsed_ms: u64, timeout_ms: u64) -> (r: PollAction)
    ensures
        exited ==> r == PollAction::Finished,
        !exited && elapsed_ms >= timeout_ms ==> r == PollAction::Kill,
        !exited && elapsed_ms < timeout_ms ==> r == PollAction::Wait,
{
    if exited {
        PollAction::Finished
    } else if elapsed_ms >= timeout_ms {
        PollAction::Kill
    } else {
        PollAction::Wait
    }
}

impl RunSafeResult {
    /// A run that ended before the program ran, with `status` and the
    /// message `error`.
    pub fn error(status: &str, error: String, duration_ms: u64, options: &RunSafeOptions) -> (r: Self)
        ensures
            r.status@ == status@,
            r.exit_code is None,
            r.stdout@.len() == 0,
            r.stderr@.len() == 0,
            !r.stdout_truncated,
            !r.stderr_truncated,
            r.duration_ms == duration_ms,
            r.timeout_ms == options.timeout_ms,
            r.output_limit_bytes == options.output_limit_bytes,
            r.error matches Some(e) && e@ == error@,
    {
        RunSafeResult {
            status: text_of(status),
            exit_code: None,
            stdout: String::new(),
            stderr: String::new(),
            stdout_truncated: false,
            stderr_truncated: false,
            duration_ms,
            timeout_ms: options.timeout_ms,
            output_limit_bytes: options.output_limit_bytes,
            error: Some(error),
        }
    }
}

/// The status reported for a fatal error before the program ran.
pub open spec fn xerror_status(e: XError) -> Seq<char> {
    match e {
        XError::Parse(_) => "check_error"@,
        XError::Codegen(_) => "codegen_error"@,
        _ => "error"@,
    }
}

/// The text of an I/O error, as `std::io::Error` displays it. Nothing is
/// claimed of it: it may come from the operating system.
#[verifier::external_body]
fn io_error_text(e: &std::io::Error) -> String {
    e.to_string()
}

/// The text of a JSON error, as `serde_json::Error` displays it. The error
/// value is opaque here, so nothing is claimed of the text.
#[verifier::external_body]
fn json_error_text(e: &serde_json::Error) -> String {
    e.to_string()
}

impl XError {
    /// The message of the error: `parse error: ...`, `codegen error: ...`,
    /// `io error: ...` or `json error: ...`.
    pub fn describe(&self) -> (r: String)
        ensures
            self matches XError::Parse(m) ==> r@ == "parse error: "@ + m@,
            self matches XError::Codegen(m) ==> r@ == "codegen error: "@ + m@,
            self is Io ==> r@.take(10) == "io error: "@,
            self is Json ==> r@.take(12) == "json error: "@,
    {
        let mut out = String::new();
        match self {
            XError::Parse(m) => {
                out.append("parse error: ");
                out.append(m.as_str());
            },
            XError::Codegen(m) => {
                out.append("codegen error: ");
                out.append(m.as_str());
            },
            XError::Io(e) => {
                out.append("io error: ");
                proof {
                    reveal_strlit("io error: ");
                }
                let ghost head = out@;
                let t = io_error_text(e);
                out.append(t.as_str());
                assert(out@.take(10) =~= head);
            },
            XError::Json(e) => {
                out.append("json error: ");
                proof {
                    reveal_strlit("json error: ");
                }
                let ghost head = out@;
                let t = json_error_text(e);
                out.append(t.as_str());
                assert(out@.take(12) =~= head);
            },
        }
        out
    }
}

/// The result of a run that failed before the C compiler: `check_error` for
/// a rejected program, `codegen_error` for code generation, `error` else.
pub fn result_from_xerror(err: &XError, duration_ms: u64, options: &RunSafeOptions) -> (r: RunSafeResult)
    ensures
        r.status@ == xerror_status(*err),
        r.exit_code is None,
        r.duration_ms == duration_ms,
        r.timeout_ms == options.timeout_ms,
        r.output_limit_bytes == options.output_limit_bytes,
        r.stdout@.len() == 0 && r.stderr@.len() == 0,
        !r.stdout_truncated && !r.stderr_truncated,
        err matches XError::Parse(m) ==> (r.error matches Some(e) && e@ == "parse error: "@ + m@),
        err matches XError::Codegen(m) ==> (r.error matches Some(e) && e@ == "codegen error: "@
            + m@),
        r.error is Some,
{
    let status = match err {
        XError::Parse(_) => "check_error",
        XError::Codegen(_) => "codegen_error",
        XError::Io(_) => "error",
        XError::Json(_) => "error",
    };
    RunSafeResult::error(status, err.describe(), duration_ms, options)
}

/// Decimal text of a signed integer, with a leading `-` when negative.
pub open spec fn signed_decimal(v: int) -> Seq<char> {
    if v < 0 {
        "-"@ + decimal((-v) as nat)
    } else {
        decimal(v as nat)
    }
}

/// How `Option<i32>` is written by `{:?}`: `Some(..)` or `None`.
pub open spec fn exit_code_text(c: Option<i32>) -> Seq<char> {
    match c {
        Some(v) => "Some("@ + signed_decimal(v as int) + ")"@,
        None => "None"@,
    }
}

/// Decimal text of a `u64`.
pub fn decimal_u64(n: u64) -> (r: String)
    ensures
        r@ == decimal(n as nat),
    decreases n,
{
    if n < 10 {
        let d = decimal_string(n as usize);
        d
    } else {
        let mut r = decimal_u64(n / 10);
        let last = decimal_string((n % 10) as usize);
        proof {
            assert(last@ == seq![crate::text::digit_char((n % 10) as nat)]);
        }
        r.append(last.as_str());
        r
    }
}

fn exit_code_string(c: Option<i32>) -> (r: String)
    ensures
        r@ == exit_code_text(c),
{
    match c {
        Some(v) => {
            let mut out = String::new();
            out.append("Some(");
            if v < 0 {
                out.append("-");
                let m: u64 = (-(v as i64)) as u64;
                let d = decimal_u64(m);
                out.append(d.as_str());
            } else {
                let d = decimal_u64(v as u64);
                out.append(d.as_str());
            }
            out.append(")");
            out
        },
        None => text_of("None"),
    }
}

/// The result of a run whose C compiler failed: its output, captured under
/// the limit, and its exit code.
pub fn compile_failed_result(
    exit_code: Option<i32>,
    stdout: &[u8],
    stderr: &[u8],
    duration_ms: u64,
    options: &RunSafeOptions,
) -> (r: RunSafeResult)
    ensures
        r.status@ == "compile_error"@,
        r.exit_code == exit_code,
        r.stdout@ == kept_text(stdout@, options.output_limit_bytes),
        r.stderr@ == kept_text(stderr@, options.output_limit_bytes),
        r.stdout_truncated == (stdout@.len() > options.output_limit_bytes),
        r.stderr_truncated == (stderr@.len() > options.output_limit_bytes),
        r.duration_ms == duration_ms,
        r.timeout_ms == options.timeout_ms,
        r.output_limit_bytes == options.output_limit_bytes,
        r.error matches Some(e) && e@ == "C compiler failed with exit code "@ + exit_code_text(
            exit_code,
        ),
{
    let out = capture_command_output(stdout, options.output_limit_bytes);
    let err = capture_command_output(stderr, options.output_limit_bytes);
    let mut msg = text_of("C compiler failed with exit code ");
    let code = exit_code_string(exit_code);
    msg.append(code.as_str());
    RunSafeResult {
        status: text_of("compile_error"),
        exit_code,
        stdout: out.text,
        stderr: err.text,
        stdout_truncated: out.truncated,
        stderr_truncated: err.truncated,
        duration_ms,
        timeout_ms: options.timeout_ms,
        output_limit_bytes: options.output_limit_bytes,
        error: Some(msg),
    }
}

/// The result of a program that ran: `timeout` (no exit code, an error
/// message naming the limit) when it was killed, `ok` with its exit code
/// otherwise.
pub fn finished_result(
    timed_out: bool,
    exit_code: Option<i32>,
    stdout: CapturedOutput,
    stderr: CapturedOutput,
    duration_ms: u64,
    options: &RunSafeOptions,
) -> (r: RunSafeResult)
    ensures
        r.status@ == (if timed_out {
            "timeout"@
        } else {
            "ok"@
        }),
        r.exit_code == (if timed_out {
            None
        } else {
            exit_code
        }),
        r.stdout@ == stdout.text@,
        r.stderr@ == stderr.text@,
        r.stdout_truncated == stdout.truncated,
        r.stderr_truncated == stderr.truncated,
        r.duration_ms == duration_ms,
        r.timeout_ms == options.timeout_ms,
        r.output_limit_bytes == options.output_limit_bytes,
        timed_out ==> (r.error matches Some(e) && e@ == "program timed out after "@ + decimal(
            options.timeout_ms as nat,
        ) + " ms"@),
        !timed_out ==> r.error is None,
{
    let error = if timed_out {
        let mut m = text_of("program timed out after ");
        let d = decimal_u64(options.timeout_ms);
        m.append(d.as_str());
        m.append(" ms");
        Some(m)
    } else {
        None
    };
    RunSafeResult {
        status: if timed_out {
            text_of("timeout")
        } else {
            text_of("ok")
        },
        exit_code: if timed_out {
            None
        } else {
            exit_code
        },
        stdout: stdout.text,
        stderr: stderr.text,
        stdout_truncated: stdout.truncated,
        stderr_truncated: stderr.truncated,
        duration_ms,
        timeout_ms: options.timeout_ms,
        output_limit_bytes: options.output_limit_bytes,
        error,
    }
}

} // verus!
