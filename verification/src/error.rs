//! Fatal errors, and the structured diagnostics that the lexer, the parser and
//! the type checker accumulate.
use vstd::prelude::*;
use crate::source::Span;

verus! {

#[verifier::external_type_specification]
#[verifier::external_body]
pub struct ExIoError(std::io::Error);

#[verifier::external_type_specification]
#[verifier::external_body]
pub struct ExJsonError(serde_json::Error);

/// Fatal error type: legacy whole-file failures (`Parse`), code generation
/// limits (`Codegen`), and I/O or JSON errors.
#[derive(Debug)]
pub enum XError {
    Parse(String),
    Codegen(String),
    Io(std::io::Error),
    Json(serde_json::Error),
}

pub type XResult<T> = Result<T, XError>;

/// Diagnostic severity, mirroring LSP.
#[derive(Clone, Copy, Debug, PartialEq, Eq, Structural)]
pub enum Severity {
    Error,
    Warning,
    Information,
    Hint,
}

impl Severity {
    pub open spec fn label_text(self) -> Seq<char> {
        match self {
            Severity::Error => "error"@,
            Severity::Warning => "warning"@,
            Severity::Information => "information"@,
            Severity::Hint => "hint"@,
        }
    }

    /// The lowercase name under which the severity is serialized.
    pub fn label(&self) -> (r: &'static str)
        ensures
            r@ == self.label_text(),
    {
        match self {
            Severity::Error => "error",
            Severity::Warning => "warning",
            Severity::Information => "information",
            Severity::Hint => "hint",
        }
    }
}

/// Stable, exhaustive error codes. Each has a fixed `EXXXX` string: `E1xxx`
/// lexer, `E2xxx` parser, `E3xxx` type checker, `E9xxx` codegen / internal.
#[derive(Clone, Copy, Debug, PartialEq, Eq, Structural)]
pub enum ErrorCode {
    LexUnexpectedChar,
    LexUnterminatedString,
    ParseUnexpectedToken,
    ParseExpectedToken,
    ParseExpectedIdent,
    ParseUnterminatedBlock,
    ParseExpectedExpression,
    ParseUnknownItem,
    TypeUnknownVar,
    TypeImmutableAssign,
    TypeUnknownAssignTarget,
    TypeAssignmentTarget,
    TypeMismatch,
    TypeArgCount,
    TypeBoolRequired,
    TypeNumericRequired,
    TypeOperatorMismatch,
    TypeForInExpectsSlice,
    TypeReturnMissingValue,
    CodegenUnsupported,
    Internal,
}

impl ErrorCode {
    /// The number in the code's `EXXXX` string.
    pub open spec fn number(self) -> nat {
        match self {
            ErrorCode::LexUnexpectedChar => 1001,
            ErrorCode::LexUnterminatedString => 1002,
            ErrorCode::ParseUnexpectedToken => 2001,
            ErrorCode::ParseExpectedToken => 2002,
            ErrorCode::ParseExpectedIdent => 2003,
            ErrorCode::ParseUnterminatedBlock => 2004,
            ErrorCode::ParseExpectedExpression => 2005,
            ErrorCode::ParseUnknownItem => 2006,
            ErrorCode::TypeUnknownVar => 3001,
            ErrorCode::TypeImmutableAssign => 3002,
            ErrorCode::TypeUnknownAssignTarget => 3003,
            ErrorCode::TypeAssignmentTarget => 3004,
            ErrorCode::TypeMismatch => 3005,
            ErrorCode::TypeArgCount => 3006,
            ErrorCode::TypeBoolRequired => 3007,
            ErrorCode::TypeNumericRequired => 3008,
            ErrorCode::TypeOperatorMismatch => 3009,
            ErrorCode::TypeForInExpectsSlice => 3010,
            ErrorCode::TypeReturnMissingValue => 3011,
            ErrorCode::CodegenUnsupported => 9001,
            ErrorCode::Internal => 9002,
        }
    }

    pub open spec fn code_text(self) -> Seq<char> {
        match self {
            ErrorCode::LexUnexpectedChar => "E1001"@,
            ErrorCode::LexUnterminatedString => "E1002"@,
            ErrorCode::ParseUnexpectedToken => "E2001"@,
            ErrorCode::ParseExpectedToken => "E2002"@,
            ErrorCode::ParseExpectedIdent => "E2003"@,
            ErrorCode::ParseUnterminatedBlock => "E2004"@,
            ErrorCode::ParseExpectedExpression => "E2005"@,
            ErrorCode::ParseUnknownItem => "E2006"@,
            ErrorCode::TypeUnknownVar => "E3001"@,
            ErrorCode::TypeImmutableAssign => "E3002"@,
            ErrorCode::TypeUnknownAssignTarget => "E3003"@,
            ErrorCode::TypeAssignmentTarget => "E3004"@,
            ErrorCode::TypeMismatch => "E3005"@,
            ErrorCode::TypeArgCount => "E3006"@,
            ErrorCode::TypeBoolRequired => "E3007"@,
            ErrorCode::TypeNumericRequired => "E3008"@,
            ErrorCode::TypeOperatorMismatch => "E3009"@,
            ErrorCode::TypeForInExpectsSlice => "E3010"@,
            ErrorCode::TypeReturnMissingValue => "E3011"@,
            ErrorCode::CodegenUnsupported => "E9001"@,
            ErrorCode::Internal => "E9002"@,
        }
    }

    /// The stable `EXXXX` string of the code.
    pub fn code_str(&self) -> (r: &'static str)
        ensures
            r@ == self.code_text(),
    {
        match self {
            ErrorCode::LexUnexpectedChar => "E1001",
            ErrorCode::LexUnterminatedString => "E1002",
            ErrorCode::ParseUnexpectedToken => "E2001",
            ErrorCode::ParseExpectedToken => "E2002",
            ErrorCode::ParseExpectedIdent => "E2003",
            ErrorCode::ParseUnterminatedBlock => "E2004",
            ErrorCode::ParseExpectedExpression => "E2005",
            ErrorCode::ParseUnknownItem => "E2006",
            ErrorCode::TypeUnknownVar => "E3001",
            ErrorCode::TypeImmutableAssign => "E3002",
            ErrorCode::TypeUnknownAssignTarget => "E3003",
            ErrorCode::TypeAssignmentTarget => "E3004",
            ErrorCode::TypeMismatch => "E3005",
            ErrorCode::TypeArgCount => "E3006",
            ErrorCode::TypeBoolRequired => "E3007",
            ErrorCode::TypeNumericRequired => "E3008",
            ErrorCode::TypeOperatorMismatch => "E3009",
            ErrorCode::TypeForInExpectsSlice => "E3010",
            ErrorCode::TypeReturnMissingValue => "E3011",
            ErrorCode::CodegenUnsupported => "E9001",
            ErrorCode::Internal => "E9002",
        }
    }
}

/// Distinct codes have distinct numbers, and the leading digit tells the
/// phase: 1 lexer, 2 parser, 3 type checker, 9 codegen / internal.
pub proof fn law_code_numbers_distinct(a: ErrorCode, b: ErrorCode)
    ensures
        a.number() == b.number() ==> a == b,
        1000 <= a.number() < 10000,
        a.number() / 1000 == 1 <==> (a == ErrorCode::LexUnexpectedChar || a
            == ErrorCode::LexUnterminatedString),
        a.number() / 1000 == 9 <==> (a == ErrorCode::CodegenUnsupported || a
            == ErrorCode::Internal),
{
}

/// A machine-applicable fix: replace the bytes of `range` with `new_text`.
#[derive(Debug)]
pub struct TextEdit {
    pub range: Span,
    pub new_text: String,
}

impl Clone for TextEdit {
    fn clone(&self) -> (r: Self)
        ensures
            r == *self,
    {
        TextEdit { range: self.range, new_text: self.new_text.clone() }
    }
}

/// A single structured diagnostic.
#[derive(Debug)]
pub struct Diagnostic {
    pub severity: Severity,
    pub code: ErrorCode,
    pub message: String,
    pub span: Span,
    pub source: &'static str,
    pub notes: Vec<String>,
    pub suggestions: Vec<TextEdit>,
}

impl Clone for Diagnostic {
    fn clone(&self) -> (r: Self)
        ensures
            r@ == self@,
    {
        let notes = self.notes.clone();
        let suggestions = self.suggestions.clone();
        assert(notes@ =~= self.notes@);
        assert(suggestions@ =~= self.suggestions@);
        let r = Diagnostic {
            severity: self.severity,
            code: self.code,
            message: self.message.clone(),
            span: self.span,
            source: self.source,
            notes,
            suggestions,
        };
        assert(r@.notes =~= self@.notes);
        assert(r@.suggestions =~= self@.suggestions);
        r
    }
}

/// The plain-value content of a [`Diagnostic`].
pub struct DiagnosticView {
    pub severity: Severity,
    pub code: ErrorCode,
    pub message: Seq<char>,
    pub span: Span,
    pub source: Seq<char>,
    pub notes: Seq<Seq<char>>,
    pub suggestions: Seq<(Span, Seq<char>)>,
}

impl View for Diagnostic {
    type V = DiagnosticView;

    open spec fn view(&self) -> DiagnosticView {
        DiagnosticView {
            severity: self.severity,
            code: self.code,
            message: self.message@,
            span: self.span,
            source: self.source@,
            notes: self.notes@.map_values(|n: String| n@),
            suggestions: self.suggestions@.map_values(|e: TextEdit| (e.range, e.new_text@)),
        }
    }
}

/// The view of a fresh diagnostic: no notes, no suggestions, source "xlang".
pub open spec fn fresh_diag(
    code: ErrorCode,
    severity: Severity,
    span: Span,
    message: Seq<char>,
) -> DiagnosticView {
    DiagnosticView {
        severity,
        code,
        message,
        span,
        source: "xlang"@,
        notes: Seq::empty(),
        suggestions: Seq::empty(),
    }
}

impl Diagnostic {
    pub fn new(code: ErrorCode, severity: Severity, span: Span, message: String) -> (r: Self)
        ensures
            r@ == fresh_diag(code, severity, span, message@),
    {
        let r = Diagnostic {
            severity,
            code,
            message,
            span,
            source: "xlang",
            notes: Vec::new(),
            suggestions: Vec::new(),
        };
        assert(r@.notes =~= Seq::<Seq<char>>::empty());
        assert(r@.suggestions =~= Seq::<(Span, Seq<char>)>::empty());
        r
    }

    pub fn error(code: ErrorCode, span: Span, message: String) -> (r: Self)
        ensures
            r@ == fresh_diag(code, Severity::Error, span, message@),
    {
        Self::new(code, Severity::Error, span, message)
    }

    pub fn with_note(self, note: String) -> (r: Self)
        ensures
            r@ == (DiagnosticView { notes: self@.notes.push(note@), ..self@ }),
    {
        let mut d = self;
        d.notes.push(note);
        assert(d@.notes =~= self@.notes.push(note@));
        d
    }

    /// Attach an autofix: replace `range` with `new_text`.
    pub fn with_suggestion(self, range: Span, new_text: String) -> (r: Self)
        ensures
            r@ == (DiagnosticView {
                suggestions: self@.suggestions.push((range, new_text@)),
                ..self@
            }),
    {
        let mut d = self;
        d.suggestions.push(TextEdit { range, new_text });
        assert(d@.suggestions =~= self@.suggestions.push((range, new_text@)));
        d
    }
}

/// Whether `items` already holds a diagnostic with this code and span.
pub open spec fn has_key(items: Seq<DiagnosticView>, code: ErrorCode, span: Span) -> bool {
    exists|k: int| 0 <= k < items.len() && items[k].code == code && items[k].span == span
}

/// Pushing with de-duplication on (code, span).
pub open spec fn push_dedup(items: Seq<DiagnosticView>, d: DiagnosticView) -> Seq<DiagnosticView> {
    if has_key(items, d.code, d.span) {
        items
    } else {
        items.push(d)
    }
}

/// Pushing every element of `others`, in order, with de-duplication.
pub open spec fn push_all(items: Seq<DiagnosticView>, others: Seq<DiagnosticView>) -> Seq<
    DiagnosticView,
>
    decreases others.len(),
{
    if others.len() == 0 {
        items
    } else {
        push_all(push_dedup(items, others[0]), others.drop_first())
    }
}

/// No two diagnostics share both code and span.
pub open spec fn keys_unique(items: Seq<DiagnosticView>) -> bool {
    forall|a: int, b: int|
        0 <= a < b < items.len() ==> !(items[a].code == items[b].code && items[a].span
            == items[b].span)
}

/// Accumulating diagnostic sink.
#[derive(Debug)]
pub struct Diagnostics {
    pub items: Vec<Diagnostic>,
}

impl Clone for Diagnostics {
    fn clone(&self) -> (r: Self)
        ensures
            r@ == self@,
    {
        let items = self.items.clone();
        let r = Diagnostics { items };
        assert(r@ =~= self@);
        r
    }
}

impl View for Diagnostics {
    type V = Seq<DiagnosticView>;

    open spec fn view(&self) -> Seq<DiagnosticView> {
        self.items@.map_values(|d: Diagnostic| d@)
    }
}

impl Diagnostics {
    pub fn new() -> (r: Self)
        ensures
            r@ == Seq::<DiagnosticView>::empty(),
    {
        let r = Diagnostics { items: Vec::new() };
        assert(r@ =~= Seq::<DiagnosticView>::empty());
        r
    }

    /// Push a diagnostic, dropping exact duplicates (same code + same span).
    pub fn push(&mut self, diag: Diagnostic)
        ensures
            final(self)@ == push_dedup(old(self)@, diag@),
    {
        let mut dup = false;
        let mut k: usize = 0;
        while k < self.items.len()
            invariant
                k <= self.items.len(),
                self.items@ == old(self).items@,
                dup <==> exists|j: int|
                    0 <= j < k && self.items@[j].code == diag.code && self.items@[j].span
                        == diag.span,
            decreases self.items.len() - k,
        {
            if self.items[k].code == diag.code && self.items[k].span == diag.span {
                dup = true;
            }
            k = k + 1;
        }
        proof {
            let v = old(self)@;
            if dup {
                let j = choose|j: int|
                    0 <= j < k && self.items@[j].code == diag.code && self.items@[j].span
                        == diag.span;
                assert(v[j].code == diag.code && v[j].span == diag.span);
            } else {
                assert forall|j: int| 0 <= j < v.len() implies !(v[j].code == diag@.code
                    && v[j].span == diag@.span) by {
                    assert(v[j] == self.items@[j]@);
                }
            }
        }
        if !dup {
            self.items.push(diag);
            assert(self@ =~= old(self)@.push(diag@));
        }
    }

    pub fn extend(&mut self, other: Diagnostics)
        ensures
            final(self)@ == push_all(old(self)@, other@),
    {
        let mut k: usize = 0;
        proof {
            assert(other@.skip(0) =~= other@);
        }
        while k < other.items.len()
            invariant
                k <= other.items.len(),
                push_all(old(self)@, other@) == push_all(self@, other@.skip(k as int)),
            decreases other.items.len() - k,
        {
            let d = other.items[k].clone();
            proof {
                assert(other@.skip(k as int)[0] == d@);
                assert(other@.skip(k as int).drop_first() =~= other@.skip(k + 1));
            }
            self.push(d);
            k = k + 1;
        }
        proof {
            assert(other@.skip(k as int) =~= Seq::<DiagnosticView>::empty());
        }
    }

    pub fn is_empty(&self) -> (r: bool)
        ensures
            r == (self@.len() == 0),
    {
        self.items.len() == 0
    }

    pub fn has_errors(&self) -> (r: bool)
        ensures
            r == exists|k: int| 0 <= k < self@.len() && self@[k].severity == Severity::Error,
    {
        let mut k: usize = 0;
        while k < self.items.len()
            invariant
                k <= self.items.len(),
                forall|j: int| 0 <= j < k ==> self@[j].severity != Severity::Error,
            decreases self.items.len() - k,
        {
            if self.items[k].severity == Severity::Error {
                assert(self@[k as int] == self.items@[k as int]@);
                return true;
            }
            k = k + 1;
        }
        false
    }
}

/// De-duplicating push keeps the (code, span) keys unique, and keeps every
/// diagnostic that was already there in place.
pub proof fn law_push_keeps_keys_unique(items: Seq<DiagnosticView>, d: DiagnosticView)
    requires
        keys_unique(items),
    ensures
        keys_unique(push_dedup(items, d)),
        push_dedup(items, d).take(items.len() as int) == items,
        has_key(push_dedup(items, d), d.code, d.span),
{
    if !has_key(items, d.code, d.span) {
        assert(items.push(d)[items.len() as int] == d);
        assert(items.push(d).take(items.len() as int) =~= items);
    } else {
        assert(items.take(items.len() as int) =~= items);
    }
}

/// Pushing a diagnostic whose key is already present changes nothing.
pub proof fn law_push_duplicate_is_noop(items: Seq<DiagnosticView>, d: DiagnosticView, k: int)
    requires
        0 <= k < items.len(),
        items[k].code == d.code,
        items[k].span == d.span,
    ensures
        push_dedup(items, d) == items,
{
}

} // verus!
