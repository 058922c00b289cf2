//! The lexer: characters to tokens, with byte-offset spans and accumulated
//! diagnostics (an unexpected character is reported and skipped).
use vstd::prelude::*;
use crate::error::{
    push_dedup, fresh_diag, Diagnostic, DiagnosticView, Diagnostics, ErrorCode, Severity,
};
use crate::source::Span;
use crate::text::{
    at_char_boundary, byte_len, byte_offset, char_width, chars_range_to_string, debug_char,
    debug_char_text, is_digit, is_ident_char, is_ident_start, is_ascii_digit,
    is_ident_continue_char, is_ident_start_char, is_white_space, is_whitespace,
    lemma_byte_offset_full, lemma_byte_offset_mono, lemma_byte_offset_step, str_chars, text_of,
    utf8_width,
};

verus! {

#[derive(Clone, Copy, Debug, PartialEq, Eq, Structural)]
pub enum TokenKind {
    Keyword,
    Ident,
    Int,
    Float,
    String,
    Symbol,
    Eof,
}

/// A lexed token. Position is byte offsets only (`start` inclusive, `end`
/// exclusive).
#[derive(Debug)]
pub struct Token {
    pub kind: TokenKind,
    pub text: String,
    pub start: u32,
    pub end: u32,
}

impl Clone for Token {
    fn clone(&self) -> (r: Self)
        ensures
            r == *self,
    {
        Token { kind: self.kind, text: self.text.clone(), start: self.start, end: self.end }
    }
}

/// The plain-value content of a [`Token`].
pub struct TokenView {
    pub kind: TokenKind,
    pub text: Seq<char>,
    pub start: u32,
    pub end: u32,
}

impl View for Token {
    type V = TokenView;

    open spec fn view(&self) -> TokenView {
        TokenView { kind: self.kind, text: self.text@, start: self.start, end: self.end }
    }
}

pub open spec fn tokens_view(ts: Seq<Token>) -> Seq<TokenView> {
    ts.map_values(|t: Token| t@)
}

pub open spec fn is_keyword_text(t: Seq<char>) -> bool {
    t == "module"@ || t == "import"@ || t == "struct"@ || t == "type"@ || t == "fn"@ || t
        == "let"@ || t == "mut"@ || t == "if"@ || t == "else"@ || t == "for"@ || t == "in"@
        || t == "while"@ || t == "match"@ || t == "return"@ || t == "break"@ || t
        == "continue"@ || t == "true"@ || t == "false"@ || t == "impl"@
}

/// `a == b` for a `String` and a `&str`.
pub fn text_eq(a: &String, b: &str) -> (r: bool)
    ensures
        r == (a@ == b@),
{
    *a == text_of(b)
}

pub fn is_keyword(text: &String) -> (r: bool)
    ensures
        r == is_keyword_text(text@),
{
    text_eq(text, "module") || text_eq(text, "import") || text_eq(text, "struct") || text_eq(
        text,
        "type",
    ) || text_eq(text, "fn") || text_eq(text, "let") || text_eq(text, "mut") || text_eq(
        text,
        "if",
    ) || text_eq(text, "else") || text_eq(text, "for") || text_eq(text, "in") || text_eq(
        text,
        "while",
    ) || text_eq(text, "match") || text_eq(text, "return") || text_eq(text, "break")
        || text_eq(text, "continue") || text_eq(text, "true") || text_eq(text, "false")
        || text_eq(text, "impl")
}

// ---------------------------------------------------------------------------
// Specification of tokenization, by position in the character sequence.
// ---------------------------------------------------------------------------

/// The character at `i`, or `'\0'` past the end.
pub open spec fn peek_at(cs: Seq<char>, i: int) -> char {
    if 0 <= i < cs.len() {
        cs[i]
    } else {
        '\0'
    }
}

pub open spec fn scan_ident(cs: Seq<char>, j: int) -> int
    decreases cs.len() - j,
{
    if 0 <= j < cs.len() && is_ident_char(cs[j]) {
        scan_ident(cs, j + 1)
    } else {
        j
    }
}

pub open spec fn scan_digits(cs: Seq<char>, j: int) -> int
    decreases cs.len() - j,
{
    if 0 <= j < cs.len() && is_digit(cs[j]) {
        scan_digits(cs, j + 1)
    } else {
        j
    }
}

pub open spec fn scan_line(cs: Seq<char>, j: int) -> int
    decreases cs.len() - j,
{
    if 0 <= j < cs.len() && cs[j] != '\n' {
        scan_line(cs, j + 1)
    } else {
        j
    }
}

/// End of a number literal starting at `i`, and whether it is a float
/// (`digits '.' digit digits`).
pub open spec fn scan_number(cs: Seq<char>, i: int) -> (int, TokenKind) {
    let j = scan_digits(cs, i);
    if j < cs.len() && cs[j] == '.' && is_digit(peek_at(cs, j + 1)) {
        (scan_digits(cs, j + 1), TokenKind::Float)
    } else {
        (j, TokenKind::Int)
    }
}

/// The character that the escape `\c` stands for.
pub open spec fn unescape(c: char) -> char {
    if c == 'n' {
        '\n'
    } else if c == 't' {
        '\t'
    } else if c == 'r' {
        '\r'
    } else if c == 'e' {
        '\x1b'
    } else {
        c
    }
}

/// Body of a string literal from index `k` (after the opening quote), with
/// the decoded characters `acc` so far: `Some((index after the closing quote,
/// decoded text))`, or `None` if the input ends first.
pub open spec fn scan_string(cs: Seq<char>, k: int, acc: Seq<char>) -> Option<(int, Seq<char>)>
    decreases cs.len() - k,
{
    if k < 0 || k >= cs.len() {
        None
    } else if cs[k] == '"' {
        Some((k + 1, acc))
    } else if cs[k] == '\\' {
        if k + 1 >= cs.len() {
            None
        } else {
            scan_string(cs, k + 2, acc.push(unescape(cs[k + 1])))
        }
    } else {
        scan_string(cs, k + 1, acc.push(cs[k]))
    }
}

/// The two-character operators.
pub open spec fn is_multi_symbol(a: char, b: char) -> bool {
    (a == '=' && b == '>') || (a == '=' && b == '=') || (a == '!' && b == '=') || (a == '>' && b
        == '=') || (a == '<' && b == '=') || (a == '&' && b == '&') || (a == '|' && b == '|') || (a
        == '+' && b == '=') || (a == '-' && b == '=') || (a == '*' && b == '=') || (a == '/' && b
        == '=') || (a == '%' && b == '=') || (a == '<' && b == '<') || (a == '>' && b == '>')
        || (a == '.' && b == '.')
}

/// The one-character symbols `{}()[]:,.<>&|^~+-*/%=!`.
pub open spec fn is_single_symbol(c: char) -> bool {
    c == '{' || c == '}' || c == '(' || c == ')' || c == '[' || c == ']' || c == ':' || c == ','
        || c == '.' || c == '<' || c == '>' || c == '&' || c == '|' || c == '^' || c == '~' || c
        == '+' || c == '-' || c == '*' || c == '/' || c == '%' || c == '=' || c == '!'
}

pub open spec fn off(cs: Seq<char>, i: int) -> u32 {
    byte_offset(cs, i) as u32
}

pub open spec fn tok(kind: TokenKind, text: Seq<char>, start: u32, end: u32) -> TokenView {
    TokenView { kind, text, start, end }
}

/// One lexing step at index `i < cs.len()`: the next index, and the token or
/// diagnostic produced (if any).
pub open spec fn lex_step(cs: Seq<char>, i: int) -> (int, Option<TokenView>, Option<
    DiagnosticView,
>) {
    let ch = cs[i];
    if is_white_space(ch) {
        (i + 1, None, None)
    } else if ch == '/' && peek_at(cs, i + 1) == '/' {
        (scan_line(cs, i), None, None)
    } else if is_ident_start(ch) {
        let j = scan_ident(cs, i);
        let t = cs.subrange(i, j);
        (
            j,
            Some(
                tok(
                    if is_keyword_text(t) {
                        TokenKind::Keyword
                    } else {
                        TokenKind::Ident
                    },
                    t,
                    off(cs, i),
                    off(cs, j),
                ),
            ),
            None,
        )
    } else if is_digit(ch) {
        let (j, kind) = scan_number(cs, i);
        (j, Some(tok(kind, cs.subrange(i, j), off(cs, i), off(cs, j))), None)
    } else if ch == '"' {
        match scan_string(cs, i + 1, Seq::empty()) {
            Some((j, value)) => (j, Some(tok(TokenKind::String, value, off(cs, i), off(cs, j))), None),
            None => (
                cs.len() as int,
                None,
                Some(
                    fresh_diag(
                        ErrorCode::LexUnterminatedString,
                        Severity::Error,
                        Span { file_id: 0, start: off(cs, i), end: off(cs, cs.len() as int) },
                        "unterminated string literal"@,
                    ),
                ),
            ),
        }
    } else if i + 1 < cs.len() && is_multi_symbol(ch, cs[i + 1]) {
        (i + 2, Some(tok(TokenKind::Symbol, seq![ch, cs[i + 1]], off(cs, i), off(cs, i + 2))), None)
    } else if is_single_symbol(ch) {
        (i + 1, Some(tok(TokenKind::Symbol, seq![ch], off(cs, i), off(cs, i + 1))), None)
    } else {
        (
            i + 1,
            None,
            Some(
                fresh_diag(
                    ErrorCode::LexUnexpectedChar,
                    Severity::Error,
                    Span {
                        file_id: 0,
                        start: off(cs, i),
                        end: (off(cs, i) + utf8_width(ch)) as u32,
                    },
                    "unexpected character "@ + debug_char_text(ch),
                ),
            ),
        )
    }
}

proof fn lemma_scans_advance(cs: Seq<char>, j: int)
    requires
        0 <= j <= cs.len(),
    ensures
        j <= scan_ident(cs, j) <= cs.len(),
        j <= scan_digits(cs, j) <= cs.len(),
        j <= scan_line(cs, j) <= cs.len(),
    decreases cs.len() - j,
{
    if j < cs.len() {
        lemma_scans_advance(cs, j + 1);
    }
}

proof fn lemma_scan_string_bounds(cs: Seq<char>, k: int, acc: Seq<char>)
    requires
        0 <= k,
    ensures
        scan_string(cs, k, acc) matches Some((j, _)) ==> k < j <= cs.len(),
    decreases cs.len() - k,
{
    if 0 <= k < cs.len() && cs[k] != '"' {
        if cs[k] == '\\' {
            if k + 1 < cs.len() {
                lemma_scan_string_bounds(cs, k + 2, acc.push(unescape(cs[k + 1])));
            }
        } else {
            lemma_scan_string_bounds(cs, k + 1, acc.push(cs[k]));
        }
    }
}

pub proof fn lemma_step_advances(cs: Seq<char>, i: int)
    requires
        0 <= i < cs.len(),
    ensures
        i < lex_step(cs, i).0 <= cs.len(),
{
    lemma_scans_advance(cs, i);
    lemma_scans_advance(cs, i + 1);
    let j = scan_digits(cs, i);
    if j + 1 <= cs.len() {
        lemma_scans_advance(cs, j + 1);
    }
    lemma_scan_string_bounds(cs, i + 1, Seq::empty());
    if cs[i] == '/' && peek_at(cs, i + 1) == '/' {
        assert(cs[i] != '\n');
        assert(scan_line(cs, i) == scan_line(cs, i + 1));
    }
    if is_ident_start(cs[i]) {
        assert(scan_ident(cs, i) == scan_ident(cs, i + 1));
    }
    if is_digit(cs[i]) {
        assert(scan_digits(cs, i) == scan_digits(cs, i + 1));
    }
}

/// The end-of-input token at byte offset `end`.
pub open spec fn eof_token(end: u32) -> TokenView {
    tok(TokenKind::Eof, "<eof>"@, end, end)
}

/// Tokenization from index `i`, with tokens `ts` and diagnostics `ds`
/// produced so far. The token stream always ends with the `Eof` token.
pub open spec fn lex_from(cs: Seq<char>, i: int, ts: Seq<TokenView>, ds: Seq<DiagnosticView>) -> (
    Seq<TokenView>,
    Seq<DiagnosticView>,
)
    decreases cs.len() - i,
{
    if i < 0 || i >= cs.len() {
        (ts.push(eof_token(off(cs, cs.len() as int))), ds)
    } else {
        let (j, t, d) = lex_step(cs, i);
        let ts2 = match t {
            Some(t) => ts.push(t),
            None => ts,
        };
        let ds2 = match d {
            Some(d) => push_dedup(ds, d),
            None => ds,
        };
        proof {
            lemma_step_advances(cs, i);
        }
        lex_from(cs, j, ts2, ds2)
    }
}

/// Tokens and diagnostics of a whole source text.
pub open spec fn lex(cs: Seq<char>) -> (Seq<TokenView>, Seq<DiagnosticView>) {
    lex_from(cs, 0, Seq::empty(), Seq::empty())
}


/// Every token spans from the byte offset where its step began to the one
/// where it ended.
proof fn lemma_step_token_span(cs: Seq<char>, i: int)
    requires
        0 <= i < cs.len(),
    ensures
        lex_step(cs, i).1 matches Some(t) ==> t.start == off(cs, i) && t.end == off(
            cs,
            lex_step(cs, i).0,
        ),
{
}

/// Tokens in increasing, non-overlapping byte order, each with start <= end,
/// all ending by offset `bound`.
pub open spec fn tokens_ordered(ts: Seq<TokenView>, bound: int) -> bool {
    &&& forall|k: int| 0 <= k < ts.len() ==> ts[k].start <= ts[k].end
    &&& forall|a: int, b: int| 0 <= a < b < ts.len() ==> ts[a].end <= ts[b].start
    &&& forall|k: int| 0 <= k < ts.len() ==> ts[k].end <= bound
}

/// Every token starts at a character boundary.
pub open spec fn tokens_at_boundaries(cs: Seq<char>, ts: Seq<TokenView>) -> bool {
    forall|k: int| 0 <= k < ts.len() ==> at_char_boundary(cs, #[trigger] ts[k].start as int)
}

proof fn lemma_lex_from_ordered(cs: Seq<char>, i: int, ts: Seq<TokenView>, ds: Seq<DiagnosticView>)
    requires
        0 <= i <= cs.len(),
        byte_len(cs) <= u32::MAX,
        tokens_ordered(ts, off(cs, i) as int),
        tokens_at_boundaries(cs, ts),
    ensures
        tokens_ordered(lex_from(cs, i, ts, ds).0, off(cs, cs.len() as int) as int),
        tokens_at_boundaries(cs, lex_from(cs, i, ts, ds).0),
        lex_from(cs, i, ts, ds).0.len() >= 1,
        lex_from(cs, i, ts, ds).0.last() == eof_token(off(cs, cs.len() as int)),
    decreases cs.len() - i,
{
    lemma_byte_offset_full(cs);
    if i >= cs.len() {
        let r = ts.push(eof_token(off(cs, cs.len() as int)));
        assert(r.last() == eof_token(off(cs, cs.len() as int)));
        assert(tokens_ordered(r, off(cs, cs.len() as int) as int));
        assert(byte_offset(cs, cs.len() as int) == off(cs, cs.len() as int));
        assert(at_char_boundary(cs, off(cs, cs.len() as int) as int));
    } else {
        lemma_step_advances(cs, i);
        lemma_step_token_span(cs, i);
        let (j, t, d) = lex_step(cs, i);
        lemma_byte_offset_mono(cs, i, j);
        lemma_byte_offset_mono(cs, j, cs.len() as int);
        let ts2 = match t {
            Some(t) => ts.push(t),
            None => ts,
        };
        let ds2 = match d {
            Some(d) => push_dedup(ds, d),
            None => ds,
        };
        assert(tokens_ordered(ts2, off(cs, j) as int));
        lemma_byte_offset_mono(cs, i, cs.len() as int);
        assert(byte_offset(cs, i) == off(cs, i));
        assert(at_char_boundary(cs, off(cs, i) as int));
        assert(tokens_at_boundaries(cs, ts2));
        lemma_lex_from_ordered(cs, j, ts2, ds2);
    }
}

/// The token stream of any source text is non-empty, ends with the `Eof`
/// token at the end of the text, and its spans are well-formed byte ranges
/// in increasing order.
pub proof fn law_lex_tokens_ordered(cs: Seq<char>)
    requires
        byte_len(cs) <= u32::MAX,
    ensures
        tokens_ordered(lex(cs).0, byte_len(cs) as int),
        tokens_at_boundaries(cs, lex(cs).0),
        lex(cs).0.len() >= 1,
        lex(cs).0.last() == eof_token(byte_len(cs) as u32),
{
    lemma_byte_offset_full(cs);
    assert(cs.take(0) =~= Seq::<char>::empty());
    lemma_lex_from_ordered(cs, 0, Seq::empty(), Seq::empty());
}

/// A token other than the end token whose text is what the source holds
/// between its offsets (string literals aside, whose text is the unescaped
/// contents), and which is a keyword exactly when its word is reserved.
pub open spec fn token_from_source(cs: Seq<char>, t: TokenView) -> bool {
    &&& t.kind != TokenKind::Eof
    &&& (t.kind == TokenKind::Ident || t.kind == TokenKind::Keyword) ==> (t.kind
        == TokenKind::Keyword <==> is_keyword_text(t.text))
    &&& t.kind != TokenKind::String ==> exists|a: int, b: int|
        #![trigger cs.subrange(a, b)]
        0 <= a <= b <= cs.len() && off(cs, a) == t.start && off(cs, b) == t.end && t.text
            == cs.subrange(a, b)
}

proof fn lemma_step_token_from_source(cs: Seq<char>, i: int)
    requires
        0 <= i < cs.len(),
    ensures
        lex_step(cs, i).1 matches Some(t) ==> token_from_source(cs, t),
{
    lemma_step_advances(cs, i);
    let (j, t, d) = lex_step(cs, i);
    let ch = cs[i];
    if is_white_space(ch) {
    } else if ch == '/' && peek_at(cs, i + 1) == '/' {
    } else if is_ident_start(ch) {
        assert(t.unwrap().text == cs.subrange(i, j));
    } else if is_digit(ch) {
        assert(t.unwrap().text == cs.subrange(i, j));
    } else if ch == '"' {
    } else if i + 1 < cs.len() && is_multi_symbol(ch, cs[i + 1]) {
        assert(seq![ch, cs[i + 1]] =~= cs.subrange(i, i + 2));
    } else if is_single_symbol(ch) {
        assert(seq![ch] =~= cs.subrange(i, i + 1));
    }
}

proof fn lemma_lex_from_source(cs: Seq<char>, i: int, ts: Seq<TokenView>, ds: Seq<DiagnosticView>)
    requires
        0 <= i <= cs.len(),
        forall|k: int| 0 <= k < ts.len() ==> token_from_source(cs, #[trigger] ts[k]),
    ensures
        lex_from(cs, i, ts, ds).0.len() >= 1,
        forall|k: int|
            0 <= k < lex_from(cs, i, ts, ds).0.len() - 1 ==> token_from_source(
                cs,
                #[trigger] lex_from(cs, i, ts, ds).0[k],
            ),
    decreases cs.len() - i,
{
    if i >= cs.len() {
        let r = ts.push(eof_token(off(cs, cs.len() as int)));
        assert forall|k: int| 0 <= k < r.len() - 1 implies token_from_source(cs, #[trigger] r[k]) by {
            assert(r[k] == ts[k]);
        }
    } else {
        lemma_step_advances(cs, i);
        lemma_step_token_from_source(cs, i);
        let (j, t, d) = lex_step(cs, i);
        let ts2 = match t {
            Some(t) => ts.push(t),
            None => ts,
        };
        let ds2 = match d {
            Some(d) => push_dedup(ds, d),
            None => ds,
        };
        assert forall|k: int| 0 <= k < ts2.len() implies token_from_source(cs, #[trigger] ts2[k]) by {
            if k < ts.len() {
                assert(ts2[k] == ts[k]);
            }
        }
        lemma_lex_from_source(cs, j, ts2, ds2);
    }
}

/// Every token but the last (which is the end token) comes from the source:
/// it is no end token, its text is the source between its offsets (string
/// literals aside), and a word is a keyword exactly when it is reserved.
pub proof fn law_lex_tokens_match_source(cs: Seq<char>)
    ensures
        lex(cs).0.len() >= 1,
        forall|k: int| 0 <= k < lex(cs).0.len() - 1 ==> token_from_source(cs, #[trigger] lex(cs).0[k]),
{
    lemma_lex_from_source(cs, 0, Seq::empty(), Seq::empty());
}

/// No quote and no backslash: text that a string literal holds as it is.
pub open spec fn plain_text(a: Seq<char>) -> bool {
    forall|k: int| 0 <= k < a.len() ==> #[trigger] a[k] != '"' && a[k] != '\\'
}

proof fn lemma_scan_plain(cs: Seq<char>, k: int, acc: Seq<char>, a: Seq<char>)
    requires
        0 <= k,
        k + a.len() <= cs.len(),
        cs.subrange(k, k + a.len()) == a,
        plain_text(a),
    ensures
        scan_string(cs, k, acc) == scan_string(cs, k + a.len(), acc + a),
    decreases a.len(),
{
    if a.len() == 0 {
        assert(acc + a =~= acc);
    } else {
        assert(cs[k] == a[0]);
        let rest = a.drop_first();
        assert(cs.subrange(k + 1, k + 1 + rest.len()) =~= rest);
        assert forall|j: int| 0 <= j < rest.len() implies #[trigger] rest[j] != '"' && rest[j] != '\\' by {
            assert(rest[j] == a[j + 1]);
        }
        lemma_scan_plain(cs, k + 1, acc.push(a[0]), rest);
        assert(acc.push(a[0]) + rest =~= acc + a);
    }
}

proof fn lemma_lex_from_keeps_prefix(cs: Seq<char>, i: int, ts: Seq<TokenView>, ds: Seq<DiagnosticView>)
    requires
        0 <= i <= cs.len(),
    ensures
        lex_from(cs, i, ts, ds).0.len() >= ts.len(),
        forall|k: int| 0 <= k < ts.len() ==> #[trigger] lex_from(cs, i, ts, ds).0[k] == ts[k],
    decreases cs.len() - i,
{
    if i < cs.len() {
        lemma_step_advances(cs, i);
        let (j, t, d) = lex_step(cs, i);
        let ts2 = match t {
            Some(t) => ts.push(t),
            None => ts,
        };
        let ds2 = match d {
            Some(d) => push_dedup(ds, d),
            None => ds,
        };
        lemma_lex_from_keeps_prefix(cs, j, ts2, ds2);
        assert forall|k: int| 0 <= k < ts.len() implies #[trigger] lex_from(cs, i, ts, ds).0[k] == ts[k] by {
            assert(ts2[k] == ts[k]);
        }
    }
}

/// In a string literal, a backslash escape stands for one character: `\n` a
/// newline, `\t` a tab, `\r` a carriage return, `\e` the escape character,
/// `\\` a backslash and `\"` a quote; the text around it is kept as it is. So
/// a source that starts with `"a\cb"` (with `a` and `b` free of quotes and
/// backslashes) starts with one string token whose text is `a`, the decoded
/// character, then `b`.
pub proof fn law_string_escapes_decode(a: Seq<char>, b: Seq<char>, esc: char, decoded: char, rest: Seq<char>)
    requires
        plain_text(a),
        plain_text(b),
        (esc == 'n' && decoded == '\n') || (esc == 't' && decoded == '\t') || (esc == 'r'
            && decoded == '\r') || (esc == 'e' && decoded == '\x1b') || (esc == '\\' && decoded
            == '\\') || (esc == '"' && decoded == '"'),
    ensures
        ({
            let cs = seq!['"'] + a + seq!['\\', esc] + b + seq!['"'] + rest;
            &&& lex(cs).0[0].kind == TokenKind::String
            &&& lex(cs).0[0].text == a + seq![decoded] + b
        }),
{
    let cs = seq!['"'] + a + seq!['\\', esc] + b + seq!['"'] + rest;
    let k: int = 1 + a.len() as int;
    assert(cs.subrange(1, k) =~= a);
    lemma_scan_plain(cs, 1, Seq::empty(), a);
    assert(cs[k] == '\\');
    assert(cs[k + 1] == esc);
    assert(Seq::<char>::empty() + a =~= a);
    let acc = a.push(decoded);
    assert(unescape(esc) == decoded);
    assert(cs.subrange(k + 2, k + 2 + b.len()) =~= b);
    lemma_scan_plain(cs, k + 2, acc, b);
    assert(cs[k + 2 + b.len() as int] == '"');
    assert(acc + b =~= a + seq![decoded] + b);
    assert(scan_string(cs, 1, Seq::empty()) == Some((k + 3 + b.len(), a + seq![decoded] + b)));
    assert(!is_white_space('"'));
    lemma_step_advances(cs, 0);
    let (j, t, d) = lex_step(cs, 0);
    lemma_lex_from_keeps_prefix(cs, j, seq![t.unwrap()], Seq::empty());
}

// ---------------------------------------------------------------------------
// Implementation
// ---------------------------------------------------------------------------

pub struct Lexer {
    chars: Vec<char>,
    i: usize,
    byte_offset: usize,
    tokens: Vec<Token>,
    diags: Diagnostics,
    file_id: u32,
}

impl Lexer {
    /// Internal consistency: the cursor is in range, `byte_offset` is the
    /// byte offset of the cursor, and offsets fit in `u32`.
    pub closed spec fn wf(&self) -> bool {
        &&& self.i <= self.chars@.len()
        &&& self.byte_offset == byte_offset(self.chars@, self.i as int)
        &&& byte_len(self.chars@) <= u32::MAX
        &&& self.chars@.len() <= u32::MAX
        &&& self.file_id == 0
    }

    /// The characters being lexed.
    pub closed spec fn chars(&self) -> Seq<char> {
        self.chars@
    }

    /// The tokenization result that `tokenize` will produce from this state.
    pub closed spec fn outcome(&self) -> (Seq<TokenView>, Seq<DiagnosticView>) {
        lex_from(self.chars@, self.i as int, tokens_view(self.tokens@), self.diags@)
    }

    pub fn new(source: &str) -> (r: Self)
        requires
            byte_len(source@) <= u32::MAX,
        ensures
            r.wf(),
            r.chars() == source@,
            r.outcome() == lex(source@),
    {
        let chars = str_chars(source);
        let r = Lexer {
            chars,
            i: 0,
            byte_offset: 0,
            tokens: Vec::new(),
            diags: Diagnostics::new(),
            file_id: 0,
        };
        assert(r.chars@.take(0) =~= Seq::<char>::empty());
        proof {
            lemma_byte_offset_mono(r.chars@, 0, r.chars@.len() as int);
            lemma_byte_offset_full(r.chars@);
        }
        assert(tokens_view(r.tokens@) =~= Seq::<TokenView>::empty());
        r
    }

    fn is_eof(&self) -> (r: bool)
        requires
            self.wf(),
        ensures
            r == (self.i >= self.chars@.len()),
    {
        self.i >= self.chars.len()
    }

    fn peek_char(&self, offset: usize) -> (c: char)
        requires
            self.wf(),
            offset <= 2,
        ensures
            c == peek_at(self.chars@, self.i + offset),
    {
        if offset < self.chars.len() - self.i {
            self.chars[self.i + offset]
        } else {
            '\0'
        }
    }

    fn advance(&mut self) -> (c: char)
        requires
            old(self).wf(),
            old(self).i < old(self).chars@.len(),
        ensures
            final(self).wf(),
            c == old(self).chars@[old(self).i as int],
            final(self).i == old(self).i + 1,
            final(self).chars@ == old(self).chars@,
            final(self).tokens@ == old(self).tokens@,
            final(self).diags@ == old(self).diags@,
    {
        let ch = self.chars[self.i];
        proof {
            lemma_byte_offset_step(self.chars@, self.i as int);
            lemma_byte_offset_mono(self.chars@, self.i + 1, self.chars@.len() as int);
            lemma_byte_offset_full(self.chars@);
        }
        self.i = self.i + 1;
        self.byte_offset = self.byte_offset + char_width(ch);
        ch
    }

    /// Lexes an identifier or keyword starting at the cursor.
    fn lex_ident(&mut self)
        requires
            old(self).wf(),
            old(self).i < old(self).chars@.len(),
            !is_white_space(old(self).chars@[old(self).i as int]),
            !(old(self).chars@[old(self).i as int] == '/' && peek_at(
                old(self).chars@,
                old(self).i + 1,
            ) == '/'),
            is_ident_start(old(self).chars@[old(self).i as int]),
        ensures
            final(self).wf(),
            final(self).chars@ == old(self).chars@,
            final(self).outcome() == old(self).outcome(),
            final(self).i > old(self).i,
    {
        let ghost cs = self.chars@;
        let ghost i0 = self.i as int;
        let start_byte = self.byte_offset;
        let start_idx = self.i;
        proof {
            lemma_scans_advance(cs, i0);
        }
        while !self.is_eof() && is_ident_continue_char(self.peek_char(0))
            invariant
                self.wf(),
                self.chars@ == cs,
                i0 <= self.i,
                scan_ident(cs, self.i as int) == scan_ident(cs, i0),
                self.tokens@ == old(self).tokens@,
                self.diags@ == old(self).diags@,
            decreases cs.len() - self.i,
        {
            self.advance();
        }
        let text = chars_range_to_string(self.chars.as_slice(), start_idx, self.i);
        let end_byte = self.byte_offset;
        let kind = if is_keyword(&text) {
            TokenKind::Keyword
        } else {
            TokenKind::Ident
        };
        proof {
            lemma_byte_offset_mono(cs, self.i as int, cs.len() as int);
            lemma_byte_offset_full(cs);
        }
        self.tokens.push(Token { kind, text, start: start_byte as u32, end: end_byte as u32 });
        assert(tokens_view(self.tokens@) =~= tokens_view(old(self).tokens@).push(
            lex_step(cs, i0).1.unwrap(),
        ));
    }

    /// Lexes an integer or float literal starting at the cursor.
    fn lex_number(&mut self)
        requires
            old(self).wf(),
            old(self).i < old(self).chars@.len(),
            !is_white_space(old(self).chars@[old(self).i as int]),
            !(old(self).chars@[old(self).i as int] == '/' && peek_at(
                old(self).chars@,
                old(self).i + 1,
            ) == '/'),
            !is_ident_start(old(self).chars@[old(self).i as int]),
            is_digit(old(self).chars@[old(self).i as int]),
        ensures
            final(self).wf(),
            final(self).chars@ == old(self).chars@,
            final(self).outcome() == old(self).outcome(),
            final(self).i > old(self).i,
    {
        let ghost cs = self.chars@;
        let ghost i0 = self.i as int;
        let start_byte = self.byte_offset;
        let start_idx = self.i;
        proof {
            lemma_scans_advance(cs, i0);
        }
        while !self.is_eof() && is_ascii_digit(self.peek_char(0))
            invariant
                self.wf(),
                self.chars@ == cs,
                i0 <= self.i,
                scan_digits(cs, self.i as int) == scan_digits(cs, i0),
                self.tokens@ == old(self).tokens@,
                self.diags@ == old(self).diags@,
            decreases cs.len() - self.i,
        {
            self.advance();
        }
        let mut kind = TokenKind::Int;
        if !self.is_eof() && self.peek_char(0) == '.' && is_ascii_digit(self.peek_char(1)) {
            kind = TokenKind::Float;
            let ghost j = self.i as int;
            self.advance();
            proof {
                lemma_scans_advance(cs, j + 1);
            }
            while !self.is_eof() && is_ascii_digit(self.peek_char(0))
                invariant
                    self.wf(),
                    self.chars@ == cs,
                    j + 1 <= self.i,
                    scan_digits(cs, self.i as int) == scan_digits(cs, j + 1),
                    scan_number(cs, i0) == (scan_digits(cs, j + 1), TokenKind::Float),
                    kind == TokenKind::Float,
                    self.tokens@ == old(self).tokens@,
                    self.diags@ == old(self).diags@,
                decreases cs.len() - self.i,
            {
                self.advance();
            }
        }
        let text = chars_range_to_string(self.chars.as_slice(), start_idx, self.i);
        let end_byte = self.byte_offset;
        proof {
            lemma_byte_offset_mono(cs, self.i as int, cs.len() as int);
            lemma_byte_offset_full(cs);
        }
        self.tokens.push(Token { kind, text, start: start_byte as u32, end: end_byte as u32 });
        assert(tokens_view(self.tokens@) =~= tokens_view(old(self).tokens@).push(
            lex_step(cs, i0).1.unwrap(),
        ));
    }

    /// Lexes a string literal starting at the opening quote under the cursor,
    /// decoding escapes; reports an unterminated literal.
    fn lex_string(&mut self)
        requires
            old(self).wf(),
            old(self).i < old(self).chars@.len(),
            !is_white_space(old(self).chars@[old(self).i as int]),
            !is_ident_start(old(self).chars@[old(self).i as int]),
            !is_digit(old(self).chars@[old(self).i as int]),
            old(self).chars@[old(self).i as int] == '"',
        ensures
            final(self).wf(),
            final(self).chars@ == old(self).chars@,
            final(self).outcome() == old(self).outcome(),
            final(self).i > old(self).i,
    {
        let ghost cs = self.chars@;
        let ghost i0 = self.i as int;
        let start_byte = self.byte_offset;
        self.advance();
        let mut value = String::new();
        while !self.is_eof()
            invariant_except_break
                scan_string(cs, self.i as int, value@) == scan_string(cs, i0 + 1, Seq::empty()),
            invariant
                self.wf(),
                self.chars@ == cs,
                cs == old(self).chars@,
                i0 == old(self).i,
                cs[i0] == '"',
                i0 < self.i,
                self.tokens@ == old(self).tokens@,
                self.diags@ == old(self).diags@,
                start_byte == byte_offset(cs, i0),
            ensures
                scan_string(cs, i0 + 1, Seq::empty()) is None,
                self.i == cs.len(),
            decreases cs.len() - self.i,
        {
            let ch = self.advance();
            if ch == '"' {
                let end_byte = self.byte_offset;
                proof {
                    lemma_byte_offset_mono(cs, self.i as int, cs.len() as int);
                    lemma_byte_offset_full(cs);
                }
                self.tokens.push(
                    Token { kind: TokenKind::String, text: value, start: start_byte as u32, end: end_byte as u32 },
                );
                assert(tokens_view(self.tokens@) =~= tokens_view(old(self).tokens@).push(
                    lex_step(cs, i0).1.unwrap(),
                ));
                return;
            }
            if ch == '\\' {
                if self.is_eof() {
                    break;
                }
                let esc = self.advance();
                let decoded = if esc == 'n' {
                    '\n'
                } else if esc == 't' {
                    '\t'
                } else if esc == 'r' {
                    '\r'
                } else if esc == 'e' {
                    '\x1b'
                } else {
                    esc
                };
                value.push(decoded);
            } else {
                value.push(ch);
            }
        }
        let span = Span::new(self.file_id, start_byte as u32, self.byte_offset as u32);
        proof {
            lemma_byte_offset_full(cs);
            lemma_byte_offset_mono(cs, i0, cs.len() as int);
        }
        self.diags.push(
            Diagnostic::error(
                ErrorCode::LexUnterminatedString,
                span,
                text_of("unterminated string literal"),
            ),
        );
    }

    /// Lexes a two-character operator at the cursor, if there is one.
    fn lex_multi_symbol(&mut self) -> (r: bool)
        requires
            old(self).wf(),
            old(self).i < old(self).chars@.len(),
            !is_white_space(old(self).chars@[old(self).i as int]),
            !(old(self).chars@[old(self).i as int] == '/' && peek_at(
                old(self).chars@,
                old(self).i + 1,
            ) == '/'),
            !is_ident_start(old(self).chars@[old(self).i as int]),
            !is_digit(old(self).chars@[old(self).i as int]),
            old(self).chars@[old(self).i as int] != '"',
        ensures
            final(self).wf(),
            final(self).chars@ == old(self).chars@,
            r == (old(self).i + 1 < old(self).chars@.len() && is_multi_symbol(
                old(self).chars@[old(self).i as int],
                old(self).chars@[old(self).i + 1],
            )),
            r ==> final(self).outcome() == old(self).outcome(),
            r ==> final(self).i > old(self).i,
            !r ==> *final(self) == *old(self),
    {
        let ghost cs = self.chars@;
        let ghost i0 = self.i as int;
        if self.chars.len() - self.i < 2 {
            return false;
        }
        let a = self.chars[self.i];
        let b = self.chars[self.i + 1];
        let hit = (a == '=' && b == '>') || (a == '=' && b == '=') || (a == '!' && b == '=') || (
        a == '>' && b == '=') || (a == '<' && b == '=') || (a == '&' && b == '&') || (a == '|'
            && b == '|') || (a == '+' && b == '=') || (a == '-' && b == '=') || (a == '*' && b
            == '=') || (a == '/' && b == '=') || (a == '%' && b == '=') || (a == '<' && b == '<')
            || (a == '>' && b == '>') || (a == '.' && b == '.');
        if !hit {
            return false;
        }
        let start = self.byte_offset;
        self.advance();
        self.advance();
        let mut text = String::new();
        text.push(a);
        text.push(b);
        proof {
            lemma_byte_offset_mono(cs, self.i as int, cs.len() as int);
            lemma_byte_offset_full(cs);
            assert(text@ =~= seq![a, b]);
        }
        self.tokens.push(
            Token { kind: TokenKind::Symbol, text, start: start as u32, end: self.byte_offset as u32 },
        );
        assert(tokens_view(self.tokens@) =~= tokens_view(old(self).tokens@).push(
            lex_step(cs, i0).1.unwrap(),
        ));
        true
    }

    /// Lexes a one-character symbol at the cursor, if there is one.
    fn lex_single_symbol(&mut self) -> (r: bool)
        requires
            old(self).wf(),
            old(self).i < old(self).chars@.len(),
            !is_white_space(old(self).chars@[old(self).i as int]),
            !(old(self).chars@[old(self).i as int] == '/' && peek_at(
                old(self).chars@,
                old(self).i + 1,
            ) == '/'),
            !is_ident_start(old(self).chars@[old(self).i as int]),
            !is_digit(old(self).chars@[old(self).i as int]),
            old(self).chars@[old(self).i as int] != '"',
            !(old(self).i + 1 < old(self).chars@.len() && is_multi_symbol(
                old(self).chars@[old(self).i as int],
                old(self).chars@[old(self).i + 1],
            )),
        ensures
            final(self).wf(),
            final(self).chars@ == old(self).chars@,
            r == is_single_symbol(old(self).chars@[old(self).i as int]),
            r ==> final(self).outcome() == old(self).outcome(),
            r ==> final(self).i > old(self).i,
            !r ==> *final(self) == *old(self),
    {
        let ghost cs = self.chars@;
        let ghost i0 = self.i as int;
        let c = self.chars[self.i];
        let hit = c == '{' || c == '}' || c == '(' || c == ')' || c == '[' || c == ']' || c == ':'
            || c == ',' || c == '.' || c == '<' || c == '>' || c == '&' || c == '|' || c == '^'
            || c == '~' || c == '+' || c == '-' || c == '*' || c == '/' || c == '%' || c == '='
            || c == '!';
        if !hit {
            return false;
        }
        let start = self.byte_offset;
        self.advance();
        let mut text = String::new();
        text.push(c);
        proof {
            lemma_byte_offset_mono(cs, self.i as int, cs.len() as int);
            lemma_byte_offset_full(cs);
            assert(text@ =~= seq![c]);
        }
        self.tokens.push(
            Token { kind: TokenKind::Symbol, text, start: start as u32, end: self.byte_offset as u32 },
        );
        assert(tokens_view(self.tokens@) =~= tokens_view(old(self).tokens@).push(
            lex_step(cs, i0).1.unwrap(),
        ));
        true
    }

    /// Tokenize, accumulating diagnostics instead of bailing at the first bad
    /// character. The token stream is always produced and ends with `Eof`.
    pub fn tokenize(self) -> (r: (Vec<Token>, Diagnostics))
        requires
            self.wf(),
        ensures
            (tokens_view(r.0@), r.1@) == self.outcome(),
    {
        let mut lx = self;
        let ghost goal = lx.outcome();
        while !lx.is_eof()
            invariant
                lx.wf(),
                lx.outcome() == goal,
            decreases lx.chars@.len() - lx.i,
        {
            let ghost cs = lx.chars@;
            let ghost i0 = lx.i as int;
            let ghost ts0 = tokens_view(lx.tokens@);
            let ghost ds0 = lx.diags@;
            proof {
                lemma_step_advances(cs, i0);
            }
            let ch = lx.peek_char(0);
            if is_whitespace(ch) {
                lx.advance();
                continue;
            }
            if ch == '/' && lx.peek_char(1) == '/' {
                while !lx.is_eof() && lx.peek_char(0) != '\n'
                    invariant
                        lx.wf(),
                        lx.chars@ == cs,
                        i0 <= lx.i,
                        scan_line(cs, lx.i as int) == scan_line(cs, i0),
                        tokens_view(lx.tokens@) == ts0,
                        lx.diags@ == ds0,
                        goal == lex_from(cs, scan_line(cs, i0), ts0, ds0),
                    decreases cs.len() - lx.i,
                {
                    lx.advance();
                }
                proof {
                    lemma_scans_advance(cs, i0 + 1);
                    assert(scan_line(cs, i0) == scan_line(cs, i0 + 1));
                }
                continue;
            }
            if is_ident_start_char(ch) {
                lx.lex_ident();
                continue;
            }
            if is_ascii_digit(ch) {
                lx.lex_number();
                continue;
            }
            if ch == '"' {
                lx.lex_string();
                continue;
            }
            if lx.lex_multi_symbol() {
                continue;
            }
            if lx.lex_single_symbol() {
                continue;
            }
            let start = lx.byte_offset as u32;
            let w = char_width(ch);
            proof {
                lemma_byte_offset_step(cs, i0);
                lemma_byte_offset_mono(cs, i0 + 1, cs.len() as int);
                lemma_byte_offset_full(cs);
            }
            let span = Span::new(lx.file_id, start, start + w as u32);
            let mut message = text_of("unexpected character ");
            let shown = debug_char(ch);
            message.append(shown.as_str());
            lx.diags.push(Diagnostic::error(ErrorCode::LexUnexpectedChar, span, message));
            lx.advance();
        }
        let end = lx.byte_offset as u32;
        proof {
            lemma_byte_offset_full(lx.chars@);
        }
        lx.tokens.push(Token { kind: TokenKind::Eof, text: text_of("<eof>"), start: end, end });
        assert(tokens_view(lx.tokens@) =~= goal.0);
        (lx.tokens, lx.diags)
    }
}

} // verus!
