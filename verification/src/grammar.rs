//! The grammar of xlang as the parser reads it: for a token stream and a
//! position, what is parsed there and where parsing stops, or which syntax
//! error is reported and where. The recursive-descent parser in `parser` is
//! proved to compute exactly these functions.
use vstd::prelude::*;
use crate::ast::{ArmV, ElseV, ExprV, ItemV, ProgramV, SExpr, SItem, SStmt, StmtV, TypeView};
use crate::error::{fresh_diag, DiagnosticView, ErrorCode, Severity};
use crate::lexer::{TokenKind, TokenView};
use crate::source::Span;
use crate::text::debug_str_text;

verus! {

/// What parsing from a position yields: a value and the position after it,
/// or an error and the position at which it was found.
pub enum Parsed<T> {
    Done(T, int),
    Failed(DiagnosticView, int),
}

/// Whether the outcome `r` of a parsing function, which stopped at `pos`,
/// is `p`, values compared by `view`.
pub open spec fn agrees<T, V>(r: Result<T, crate::error::Diagnostic>, pos: int, view: spec_fn(T) -> V, p: Parsed<V>) -> bool {
    match p {
        Parsed::Done(v, j) => r is Ok && view(r->Ok_0) == v && pos == j,
        Parsed::Failed(d, j) => r is Err && r->Err_0@ == d && pos == j,
    }
}

/// A placeholder outcome for positions the parser never reaches (past the
/// end token, or not after the previous position).
pub open spec fn unreachable<T>(i: int) -> Parsed<T> {
    Parsed::Failed(fresh_diag(ErrorCode::Internal, Severity::Error, Span { file_id: 0, start: 0, end: 0 }, Seq::empty()), i)
}

/// The token at `i` is the symbol or keyword `text`.
pub open spec fn at_sym(ts: Seq<TokenView>, i: int, text: Seq<char>) -> bool {
    ts[i].text == text && (ts[i].kind == TokenKind::Symbol || ts[i].kind == TokenKind::Keyword)
}

/// The token at `i` has the text `text` and is not the end token.
pub open spec fn peek_is(ts: Seq<TokenView>, i: int, text: Seq<char>) -> bool {
    ts[i].text == text && ts[i].kind != TokenKind::Eof
}

/// The token `off` places after `i`, or the last one.
pub open spec fn tok_at(ts: Seq<TokenView>, i: int, off: int) -> TokenView {
    ts[if i + off < ts.len() {
        i + off
    } else {
        ts.len() - 1
    }]
}

pub open spec fn tok_span(ts: Seq<TokenView>, i: int) -> Span {
    Span { file_id: 0, start: ts[i].start, end: ts[i].end }
}

/// From `start` to the end of the token before `j`.
pub open spec fn span_to(ts: Seq<TokenView>, start: u32, j: int) -> Span {
    Span { file_id: 0, start, end: ts[j - 1].end }
}

pub open spec fn error_at(ts: Seq<TokenView>, i: int, code: ErrorCode, message: Seq<char>) -> DiagnosticView {
    fresh_diag(code, Severity::Error, tok_span(ts, i), message)
}

/// The error for a missing `text` at `i`.
pub open spec fn expect_error(ts: Seq<TokenView>, i: int, text: Seq<char>) -> DiagnosticView {
    error_at(
        ts,
        i,
        ErrorCode::ParseExpectedToken,
        "expected "@ + debug_str_text(text) + ", got "@ + debug_str_text(ts[i].text),
    )
}

/// The error for a missing identifier at `i`.
pub open spec fn ident_error(ts: Seq<TokenView>, i: int) -> DiagnosticView {
    error_at(ts, i, ErrorCode::ParseExpectedIdent, "expected identifier, got "@ + debug_str_text(ts[i].text))
}

/// `left op right`, spanning both.
pub open spec fn bin_v(op: Seq<char>, left: SExpr, right: SExpr) -> SExpr {
    SExpr { node: ExprV::BinaryExpr(op, Box::new(left), Box::new(right)), span: left.span.spec_merge(right.span) }
}

/// Whether the token at `i` is an operator of binary level `level`: 0 `||`,
/// 1 `&&`, 2 equality, 3 comparison, 4 bitwise and shifts, 5 additive,
/// 6 multiplicative.
pub open spec fn is_level_op(ts: Seq<TokenView>, i: int, level: nat) -> bool {
    if level == 0 {
        at_sym(ts, i, "||"@)
    } else if level == 1 {
        at_sym(ts, i, "&&"@)
    } else if level == 2 {
        at_sym(ts, i, "=="@) || at_sym(ts, i, "!="@)
    } else if level == 3 {
        peek_is(ts, i, ">"@) || peek_is(ts, i, ">="@) || peek_is(ts, i, "<"@) || peek_is(ts, i, "<="@)
    } else if level == 4 {
        peek_is(ts, i, "&"@) || peek_is(ts, i, "|"@) || peek_is(ts, i, "^"@) || peek_is(ts, i, "<<"@)
            || peek_is(ts, i, ">>"@)
    } else if level == 5 {
        at_sym(ts, i, "+"@) || at_sym(ts, i, "-"@)
    } else {
        at_sym(ts, i, "*"@) || at_sym(ts, i, "/"@) || at_sym(ts, i, "%"@)
    }
}

/// The operator of a compound assignment at `i` (`+=` gives `+`).
pub open spec fn compound_op(ts: Seq<TokenView>, i: int) -> Option<Seq<char>> {
    if at_sym(ts, i, "+="@) {
        Some("+"@)
    } else if at_sym(ts, i, "-="@) {
        Some("-"@)
    } else if at_sym(ts, i, "*="@) {
        Some("*"@)
    } else if at_sym(ts, i, "/="@) {
        Some("/"@)
    } else if at_sym(ts, i, "%="@) {
        Some("%"@)
    } else {
        None
    }
}

/// `i` lies strictly after `prev` and before the end of the stream.
pub open spec fn advanced(ts: Seq<TokenView>, prev: int, i: int) -> bool {
    prev < i < ts.len()
}

#[verifier::opaque]
pub open spec fn p_expr(ts: Seq<TokenView>, i: int) -> Parsed<SExpr>
    decreases ts.len() - i, 30nat,
{
    p_assignment(ts, i)
}

/// Assignment, right-associative; `x op= y` reads as `x = x op y`.
pub open spec fn p_assignment(ts: Seq<TokenView>, i: int) -> Parsed<SExpr>
    decreases ts.len() - i, 29nat,
{
    match p_level(ts, i, 0) {
        Parsed::Failed(d, j) => Parsed::Failed(d, j),
        Parsed::Done(e, j) => {
            if !advanced(ts, i, j) {
                unreachable(j)
            } else if at_sym(ts, j, "="@) {
                match p_assignment(ts, j + 1) {
                    Parsed::Done(v, k) => Parsed::Done(
                        SExpr {
                            node: ExprV::AssignmentExpr(Box::new(e), Box::new(v)),
                            span: e.span.spec_merge(v.span),
                        },
                        k,
                    ),
                    Parsed::Failed(d, k) => Parsed::Failed(d, k),
                }
            } else {
                match compound_op(ts, j) {
                    Some(op) => match p_assignment(ts, j + 1) {
                        Parsed::Done(rhs, k) => {
                            let combined = bin_v(op, e, rhs);
                            Parsed::Done(
                                SExpr {
                                    node: ExprV::AssignmentExpr(Box::new(e), Box::new(combined)),
                                    span: e.span.spec_merge(combined.span),
                                },
                                k,
                            )
                        },
                        Parsed::Failed(d, k) => Parsed::Failed(d, k),
                    },
                    None => Parsed::Done(e, j),
                }
            }
        },
    }
}

/// A left-associative chain of operators of `level` (see [`is_level_op`]);
/// past the last level, a unary expression.
pub open spec fn p_level(ts: Seq<TokenView>, i: int, level: nat) -> Parsed<SExpr>
    decreases ts.len() - i, 28 - level,
{
    if level > 7 {
        unreachable(i)
    } else if level == 7 {
        p_unary(ts, i)
    } else {
        match p_level(ts, i, level + 1) {
            Parsed::Failed(d, j) => Parsed::Failed(d, j),
            Parsed::Done(e, j) => {
                if !advanced(ts, i, j) {
                    unreachable(j)
                } else {
                    level_rest(ts, j, level, e)
                }
            },
        }
    }
}

/// The rest of a chain of `level` after its first operand `left`, at `i`.
pub open spec fn level_rest(ts: Seq<TokenView>, i: int, level: nat, left: SExpr) -> Parsed<SExpr>
    decreases ts.len() - i, 28 - level,
{
    if !(0 <= i < ts.len()) || level >= 7 {
        unreachable(i)
    } else if is_level_op(ts, i, level) {
        match p_level(ts, i + 1, level + 1) {
            Parsed::Failed(d, j) => Parsed::Failed(d, j),
            Parsed::Done(r, j) => {
                if !advanced(ts, i + 1, j) {
                    unreachable(j)
                } else {
                    level_rest(ts, j, level, bin_v(ts[i].text, left, r))
                }
            },
        }
    } else {
        Parsed::Done(left, i)
    }
}

pub open spec fn p_unary(ts: Seq<TokenView>, i: int) -> Parsed<SExpr>
    decreases ts.len() - i, 20nat,
{
    if !(0 <= i < ts.len()) {
        unreachable(i)
    } else if at_sym(ts, i, "!"@) || at_sym(ts, i, "-"@) || at_sym(ts, i, "~"@) {
        match p_unary(ts, i + 1) {
            Parsed::Done(v, j) => Parsed::Done(
                SExpr {
                    node: ExprV::UnaryExpr(ts[i].text, Box::new(v)),
                    span: Span { file_id: 0, start: ts[i].start, end: v.span.end },
                },
                j,
            ),
            Parsed::Failed(d, j) => Parsed::Failed(d, j),
        }
    } else {
        p_postfix(ts, i)
    }
}

pub open spec fn p_postfix(ts: Seq<TokenView>, i: int) -> Parsed<SExpr>
    decreases ts.len() - i, 19nat,
{
    match p_primary(ts, i) {
        Parsed::Failed(d, j) => Parsed::Failed(d, j),
        Parsed::Done(e, j) => {
            if !advanced(ts, i, j) {
                unreachable(j)
            } else {
                postfix_rest(ts, j, e)
            }
        },
    }
}

/// A call, field access or indexing starts at `i`.
pub open spec fn is_suffix_start(ts: Seq<TokenView>, i: int) -> bool {
    at_sym(ts, i, "("@) || at_sym(ts, i, "."@) || at_sym(ts, i, "["@)
}

/// Calls, field accesses and indexing applied to `e`, from `i` on.
pub open spec fn postfix_rest(ts: Seq<TokenView>, i: int, e: SExpr) -> Parsed<SExpr>
    decreases ts.len() - i, 19nat,
{
    if !(0 <= i < ts.len()) {
        unreachable(i)
    } else if is_suffix_start(ts, i) {
        match postfix_step(ts, i, e) {
            Parsed::Failed(d, j) => Parsed::Failed(d, j),
            Parsed::Done(e2, j) => {
                if !advanced(ts, i, j) {
                    unreachable(j)
                } else {
                    postfix_rest(ts, j, e2)
                }
            },
        }
    } else {
        Parsed::Done(e, i)
    }
}

/// One call, field access or indexing applied to `e`, at `i`.
pub open spec fn postfix_step(ts: Seq<TokenView>, i: int, e: SExpr) -> Parsed<SExpr>
    decreases ts.len() - i, 18nat,
{
    if !(0 <= i < ts.len()) {
        unreachable(i)
    } else if at_sym(ts, i, "("@) {
        match call_args(ts, i + 1) {
            Parsed::Failed(d, j) => Parsed::Failed(d, j),
            Parsed::Done(args, j) => {
                if !(i < j < ts.len()) {
                    unreachable(j)
                } else if at_sym(ts, j, ")"@) {
                    Parsed::Done(
                        SExpr {
                            node: ExprV::CallExpr(Box::new(e), args),
                            span: Span { file_id: 0, start: e.span.start, end: ts[j].end },
                        },
                        j + 1,
                    )
                } else {
                    Parsed::Failed(expect_error(ts, j, ")"@), j)
                }
            },
        }
    } else if at_sym(ts, i, "."@) {
        if i + 1 < ts.len() && ts[i + 1].kind == TokenKind::Ident {
            Parsed::Done(
                SExpr {
                    node: ExprV::FieldAccessExpr(Box::new(e), ts[i + 1].text),
                    span: Span { file_id: 0, start: e.span.start, end: ts[i + 1].end },
                },
                i + 2,
            )
        } else {
            Parsed::Failed(ident_error(ts, i + 1), i + 1)
        }
    } else {
        match p_expr(ts, i + 1) {
            Parsed::Failed(d, j) => Parsed::Failed(d, j),
            Parsed::Done(index, j) => {
                if !advanced(ts, i + 1, j) {
                    unreachable(j)
                } else if at_sym(ts, j, "]"@) {
                    Parsed::Done(
                        SExpr {
                            node: ExprV::IndexExpr(Box::new(e), Box::new(index)),
                            span: Span { file_id: 0, start: e.span.start, end: ts[j].end },
                        },
                        j + 1,
                    )
                } else {
                    Parsed::Failed(expect_error(ts, j, "]"@), j)
                }
            },
        }
    }
}

/// The arguments of a call, from just after `(` to just before `)`.
pub open spec fn call_args(ts: Seq<TokenView>, i: int) -> Parsed<Seq<SExpr>>
    decreases ts.len() - i, 31nat,
{
    if !(0 <= i < ts.len()) {
        unreachable(i)
    } else if at_sym(ts, i, ")"@) {
        Parsed::Done(Seq::empty(), i)
    } else {
        match p_expr(ts, i) {
            Parsed::Failed(d, j) => Parsed::Failed(d, j),
            Parsed::Done(a, j) => {
                if !advanced(ts, i, j) {
                    unreachable(j)
                } else {
                    comma_exprs(ts, j, seq![a])
                }
            },
        }
    }
}

/// `(, expr)*` after the expressions `acc`.
pub open spec fn comma_exprs(ts: Seq<TokenView>, i: int, acc: Seq<SExpr>) -> Parsed<Seq<SExpr>>
    decreases ts.len() - i, 31nat,
{
    if !(0 <= i < ts.len()) {
        unreachable(i)
    } else if at_sym(ts, i, ","@) {
        match p_expr(ts, i + 1) {
            Parsed::Failed(d, j) => Parsed::Failed(d, j),
            Parsed::Done(a, j) => {
                if !advanced(ts, i + 1, j) {
                    unreachable(j)
                } else {
                    comma_exprs(ts, j, acc.push(a))
                }
            },
        }
    } else {
        Parsed::Done(acc, i)
    }
}

/// `Name { field: ..` or `Name { }` starts at `i`.
pub open spec fn struct_literal_start(ts: Seq<TokenView>, i: int) -> bool {
    &&& ts[i].kind == TokenKind::Ident
    &&& tok_at(ts, i, 1).text == "{"@
    &&& (tok_at(ts, i, 2).text == "}"@ || (tok_at(ts, i, 2).kind == TokenKind::Ident && tok_at(
        ts,
        i,
        3,
    ).text == ":"@))
}

pub open spec fn p_primary(ts: Seq<TokenView>, i: int) -> Parsed<SExpr>
    decreases ts.len() - i, 18nat,
{
    if !(0 <= i < ts.len()) {
        unreachable(i)
    } else {
        let t = ts[i];
        let leaf = |node: ExprV| Parsed::Done(SExpr { node, span: tok_span(ts, i) }, i + 1);
        match t.kind {
            TokenKind::Int => leaf(ExprV::IntLiteral(t.text)),
            TokenKind::Float => leaf(ExprV::FloatLiteral(t.text)),
            TokenKind::String => leaf(ExprV::StringLiteral(t.text)),
            TokenKind::Ident => {
                if struct_literal_start(ts, i) {
                    p_struct_literal(ts, i)
                } else {
                    leaf(ExprV::Identifier(t.text))
                }
            },
            _ => {
                if t.kind == TokenKind::Keyword && (t.text == "true"@ || t.text == "false"@) {
                    leaf(ExprV::BoolLiteral(t.text == "true"@))
                } else if t.text == "("@ {
                    if !at_sym(ts, i, "("@) {
                        Parsed::Failed(expect_error(ts, i, "("@), i)
                    } else {
                        match p_expr(ts, i + 1) {
                            Parsed::Failed(d, j) => Parsed::Failed(d, j),
                            Parsed::Done(e, j) => {
                                if at_sym(ts, j, ")"@) {
                                    Parsed::Done(e, j + 1)
                                } else {
                                    Parsed::Failed(expect_error(ts, j, ")"@), j)
                                }
                            },
                        }
                    }
                } else if t.text == "["@ {
                    p_array_literal(ts, i)
                } else {
                    Parsed::Failed(
                        error_at(
                            ts,
                            i,
                            ErrorCode::ParseExpectedExpression,
                            "expected expression, got "@ + debug_str_text(t.text),
                        ),
                        i,
                    )
                }
            },
        }
    }
}

pub open spec fn p_array_literal(ts: Seq<TokenView>, i: int) -> Parsed<SExpr>
    decreases ts.len() - i, 17nat,
{
    if !(0 <= i < ts.len()) {
        unreachable(i)
    } else if !at_sym(ts, i, "["@) {
        Parsed::Failed(expect_error(ts, i, "["@), i)
    } else {
        match array_elements(ts, i + 1) {
            Parsed::Failed(d, j) => Parsed::Failed(d, j),
            Parsed::Done(els, j) => {
                if at_sym(ts, j, "]"@) {
                    Parsed::Done(
                        SExpr {
                            node: ExprV::ArrayLiteral(els),
                            span: Span { file_id: 0, start: ts[i].start, end: ts[j].end },
                        },
                        j + 1,
                    )
                } else {
                    Parsed::Failed(expect_error(ts, j, "]"@), j)
                }
            },
        }
    }
}

/// The elements of an array literal, from just after `[` to just before `]`
/// (a trailing comma allowed).
pub open spec fn array_elements(ts: Seq<TokenView>, i: int) -> Parsed<Seq<SExpr>>
    decreases ts.len() - i, 31nat,
{
    if !(0 <= i < ts.len()) {
        unreachable(i)
    } else if at_sym(ts, i, "]"@) {
        Parsed::Done(Seq::empty(), i)
    } else {
        match p_expr(ts, i) {
            Parsed::Failed(d, j) => Parsed::Failed(d, j),
            Parsed::Done(e, j) => {
                if !advanced(ts, i, j) {
                    unreachable(j)
                } else {
                    array_rest(ts, j, seq![e])
                }
            },
        }
    }
}

/// `(, expr)* ,?` after the elements `acc` of an array literal.
pub open spec fn array_rest(ts: Seq<TokenView>, i: int, acc: Seq<SExpr>) -> Parsed<Seq<SExpr>>
    decreases ts.len() - i, 17nat,
{
    if !(0 <= i < ts.len()) {
        unreachable(i)
    } else if at_sym(ts, i, ","@) {
        if at_sym(ts, i + 1, "]"@) {
            Parsed::Done(acc, i + 1)
        } else {
            match p_expr(ts, i + 1) {
                Parsed::Failed(d, j) => Parsed::Failed(d, j),
                Parsed::Done(e, j) => {
                    if !advanced(ts, i + 1, j) {
                        unreachable(j)
                    } else {
                        array_rest(ts, j, acc.push(e))
                    }
                },
            }
        }
    } else {
        Parsed::Done(acc, i)
    }
}

pub open spec fn p_struct_literal(ts: Seq<TokenView>, i: int) -> Parsed<SExpr>
    decreases ts.len() - i, 17nat,
{
    if !(0 <= i < ts.len()) {
        unreachable(i)
    } else if ts[i].kind != TokenKind::Ident {
        Parsed::Failed(ident_error(ts, i), i)
    } else if !(i + 1 < ts.len() && at_sym(ts, i + 1, "{"@)) {
        Parsed::Failed(expect_error(ts, i + 1, "{"@), i + 1)
    } else {
        match struct_fields_p(ts, i + 2, Seq::empty()) {
            Parsed::Failed(d, j) => Parsed::Failed(d, j),
            Parsed::Done(fields, j) => {
                if at_sym(ts, j, "}"@) {
                    Parsed::Done(
                        SExpr {
                            node: ExprV::StructLiteral(ts[i].text, fields),
                            span: Span { file_id: 0, start: ts[i].start, end: ts[j].end },
                        },
                        j + 1,
                    )
                } else {
                    Parsed::Failed(expect_error(ts, j, "}"@), j)
                }
            },
        }
    }
}

/// `name: expr` fields separated by commas, after the fields `acc`, up to
/// (not including) the closing `}`.
pub open spec fn struct_fields_p(ts: Seq<TokenView>, i: int, acc: Seq<(Seq<char>, SExpr)>) -> Parsed<Seq<(Seq<char>, SExpr)>>
    decreases ts.len() - i, 17nat,
{
    if !(0 <= i < ts.len()) {
        unreachable(i)
    } else if at_sym(ts, i, "}"@) {
        Parsed::Done(acc, i)
    } else if ts[i].kind != TokenKind::Ident {
        Parsed::Failed(ident_error(ts, i), i)
    } else if !(i + 1 < ts.len() && at_sym(ts, i + 1, ":"@)) {
        Parsed::Failed(expect_error(ts, i + 1, ":"@), i + 1)
    } else {
        match p_expr(ts, i + 2) {
            Parsed::Failed(d, j) => Parsed::Failed(d, j),
            Parsed::Done(v, j) => {
                if !advanced(ts, i + 2, j) {
                    unreachable(j)
                } else {
                    let acc2 = acc.push((ts[i].text, v));
                    if at_sym(ts, j, ","@) {
                        struct_fields_p(ts, j + 1, acc2)
                    } else {
                        Parsed::Done(acc2, j)
                    }
                }
            },
        }
    }
}

/// From the start of token `i` to the end of the token before `j`.
pub open spec fn stmt_span(ts: Seq<TokenView>, i: int, j: int) -> Span {
    span_to(ts, ts[i].start, j)
}

/// A type: `Name` or `Name<arg, ...>`.
#[verifier::opaque]
pub open spec fn p_type_expr(ts: Seq<TokenView>, i: int) -> Parsed<TypeView>
    decreases ts.len() - i, 5nat,
{
    type_expr_rule(ts, i)
}

pub open spec fn type_expr_rule(ts: Seq<TokenView>, i: int) -> Parsed<TypeView>
    decreases ts.len() - i, 4nat,
{
    if !(0 <= i < ts.len()) {
        unreachable(i)
    } else if ts[i].kind != TokenKind::Ident {
        Parsed::Failed(ident_error(ts, i), i)
    } else if i + 1 < ts.len() && at_sym(ts, i + 1, "<"@) {
        match type_args(ts, i + 2) {
            Parsed::Failed(d, j) => Parsed::Failed(d, j),
            Parsed::Done(args, j) => {
                if at_sym(ts, j, ">"@) {
                    Parsed::Done(TypeView::TypeExpr { name: ts[i].text, args }, j + 1)
                } else {
                    Parsed::Failed(expect_error(ts, j, ">"@), j)
                }
            },
        }
    } else {
        Parsed::Done(TypeView::TypeExpr { name: ts[i].text, args: Seq::empty() }, i + 1)
    }
}

/// A type argument: a type or an integer constant.
pub open spec fn p_type_arg(ts: Seq<TokenView>, i: int) -> Parsed<TypeView>
    decreases ts.len() - i, 6nat,
{
    if !(0 <= i < ts.len()) {
        unreachable(i)
    } else if ts[i].kind == TokenKind::Int {
        Parsed::Done(TypeView::ConstTypeArg { value: ts[i].text }, i + 1)
    } else {
        p_type_expr(ts, i)
    }
}

/// Comma-separated type arguments.
pub open spec fn type_args(ts: Seq<TokenView>, i: int) -> Parsed<Seq<TypeView>>
    decreases ts.len() - i, 7nat,
{
    match p_type_arg(ts, i) {
        Parsed::Failed(d, j) => Parsed::Failed(d, j),
        Parsed::Done(a, j) => {
            if !advanced(ts, i, j) {
                unreachable(j)
            } else {
                type_args_rest(ts, j, seq![a])
            }
        },
    }
}

pub open spec fn type_args_rest(ts: Seq<TokenView>, i: int, acc: Seq<TypeView>) -> Parsed<Seq<TypeView>>
    decreases ts.len() - i, 7nat,
{
    if !(0 <= i < ts.len()) {
        unreachable(i)
    } else if at_sym(ts, i, ","@) {
        match p_type_arg(ts, i + 1) {
            Parsed::Failed(d, j) => Parsed::Failed(d, j),
            Parsed::Done(a, j) => {
                if !advanced(ts, i + 1, j) {
                    unreachable(j)
                } else {
                    type_args_rest(ts, j, acc.push(a))
                }
            },
        }
    } else {
        Parsed::Done(acc, i)
    }
}

/// A block: `{`, statements, `}`.
#[verifier::opaque]
pub open spec fn p_block(ts: Seq<TokenView>, i: int) -> Parsed<Seq<SStmt>>
    decreases ts.len() - i, 36nat,
{
    block_rule(ts, i)
}

pub open spec fn block_rule(ts: Seq<TokenView>, i: int) -> Parsed<Seq<SStmt>>
    decreases ts.len() - i, 34nat,
{
    if !(0 <= i < ts.len()) {
        unreachable(i)
    } else if !at_sym(ts, i, "{"@) {
        Parsed::Failed(expect_error(ts, i, "{"@), i)
    } else {
        match block_stmts(ts, i + 1, Seq::empty()) {
            Parsed::Failed(d, j) => Parsed::Failed(d, j),
            Parsed::Done(ss, j) => {
                if at_sym(ts, j, "}"@) {
                    Parsed::Done(ss, j + 1)
                } else {
                    Parsed::Failed(expect_error(ts, j, "}"@), j)
                }
            },
        }
    }
}

/// The statements of a block after `acc`, up to its `}`.
pub open spec fn block_stmts(ts: Seq<TokenView>, i: int, acc: Seq<SStmt>) -> Parsed<Seq<SStmt>>
    decreases ts.len() - i, 35nat,
{
    if !(0 <= i < ts.len()) {
        unreachable(i)
    } else if at_sym(ts, i, "}"@) {
        Parsed::Done(acc, i)
    } else if ts[i].kind == TokenKind::Eof {
        Parsed::Failed(error_at(ts, i, ErrorCode::ParseUnterminatedBlock, "unterminated block"@), i)
    } else {
        match p_stmt(ts, i) {
            Parsed::Failed(d, j) => Parsed::Failed(d, j),
            Parsed::Done(st, j) => {
                if !advanced(ts, i, j) {
                    unreachable(j)
                } else {
                    block_stmts(ts, j, acc.push(st))
                }
            },
        }
    }
}

pub open spec fn p_stmt(ts: Seq<TokenView>, i: int) -> Parsed<SStmt>
    decreases ts.len() - i, 32nat,
{
    if !(0 <= i < ts.len()) {
        unreachable(i)
    } else if at_sym(ts, i, "let"@) {
        p_let(ts, i)
    } else if at_sym(ts, i, "if"@) {
        p_if(ts, i)
    } else if at_sym(ts, i, "for"@) {
        p_for(ts, i)
    } else if at_sym(ts, i, "while"@) {
        p_while(ts, i)
    } else if at_sym(ts, i, "match"@) {
        p_match(ts, i)
    } else if at_sym(ts, i, "return"@) {
        p_return(ts, i)
    } else if at_sym(ts, i, "break"@) {
        Parsed::Done(SStmt { node: StmtV::BreakStmt, span: stmt_span(ts, i, i + 1) }, i + 1)
    } else if at_sym(ts, i, "continue"@) {
        Parsed::Done(SStmt { node: StmtV::ContinueStmt, span: stmt_span(ts, i, i + 1) }, i + 1)
    } else {
        match p_expr(ts, i) {
            Parsed::Failed(d, j) => Parsed::Failed(d, j),
            Parsed::Done(e, j) => Parsed::Done(SStmt { node: StmtV::ExprStmt(e), span: stmt_span(ts, i, j) }, j),
        }
    }
}

/// `let [mut] name: Type = expr`.
pub open spec fn p_let(ts: Seq<TokenView>, i: int) -> Parsed<SStmt>
    decreases ts.len() - i, 30nat,
{
    let m = at_sym(ts, i + 1, "mut"@);
    let k = if m {
        i + 2
    } else {
        i + 1
    };
    if !(0 <= i < ts.len()) || !at_sym(ts, i, "let"@) {
        Parsed::Failed(expect_error(ts, i, "let"@), i)
    } else if !(k < ts.len() && ts[k].kind == TokenKind::Ident) {
        Parsed::Failed(ident_error(ts, k), k)
    } else if !(k + 1 < ts.len() && at_sym(ts, k + 1, ":"@)) {
        Parsed::Failed(expect_error(ts, k + 1, ":"@), k + 1)
    } else {
        match p_type_expr(ts, k + 2) {
            Parsed::Failed(d, j) => Parsed::Failed(d, j),
            Parsed::Done(ty, j) => {
                if !advanced(ts, k + 2, j) {
                    unreachable(j)
                } else if !at_sym(ts, j, "="@) {
                    Parsed::Failed(expect_error(ts, j, "="@), j)
                } else {
                    match p_expr(ts, j + 1) {
                        Parsed::Failed(d, q) => Parsed::Failed(d, q),
                        Parsed::Done(v, q) => Parsed::Done(
                            SStmt {
                                node: StmtV::LetStmt(m, ts[k].text, ty, v),
                                span: stmt_span(ts, i, q),
                            },
                            q,
                        ),
                    }
                }
            },
        }
    }
}

/// `if cond { .. } [else if .. | else { .. }]`.
pub open spec fn p_if(ts: Seq<TokenView>, i: int) -> Parsed<SStmt>
    decreases ts.len() - i, 30nat,
{
    if !(0 <= i < ts.len()) || !at_sym(ts, i, "if"@) {
        Parsed::Failed(expect_error(ts, i, "if"@), i)
    } else {
        match p_expr(ts, i + 1) {
            Parsed::Failed(d, j) => Parsed::Failed(d, j),
            Parsed::Done(c, j) => {
                if !advanced(ts, i + 1, j) {
                    unreachable(j)
                } else {
                    match p_block(ts, j) {
                        Parsed::Failed(d, k) => Parsed::Failed(d, k),
                        Parsed::Done(tb, k) => {
                            if !advanced(ts, j, k) {
                                unreachable(k)
                            } else if at_sym(ts, k, "else"@) {
                                if at_sym(ts, k + 1, "if"@) {
                                    match p_if(ts, k + 1) {
                                        Parsed::Failed(d, q) => Parsed::Failed(d, q),
                                        Parsed::Done(inner, q) => Parsed::Done(
                                            SStmt {
                                                node: StmtV::IfStmt(c, tb, Some(ElseV::IfStmt(Box::new(inner)))),
                                                span: stmt_span(ts, i, q),
                                            },
                                            q,
                                        ),
                                    }
                                } else {
                                    match p_block(ts, k + 1) {
                                        Parsed::Failed(d, q) => Parsed::Failed(d, q),
                                        Parsed::Done(eb, q) => Parsed::Done(
                                            SStmt {
                                                node: StmtV::IfStmt(c, tb, Some(ElseV::Block(eb))),
                                                span: stmt_span(ts, i, q),
                                            },
                                            q,
                                        ),
                                    }
                                }
                            } else {
                                Parsed::Done(
                                    SStmt { node: StmtV::IfStmt(c, tb, None), span: stmt_span(ts, i, k) },
                                    k,
                                )
                            }
                        },
                    }
                }
            },
        }
    }
}

/// The iterable of a `for` loop: an expression, or a range `a..b`.
pub open spec fn p_iterable(ts: Seq<TokenView>, i: int) -> Parsed<SExpr>
    decreases ts.len() - i, 31nat,
{
    match p_expr(ts, i) {
        Parsed::Failed(d, j) => Parsed::Failed(d, j),
        Parsed::Done(first, j) => {
            if !advanced(ts, i, j) {
                unreachable(j)
            } else if at_sym(ts, j, ".."@) {
                match p_expr(ts, j + 1) {
                    Parsed::Failed(d, q) => Parsed::Failed(d, q),
                    Parsed::Done(end, q) => Parsed::Done(
                        SExpr {
                            node: ExprV::RangeExpr(Box::new(first), Box::new(end)),
                            span: first.span.spec_merge(end.span),
                        },
                        q,
                    ),
                }
            } else {
                Parsed::Done(first, j)
            }
        },
    }
}

/// `for name in iterable { .. }`.
pub open spec fn p_for(ts: Seq<TokenView>, i: int) -> Parsed<SStmt>
    decreases ts.len() - i, 30nat,
{
    if !(0 <= i < ts.len()) || !at_sym(ts, i, "for"@) {
        Parsed::Failed(expect_error(ts, i, "for"@), i)
    } else if !(i + 1 < ts.len() && ts[i + 1].kind == TokenKind::Ident) {
        Parsed::Failed(ident_error(ts, i + 1), i + 1)
    } else if !(i + 2 < ts.len() && at_sym(ts, i + 2, "in"@)) {
        Parsed::Failed(expect_error(ts, i + 2, "in"@), i + 2)
    } else {
        match p_iterable(ts, i + 3) {
            Parsed::Failed(d, j) => Parsed::Failed(d, j),
            Parsed::Done(iterable, j) => {
                if !advanced(ts, i + 3, j) {
                    unreachable(j)
                } else {
                    match p_block(ts, j) {
                        Parsed::Failed(d, q) => Parsed::Failed(d, q),
                        Parsed::Done(body, q) => Parsed::Done(
                            SStmt {
                                node: StmtV::ForStmt(ts[i + 1].text, iterable, body),
                                span: stmt_span(ts, i, q),
                            },
                            q,
                        ),
                    }
                }
            },
        }
    }
}

/// `while cond { .. }`.
pub open spec fn p_while(ts: Seq<TokenView>, i: int) -> Parsed<SStmt>
    decreases ts.len() - i, 30nat,
{
    if !(0 <= i < ts.len()) || !at_sym(ts, i, "while"@) {
        Parsed::Failed(expect_error(ts, i, "while"@), i)
    } else {
        match p_expr(ts, i + 1) {
            Parsed::Failed(d, j) => Parsed::Failed(d, j),
            Parsed::Done(c, j) => {
                if !advanced(ts, i + 1, j) {
                    unreachable(j)
                } else {
                    match p_block(ts, j) {
                        Parsed::Failed(d, q) => Parsed::Failed(d, q),
                        Parsed::Done(body, q) => Parsed::Done(
                            SStmt { node: StmtV::WhileStmt(c, body), span: stmt_span(ts, i, q) },
                            q,
                        ),
                    }
                }
            },
        }
    }
}

/// `match value { Pattern => { .. } ... }`.
pub open spec fn p_match(ts: Seq<TokenView>, i: int) -> Parsed<SStmt>
    decreases ts.len() - i, 30nat,
{
    if !(0 <= i < ts.len()) || !at_sym(ts, i, "match"@) {
        Parsed::Failed(expect_error(ts, i, "match"@), i)
    } else {
        match p_expr(ts, i + 1) {
            Parsed::Failed(d, j) => Parsed::Failed(d, j),
            Parsed::Done(v, j) => {
                if !advanced(ts, i + 1, j) {
                    unreachable(j)
                } else if !at_sym(ts, j, "{"@) {
                    Parsed::Failed(expect_error(ts, j, "{"@), j)
                } else {
                    match match_arms(ts, j + 1, Seq::empty()) {
                        Parsed::Failed(d, k) => Parsed::Failed(d, k),
                        Parsed::Done(arms, k) => {
                            if at_sym(ts, k, "}"@) {
                                Parsed::Done(
                                    SStmt { node: StmtV::MatchStmt(v, arms), span: stmt_span(ts, i, k + 1) },
                                    k + 1,
                                )
                            } else {
                                Parsed::Failed(expect_error(ts, k, "}"@), k)
                            }
                        },
                    }
                }
            },
        }
    }
}

/// The arms of a `match` after `acc`, up to its `}`.
pub open spec fn match_arms(ts: Seq<TokenView>, i: int, acc: Seq<ArmV>) -> Parsed<Seq<ArmV>>
    decreases ts.len() - i, 31nat,
{
    if !(0 <= i < ts.len()) {
        unreachable(i)
    } else if at_sym(ts, i, "}"@) {
        Parsed::Done(acc, i)
    } else {
        match p_pattern(ts, i) {
            Parsed::Failed(d, j) => Parsed::Failed(d, j),
            Parsed::Done(pat, j) => {
                if !advanced(ts, i, j) {
                    unreachable(j)
                } else if !at_sym(ts, j, "=>"@) {
                    Parsed::Failed(expect_error(ts, j, "=>"@), j)
                } else {
                    match p_block(ts, j + 1) {
                        Parsed::Failed(d, k) => Parsed::Failed(d, k),
                        Parsed::Done(body, k) => {
                            if !advanced(ts, j + 1, k) {
                                unreachable(k)
                            } else {
                                match_arms(ts, k, acc.push(ArmV { variant: pat.0, bindings: pat.1, body }))
                            }
                        },
                    }
                }
            },
        }
    }
}

/// A pattern: `Name` or `Name(a, b, ..)`.
pub open spec fn p_pattern(ts: Seq<TokenView>, i: int) -> Parsed<(Seq<char>, Seq<Seq<char>>)> {
    if !(0 <= i < ts.len()) || ts[i].kind != TokenKind::Ident {
        Parsed::Failed(ident_error(ts, i), i)
    } else if at_sym(ts, i + 1, "("@) {
        let bindings = if at_sym(ts, i + 2, ")"@) {
            Parsed::Done(Seq::empty(), i + 2)
        } else if i + 2 < ts.len() && ts[i + 2].kind == TokenKind::Ident {
            names_rest(ts, i + 3, seq![ts[i + 2].text])
        } else {
            Parsed::Failed(ident_error(ts, i + 2), i + 2)
        };
        match bindings {
            Parsed::Failed(d, j) => Parsed::Failed(d, j),
            Parsed::Done(bs, j) => {
                if at_sym(ts, j, ")"@) {
                    Parsed::Done((ts[i].text, bs), j + 1)
                } else {
                    Parsed::Failed(expect_error(ts, j, ")"@), j)
                }
            },
        }
    } else {
        Parsed::Done((ts[i].text, Seq::empty()), i + 1)
    }
}

/// `(, name)*` after the names `acc`.
pub open spec fn names_rest(ts: Seq<TokenView>, i: int, acc: Seq<Seq<char>>) -> Parsed<Seq<Seq<char>>>
    decreases ts.len() - i,
{
    if !(0 <= i < ts.len()) {
        unreachable(i)
    } else if at_sym(ts, i, ","@) {
        if i + 1 < ts.len() && ts[i + 1].kind == TokenKind::Ident {
            names_rest(ts, i + 2, acc.push(ts[i + 1].text))
        } else {
            Parsed::Failed(ident_error(ts, i + 1), i + 1)
        }
    } else {
        Parsed::Done(acc, i)
    }
}

/// `return [expr]`; a `}` right after `return` means no value.
pub open spec fn p_return(ts: Seq<TokenView>, i: int) -> Parsed<SStmt>
    decreases ts.len() - i, 30nat,
{
    if !(0 <= i < ts.len()) || !at_sym(ts, i, "return"@) {
        Parsed::Failed(expect_error(ts, i, "return"@), i)
    } else if at_sym(ts, i + 1, "}"@) {
        Parsed::Done(SStmt { node: StmtV::ReturnStmt(None), span: stmt_span(ts, i, i + 1) }, i + 1)
    } else {
        match p_expr(ts, i + 1) {
            Parsed::Failed(d, j) => Parsed::Failed(d, j),
            Parsed::Done(v, j) => Parsed::Done(
                SStmt { node: StmtV::ReturnStmt(Some(v)), span: stmt_span(ts, i, j) },
                j,
            ),
        }
    }
}

/// `ident ('.' ident)*`.
pub open spec fn p_path(ts: Seq<TokenView>, i: int) -> Parsed<Seq<Seq<char>>> {
    if !(0 <= i < ts.len()) || ts[i].kind != TokenKind::Ident {
        Parsed::Failed(ident_error(ts, i), i)
    } else {
        path_rest(ts, i + 1, seq![ts[i].text])
    }
}

/// `('.' ident)*` after the parts `acc`.
pub open spec fn path_rest(ts: Seq<TokenView>, i: int, acc: Seq<Seq<char>>) -> Parsed<Seq<Seq<char>>>
    decreases ts.len() - i,
{
    if !(0 <= i < ts.len()) {
        unreachable(i)
    } else if at_sym(ts, i, "."@) {
        if i + 1 < ts.len() && ts[i + 1].kind == TokenKind::Ident {
            path_rest(ts, i + 2, acc.push(ts[i + 1].text))
        } else {
            Parsed::Failed(ident_error(ts, i + 1), i + 1)
        }
    } else {
        Parsed::Done(acc, i)
    }
}

/// `keyword path`, as in `module a.b` and `import a.b`.
pub open spec fn p_keyword_path(ts: Seq<TokenView>, i: int, keyword: Seq<char>) -> Parsed<Seq<Seq<char>>> {
    if !(0 <= i < ts.len()) || !at_sym(ts, i, keyword) {
        Parsed::Failed(expect_error(ts, i, keyword), i)
    } else {
        p_path(ts, i + 1)
    }
}

/// A parameter `name: Type`.
pub open spec fn p_param(ts: Seq<TokenView>, i: int) -> Parsed<(Seq<char>, TypeView)> {
    if !(0 <= i < ts.len()) || ts[i].kind != TokenKind::Ident {
        Parsed::Failed(ident_error(ts, i), i)
    } else if !(i + 1 < ts.len() && at_sym(ts, i + 1, ":"@)) {
        Parsed::Failed(expect_error(ts, i + 1, ":"@), i + 1)
    } else {
        match p_type_expr(ts, i + 2) {
            Parsed::Failed(d, j) => Parsed::Failed(d, j),
            Parsed::Done(ty, j) => Parsed::Done((ts[i].text, ty), j),
        }
    }
}

/// The parameters of a function, from just after `(` to just before `)`.
pub open spec fn fn_params(ts: Seq<TokenView>, i: int) -> Parsed<Seq<(Seq<char>, TypeView)>> {
    if !(0 <= i < ts.len()) {
        unreachable(i)
    } else if at_sym(ts, i, ")"@) {
        Parsed::Done(Seq::empty(), i)
    } else {
        match p_param(ts, i) {
            Parsed::Failed(d, j) => Parsed::Failed(d, j),
            Parsed::Done(prm, j) => {
                if !advanced(ts, i, j) {
                    unreachable(j)
                } else {
                    params_rest(ts, j, seq![prm])
                }
            },
        }
    }
}

pub open spec fn params_rest(ts: Seq<TokenView>, i: int, acc: Seq<(Seq<char>, TypeView)>) -> Parsed<Seq<(Seq<char>, TypeView)>>
    decreases ts.len() - i,
{
    if !(0 <= i < ts.len()) {
        unreachable(i)
    } else if at_sym(ts, i, ","@) {
        match p_param(ts, i + 1) {
            Parsed::Failed(d, j) => Parsed::Failed(d, j),
            Parsed::Done(prm, j) => {
                if !advanced(ts, i + 1, j) {
                    unreachable(j)
                } else {
                    params_rest(ts, j, acc.push(prm))
                }
            },
        }
    } else {
        Parsed::Done(acc, i)
    }
}

/// `fn name(params): Type { .. }`.
pub open spec fn p_fn_decl(ts: Seq<TokenView>, i: int) -> Parsed<ItemV> {
    if !(0 <= i < ts.len()) || !at_sym(ts, i, "fn"@) {
        Parsed::Failed(expect_error(ts, i, "fn"@), i)
    } else if !(i + 1 < ts.len() && ts[i + 1].kind == TokenKind::Ident) {
        Parsed::Failed(ident_error(ts, i + 1), i + 1)
    } else if !(i + 2 < ts.len() && at_sym(ts, i + 2, "("@)) {
        Parsed::Failed(expect_error(ts, i + 2, "("@), i + 2)
    } else {
        match fn_params(ts, i + 3) {
            Parsed::Failed(d, j) => Parsed::Failed(d, j),
            Parsed::Done(ps, j) => {
                if !(0 <= j < ts.len()) || !at_sym(ts, j, ")"@) {
                    Parsed::Failed(expect_error(ts, j, ")"@), j)
                } else if !(j + 1 < ts.len() && at_sym(ts, j + 1, ":"@)) {
                    Parsed::Failed(expect_error(ts, j + 1, ":"@), j + 1)
                } else {
                    match p_type_expr(ts, j + 2) {
                        Parsed::Failed(d, k) => Parsed::Failed(d, k),
                        Parsed::Done(rt, k) => match p_block(ts, k) {
                            Parsed::Failed(d, q) => Parsed::Failed(d, q),
                            Parsed::Done(body, q) => Parsed::Done(
                                ItemV::FnDecl(ts[i + 1].text, ps, rt, body),
                                q,
                            ),
                        },
                    }
                }
            },
        }
    }
}

/// `struct Name { field: Type ... }`.
pub open spec fn p_struct_decl(ts: Seq<TokenView>, i: int) -> Parsed<ItemV> {
    if !(0 <= i < ts.len()) || !at_sym(ts, i, "struct"@) {
        Parsed::Failed(expect_error(ts, i, "struct"@), i)
    } else if !(i + 1 < ts.len() && ts[i + 1].kind == TokenKind::Ident) {
        Parsed::Failed(ident_error(ts, i + 1), i + 1)
    } else if !(i + 2 < ts.len() && at_sym(ts, i + 2, "{"@)) {
        Parsed::Failed(expect_error(ts, i + 2, "{"@), i + 2)
    } else {
        match field_decls(ts, i + 3, Seq::empty()) {
            Parsed::Failed(d, j) => Parsed::Failed(d, j),
            Parsed::Done(fs, j) => {
                if at_sym(ts, j, "}"@) {
                    Parsed::Done(ItemV::StructDecl(ts[i + 1].text, fs), j + 1)
                } else {
                    Parsed::Failed(expect_error(ts, j, "}"@), j)
                }
            },
        }
    }
}

/// The `name: Type` fields of a struct after `acc`, up to its `}`.
pub open spec fn field_decls(ts: Seq<TokenView>, i: int, acc: Seq<(Seq<char>, TypeView)>) -> Parsed<Seq<(Seq<char>, TypeView)>>
    decreases ts.len() - i,
{
    if !(0 <= i < ts.len()) {
        unreachable(i)
    } else if at_sym(ts, i, "}"@) {
        Parsed::Done(acc, i)
    } else if ts[i].kind != TokenKind::Ident {
        Parsed::Failed(ident_error(ts, i), i)
    } else if !(i + 1 < ts.len() && at_sym(ts, i + 1, ":"@)) {
        Parsed::Failed(expect_error(ts, i + 1, ":"@), i + 1)
    } else {
        match p_type_expr(ts, i + 2) {
            Parsed::Failed(d, j) => Parsed::Failed(d, j),
            Parsed::Done(ty, j) => {
                if !advanced(ts, i + 2, j) {
                    unreachable(j)
                } else {
                    field_decls(ts, j, acc.push((ts[i].text, ty)))
                }
            },
        }
    }
}

/// `type Name = Type`.
pub open spec fn p_type_alias(ts: Seq<TokenView>, i: int) -> Parsed<ItemV> {
    if !(0 <= i < ts.len()) || !at_sym(ts, i, "type"@) {
        Parsed::Failed(expect_error(ts, i, "type"@), i)
    } else if !(i + 1 < ts.len() && ts[i + 1].kind == TokenKind::Ident) {
        Parsed::Failed(ident_error(ts, i + 1), i + 1)
    } else if !(i + 2 < ts.len() && at_sym(ts, i + 2, "="@)) {
        Parsed::Failed(expect_error(ts, i + 2, "="@), i + 2)
    } else {
        match p_type_expr(ts, i + 3) {
            Parsed::Failed(d, j) => Parsed::Failed(d, j),
            Parsed::Done(ty, j) => Parsed::Done(ItemV::TypeAliasDecl(ts[i + 1].text, ty), j),
        }
    }
}

/// `impl Type { fn .. }`.
pub open spec fn p_impl_decl(ts: Seq<TokenView>, i: int) -> Parsed<ItemV> {
    if !(0 <= i < ts.len()) || !at_sym(ts, i, "impl"@) {
        Parsed::Failed(expect_error(ts, i, "impl"@), i)
    } else if !(i + 1 < ts.len() && ts[i + 1].kind == TokenKind::Ident) {
        Parsed::Failed(ident_error(ts, i + 1), i + 1)
    } else if !(i + 2 < ts.len() && at_sym(ts, i + 2, "{"@)) {
        Parsed::Failed(expect_error(ts, i + 2, "{"@), i + 2)
    } else {
        match impl_methods_p(ts, i + 3, Seq::empty()) {
            Parsed::Failed(d, j) => Parsed::Failed(d, j),
            Parsed::Done(ms, j) => {
                if at_sym(ts, j, "}"@) {
                    Parsed::Done(ItemV::ImplDecl(ts[i + 1].text, ms), j + 1)
                } else {
                    Parsed::Failed(expect_error(ts, j, "}"@), j)
                }
            },
        }
    }
}

/// The methods of an `impl` block after `acc`, up to its `}`.
pub open spec fn impl_methods_p(ts: Seq<TokenView>, i: int, acc: Seq<SItem>) -> Parsed<Seq<SItem>>
    decreases ts.len() - i,
{
    if !(0 <= i < ts.len()) {
        unreachable(i)
    } else if at_sym(ts, i, "}"@) {
        Parsed::Done(acc, i)
    } else {
        match p_fn_decl(ts, i) {
            Parsed::Failed(d, j) => Parsed::Failed(d, j),
            Parsed::Done(m, j) => {
                if !advanced(ts, i, j) {
                    unreachable(j)
                } else {
                    impl_methods_p(ts, j, acc.push(SItem { node: m, span: stmt_span(ts, i, j) }))
                }
            },
        }
    }
}

/// A top-level item.
pub open spec fn p_item(ts: Seq<TokenView>, i: int) -> Parsed<SItem> {
    if !(0 <= i < ts.len()) {
        unreachable(i)
    } else {
        let node = if at_sym(ts, i, "struct"@) {
            p_struct_decl(ts, i)
        } else if at_sym(ts, i, "type"@) {
            p_type_alias(ts, i)
        } else if at_sym(ts, i, "fn"@) {
            p_fn_decl(ts, i)
        } else if at_sym(ts, i, "impl"@) {
            p_impl_decl(ts, i)
        } else {
            Parsed::Failed(
                error_at(
                    ts,
                    i,
                    ErrorCode::ParseUnknownItem,
                    "expected item (struct/type/fn), got "@ + debug_str_text(ts[i].text),
                ),
                i,
            )
        };
        match node {
            Parsed::Failed(d, j) => Parsed::Failed(d, j),
            Parsed::Done(n, j) => Parsed::Done(SItem { node: n, span: stmt_span(ts, i, j) }, j),
        }
    }
}

/// `import` declarations after `acc`.
pub open spec fn imports_p(ts: Seq<TokenView>, i: int, acc: Seq<Seq<Seq<char>>>) -> Parsed<Seq<Seq<Seq<char>>>>
    decreases ts.len() - i,
{
    if !(0 <= i < ts.len()) {
        unreachable(i)
    } else if at_sym(ts, i, "import"@) {
        match p_keyword_path(ts, i, "import"@) {
            Parsed::Failed(d, j) => Parsed::Failed(d, j),
            Parsed::Done(path, j) => {
                if !advanced(ts, i, j) {
                    unreachable(j)
                } else {
                    imports_p(ts, j, acc.push(path))
                }
            },
        }
    } else {
        Parsed::Done(acc, i)
    }
}

/// Items after `acc`, up to the end token.
pub open spec fn items_p(ts: Seq<TokenView>, i: int, acc: Seq<SItem>) -> Parsed<Seq<SItem>>
    decreases ts.len() - i,
{
    if !(0 <= i < ts.len()) {
        unreachable(i)
    } else if ts[i].kind == TokenKind::Eof {
        Parsed::Done(acc, i)
    } else {
        match p_item(ts, i) {
            Parsed::Failed(d, j) => Parsed::Failed(d, j),
            Parsed::Done(it, j) => {
                if !advanced(ts, i, j) {
                    unreachable(j)
                } else {
                    items_p(ts, j, acc.push(it))
                }
            },
        }
    }
}

/// A whole program: the module declaration, the imports, then the items up
/// to the end token; the first syntax error ends the parse.
pub open spec fn p_program(ts: Seq<TokenView>, i: int) -> Parsed<ProgramV> {
    match p_keyword_path(ts, i, "module"@) {
        Parsed::Failed(d, j) => Parsed::Failed(d, j),
        Parsed::Done(module, j) => match imports_p(ts, j, Seq::empty()) {
            Parsed::Failed(d, k) => Parsed::Failed(d, k),
            Parsed::Done(imports, k) => match items_p(ts, k, Seq::empty()) {
                Parsed::Failed(d, q) => Parsed::Failed(d, q),
                Parsed::Done(items, q) => Parsed::Done(ProgramV { module, imports, items }, q),
            },
        },
    }
}

/// Where parsing resumes after an error at `i`: past the offending token,
/// at the next token that can start an item or an import (or the end).
pub open spec fn sync_point(ts: Seq<TokenView>, i: int) -> int {
    if !(0 <= i < ts.len()) || ts[i].kind == TokenKind::Eof {
        i
    } else {
        sync_from(ts, i + 1)
    }
}

pub open spec fn is_sync_token(ts: Seq<TokenView>, i: int) -> bool {
    ts[i].kind == TokenKind::Eof || at_sym(ts, i, "struct"@) || at_sym(ts, i, "type"@) || at_sym(
        ts,
        i,
        "fn"@,
    ) || at_sym(ts, i, "impl"@) || at_sym(ts, i, "import"@)
}

pub open spec fn sync_from(ts: Seq<TokenView>, i: int) -> int
    decreases ts.len() - i,
{
    if !(0 <= i < ts.len()) || is_sync_token(ts, i) {
        i
    } else {
        sync_from(ts, i + 1)
    }
}

/// What one step of parsing with recovery yields.
pub enum RecoveryStep {
    Import(Seq<Seq<char>>),
    Item(SItem),
    Error(DiagnosticView),
}

/// One step of parsing with recovery at `i`: an import or an item and the
/// position after it, or an error and the position where parsing resumes.
pub open spec fn recovery_step(ts: Seq<TokenView>, i: int) -> (RecoveryStep, int) {
    if at_sym(ts, i, "import"@) {
        match p_keyword_path(ts, i, "import"@) {
            Parsed::Done(path, j) => (RecoveryStep::Import(path), j),
            Parsed::Failed(d, j) => (RecoveryStep::Error(d), sync_point(ts, j)),
        }
    } else {
        match p_item(ts, i) {
            Parsed::Done(it, j) => (RecoveryStep::Item(it), j),
            Parsed::Failed(d, j) => (RecoveryStep::Error(d), sync_point(ts, j)),
        }
    }
}

/// The imports, items and errors that parsing with recovery collects from
/// `i` on, given those collected so far.
pub open spec fn recover(
    ts: Seq<TokenView>,
    i: int,
    imports: Seq<Seq<Seq<char>>>,
    items: Seq<SItem>,
    errors: Seq<DiagnosticView>,
) -> (Seq<Seq<Seq<char>>>, Seq<SItem>, Seq<DiagnosticView>)
    decreases ts.len() - i,
{
    if !(0 <= i < ts.len()) || ts[i].kind == TokenKind::Eof {
        (imports, items, errors)
    } else {
        let (step, next) = recovery_step(ts, i);
        if !(i < next <= ts.len()) {
            (imports, items, errors)
        } else {
            match step {
                RecoveryStep::Import(path) => recover(ts, next, imports.push(path), items, errors),
                RecoveryStep::Item(it) => recover(ts, next, imports, items.push(it), errors),
                RecoveryStep::Error(d) => recover(ts, next, imports, items, errors.push(d)),
            }
        }
    }
}

/// Parsing with recovery from `i`: the module path (empty when the module
/// declaration is broken), imports, items, and every syntax error in order.
pub open spec fn p_recovering(ts: Seq<TokenView>, i: int) -> (ProgramV, Seq<DiagnosticView>) {
    let (module, j, errors) = match p_keyword_path(ts, i, "module"@) {
        Parsed::Done(m, j) => (m, j, Seq::<DiagnosticView>::empty()),
        Parsed::Failed(d, j) => (Seq::<Seq<char>>::empty(), sync_point(ts, j), seq![d]),
    };
    let (imports, items, errs) = recover(ts, j, Seq::empty(), Seq::empty(), errors);
    (ProgramV { module, imports, items }, errs)
}


pub proof fn unfold_p_expr(ts: Seq<TokenView>, i: int)
    ensures
        p_expr(ts, i) == p_assignment(ts, i),
{
    reveal(p_expr);
}

pub proof fn unfold_p_block(ts: Seq<TokenView>, i: int)
    ensures
        p_block(ts, i) == block_rule(ts, i),
{
    reveal(p_block);
}

pub proof fn unfold_p_type_expr(ts: Seq<TokenView>, i: int)
    ensures
        p_type_expr(ts, i) == type_expr_rule(ts, i),
{
    reveal(p_type_expr);
}

proof fn lemma_recover_items(
    ts: Seq<TokenView>,
    k: int,
    iacc: Seq<SItem>,
    imports: Seq<Seq<Seq<char>>>,
    errors: Seq<DiagnosticView>,
)
    requires
        items_p(ts, k, iacc) is Done,
    ensures
        recover(ts, k, imports, iacc, errors) == (imports, items_p(ts, k, iacc)->Done_0, errors),
    decreases ts.len() - k,
{
    if 0 <= k < ts.len() && ts[k].kind != TokenKind::Eof {
        let it = p_item(ts, k)->Done_0;
        let j = p_item(ts, k)->Done_1;
        reveal_strlit("import");
        reveal_strlit("struct");
        reveal_strlit("type");
        reveal_strlit("fn");
        reveal_strlit("impl");
        assert("import"@[0] != "struct"@[0]);
        assert("import"@.len() != "type"@.len());
        assert("import"@.len() != "fn"@.len());
        assert("import"@.len() != "impl"@.len());
        assert(!at_sym(ts, k, "import"@));
        lemma_recover_items(ts, j, iacc.push(it), imports, errors);
    }
}

proof fn lemma_recover_imports(
    ts: Seq<TokenView>,
    i: int,
    acc: Seq<Seq<Seq<char>>>,
    errors: Seq<DiagnosticView>,
)
    requires
        imports_p(ts, i, acc) is Done,
        items_p(ts, imports_p(ts, i, acc)->Done_1, Seq::empty()) is Done,
    ensures
        recover(ts, i, acc, Seq::empty(), errors) == (
            imports_p(ts, i, acc)->Done_0,
            items_p(ts, imports_p(ts, i, acc)->Done_1, Seq::empty())->Done_0,
            errors,
        ),
    decreases ts.len() - i,
{
    if at_sym(ts, i, "import"@) {
        let path = p_keyword_path(ts, i, "import"@)->Done_0;
        let j = p_keyword_path(ts, i, "import"@)->Done_1;
        lemma_recover_imports(ts, j, acc.push(path), errors);
    } else {
        lemma_recover_items(ts, i, Seq::empty(), acc, errors);
    }
}

/// A compound assignment `x op= y` (op one of `+ - * / %`) parses to the
/// assignment of `x` whose value is `x op y`: the operator is the compound
/// token without its trailing `=`, with the target on its left and the value
/// on its right.
pub proof fn law_compound_assignment_operator(ts: Seq<TokenView>, i: int, c: char)
    requires
        c == '+' || c == '-' || c == '*' || c == '/' || c == '%',
        p_level(ts, i, 0) is Done,
        advanced(ts, i, p_level(ts, i, 0)->Done_1),
        ts[p_level(ts, i, 0)->Done_1].kind == TokenKind::Symbol,
        ts[p_level(ts, i, 0)->Done_1].text == seq![c, '='],
        p_assignment(ts, p_level(ts, i, 0)->Done_1 + 1) is Done,
    ensures
        ({
            let (x, j) = (p_level(ts, i, 0)->Done_0, p_level(ts, i, 0)->Done_1);
            let (y, k) = (p_assignment(ts, j + 1)->Done_0, p_assignment(ts, j + 1)->Done_1);
            let value = SExpr {
                node: ExprV::BinaryExpr(seq![c], Box::new(x), Box::new(y)),
                span: x.span.spec_merge(y.span),
            };
            p_assignment(ts, i) == Parsed::Done(
                SExpr {
                    node: ExprV::AssignmentExpr(Box::new(x), Box::new(value)),
                    span: x.span.spec_merge(value.span),
                },
                k,
            )
        }),
{
    reveal_strlit("=");
    reveal_strlit("+=");
    reveal_strlit("-=");
    reveal_strlit("*=");
    reveal_strlit("/=");
    reveal_strlit("%=");
    reveal_strlit("+");
    reveal_strlit("-");
    reveal_strlit("*");
    reveal_strlit("/");
    reveal_strlit("%");
    let j = p_level(ts, i, 0)->Done_1;
    assert("="@ =~= seq!['=']);
    assert("+="@ =~= seq!['+', '=']);
    assert("-="@ =~= seq!['-', '=']);
    assert("*="@ =~= seq!['*', '=']);
    assert("/="@ =~= seq!['/', '=']);
    assert("%="@ =~= seq!['%', '=']);
    assert("+"@ =~= seq!['+']);
    assert("-"@ =~= seq!['-']);
    assert("*"@ =~= seq!['*']);
    assert("/"@ =~= seq!['/']);
    assert("%"@ =~= seq!['%']);
    let t = ts[j].text;
    assert(t[0] == c);
    assert(!at_sym(ts, j, "="@));
    assert(compound_op(ts, j) == Some(seq![c]));
}

/// Recovery changes nothing on valid input: where parsing the whole program
/// succeeds, parsing with recovery yields the same module path, imports and
/// items, and no error.
pub proof fn law_recovery_agrees_on_valid_input(ts: Seq<TokenView>, i: int)
    requires
        p_program(ts, i) is Done,
    ensures
        p_recovering(ts, i) == (p_program(ts, i)->Done_0, Seq::<DiagnosticView>::empty()),
{
    let j = p_keyword_path(ts, i, "module"@)->Done_1;
    lemma_recover_imports(ts, j, Seq::empty(), Seq::empty());
}

} // verus!
