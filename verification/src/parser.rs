//! Recursive-descent parser: tokens to a [`Program`].
use vstd::prelude::*;
use crate::ast::{
    arms_v, clone_expr, expr_v, exprs_v, field_decls_v, field_inits_v, imports_v, item_v, items_v,
    lemma_exprs_v, lemma_types_view, params_v, program_v, stmt_v, stmts_v, strings_v, types_view, expr_kinds_ok, exprs_kinds_ok,
    field_inits_kinds_ok, stmt_kinds_ok, stmts_kinds_ok, arms_kinds_ok, block_kinds_ok,
    params_kinds_ok, field_decls_kinds_ok, item_kinds_ok, item_node_kinds_ok, items_kinds_ok, program_kinds_ok,
    ArmV, Block, ElseBranch, Expr, FieldDecl, ImportDecl, Item, ItemV, MatchArm, ModuleDecl, Param,
    Pattern, Program, ProgramV, SExpr, SItem, SStmt, Stmt, StructLiteralField, TypeNode, TypeView,
};
use crate::error::{Diagnostic, DiagnosticView, ErrorCode, Severity};
use crate::lexer::{text_eq, Token, TokenKind, TokenView, tokens_view};
use crate::source::{Span, Spanned};
use crate::text::{debug_str, text_of};
use crate::grammar::{
    agrees, array_elements, array_rest, at_sym, bin_v, call_args, comma_exprs, compound_op,
    error_at, expect_error, ident_error, is_level_op, level_rest, p_array_literal, p_assignment,
    p_expr, p_level, p_postfix, p_primary, p_struct_literal, p_unary, postfix_rest, postfix_step,
    is_suffix_start, struct_fields_p, struct_literal_start, tok_span, Parsed, block_stmts,
    field_decls, fn_params, impl_methods_p, imports_p, items_p, match_arms, names_rest, p_block,
    p_fn_decl, p_for, p_if, p_impl_decl, p_item, p_iterable, p_keyword_path, p_let, p_match,
    p_param, p_path, p_pattern, p_program, p_recovering, p_return, p_stmt, p_struct_decl,
    p_type_alias, p_type_arg, p_type_expr, p_while, params_rest, path_rest, recover, sync_from,
    sync_point, type_args, type_args_rest, unfold_p_block, unfold_p_expr, unfold_p_type_expr,
    block_rule, type_expr_rule,
};

verus! {

/// What the parser needs of its input: a non-empty stream that ends with the
/// `Eof` token, whose spans are byte ranges in increasing order, as the lexer
/// produces them. Every node's span runs from the start of its first token to
/// the end of its last, and a node whose start came after its end would fail
/// the `start <= end` demand of [`Spanned::new`]; ordered tokens rule that out.
pub open spec fn tokens_wf(ts: Seq<TokenView>) -> bool {
    &&& ts.len() >= 1
    &&& ts.last().kind == TokenKind::Eof
    &&& forall|k: int| 0 <= k < ts.len() ==> ts[k].start <= ts[k].end
    &&& forall|a: int, b: int| 0 <= a < b < ts.len() ==> ts[a].end <= ts[b].start
}

/// The parser's error codes.
pub open spec fn is_parse_code(c: ErrorCode) -> bool {
    c == ErrorCode::ParseUnexpectedToken || c == ErrorCode::ParseExpectedToken || c
        == ErrorCode::ParseExpectedIdent || c == ErrorCode::ParseUnterminatedBlock || c
        == ErrorCode::ParseExpectedExpression || c == ErrorCode::ParseUnknownItem
}

/// A syntax error: an error-severity diagnostic with a parser code, no notes
/// and no suggestions.
pub open spec fn is_syntax_error(d: DiagnosticView) -> bool {
    &&& d.severity == Severity::Error
    &&& is_parse_code(d.code)
    &&& d.notes.len() == 0
    &&& d.suggestions.len() == 0
}

/// The plain-value form of an item, without its span.
pub open spec fn item_node_v(it: Item) -> ItemV {
    item_v(Spanned { node: it, span: Span { file_id: 0, start: 0, end: 0 } }).node
}

/// The plain-value form of a pattern: the variant and its bindings.
pub open spec fn pattern_v(p: Pattern) -> (Seq<char>, Seq<Seq<char>>) {
    let Pattern::VariantPattern { name, bindings } = p;
    (name@, strings_v(bindings@))
}

pub open spec fn diag_views(ds: Seq<Diagnostic>) -> Seq<DiagnosticView> {
    ds.map_values(|d: Diagnostic| d@)
}

pub struct Parser {
    tokens: Vec<Token>,
    i: usize,
    file_id: u32,
    /// Byte offset just past the most recently consumed token.
    last_end: u32,
}

impl Parser {
    pub closed spec fn wf(&self) -> bool {
        &&& tokens_wf(tokens_view(self.tokens@))
        &&& self.i < self.tokens@.len()
        &&& self.i > 0 ==> self.last_end == self.tokens@[self.i - 1].end
        &&& self.file_id == 0
    }

    /// The token stream.
    pub closed spec fn toks(&self) -> Seq<TokenView> {
        tokens_view(self.tokens@)
    }

    /// Index of the current token.
    pub closed spec fn pos(&self) -> int {
        self.i as int
    }

    /// End offset of the last consumed token.
    pub closed spec fn consumed_end(&self) -> u32 {
        self.last_end
    }

    /// Every item starts where some token starts.
    pub open spec fn items_at_token_starts(ts: Seq<TokenView>, items: Seq<Spanned<Item>>) -> bool {
        forall|k: int|
            0 <= k < items.len() ==> exists|j: int|
                0 <= j < ts.len() && ts[j].start == (#[trigger] items[k]).span.start
    }

    /// `b` is a later state of the same parse as `a`.
    pub open spec fn stepped(a: Parser, b: Parser) -> bool {
        &&& b.wf()
        &&& b.toks() == a.toks()
        &&& a.pos() <= b.pos()
    }

    /// `sp` lies within the tokens consumed from state `a` to state `b`
    /// (at least one token was consumed).
    pub open spec fn covers(a: Parser, b: Parser, sp: Span) -> bool {
        &&& a.pos() < b.pos()
        &&& a.toks()[a.pos()].start <= sp.start
        &&& sp.start <= sp.end
        &&& sp.end <= b.consumed_end()
        &&& sp.file_id == 0
    }

    pub fn new(tokens: Vec<Token>, file: &str) -> (r: Self)
        requires
            tokens_wf(tokens_view(tokens@)),
        ensures
            r.wf(),
            r.toks() == tokens_view(tokens@),
            r.pos() == 0,
    {
        Parser { tokens, i: 0, file_id: 0, last_end: 0 }
    }

    proof fn lemma_token(&self, k: int)
        requires
            self.wf(),
            0 <= k < self.tokens@.len(),
        ensures
            self.tokens@[k]@ == self.toks()[k],
            self.tokens@[k].start <= self.tokens@[k].end,
    {
        assert(self.toks()[k] == self.tokens@[k]@);
    }

    proof fn lemma_order(&self, a: int, b: int)
        requires
            self.wf(),
            0 <= a < b < self.tokens@.len(),
        ensures
            self.tokens@[a].end <= self.tokens@[b].start,
            self.tokens@[a].start <= self.tokens@[b].start,
    {
        assert(self.toks()[a] == self.tokens@[a]@);
        assert(self.toks()[b] == self.tokens@[b]@);
        assert(self.toks()[a].end <= self.toks()[b].start);
        assert(self.toks()[a].start <= self.toks()[a].end);
    }

    fn peek(&self) -> (t: &Token)
        requires
            self.wf(),
        ensures
            *t == self.tokens@[self.i as int],
    {
        &self.tokens[self.i]
    }

    fn is_eof(&self) -> (r: bool)
        requires
            self.wf(),
        ensures
            r == (self.toks()[self.pos()].kind == TokenKind::Eof),
    {
        self.peek().kind == TokenKind::Eof
    }

    /// Does the current token have this text AND be a Symbol or Keyword?
    fn check(&self, text: &str) -> (r: bool)
        requires
            self.wf(),
        ensures
            r == (self.toks()[self.pos()].text == text@ && (self.toks()[self.pos()].kind
                == TokenKind::Symbol || self.toks()[self.pos()].kind == TokenKind::Keyword)),
    {
        let tok = self.peek();
        text_eq(&tok.text, text) && (tok.kind == TokenKind::Symbol || tok.kind
            == TokenKind::Keyword)
    }

    /// Does the current (non-end) token have this text, whatever its kind?
    fn peek_text_is(&self, text: &str) -> (r: bool)
        requires
            self.wf(),
        ensures
            r == (self.toks()[self.pos()].text == text@ && self.toks()[self.pos()].kind
                != TokenKind::Eof),
    {
        let tok = self.peek();
        tok.kind != TokenKind::Eof && text_eq(&tok.text, text)
    }

    fn cur_start(&self) -> (r: u32)
        requires
            self.wf(),
        ensures
            r == self.toks()[self.pos()].start,
    {
        self.peek().start
    }

    fn tok_span(&self, tok: &Token) -> (r: Span)
        ensures
            r == (Span { file_id: self.file_id, start: tok.start, end: tok.end }),
    {
        Span::new(self.file_id, tok.start, tok.end)
    }

    fn token_at(&self, offset: usize) -> (t: &Token)
        requires
            self.wf(),
        ensures
            t@ == self.toks()[if self.pos() + offset < self.toks().len() {
                self.pos() + offset
            } else {
                self.toks().len() - 1
            }],
    {
        let last = self.tokens.len() - 1;
        let idx = if offset <= last - self.i {
            self.i + offset
        } else {
            last
        };
        &self.tokens[idx]
    }

    /// Is the cursor at `Name { field: .. }` (or `Name { }`)?
    fn is_struct_literal_start(&self) -> (r: bool)
        requires
            self.wf(),
        ensures
            r == struct_literal_start(self.toks(), self.pos()),
    {
        proof {
            self.lemma_token(self.i as int);
        }
        self.peek().kind == TokenKind::Ident && text_eq(&self.token_at(1).text, "{") && (text_eq(
            &self.token_at(2).text,
            "}",
        ) || (self.token_at(2).kind == TokenKind::Ident && text_eq(&self.token_at(3).text, ":")))
    }

    /// Consumes the current token, which is not the end token.
    fn bump(&mut self) -> (t: Token)
        requires
            old(self).wf(),
            old(self).toks()[old(self).pos()].kind != TokenKind::Eof,
        ensures
            final(self).wf(),
            final(self).toks() == old(self).toks(),
            final(self).pos() == old(self).pos() + 1,
            t@ == old(self).toks()[old(self).pos()],
            final(self).consumed_end() == t.end,
    {
        let tok = self.peek().clone();
        proof {
            let n = self.tokens@.len() - 1;
            assert(self.toks()[n] == self.tokens@[n]@);
            assert(self.toks()[self.pos()] == self.tokens@[self.i as int]@);
            assert(self.i < n);
        }
        let len = self.tokens.len();
        assert(self.i + 1 < len);
        self.last_end = tok.end;
        self.i = self.i + 1;
        tok
    }

    fn match_text(&mut self, text: &str) -> (r: bool)
        requires
            old(self).wf(),
        ensures
            final(self).wf(),
            final(self).toks() == old(self).toks(),
            r == (old(self).toks()[old(self).pos()].text == text@ && (old(self).toks()[old(self).pos()].kind == TokenKind::Symbol || old(self).toks()[old(self).pos()].kind
                == TokenKind::Keyword)),
            r ==> final(self).pos() == old(self).pos() + 1,
            !r ==> *final(self) == *old(self),
    {
        if self.check(text) {
            self.bump();
            true
        } else {
            false
        }
    }

    fn error_here(&self, code: ErrorCode, message: String) -> (d: Diagnostic)
        requires
            self.wf(),
            is_parse_code(code),
        ensures
            is_syntax_error(d@),
            d.code == code,
            d.span == (Span {
                file_id: 0,
                start: self.toks()[self.pos()].start,
                end: self.toks()[self.pos()].end,
            }),
            d@ == error_at(self.toks(), self.pos(), code, message@),
    {
        proof {
            self.lemma_token(self.i as int);
        }
        let tok = self.peek();
        Diagnostic::error(code, self.tok_span(tok), message)
    }

    fn expect(&mut self, text: &str) -> (r: Result<Token, Diagnostic>)
        requires
            old(self).wf(),
        ensures
            final(self).wf(),
            final(self).toks() == old(self).toks(),
            r is Ok <==> (old(self).toks()[old(self).pos()].text == text@ && (old(self).toks()[old(self).pos()].kind == TokenKind::Symbol || old(self).toks()[old(self).pos()].kind
                == TokenKind::Keyword)),
            r is Ok ==> final(self).pos() == old(self).pos() + 1,
            r matches Ok(t) ==> (t@ == old(self).toks()[old(self).pos()] && final(self).consumed_end() == t.end),
            r is Err ==> *final(self) == *old(self),
            r matches Err(d) ==> (is_syntax_error(d@) && d.code == ErrorCode::ParseExpectedToken),
            r matches Err(d) ==> d@ == expect_error(old(self).toks(), old(self).pos(), text@),
    {
        if self.check(text) {
            Ok(self.bump())
        } else {
            let mut message = text_of("expected ");
            message.append(debug_str(text).as_str());
            message.append(", got ");
            message.append(debug_str(self.peek().text.as_str()).as_str());
            Err(self.error_here(ErrorCode::ParseExpectedToken, message))
        }
    }

    fn expect_ident(&mut self) -> (r: Result<Token, Diagnostic>)
        requires
            old(self).wf(),
        ensures
            final(self).wf(),
            final(self).toks() == old(self).toks(),
            r is Ok <==> old(self).toks()[old(self).pos()].kind == TokenKind::Ident,
            r is Ok ==> final(self).pos() == old(self).pos() + 1,
            r matches Ok(t) ==> (t@ == old(self).toks()[old(self).pos()] && final(self).consumed_end() == t.end),
            r is Err ==> *final(self) == *old(self),
            r matches Err(d) ==> (is_syntax_error(d@) && d.code == ErrorCode::ParseExpectedIdent),
            r matches Err(d) ==> d@ == ident_error(old(self).toks(), old(self).pos()),
    {
        if self.peek().kind == TokenKind::Ident {
            Ok(self.bump())
        } else {
            let mut message = text_of("expected identifier, got ");
            message.append(debug_str(self.peek().text.as_str()).as_str());
            Err(self.error_here(ErrorCode::ParseExpectedIdent, message))
        }
    }

    proof fn lemma_consumed(&self, k: int)
        requires
            self.wf(),
            0 <= k < self.i,
        ensures
            self.toks()[k].start <= self.last_end,
    {
        self.lemma_token(k);
        if k < self.i - 1 {
            self.lemma_order(k, self.i - 1);
        }
        self.lemma_token(self.i - 1);
    }


    proof fn lemma_end_mono(a: Parser, b: Parser)
        requires
            a.wf(),
            b.wf(),
            a.toks() == b.toks(),
            0 < a.i <= b.i,
        ensures
            a.last_end <= b.last_end,
    {
        a.lemma_token(a.i - 1);
        b.lemma_token(b.i - 1);
        let ts = b.toks();
        if a.i < b.i {
            assert(ts[a.i - 1].end <= ts[b.i - 1].start);
        }
    }

    /// A span covered from `m` to `q` is also covered from the earlier `a`
    /// to the later `b`.
    pub proof fn lemma_cover_widen(a: Parser, m: Parser, q: Parser, b: Parser, sp: Span)
        requires
            Parser::stepped(a, m),
            Parser::stepped(m, q),
            Parser::stepped(q, b),
            Parser::covers(m, q, sp),
        ensures
            Parser::covers(a, b, sp),
    {
        let ts = m.toks();
        if a.i < m.i {
            assert(ts[a.pos()].end <= ts[m.pos()].start);
            assert(ts[a.pos()].start <= ts[a.pos()].end);
        }
        Parser::lemma_end_mono(q, b);
    }

    /// Merging a span covered from `a` to `p` with one covered from `m` to
    /// `q` (where `p` precedes `m`) gives a span covered from `a` to `q`.
    pub proof fn lemma_merge_cover(a: Parser, p: Parser, m: Parser, q: Parser, s1: Span, s2: Span)
        requires
            a.wf(),
            Parser::stepped(a, p),
            Parser::stepped(p, m),
            Parser::stepped(m, q),
            Parser::covers(a, p, s1),
            Parser::covers(m, q, s2),
        ensures
            Parser::covers(a, q, s1.spec_merge(s2)),
    {
        Parser::lemma_cover_widen(a, a, p, q, s1);
        Parser::lemma_cover_widen(a, m, q, q, s2);
    }

    /// A span from the start of one covered span to the current end.
    pub proof fn lemma_cover_to_end(a: Parser, p: Parser, q: Parser, sp: Span)
        requires
            Parser::stepped(a, p),
            Parser::stepped(p, q),
            Parser::covers(a, p, sp),
        ensures
            Parser::covers(a, q, Span { file_id: 0, start: sp.start, end: q.consumed_end() }),
    {
        Parser::lemma_end_mono(p, q);
    }

    fn span_from(&self, start: u32) -> (r: Span)
        ensures
            r == (Span { file_id: self.file_id, start, end: self.last_end }),
    {
        Span::new(self.file_id, start, self.last_end)
    }

    /// Parses the whole program; fails at the first syntax error. On success
    /// every token up to the end token has been consumed.
    pub fn parse(&mut self) -> (r: Result<Program, Diagnostic>)
        requires
            old(self).wf(),
        ensures
            Parser::stepped(*old(self), *final(self)),
            r is Ok ==> final(self).toks()[final(self).pos()].kind == TokenKind::Eof,
            r matches Err(d) ==> is_syntax_error(d@),
            agrees(r, final(self).pos(), |p: Program| program_v(p), p_program(old(self).toks(), old(self).pos())),
            r matches Ok(p) ==> program_kinds_ok(p),
    {
        let ghost ts = self.toks();
        let ghost i0 = self.pos();
        let module = self.parse_module_decl()?;
        let ghost j0 = self.pos();
        let ghost m0 = strings_v(module.path@);
        let mut imports: Vec<ImportDecl> = Vec::new();
        assert(imports_v(imports@) =~= Seq::<Seq<Seq<char>>>::empty());
        while self.check("import")
            invariant
                old(self).wf(),
                Parser::stepped(*old(self), *self),
                ts == old(self).toks(),
                j0 <= self.pos(),
                i0 == old(self).pos(),
                m0 == strings_v(module.path@),
                p_keyword_path(ts, i0, "module"@) == Parsed::Done(m0, j0),
                imports_p(ts, j0, Seq::empty()) == imports_p(ts, self.pos(), imports_v(imports@)),
                module.kind@ == "ModuleDecl"@,
                forall|k: int| 0 <= k < imports@.len() ==> (#[trigger] imports@[k]).kind@ == "ImportDecl"@,
            decreases self.tokens@.len() - self.i,
        {
            let imp = self.parse_import_decl()?;
            let ghost before = imports@;
            imports.push(imp);
            assert(imports_v(imports@) =~= imports_v(before).push(strings_v(imp.path@)));
        }
        let ghost k0 = self.pos();
        let ghost iv0 = imports_v(imports@);
        let mut items: Vec<Spanned<Item>> = Vec::new();
        assert(items_v(items@) =~= Seq::<SItem>::empty());
        while !self.is_eof()
            invariant
                old(self).wf(),
                Parser::stepped(*old(self), *self),
                ts == old(self).toks(),
                k0 <= self.pos(),
                i0 == old(self).pos(),
                m0 == strings_v(module.path@),
                iv0 == imports_v(imports@),
                p_keyword_path(ts, i0, "module"@) == Parsed::Done(m0, j0),
                imports_p(ts, j0, Seq::empty()) == Parsed::Done(iv0, k0),
                items_p(ts, k0, Seq::empty()) == items_p(ts, self.pos(), items_v(items@)),
                module.kind@ == "ModuleDecl"@,
                forall|k: int| 0 <= k < imports@.len() ==> (#[trigger] imports@[k]).kind@ == "ImportDecl"@,
                items_kinds_ok(items@),
            decreases self.tokens@.len() - self.i,
        {
            let it = self.parse_item()?;
            let ghost before = items@;
            items.push(it);
            proof {
                assert(items@.drop_last() =~= before);
            }
        }
        Ok(Program { kind: "Program", module, imports, items })
    }

    /// Skips to the next token that can start an item (or to the end),
    /// always consuming at least one token unless already at the end.
    fn synchronize(&mut self)
        requires
            old(self).wf(),
        ensures
            Parser::stepped(*old(self), *final(self)),
            old(self).toks()[old(self).pos()].kind != TokenKind::Eof ==> old(self).pos() < final(self).pos(),
            final(self).pos() == sync_point(old(self).toks(), old(self).pos()),
    {
        let ghost ts = self.toks();
        if self.is_eof() {
            return;
        }
        self.bump();
        while !self.is_eof() && !self.check("struct") && !self.check("type") && !self.check("fn")
            && !self.check("impl") && !self.check("import")
            invariant
                old(self).wf(),
                Parser::stepped(*old(self), *self),
                old(self).pos() < self.pos(),
                ts == old(self).toks(),
                sync_from(ts, old(self).pos() + 1) == sync_from(ts, self.pos()),
            decreases self.tokens@.len() - self.i,
        {
            self.bump();
        }
    }

    /// Parses the whole program, reporting every syntax error: after an error
    /// the parser skips to the next item and goes on. Returns the items that
    /// did parse, with all the errors in source order.
    pub fn parse_recovering(&mut self) -> (r: (Program, Vec<Diagnostic>))
        requires
            old(self).wf(),
        ensures
            Parser::stepped(*old(self), *final(self)),
            final(self).toks()[final(self).pos()].kind == TokenKind::Eof,
            forall|k: int| 0 <= k < r.1@.len() ==> is_syntax_error(#[trigger] r.1@[k]@),
            Parser::items_at_token_starts(old(self).toks(), r.0.items@),
            (program_v(r.0), diag_views(r.1@)) == p_recovering(old(self).toks(), old(self).pos()),
            program_kinds_ok(r.0),
    {
        let ghost ts = self.toks();
        let ghost i0 = self.pos();
        let mut diags: Vec<Diagnostic> = Vec::new();
        let module = match self.parse_module_decl() {
            Ok(m) => m,
            Err(d) => {
                diags.push(d);
                self.synchronize();
                ModuleDecl { kind: "ModuleDecl", path: Vec::new() }
            },
        };
        let ghost j0 = self.pos();
        let ghost e0 = diag_views(diags@);
        let ghost m0 = strings_v(module.path@);
        let ghost rec0 = recover(ts, j0, Seq::empty(), Seq::empty(), e0);
        proof {
            if diags@.len() == 0 {
                assert(e0 =~= Seq::<DiagnosticView>::empty());
            } else {
                assert(e0 =~= seq![diags@[0]@]);
            }
            assert(strings_v(Seq::<String>::empty()) =~= Seq::<Seq<char>>::empty());
            assert(p_recovering(ts, i0) == (ProgramV { module: m0, imports: rec0.0, items: rec0.1 }, rec0.2));
        }
        let mut imports: Vec<ImportDecl> = Vec::new();
        let mut items: Vec<Spanned<Item>> = Vec::new();
        proof {
            assert(imports_v(imports@) =~= Seq::<Seq<Seq<char>>>::empty());
            assert(items_v(items@) =~= Seq::<SItem>::empty());
            assert(diag_views(diags@) == e0);
        }
        while !self.is_eof()
            invariant
                old(self).wf(),
                Parser::stepped(*old(self), *self),
                ts == old(self).toks(),
                forall|k: int| 0 <= k < diags@.len() ==> is_syntax_error(#[trigger] diags@[k]@),
                Parser::items_at_token_starts(old(self).toks(), items@),
                module.kind@ == "ModuleDecl"@,
                forall|k: int| 0 <= k < imports@.len() ==> (#[trigger] imports@[k]).kind@ == "ImportDecl"@,
                items_kinds_ok(items@),
                rec0 == recover(
                    ts,
                    self.pos(),
                    imports_v(imports@),
                    items_v(items@),
                    diag_views(diags@),
                ),
            decreases self.tokens@.len() - self.i,
        {
            let ghost before = *self;
            let ghost iv = imports_v(imports@);
            let ghost itv = items_v(items@);
            let ghost dv = diag_views(diags@);
            if self.check("import") {
                match self.parse_import_decl() {
                    Ok(imp) => {
                        imports.push(imp);
                        assert(imports_v(imports@) =~= iv.push(strings_v(imp.path@)));
                    },
                    Err(d) => {
                        diags.push(d);
                        assert(diag_views(diags@) =~= dv.push(d@));
                        self.synchronize();
                    },
                }
            } else {
                match self.parse_item() {
                    Ok(item) => {
                        let ghost before_items = items@;
                        items.push(item);
                        assert(Parser::items_at_token_starts(old(self).toks(), items@)) by {
                            let j = before.pos();
                            assert(items@.last().span.start == old(self).toks()[j].start);
                        }
                        assert(items@.drop_last() =~= before_items);
                    },
                    Err(d) => {
                        diags.push(d);
                        assert(diag_views(diags@) =~= dv.push(d@));
                        self.synchronize();
                    },
                }
            }
        }
        (Program { kind: "Program", module, imports, items }, diags)
    }

    fn parse_module_decl(&mut self) -> (r: Result<ModuleDecl, Diagnostic>)
        requires
            old(self).wf(),
        ensures
            Parser::stepped(*old(self), *final(self)),
            r is Ok ==> old(self).pos() < final(self).pos(),
            r matches Err(d) ==> is_syntax_error(d@),
            agrees(r, final(self).pos(), |m: ModuleDecl| strings_v(m.path@), p_keyword_path(old(self).toks(), old(self).pos(), "module"@)),
            r matches Ok(m) ==> m.kind@ == "ModuleDecl"@,
    {
        self.expect("module")?;
        let path = self.parse_path()?;
        Ok(ModuleDecl { kind: "ModuleDecl", path })
    }

    fn parse_import_decl(&mut self) -> (r: Result<ImportDecl, Diagnostic>)
        requires
            old(self).wf(),
        ensures
            Parser::stepped(*old(self), *final(self)),
            r is Ok ==> old(self).pos() < final(self).pos(),
            r matches Err(d) ==> is_syntax_error(d@),
            agrees(r, final(self).pos(), |m: ImportDecl| strings_v(m.path@), p_keyword_path(old(self).toks(), old(self).pos(), "import"@)),
            r matches Ok(m) ==> m.kind@ == "ImportDecl"@,
    {
        self.expect("import")?;
        let path = self.parse_path()?;
        Ok(ImportDecl { kind: "ImportDecl", path })
    }

    /// `ident ('.' ident)*`
    fn parse_path(&mut self) -> (r: Result<Vec<String>, Diagnostic>)
        requires
            old(self).wf(),
        ensures
            Parser::stepped(*old(self), *final(self)),
            r is Ok ==> old(self).pos() < final(self).pos(),
            r matches Err(d) ==> is_syntax_error(d@),
            r matches Ok(parts) ==> parts@.len() >= 1,
            agrees(r, final(self).pos(), |v: Vec<String>| strings_v(v@), p_path(old(self).toks(), old(self).pos())),
    {
        let ghost ts = self.toks();
        let first = self.expect_ident()?;
        let mut parts: Vec<String> = Vec::new();
        parts.push(first.text);
        assert(strings_v(parts@) =~= seq![ts[old(self).pos()].text]);
        while self.match_text(".")
            invariant
                old(self).wf(),
                Parser::stepped(*old(self), *self),
                old(self).pos() < self.pos(),
                parts@.len() >= 1,
                ts == old(self).toks(),
                p_path(ts, old(self).pos()) == path_rest(ts, self.pos(), strings_v(parts@)),
            decreases self.tokens@.len() - self.i,
        {
            let next = self.expect_ident()?;
            let ghost before = strings_v(parts@);
            parts.push(next.text);
            assert(strings_v(parts@) =~= before.push(next.text@));
        }
        Ok(parts)
    }

    fn parse_item(&mut self) -> (r: Result<Spanned<Item>, Diagnostic>)
        requires
            old(self).wf(),
        ensures
            r matches Ok(n) ==> n.span.start == old(self).toks()[old(self).pos()].start,
            Parser::stepped(*old(self), *final(self)),
            r is Ok ==> old(self).pos() < final(self).pos(),
            r matches Ok(n) ==> Parser::covers(*old(self), *final(self), n.span),
            r matches Err(d) ==> is_syntax_error(d@),
            agrees(r, final(self).pos(), |it: Spanned<Item>| item_v(it), p_item(old(self).toks(), old(self).pos())),
            r matches Ok(it) ==> item_kinds_ok(it),
        decreases old(self).tokens@.len() - old(self).i, 40nat,
    {
        let start = self.cur_start();
        let node = if self.check("struct") {
            self.parse_struct_decl()?
        } else if self.check("type") {
            self.parse_type_alias()?
        } else if self.check("fn") {
            self.parse_fn_decl()?
        } else if self.check("impl") {
            self.parse_impl_decl()?
        } else {
            let mut message = text_of("expected item (struct/type/fn), got ");
            message.append(debug_str(self.peek().text.as_str()).as_str());
            return Err(self.error_here(ErrorCode::ParseUnknownItem, message));
        };
        proof {
            self.lemma_consumed(old(self).i as int);
        }
        Ok(Spanned::new(node, self.span_from(start)))
    }

    fn parse_struct_decl(&mut self) -> (r: Result<Item, Diagnostic>)
        requires
            old(self).wf(),
        ensures
            Parser::stepped(*old(self), *final(self)),
            r is Ok ==> old(self).pos() < final(self).pos(),
            r matches Err(d) ==> is_syntax_error(d@),
            agrees(r, final(self).pos(), |it: Item| item_node_v(it), p_struct_decl(old(self).toks(), old(self).pos())),
            r matches Ok(it) ==> item_node_kinds_ok(it),
    {
        let ghost ts = self.toks();
        let ghost i0 = self.pos();
        self.expect("struct")?;
        let name = self.expect_ident()?.text;
        self.expect("{")?;
        let mut fields: Vec<FieldDecl> = Vec::new();
        assert(field_decls_v(fields@) =~= Seq::<(Seq<char>, TypeView)>::empty());
        while !self.check("}")
            invariant
                old(self).wf(),
                Parser::stepped(*old(self), *self),
                old(self).pos() < self.pos(),
                ts == old(self).toks(),
                i0 == old(self).pos(),
                field_decls(ts, i0 + 3, Seq::empty()) == field_decls(ts, self.pos(), field_decls_v(fields@)),
                field_decls_kinds_ok(fields@),
                0 <= i0,
                i0 + 2 < ts.len(),
                at_sym(ts, i0, "struct"@),
                ts[i0 + 1].kind == TokenKind::Ident,
                at_sym(ts, i0 + 2, "{"@),
            decreases self.tokens@.len() - self.i,
        {
            let field_name = self.expect_ident()?.text;
            self.expect(":")?;
            let ty = self.parse_type_expr()?;
            let ghost before = field_decls_v(fields@);
            let f = FieldDecl { kind: "FieldDecl", name: field_name, ty };
            let ghost fv = (f.name@, f.ty@);
            fields.push(f);
            assert(field_decls_v(fields@) =~= before.push(fv));
        }
        self.expect("}")?;
        Ok(Item::StructDecl { name, fields })
    }

    fn parse_type_alias(&mut self) -> (r: Result<Item, Diagnostic>)
        requires
            old(self).wf(),
        ensures
            Parser::stepped(*old(self), *final(self)),
            r is Ok ==> old(self).pos() < final(self).pos(),
            r matches Err(d) ==> is_syntax_error(d@),
            agrees(r, final(self).pos(), |it: Item| item_node_v(it), p_type_alias(old(self).toks(), old(self).pos())),
            r matches Ok(it) ==> item_node_kinds_ok(it),
    {
        self.expect("type")?;
        let name = self.expect_ident()?.text;
        self.expect("=")?;
        let ty = self.parse_type_expr()?;
        Ok(Item::TypeAliasDecl { name, ty })
    }

    /// `impl Type { fn ... }`
    fn parse_impl_decl(&mut self) -> (r: Result<Item, Diagnostic>)
        requires
            old(self).wf(),
        ensures
            Parser::stepped(*old(self), *final(self)),
            r is Ok ==> old(self).pos() < final(self).pos(),
            r matches Err(d) ==> is_syntax_error(d@),
            agrees(r, final(self).pos(), |it: Item| item_node_v(it), p_impl_decl(old(self).toks(), old(self).pos())),
            r matches Ok(it) ==> item_node_kinds_ok(it),
        decreases old(self).tokens@.len() - old(self).i, 38nat,
    {
        let ghost ts = self.toks();
        let ghost i0 = self.pos();
        self.expect("impl")?;
        let self_type = self.expect_ident()?.text;
        self.expect("{")?;
        let mut methods: Vec<Spanned<Item>> = Vec::new();
        assert(items_v(methods@) =~= Seq::<SItem>::empty());
        while !self.check("}")
            invariant
                old(self).wf(),
                Parser::stepped(*old(self), *self),
                old(self).pos() < self.pos(),
                ts == old(self).toks(),
                i0 == old(self).pos(),
                impl_methods_p(ts, i0 + 3, Seq::empty()) == impl_methods_p(ts, self.pos(), items_v(methods@)),
                items_kinds_ok(methods@),
                0 <= i0,
                i0 + 2 < ts.len(),
                at_sym(ts, i0, "impl"@),
                ts[i0 + 1].kind == TokenKind::Ident,
                at_sym(ts, i0 + 2, "{"@),
            decreases self.tokens@.len() - self.i,
        {
            let start = self.cur_start();
            let ghost before = *self;
            let method = self.parse_fn_decl()?;
            proof {
                self.lemma_consumed(before.i as int);
            }
            let ghost before_methods = methods@;
            let ghost mv = item_node_v(method);
            let m = Spanned::new(method, self.span_from(start));
            assert(item_v(m).node == mv);
            methods.push(m);
            proof {
                assert(methods@.drop_last() =~= before_methods);
            }
        }
        self.expect("}")?;
        Ok(Item::ImplDecl { self_type, methods })
    }

    fn parse_fn_decl(&mut self) -> (r: Result<Item, Diagnostic>)
        requires
            old(self).wf(),
        ensures
            Parser::stepped(*old(self), *final(self)),
            r is Ok ==> old(self).pos() < final(self).pos(),
            r matches Err(d) ==> is_syntax_error(d@),
            agrees(r, final(self).pos(), |it: Item| item_node_v(it), p_fn_decl(old(self).toks(), old(self).pos())),
            r matches Ok(it) ==> item_node_kinds_ok(it),
        decreases old(self).tokens@.len() - old(self).i, 36nat,
    {
        let ghost ts = self.toks();
        let ghost i0 = self.pos();
        self.expect("fn")?;
        let name = self.expect_ident()?.text;
        self.expect("(")?;
        let params = self.parse_params()?;
        self.expect(")")?;
        self.expect(":")?;
        let return_type = self.parse_type_expr()?;
        let body = self.parse_block()?;
        Ok(Item::FnDecl { name, params, return_type, body })
    }

    /// The parameters of a function, after `(` and up to `)`.
    fn parse_params(&mut self) -> (r: Result<Vec<Param>, Diagnostic>)
        requires
            old(self).wf(),
        ensures
            Parser::stepped(*old(self), *final(self)),
            r matches Err(d) ==> is_syntax_error(d@),
            agrees(r, final(self).pos(), |v: Vec<Param>| params_v(v@), fn_params(old(self).toks(), old(self).pos())),
            r matches Ok(v) ==> params_kinds_ok(v@),
    {
        let ghost ts = self.toks();
        let ghost i0 = self.pos();
        let mut params: Vec<Param> = Vec::new();
        assert(params_v(params@) =~= Seq::<(Seq<char>, TypeView)>::empty());
        if !self.check(")") {
            let p = self.parse_param()?;
            let ghost pv = (p.name@, p.ty@);
            params.push(p);
            assert(params_v(params@) =~= seq![pv]);
            while self.match_text(",")
                invariant
                    old(self).wf(),
                    Parser::stepped(*old(self), *self),
                    old(self).pos() < self.pos(),
                    ts == old(self).toks(),
                    i0 == old(self).pos(),
                    fn_params(ts, i0) == params_rest(ts, self.pos(), params_v(params@)),
                    params_kinds_ok(params@),
                decreases self.tokens@.len() - self.i,
            {
                let p = self.parse_param()?;
                let ghost before = params_v(params@);
                let ghost pv = (p.name@, p.ty@);
                params.push(p);
                assert(params_v(params@) =~= before.push(pv));
            }
        }
        Ok(params)
    }

    fn parse_param(&mut self) -> (r: Result<Param, Diagnostic>)
        requires
            old(self).wf(),
        ensures
            Parser::stepped(*old(self), *final(self)),
            r is Ok ==> old(self).pos() < final(self).pos(),
            r matches Err(d) ==> is_syntax_error(d@),
            agrees(r, final(self).pos(), |p: Param| (p.name@, p.ty@), p_param(old(self).toks(), old(self).pos())),
            r matches Ok(p) ==> p.kind@ == "Param"@,
    {
        let name = self.expect_ident()?.text;
        self.expect(":")?;
        let ty = self.parse_type_expr()?;
        Ok(Param { kind: "Param", name, ty })
    }

    /// `Name` or `Name<arg, ...>`
    fn parse_type_expr(&mut self) -> (r: Result<TypeNode, Diagnostic>)
        requires
            old(self).wf(),
        ensures
            Parser::stepped(*old(self), *final(self)),
            r is Ok ==> old(self).pos() < final(self).pos(),
            r matches Err(d) ==> is_syntax_error(d@),
            agrees(r, final(self).pos(), |t: TypeNode| t@, p_type_expr(old(self).toks(), old(self).pos())),
        decreases old(self).tokens@.len() - old(self).i, 5nat,
    {
        proof {
            unfold_p_type_expr(self.toks(), self.pos());
        }
        let ghost ts = self.toks();
        let ghost i0 = self.pos();
        let name = self.expect_ident()?.text;
        let mut args: Vec<TypeNode> = Vec::new();
        if self.match_text("<") {
            let a = self.parse_type_arg()?;
            args.push(a);
            proof {
                lemma_types_view(args@);
                assert(types_view(args@) =~= seq![args@[0]@]);
            }
            while self.match_text(",")
                invariant
                    old(self).wf(),
                    Parser::stepped(*old(self), *self),
                    old(self).pos() < self.pos(),
                    ts == old(self).toks(),
                    i0 == old(self).pos(),
                    type_args(ts, i0 + 2) == type_args_rest(ts, self.pos(), types_view(args@)),
                    p_type_expr(ts, i0) == type_expr_rule(ts, i0),
                    0 <= i0,
                    i0 + 1 < ts.len(),
                    ts[i0].kind == TokenKind::Ident,
                    at_sym(ts, i0 + 1, "<"@),
                decreases self.tokens@.len() - self.i,
            {
                let a = self.parse_type_arg()?;
                let ghost before = args@;
                args.push(a);
                proof {
                    lemma_types_view(before);
                    lemma_types_view(args@);
                    assert(types_view(args@) =~= types_view(before).push(args@.last()@));
                }
            }
            self.expect(">")?;
        }
        proof {
            lemma_types_view(args@);
            if args@.len() == 0 {
                assert(types_view(args@) =~= Seq::<TypeView>::empty());
            }
        }
        Ok(TypeNode::TypeExpr { name, args })
    }

    /// A type or an integer constant (as in `Array<i32, 3>`).
    fn parse_type_arg(&mut self) -> (r: Result<TypeNode, Diagnostic>)
        requires
            old(self).wf(),
        ensures
            Parser::stepped(*old(self), *final(self)),
            r is Ok ==> old(self).pos() < final(self).pos(),
            r matches Err(d) ==> is_syntax_error(d@),
            agrees(r, final(self).pos(), |t: TypeNode| t@, p_type_arg(old(self).toks(), old(self).pos())),
        decreases old(self).tokens@.len() - old(self).i, 6nat,
    {
        proof {
            self.lemma_token(self.i as int);
        }
        if self.peek().kind == TokenKind::Int {
            let tok = self.bump();
            return Ok(TypeNode::ConstTypeArg { value: tok.text });
        }
        self.parse_type_expr()
    }

    fn parse_block(&mut self) -> (r: Result<Block, Diagnostic>)
        requires
            old(self).wf(),
        ensures
            Parser::stepped(*old(self), *final(self)),
            r is Ok ==> old(self).pos() < final(self).pos(),
            r matches Err(d) ==> is_syntax_error(d@),
            agrees(r, final(self).pos(), |b: Block| stmts_v(b.statements@), p_block(old(self).toks(), old(self).pos())),
            r matches Ok(b) ==> block_kinds_ok(b),
        decreases old(self).tokens@.len() - old(self).i, 34nat,
    {
        proof {
            unfold_p_block(self.toks(), self.pos());
        }
        let ghost ts = self.toks();
        let ghost i0 = self.pos();
        self.expect("{")?;
        let mut statements: Vec<Spanned<Stmt>> = Vec::new();
        assert(stmts_v(statements@) =~= Seq::<SStmt>::empty());
        while !self.check("}")
            invariant
                old(self).wf(),
                Parser::stepped(*old(self), *self),
                old(self).pos() < self.pos(),
                ts == old(self).toks(),
                i0 == old(self).pos(),
                block_stmts(ts, i0 + 1, Seq::empty()) == block_stmts(ts, self.pos(), stmts_v(statements@)),
                stmts_kinds_ok(statements@),
                p_block(ts, i0) == block_rule(ts, i0),
                0 <= i0 < ts.len(),
                at_sym(ts, i0, "{"@),
            decreases self.tokens@.len() - self.i,
        {
            if self.is_eof() {
                let message = text_of("unterminated block");
                return Err(self.error_here(ErrorCode::ParseUnterminatedBlock, message));
            }
            let st = self.parse_stmt()?;
            let ghost before = statements@;
            statements.push(st);
            proof {
                assert(statements@.drop_last() =~= before);
            }
        }
        self.expect("}")?;
        Ok(Block { kind: "Block", statements })
    }

    fn parse_stmt(&mut self) -> (r: Result<Spanned<Stmt>, Diagnostic>)
        requires
            old(self).wf(),
        ensures
            Parser::stepped(*old(self), *final(self)),
            r is Ok ==> old(self).pos() < final(self).pos(),
            r matches Ok(n) ==> Parser::covers(*old(self), *final(self), n.span),
            r matches Err(d) ==> is_syntax_error(d@),
            agrees(r, final(self).pos(), |s: Spanned<Stmt>| stmt_v(s), p_stmt(old(self).toks(), old(self).pos())),
            r matches Ok(s) ==> stmt_kinds_ok(s),
        decreases old(self).tokens@.len() - old(self).i, 32nat,
    {
        if self.check("let") {
            self.parse_let_stmt()
        } else if self.check("if") {
            self.parse_if_stmt()
        } else if self.check("for") {
            self.parse_for_stmt()
        } else if self.check("while") {
            self.parse_while_stmt()
        } else if self.check("match") {
            self.parse_match_stmt()
        } else if self.check("return") {
            self.parse_return_stmt()
        } else if self.check("break") {
            let start = self.cur_start();
            self.expect("break")?;
            proof { self.lemma_consumed(old(self).i as int); }
            Ok(Spanned::new(Stmt::BreakStmt, self.span_from(start)))
        } else if self.check("continue") {
            let start = self.cur_start();
            self.expect("continue")?;
            proof { self.lemma_consumed(old(self).i as int); }
            Ok(Spanned::new(Stmt::ContinueStmt, self.span_from(start)))
        } else {
            let start = self.cur_start();
            let expr = self.parse_expr()?;
            proof { self.lemma_consumed(old(self).i as int); }
            Ok(Spanned::new(Stmt::ExprStmt { expr }, self.span_from(start)))
        }
    }

    fn parse_let_stmt(&mut self) -> (r: Result<Spanned<Stmt>, Diagnostic>)
        requires
            old(self).wf(),
        ensures
            Parser::stepped(*old(self), *final(self)),
            r is Ok ==> old(self).pos() < final(self).pos(),
            r matches Ok(n) ==> Parser::covers(*old(self), *final(self), n.span),
            r matches Err(d) ==> is_syntax_error(d@),
            agrees(r, final(self).pos(), |s: Spanned<Stmt>| stmt_v(s), p_let(old(self).toks(), old(self).pos())),
            r matches Ok(s) ==> stmt_kinds_ok(s),
        decreases old(self).tokens@.len() - old(self).i, 30nat,
    {
        let start = self.cur_start();
        self.expect("let")?;
        let mutable = self.match_text("mut");
        let name = self.expect_ident()?.text;
        self.expect(":")?;
        let ty = self.parse_type_expr()?;
        self.expect("=")?;
        let value = self.parse_expr()?;
        proof { self.lemma_consumed(old(self).i as int); }
        Ok(Spanned::new(Stmt::LetStmt { mutable, name, ty, value }, self.span_from(start)))
    }

    fn parse_if_stmt(&mut self) -> (r: Result<Spanned<Stmt>, Diagnostic>)
        requires
            old(self).wf(),
        ensures
            Parser::stepped(*old(self), *final(self)),
            r is Ok ==> old(self).pos() < final(self).pos(),
            r matches Ok(n) ==> Parser::covers(*old(self), *final(self), n.span),
            r matches Err(d) ==> is_syntax_error(d@),
            agrees(r, final(self).pos(), |s: Spanned<Stmt>| stmt_v(s), p_if(old(self).toks(), old(self).pos())),
            r matches Ok(s) ==> stmt_kinds_ok(s),
        decreases old(self).tokens@.len() - old(self).i, 30nat,
    {
        let start = self.cur_start();
        self.expect("if")?;
        let condition = self.parse_expr()?;
        let then_block = self.parse_block()?;
        let else_branch = if self.match_text("else") {
            if self.check("if") {
                Some(ElseBranch::IfStmt(Box::new(self.parse_if_stmt()?)))
            } else {
                Some(ElseBranch::Block(self.parse_block()?))
            }
        } else {
            None
        };
        proof { self.lemma_consumed(old(self).i as int); }
        Ok(Spanned::new(Stmt::IfStmt { condition, then_block, else_branch }, self.span_from(start)))
    }

    /// The iterable of a `for` loop: an expression or a range `a..b`.
    fn parse_iterable(&mut self) -> (r: Result<Spanned<Expr>, Diagnostic>)
        requires
            old(self).wf(),
        ensures
            Parser::stepped(*old(self), *final(self)),
            r is Ok ==> old(self).pos() < final(self).pos(),
            r matches Err(d) ==> is_syntax_error(d@),
            agrees(r, final(self).pos(), |e: Spanned<Expr>| expr_v(e), p_iterable(old(self).toks(), old(self).pos())),
            r matches Ok(n) ==> expr_kinds_ok(n),
        decreases old(self).tokens@.len() - old(self).i, 29nat,
    {
        let first = self.parse_expr()?;
        if self.match_text("..") {
            let end = self.parse_expr()?;
            let span = first.span.merge(end.span);
            Ok(Spanned::new(Expr::RangeExpr { start: Box::new(first), end: Box::new(end) }, span))
        } else {
            Ok(first)
        }
    }

    /// `for x in expr { .. }`, where the iterable may be a range `a..b`.
    fn parse_for_stmt(&mut self) -> (r: Result<Spanned<Stmt>, Diagnostic>)
        requires
            old(self).wf(),
        ensures
            Parser::stepped(*old(self), *final(self)),
            r is Ok ==> old(self).pos() < final(self).pos(),
            r matches Ok(n) ==> Parser::covers(*old(self), *final(self), n.span),
            r matches Err(d) ==> is_syntax_error(d@),
            agrees(r, final(self).pos(), |s: Spanned<Stmt>| stmt_v(s), p_for(old(self).toks(), old(self).pos())),
            r matches Ok(s) ==> stmt_kinds_ok(s),
        decreases old(self).tokens@.len() - old(self).i, 30nat,
    {
        let start = self.cur_start();
        self.expect("for")?;
        let iterator = self.expect_ident()?.text;
        self.expect("in")?;
        let iterable = self.parse_iterable()?;
        let body = self.parse_block()?;
        proof { self.lemma_consumed(old(self).i as int); }
        Ok(Spanned::new(Stmt::ForStmt { iterator, iterable, body }, self.span_from(start)))
    }

    fn parse_while_stmt(&mut self) -> (r: Result<Spanned<Stmt>, Diagnostic>)
        requires
            old(self).wf(),
        ensures
            Parser::stepped(*old(self), *final(self)),
            r is Ok ==> old(self).pos() < final(self).pos(),
            r matches Ok(n) ==> Parser::covers(*old(self), *final(self), n.span),
            r matches Err(d) ==> is_syntax_error(d@),
            agrees(r, final(self).pos(), |s: Spanned<Stmt>| stmt_v(s), p_while(old(self).toks(), old(self).pos())),
            r matches Ok(s) ==> stmt_kinds_ok(s),
        decreases old(self).tokens@.len() - old(self).i, 30nat,
    {
        let start = self.cur_start();
        self.expect("while")?;
        let condition = self.parse_expr()?;
        let body = self.parse_block()?;
        proof { self.lemma_consumed(old(self).i as int); }
        Ok(Spanned::new(Stmt::WhileStmt { condition, body }, self.span_from(start)))
    }

    fn parse_match_stmt(&mut self) -> (r: Result<Spanned<Stmt>, Diagnostic>)
        requires
            old(self).wf(),
        ensures
            Parser::stepped(*old(self), *final(self)),
            r is Ok ==> old(self).pos() < final(self).pos(),
            r matches Ok(n) ==> Parser::covers(*old(self), *final(self), n.span),
            r matches Err(d) ==> is_syntax_error(d@),
            agrees(r, final(self).pos(), |s: Spanned<Stmt>| stmt_v(s), p_match(old(self).toks(), old(self).pos())),
            r matches Ok(s) ==> stmt_kinds_ok(s),
        decreases old(self).tokens@.len() - old(self).i, 30nat,
    {
        let ghost ts = self.toks();
        let ghost i0 = self.pos();
        let start = self.cur_start();
        self.expect("match")?;
        let value = self.parse_expr()?;
        let ghost j = self.pos();
        let ghost ev = expr_v(value);
        self.expect("{")?;
        let mut arms: Vec<MatchArm> = Vec::new();
        assert(arms_v(arms@) =~= Seq::<ArmV>::empty());
        while !self.check("}")
            invariant
                old(self).wf(),
                Parser::stepped(*old(self), *self),
                old(self).pos() < self.pos(),
                ts == old(self).toks(),
                i0 == old(self).pos(),
                match_arms(ts, j + 1, Seq::empty()) == match_arms(ts, self.pos(), arms_v(arms@)),
                0 <= i0,
                at_sym(ts, i0, "match"@),
                i0 + 1 < j < ts.len(),
                p_expr(ts, i0 + 1) == Parsed::Done(ev, j),
                at_sym(ts, j, "{"@),
                ev == expr_v(value),
                expr_kinds_ok(value),
                arms_kinds_ok(arms@),
            decreases self.tokens@.len() - self.i,
        {
            let pattern = self.parse_pattern()?;
            self.expect("=>")?;
            let body = self.parse_block()?;
            let ghost before = arms@;
            arms.push(MatchArm { kind: "MatchArm", pattern, body });
            proof {
                assert(arms@.drop_last() =~= before);
            }
        }
        self.expect("}")?;
        proof { self.lemma_consumed(old(self).i as int); }
        Ok(Spanned::new(Stmt::MatchStmt { value, arms }, self.span_from(start)))
    }

    /// `Name` or `Name(a, b, ..)`
    fn parse_pattern(&mut self) -> (r: Result<Pattern, Diagnostic>)
        requires
            old(self).wf(),
        ensures
            Parser::stepped(*old(self), *final(self)),
            r is Ok ==> old(self).pos() < final(self).pos(),
            r matches Err(d) ==> is_syntax_error(d@),
            agrees(r, final(self).pos(), |p: Pattern| pattern_v(p), p_pattern(old(self).toks(), old(self).pos())),
    {
        let ghost ts = self.toks();
        let ghost i0 = self.pos();
        let name = self.expect_ident()?.text;
        let mut bindings: Vec<String> = Vec::new();
        if self.match_text("(") {
            if !self.check(")") {
                bindings.push(self.expect_ident()?.text);
                assert(strings_v(bindings@) =~= seq![ts[i0 + 2].text]);
                while self.match_text(",")
                    invariant
                        old(self).wf(),
                        Parser::stepped(*old(self), *self),
                        old(self).pos() < self.pos(),
                        ts == old(self).toks(),
                        i0 == old(self).pos(),
                        names_rest(ts, i0 + 3, seq![ts[i0 + 2].text]) == names_rest(ts, self.pos(), strings_v(bindings@)),
                        0 <= i0,
                        i0 + 2 < ts.len(),
                        ts[i0].kind == TokenKind::Ident,
                        at_sym(ts, i0 + 1, "("@),
                        !at_sym(ts, i0 + 2, ")"@),
                        ts[i0 + 2].kind == TokenKind::Ident,
                    decreases self.tokens@.len() - self.i,
                {
                    let t = self.expect_ident()?;
                    let ghost before = strings_v(bindings@);
                    bindings.push(t.text);
                    assert(strings_v(bindings@) =~= before.push(t.text@));
                }
            } else {
                assert(strings_v(bindings@) =~= Seq::<Seq<char>>::empty());
            }
            self.expect(")")?;
        } else {
            assert(strings_v(bindings@) =~= Seq::<Seq<char>>::empty());
        }
        Ok(Pattern::VariantPattern { name, bindings })
    }

    fn parse_return_stmt(&mut self) -> (r: Result<Spanned<Stmt>, Diagnostic>)
        requires
            old(self).wf(),
        ensures
            Parser::stepped(*old(self), *final(self)),
            r is Ok ==> old(self).pos() < final(self).pos(),
            r matches Ok(n) ==> Parser::covers(*old(self), *final(self), n.span),
            r matches Err(d) ==> is_syntax_error(d@),
            agrees(r, final(self).pos(), |s: Spanned<Stmt>| stmt_v(s), p_return(old(self).toks(), old(self).pos())),
            r matches Ok(s) ==> stmt_kinds_ok(s),
        decreases old(self).tokens@.len() - old(self).i, 30nat,
    {
        let start = self.cur_start();
        self.expect("return")?;
        let value = if self.check("}") {
            None
        } else {
            Some(self.parse_expr()?)
        };
        proof { self.lemma_consumed(old(self).i as int); }
        Ok(Spanned::new(Stmt::ReturnStmt { value }, self.span_from(start)))
    }

    fn parse_expr(&mut self) -> (r: Result<Spanned<Expr>, Diagnostic>)
        requires
            old(self).wf(),
        ensures
            Parser::stepped(*old(self), *final(self)),
            r is Ok ==> old(self).pos() < final(self).pos(),
            r matches Ok(n) ==> Parser::covers(*old(self), *final(self), n.span),
            r matches Err(d) ==> is_syntax_error(d@),
            agrees(r, final(self).pos(), |e: Spanned<Expr>| expr_v(e), p_expr(old(self).toks(), old(self).pos())),
            r matches Ok(n) ==> expr_kinds_ok(n),
        decreases old(self).tokens@.len() - old(self).i, 20nat,
    {
        proof {
            unfold_p_expr(self.toks(), self.pos());
        }
        self.parse_assignment()
    }

    /// Assignment, right-associative. Compound assignment `x op= y` is
    /// desugared to `x = x op y`.
    fn parse_assignment(&mut self) -> (r: Result<Spanned<Expr>, Diagnostic>)
        requires
            old(self).wf(),
        ensures
            Parser::stepped(*old(self), *final(self)),
            r is Ok ==> old(self).pos() < final(self).pos(),
            r matches Ok(n) ==> Parser::covers(*old(self), *final(self), n.span),
            r matches Err(d) ==> is_syntax_error(d@),
            agrees(r, final(self).pos(), |e: Spanned<Expr>| expr_v(e), p_assignment(old(self).toks(), old(self).pos())),
            r matches Ok(n) ==> expr_kinds_ok(n),
        decreases old(self).tokens@.len() - old(self).i, 19nat,
    {
        let ghost ts = self.toks();
        let expr = self.parse_logical_or()?;
        if self.check("=") {
            let ghost p = *self;
            self.bump();
            let ghost m = *self;
            let value = self.parse_assignment()?;
            proof {
                Parser::lemma_merge_cover(*old(self), p, m, *self, expr.span, value.span);
            }
            let span = expr.span.merge(value.span);
            return Ok(Spanned::new(Expr::AssignmentExpr { target: Box::new(expr), value: Box::new(value) }, span));
        }
        let op = if self.check("+=") {
            "+"
        } else if self.check("-=") {
            "-"
        } else if self.check("*=") {
            "*"
        } else if self.check("/=") {
            "/"
        } else if self.check("%=") {
            "%"
        } else {
            return Ok(expr);
        };
        assert(compound_op(ts, self.pos()) == Some(op@));
        let ghost p = *self;
        self.bump();
        let ghost m = *self;
        let rhs = self.parse_assignment()?;
        proof {
            Parser::lemma_merge_cover(*old(self), p, m, *self, expr.span, rhs.span);
            Parser::lemma_cover_widen(*old(self), *old(self), p, *self, expr.span);
        }
        let left = clone_expr(&expr);
        let combined = binary(text_of(op), left, rhs);
        let span = expr.span.merge(combined.span);
        assert(span == expr.span.spec_merge(rhs.span));
        Ok(Spanned::new(Expr::AssignmentExpr { target: Box::new(expr), value: Box::new(combined) }, span))
    }

    fn parse_logical_or(&mut self) -> (r: Result<Spanned<Expr>, Diagnostic>)
        requires
            old(self).wf(),
        ensures
            Parser::stepped(*old(self), *final(self)),
            r is Ok ==> old(self).pos() < final(self).pos(),
            r matches Ok(n) ==> Parser::covers(*old(self), *final(self), n.span),
            r matches Err(d) ==> is_syntax_error(d@),
            agrees(r, final(self).pos(), |e: Spanned<Expr>| expr_v(e), p_level(old(self).toks(), old(self).pos(), 0nat)),
            r matches Ok(n) ==> expr_kinds_ok(n),
        decreases old(self).tokens@.len() - old(self).i, 18nat,
    {
        let ghost ts = self.toks();
        let ghost i0 = self.pos();
        let mut expr = self.parse_logical_and()?;
        while self.check("||")
            invariant
                old(self).wf(),
                Parser::stepped(*old(self), *self),
                Parser::covers(*old(self), *self, expr.span),
                expr_kinds_ok(expr),
                ts == old(self).toks(),
                i0 == old(self).pos(),
                p_level(ts, i0, 0nat) == level_rest(ts, self.pos(), 0nat, expr_v(expr)),
            decreases self.tokens@.len() - self.i,
        {
            let ghost p = *self;
            assert(is_level_op(ts, p.pos(), 0nat));
            self.bump();
            let ghost m = *self;
            let right = self.parse_logical_and()?;
            proof {
                Parser::lemma_merge_cover(*old(self), p, m, *self, expr.span, right.span);
            }
            expr = binary(text_of("||"), expr, right);
        }
        Ok(expr)
    }

    fn parse_logical_and(&mut self) -> (r: Result<Spanned<Expr>, Diagnostic>)
        requires
            old(self).wf(),
        ensures
            Parser::stepped(*old(self), *final(self)),
            r is Ok ==> old(self).pos() < final(self).pos(),
            r matches Ok(n) ==> Parser::covers(*old(self), *final(self), n.span),
            r matches Err(d) ==> is_syntax_error(d@),
            agrees(r, final(self).pos(), |e: Spanned<Expr>| expr_v(e), p_level(old(self).toks(), old(self).pos(), 1nat)),
            r matches Ok(n) ==> expr_kinds_ok(n),
        decreases old(self).tokens@.len() - old(self).i, 17nat,
    {
        let ghost ts = self.toks();
        let ghost i0 = self.pos();
        let mut expr = self.parse_equality()?;
        while self.check("&&")
            invariant
                old(self).wf(),
                Parser::stepped(*old(self), *self),
                Parser::covers(*old(self), *self, expr.span),
                expr_kinds_ok(expr),
                ts == old(self).toks(),
                i0 == old(self).pos(),
                p_level(ts, i0, 1nat) == level_rest(ts, self.pos(), 1nat, expr_v(expr)),
            decreases self.tokens@.len() - self.i,
        {
            let ghost p = *self;
            assert(is_level_op(ts, p.pos(), 1nat));
            self.bump();
            let ghost m = *self;
            let right = self.parse_equality()?;
            proof {
                Parser::lemma_merge_cover(*old(self), p, m, *self, expr.span, right.span);
            }
            expr = binary(text_of("&&"), expr, right);
        }
        Ok(expr)
    }

    fn parse_equality(&mut self) -> (r: Result<Spanned<Expr>, Diagnostic>)
        requires
            old(self).wf(),
        ensures
            Parser::stepped(*old(self), *final(self)),
            r is Ok ==> old(self).pos() < final(self).pos(),
            r matches Ok(n) ==> Parser::covers(*old(self), *final(self), n.span),
            r matches Err(d) ==> is_syntax_error(d@),
            agrees(r, final(self).pos(), |e: Spanned<Expr>| expr_v(e), p_level(old(self).toks(), old(self).pos(), 2nat)),
            r matches Ok(n) ==> expr_kinds_ok(n),
        decreases old(self).tokens@.len() - old(self).i, 16nat,
    {
        let ghost ts = self.toks();
        let ghost i0 = self.pos();
        let mut expr = self.parse_comparison()?;
        while self.check("==") || self.check("!=")
            invariant
                old(self).wf(),
                Parser::stepped(*old(self), *self),
                Parser::covers(*old(self), *self, expr.span),
                expr_kinds_ok(expr),
                ts == old(self).toks(),
                i0 == old(self).pos(),
                p_level(ts, i0, 2nat) == level_rest(ts, self.pos(), 2nat, expr_v(expr)),
            decreases self.tokens@.len() - self.i,
        {
            let ghost p = *self;
            assert(is_level_op(ts, p.pos(), 2nat));
            let op = self.bump().text;
            let ghost m = *self;
            let right = self.parse_comparison()?;
            proof {
                Parser::lemma_merge_cover(*old(self), p, m, *self, expr.span, right.span);
            }
            expr = binary(op, expr, right);
        }
        Ok(expr)
    }

    fn parse_comparison(&mut self) -> (r: Result<Spanned<Expr>, Diagnostic>)
        requires
            old(self).wf(),
        ensures
            Parser::stepped(*old(self), *final(self)),
            r is Ok ==> old(self).pos() < final(self).pos(),
            r matches Ok(n) ==> Parser::covers(*old(self), *final(self), n.span),
            r matches Err(d) ==> is_syntax_error(d@),
            agrees(r, final(self).pos(), |e: Spanned<Expr>| expr_v(e), p_level(old(self).toks(), old(self).pos(), 3nat)),
            r matches Ok(n) ==> expr_kinds_ok(n),
        decreases old(self).tokens@.len() - old(self).i, 15nat,
    {
        let ghost ts = self.toks();
        let ghost i0 = self.pos();
        let mut expr = self.parse_bitwise()?;
        while self.peek_text_is(">") || self.peek_text_is(">=") || self.peek_text_is("<")
            || self.peek_text_is("<=")
            invariant
                old(self).wf(),
                Parser::stepped(*old(self), *self),
                Parser::covers(*old(self), *self, expr.span),
                expr_kinds_ok(expr),
                ts == old(self).toks(),
                i0 == old(self).pos(),
                p_level(ts, i0, 3nat) == level_rest(ts, self.pos(), 3nat, expr_v(expr)),
            decreases self.tokens@.len() - self.i,
        {
            let ghost p = *self;
            assert(is_level_op(ts, p.pos(), 3nat));
            let op = self.bump().text;
            let ghost m = *self;
            let right = self.parse_bitwise()?;
            proof {
                Parser::lemma_merge_cover(*old(self), p, m, *self, expr.span, right.span);
            }
            expr = binary(op, expr, right);
        }
        Ok(expr)
    }

    fn parse_bitwise(&mut self) -> (r: Result<Spanned<Expr>, Diagnostic>)
        requires
            old(self).wf(),
        ensures
            Parser::stepped(*old(self), *final(self)),
            r is Ok ==> old(self).pos() < final(self).pos(),
            r matches Ok(n) ==> Parser::covers(*old(self), *final(self), n.span),
            r matches Err(d) ==> is_syntax_error(d@),
            agrees(r, final(self).pos(), |e: Spanned<Expr>| expr_v(e), p_level(old(self).toks(), old(self).pos(), 4nat)),
            r matches Ok(n) ==> expr_kinds_ok(n),
        decreases old(self).tokens@.len() - old(self).i, 14nat,
    {
        let ghost ts = self.toks();
        let ghost i0 = self.pos();
        let mut expr = self.parse_term()?;
        while self.peek_text_is("&") || self.peek_text_is("|") || self.peek_text_is("^")
            || self.peek_text_is("<<") || self.peek_text_is(">>")
            invariant
                old(self).wf(),
                Parser::stepped(*old(self), *self),
                Parser::covers(*old(self), *self, expr.span),
                expr_kinds_ok(expr),
                ts == old(self).toks(),
                i0 == old(self).pos(),
                p_level(ts, i0, 4nat) == level_rest(ts, self.pos(), 4nat, expr_v(expr)),
            decreases self.tokens@.len() - self.i,
        {
            let ghost p = *self;
            assert(is_level_op(ts, p.pos(), 4nat));
            let op = self.bump().text;
            let ghost m = *self;
            let right = self.parse_term()?;
            proof {
                Parser::lemma_merge_cover(*old(self), p, m, *self, expr.span, right.span);
            }
            expr = binary(op, expr, right);
        }
        Ok(expr)
    }

    fn parse_term(&mut self) -> (r: Result<Spanned<Expr>, Diagnostic>)
        requires
            old(self).wf(),
        ensures
            Parser::stepped(*old(self), *final(self)),
            r is Ok ==> old(self).pos() < final(self).pos(),
            r matches Ok(n) ==> Parser::covers(*old(self), *final(self), n.span),
            r matches Err(d) ==> is_syntax_error(d@),
            agrees(r, final(self).pos(), |e: Spanned<Expr>| expr_v(e), p_level(old(self).toks(), old(self).pos(), 5nat)),
            r matches Ok(n) ==> expr_kinds_ok(n),
        decreases old(self).tokens@.len() - old(self).i, 13nat,
    {
        let ghost ts = self.toks();
        let ghost i0 = self.pos();
        let mut expr = self.parse_factor()?;
        while self.check("+") || self.check("-")
            invariant
                old(self).wf(),
                Parser::stepped(*old(self), *self),
                Parser::covers(*old(self), *self, expr.span),
                expr_kinds_ok(expr),
                ts == old(self).toks(),
                i0 == old(self).pos(),
                p_level(ts, i0, 5nat) == level_rest(ts, self.pos(), 5nat, expr_v(expr)),
            decreases self.tokens@.len() - self.i,
        {
            let ghost p = *self;
            assert(is_level_op(ts, p.pos(), 5nat));
            let op = self.bump().text;
            let ghost m = *self;
            let right = self.parse_factor()?;
            proof {
                Parser::lemma_merge_cover(*old(self), p, m, *self, expr.span, right.span);
            }
            expr = binary(op, expr, right);
        }
        Ok(expr)
    }

    fn parse_factor(&mut self) -> (r: Result<Spanned<Expr>, Diagnostic>)
        requires
            old(self).wf(),
        ensures
            Parser::stepped(*old(self), *final(self)),
            r is Ok ==> old(self).pos() < final(self).pos(),
            r matches Ok(n) ==> Parser::covers(*old(self), *final(self), n.span),
            r matches Err(d) ==> is_syntax_error(d@),
            agrees(r, final(self).pos(), |e: Spanned<Expr>| expr_v(e), p_level(old(self).toks(), old(self).pos(), 6nat)),
            r matches Ok(n) ==> expr_kinds_ok(n),
        decreases old(self).tokens@.len() - old(self).i, 12nat,
    {
        let ghost ts = self.toks();
        let ghost i0 = self.pos();
        proof {
            assert(p_level(ts, i0, 7nat) == p_unary(ts, i0));
        }
        let mut expr = self.parse_unary()?;
        while self.check("*") || self.check("/") || self.check("%")
            invariant
                old(self).wf(),
                Parser::stepped(*old(self), *self),
                Parser::covers(*old(self), *self, expr.span),
                expr_kinds_ok(expr),
                ts == old(self).toks(),
                i0 == old(self).pos(),
                p_level(ts, i0, 6nat) == level_rest(ts, self.pos(), 6nat, expr_v(expr)),
            decreases self.tokens@.len() - self.i,
        {
            let ghost p = *self;
            assert(is_level_op(ts, p.pos(), 6nat));
            let op = self.bump().text;
            let ghost m = *self;
            proof {
                assert(p_level(ts, m.pos(), 7nat) == p_unary(ts, m.pos()));
            }
            let right = self.parse_unary()?;
            proof {
                Parser::lemma_merge_cover(*old(self), p, m, *self, expr.span, right.span);
            }
            expr = binary(op, expr, right);
        }
        Ok(expr)
    }

    fn parse_unary(&mut self) -> (r: Result<Spanned<Expr>, Diagnostic>)
        requires
            old(self).wf(),
        ensures
            Parser::stepped(*old(self), *final(self)),
            r is Ok ==> old(self).pos() < final(self).pos(),
            r matches Ok(n) ==> Parser::covers(*old(self), *final(self), n.span),
            r matches Err(d) ==> is_syntax_error(d@),
            agrees(r, final(self).pos(), |e: Spanned<Expr>| expr_v(e), p_unary(old(self).toks(), old(self).pos())),
            r matches Ok(n) ==> expr_kinds_ok(n),
        decreases old(self).tokens@.len() - old(self).i, 11nat,
    {
        if self.check("!") || self.check("-") || self.check("~") {
            let start = self.cur_start();
            let op = self.bump().text;
            let value = self.parse_unary()?;
            let span = Span::new(self.file_id, start, value.span.end);
            proof { self.lemma_consumed(old(self).i as int); }
            return Ok(Spanned::new(Expr::UnaryExpr { op, value: Box::new(value) }, span));
        }
        self.parse_postfix()
    }

    /// Calls `f(..)`, field accesses `.name` and indexing `[i]`.
    #[verifier::rlimit(100)]
    fn parse_postfix(&mut self) -> (r: Result<Spanned<Expr>, Diagnostic>)
        requires
            old(self).wf(),
        ensures
            Parser::stepped(*old(self), *final(self)),
            r is Ok ==> old(self).pos() < final(self).pos(),
            r matches Ok(n) ==> Parser::covers(*old(self), *final(self), n.span),
            r matches Err(d) ==> is_syntax_error(d@),
            agrees(r, final(self).pos(), |e: Spanned<Expr>| expr_v(e), p_postfix(old(self).toks(), old(self).pos())),
            r matches Ok(n) ==> expr_kinds_ok(n),
        decreases old(self).tokens@.len() - old(self).i, 10nat,
    {
        let ghost ts = self.toks();
        let ghost i0 = self.pos();
        let mut expr = self.parse_primary()?;
        loop
            invariant
                old(self).wf(),
                Parser::stepped(*old(self), *self),
                Parser::covers(*old(self), *self, expr.span),
                expr_kinds_ok(expr),
                ts == old(self).toks(),
                i0 == old(self).pos(),
                p_postfix(ts, i0) == postfix_rest(ts, self.pos(), expr_v(expr)),
            ensures
                Parser::stepped(*old(self), *self),
            decreases self.tokens@.len() - self.i,
        {
            if !(self.check("(") || self.check(".") || self.check("[")) {
                return Ok(expr);
            }
            expr = self.parse_suffix(expr, Ghost(*old(self)))?;
        }
    }

    /// One call, field access or indexing applied to `expr`, which was
    /// parsed from state `a` on.
    #[verifier::rlimit(100)]
    #[verifier::spinoff_prover]
    fn parse_suffix(&mut self, expr: Spanned<Expr>, Ghost(a): Ghost<Parser>) -> (r: Result<Spanned<Expr>, Diagnostic>)
        requires
            old(self).wf(),
            Parser::stepped(a, *old(self)),
            Parser::covers(a, *old(self), expr.span),
            is_suffix_start(old(self).toks(), old(self).pos()),
            expr_kinds_ok(expr),
        ensures
            Parser::stepped(*old(self), *final(self)),
            r is Ok ==> old(self).pos() < final(self).pos(),
            r matches Ok(n) ==> Parser::covers(a, *final(self), n.span),
            r matches Err(d) ==> is_syntax_error(d@),
            agrees(r, final(self).pos(), |e: Spanned<Expr>| expr_v(e), postfix_step(old(self).toks(), old(self).pos(), expr_v(expr))),
            r matches Ok(n) ==> expr_kinds_ok(n),
        decreases old(self).tokens@.len() - old(self).i, 9nat,
    {
        let ghost p = *self;
        let start = expr.span.start;
        if self.check("(") {
            self.bump();
            let args = self.parse_call_args()?;
            self.expect(")")?;
            proof {
                Parser::lemma_cover_to_end(a, p, *self, expr.span);
            }
            let span = Span::new(self.file_id, start, self.last_end);
            Ok(Spanned::new(Expr::CallExpr { callee: Box::new(expr), args }, span))
        } else if self.check(".") {
            self.bump();
            let field = self.expect_ident()?.text;
            proof {
                Parser::lemma_cover_to_end(a, p, *self, expr.span);
            }
            let span = Span::new(self.file_id, start, self.last_end);
            Ok(Spanned::new(Expr::FieldAccessExpr { object: Box::new(expr), field }, span))
        } else {
            self.bump();
            let index = self.parse_expr()?;
            self.expect("]")?;
            proof {
                Parser::lemma_cover_to_end(a, p, *self, expr.span);
            }
            let span = Span::new(self.file_id, start, self.last_end);
            Ok(Spanned::new(Expr::IndexExpr { object: Box::new(expr), index: Box::new(index) }, span))
        }
    }

    /// The arguments of a call, from just after `(` to just before `)`.
    fn parse_call_args(&mut self) -> (r: Result<Vec<Spanned<Expr>>, Diagnostic>)
        requires
            old(self).wf(),
        ensures
            Parser::stepped(*old(self), *final(self)),
            r matches Err(d) ==> is_syntax_error(d@),
            agrees(r, final(self).pos(), |v: Vec<Spanned<Expr>>| exprs_v(v@), call_args(old(self).toks(), old(self).pos())),
            r matches Ok(v) ==> exprs_kinds_ok(v@),
        decreases old(self).tokens@.len() - old(self).i, 21nat,
    {
        let ghost ts = self.toks();
        let ghost i0 = self.pos();
        let mut args: Vec<Spanned<Expr>> = Vec::new();
        if !self.check(")") {
            let first = self.parse_expr()?;
            args.push(first);
            proof {
                assert(exprs_kinds_ok(Seq::<Spanned<Expr>>::empty()));
                lemma_exprs_v(args@);
                assert(exprs_v(args@) =~= seq![expr_v(args@[0])]);
                assert(args@.drop_last() =~= Seq::<Spanned<Expr>>::empty());
            }
            while self.match_text(",")
                invariant
                    old(self).wf(),
                    Parser::stepped(*old(self), *self),
                    old(self).pos() < self.pos(),
                    ts == old(self).toks(),
                    i0 == old(self).pos(),
                    call_args(ts, i0) == comma_exprs(ts, self.pos(), exprs_v(args@)),
                    exprs_kinds_ok(args@),
                decreases self.tokens@.len() - self.i,
            {
                let a = self.parse_expr()?;
                let ghost before = args@;
                args.push(a);
                proof {
                    assert(args@.drop_last() =~= before);
                }
            }
        }
        Ok(args)
    }

    #[verifier::rlimit(100)]
    fn parse_primary(&mut self) -> (r: Result<Spanned<Expr>, Diagnostic>)
        requires
            old(self).wf(),
        ensures
            Parser::stepped(*old(self), *final(self)),
            r is Ok ==> old(self).pos() < final(self).pos(),
            r matches Ok(n) ==> Parser::covers(*old(self), *final(self), n.span),
            r matches Err(d) ==> is_syntax_error(d@),
            agrees(r, final(self).pos(), |e: Spanned<Expr>| expr_v(e), p_primary(old(self).toks(), old(self).pos())),
            r matches Ok(n) ==> expr_kinds_ok(n),
        decreases old(self).tokens@.len() - old(self).i, 9nat,
    {
        let tok = self.peek().clone();
        let span = self.tok_span(&tok);
        proof { self.lemma_token(self.i as int); }
        match tok.kind {
            TokenKind::Int => {
                self.bump();
                Ok(Spanned::new(Expr::IntLiteral { value: tok.text }, span))
            },
            TokenKind::Float => {
                self.bump();
                Ok(Spanned::new(Expr::FloatLiteral { value: tok.text }, span))
            },
            TokenKind::String => {
                self.bump();
                Ok(Spanned::new(Expr::StringLiteral { value: tok.text }, span))
            },
            TokenKind::Ident => {
                if self.is_struct_literal_start() {
                    self.parse_struct_literal()
                } else {
                    self.bump();
                    Ok(Spanned::new(Expr::Identifier { name: tok.text }, span))
                }
            },
            TokenKind::Keyword if text_eq(&tok.text, "true") || text_eq(&tok.text, "false") => {
                self.bump();
                Ok(Spanned::new(Expr::BoolLiteral { value: text_eq(&tok.text, "true") }, span))
            },
            _ => {
                if text_eq(&tok.text, "(") {
                    self.expect("(")?;
                    let ghost m = *self;
                    let expr = self.parse_expr()?;
                    let ghost q = *self;
                    self.expect(")")?;
                    proof {
                        Parser::lemma_cover_widen(*old(self), m, q, *self, expr.span);
                    }
                    Ok(expr)
                } else if text_eq(&tok.text, "[") {
                    self.parse_array_literal()
                } else {
                    let mut message = text_of("expected expression, got ");
                    message.append(debug_str(tok.text.as_str()).as_str());
                    Err(self.error_here(ErrorCode::ParseExpectedExpression, message))
                }
            },
        }
    }

    fn parse_array_literal(&mut self) -> (r: Result<Spanned<Expr>, Diagnostic>)
        requires
            old(self).wf(),
        ensures
            Parser::stepped(*old(self), *final(self)),
            r is Ok ==> old(self).pos() < final(self).pos(),
            r matches Ok(n) ==> Parser::covers(*old(self), *final(self), n.span),
            r matches Err(d) ==> is_syntax_error(d@),
            agrees(r, final(self).pos(), |e: Spanned<Expr>| expr_v(e), p_array_literal(old(self).toks(), old(self).pos())),
            r matches Ok(n) ==> expr_kinds_ok(n),
        decreases old(self).tokens@.len() - old(self).i, 8nat,
    {
        let start = self.cur_start();
        self.expect("[")?;
        let elements = self.parse_array_elements()?;
        self.expect("]")?;
        proof { self.lemma_consumed(old(self).i as int); }
        Ok(Spanned::new(Expr::ArrayLiteral { elements }, Span::new(self.file_id, start, self.last_end)))
    }

    /// The elements of an array literal, after `[` and up to `]`.
    #[verifier::rlimit(100)]
    #[verifier::spinoff_prover]
    fn parse_array_elements(&mut self) -> (r: Result<Vec<Spanned<Expr>>, Diagnostic>)
        requires
            old(self).wf(),
        ensures
            Parser::stepped(*old(self), *final(self)),
            r matches Err(d) ==> is_syntax_error(d@),
            agrees(r, final(self).pos(), |v: Vec<Spanned<Expr>>| exprs_v(v@), array_elements(old(self).toks(), old(self).pos())),
            r matches Ok(v) ==> exprs_kinds_ok(v@),
        decreases old(self).tokens@.len() - old(self).i, 21nat,
    {
        let ghost ts = self.toks();
        let ghost i0 = self.pos();
        let mut elements: Vec<Spanned<Expr>> = Vec::new();
        if !self.check("]") {
            let first = self.parse_expr()?;
            elements.push(first);
            proof {
                assert(exprs_kinds_ok(Seq::<Spanned<Expr>>::empty()));
                lemma_exprs_v(elements@);
                assert(exprs_v(elements@) =~= seq![expr_v(elements@[0])]);
                assert(elements@.drop_last() =~= Seq::<Spanned<Expr>>::empty());
            }
            while self.match_text(",")
                invariant_except_break
                    array_elements(ts, i0) == array_rest(ts, self.pos(), exprs_v(elements@)),
                invariant
                    old(self).wf(),
                    Parser::stepped(*old(self), *self),
                    old(self).pos() < self.pos(),
                    ts == old(self).toks(),
                    i0 == old(self).pos(),
                    exprs_kinds_ok(elements@),
                ensures
                    array_elements(ts, i0) == Parsed::Done(exprs_v(elements@), self.pos()),
                decreases self.tokens@.len() - self.i,
            {
                if self.check("]") {
                    break;
                }
                let e = self.parse_expr()?;
                let ghost before = elements@;
                elements.push(e);
                proof {
                    assert(elements@.drop_last() =~= before);
                }
            }
        }
        Ok(elements)
    }

    #[verifier::rlimit(100)]
    #[verifier::spinoff_prover]
    fn parse_struct_literal(&mut self) -> (r: Result<Spanned<Expr>, Diagnostic>)
        requires
            old(self).wf(),
        ensures
            Parser::stepped(*old(self), *final(self)),
            r is Ok ==> old(self).pos() < final(self).pos(),
            r matches Ok(n) ==> Parser::covers(*old(self), *final(self), n.span),
            r matches Err(d) ==> is_syntax_error(d@),
            agrees(r, final(self).pos(), |e: Spanned<Expr>| expr_v(e), p_struct_literal(old(self).toks(), old(self).pos())),
            r matches Ok(n) ==> expr_kinds_ok(n),
        decreases old(self).tokens@.len() - old(self).i, 8nat,
    {
        let ghost ts = self.toks();
        let ghost i0 = self.pos();
        let start = self.cur_start();
        let name = self.expect_ident()?.text;
        self.expect("{")?;
        let mut fields: Vec<StructLiteralField> = Vec::new();
        proof {
            assert(field_inits_v(fields@) =~= Seq::<(Seq<char>, SExpr)>::empty());
        }
        while !self.check("}")
            invariant_except_break
                struct_fields_p(ts, i0 + 2, Seq::empty()) == struct_fields_p(
                    ts,
                    self.pos(),
                    field_inits_v(fields@),
                ),
            invariant
                old(self).wf(),
                Parser::stepped(*old(self), *self),
                old(self).pos() < self.pos(),
                ts == old(self).toks(),
                i0 == old(self).pos(),
                0 <= i0,
                i0 + 1 < ts.len(),
                ts[i0].kind == TokenKind::Ident,
                at_sym(ts, i0 + 1, "{"@),
                field_inits_kinds_ok(fields@),
            ensures
                struct_fields_p(ts, i0 + 2, Seq::empty()) == Parsed::Done(
                    field_inits_v(fields@),
                    self.pos(),
                ),
            decreases self.tokens@.len() - self.i,
        {
            let field_name = self.expect_ident()?.text;
            self.expect(":")?;
            let value = self.parse_expr()?;
            let ghost before = fields@;
            fields.push(StructLiteralField { kind: "StructLiteralField", name: field_name, value });
            proof {
                assert(fields@.drop_last() =~= before);
            }
            if !self.match_text(",") {
                break;
            }
        }
        self.expect("}")?;
        proof { self.lemma_consumed(old(self).i as int); }
        Ok(Spanned::new(Expr::StructLiteral { name, fields }, Span::new(self.file_id, start, self.last_end)))
    }
}

/// `left op right`, spanning both operands.
fn binary(op: String, left: Spanned<Expr>, right: Spanned<Expr>) -> (r: Spanned<Expr>)
    requires
        left.span.start <= left.span.end,
        right.span.start <= right.span.end,
    ensures
        r.span == left.span.spec_merge(right.span),
        expr_v(r) == bin_v(op@, expr_v(left), expr_v(right)),
        expr_kinds_ok(r) == (expr_kinds_ok(left) && expr_kinds_ok(right)),
{
    let span = left.span.merge(right.span);
    Spanned::new(Expr::BinaryExpr { op, left: Box::new(left), right: Box::new(right) }, span)
}

/// Syntax errors are numbered `E2xxx`.
pub proof fn law_syntax_codes_are_numbered_2xxx(c: ErrorCode)
    requires
        is_parse_code(c),
    ensures
        2000 <= c.number() < 3000,
{
}

} // verus!
