use xlang::ast::{Expr, Item, Stmt};
use xlang::error::{Diagnostic, ErrorCode};
use xlang::lexer::Lexer;
use xlang::parser::Parser;
use xlang::source::Spanned;

fn parser_for(source: &str) -> Parser {
    let (tokens, lex) = Lexer::new(source).tokenize();
    assert!(lex.is_empty(), "lexer: {lex:?}");
    Parser::new(tokens, "<test>")
}

fn parse_error(source: &str) -> Diagnostic {
    match parser_for(source).parse() {
        Err(d) => d,
        Ok(_) => panic!("expected a syntax error"),
    }
}

/// The expression of `return <expr>` in the first function.
fn returned(source: &str) -> Spanned<Expr> {
    let program = parser_for(source).parse().expect("parses");
    let Item::FnDecl { body, .. } = &program.items[0].node else {
        panic!("expected a function");
    };
    for st in &body.statements {
        if let Stmt::ReturnStmt { value: Some(v) } = &st.node {
            return xlang::ast::clone_expr(v);
        }
    }
    panic!("no return")
}

fn shape(e: &Spanned<Expr>) -> String {
    match &e.node {
        Expr::IntLiteral { value } => value.clone(),
        Expr::Identifier { name } => name.clone(),
        Expr::BinaryExpr { op, left, right } => format!("({} {} {})", shape(left), op, shape(right)),
        Expr::UnaryExpr { op, value } => format!("({}{})", op, shape(value)),
        Expr::AssignmentExpr { target, value } => format!("({} = {})", shape(target), shape(value)),
        Expr::CallExpr { callee, args } => {
            let args: Vec<String> = args.iter().map(shape).collect();
            format!("{}({})", shape(callee), args.join(", "))
        }
        Expr::FieldAccessExpr { object, field } => format!("{}.{}", shape(object), field),
        Expr::IndexExpr { object, index } => format!("{}[{}]", shape(object), shape(index)),
        _ => "?".to_string(),
    }
}

#[test]
fn multiplication_binds_tighter_than_addition() {
    let e = returned("module main\nfn f(): i32 {\n    return 1 + 2 * 3 - 4\n}\n");
    assert_eq!(shape(&e), "((1 + (2 * 3)) - 4)");
}

#[test]
fn precedence_climbs_through_every_level() {
    let e = returned("module main\nfn f(): bool {\n    return a || b && c == d < e | f + g * -h\n}\n");
    assert_eq!(shape(&e), "(a || (b && (c == (d < (e | (f + (g * (-h))))))))");
}

#[test]
fn parentheses_regroup() {
    let e = returned("module main\nfn f(): i32 {\n    return (1 + 2) * 3\n}\n");
    assert_eq!(shape(&e), "((1 + 2) * 3)");
}

#[test]
fn postfix_operators_chain_left_to_right() {
    let e = returned("module main\nfn f(): i32 {\n    return a.b(1, x)[2].c\n}\n");
    assert_eq!(shape(&e), "a.b(1, x)[2].c");
}

#[test]
fn compound_assignment_is_desugared() {
    let program = parser_for("module main\nfn f(): i32 {\n    x += 2\n    y = z = 1\n    return 0\n}\n")
        .parse()
        .expect("parses");
    let Item::FnDecl { body, .. } = &program.items[0].node else { panic!() };
    let Stmt::ExprStmt { expr } = &body.statements[0].node else { panic!() };
    assert_eq!(shape(expr), "(x = (x + 2))");
    let Stmt::ExprStmt { expr } = &body.statements[1].node else { panic!() };
    assert_eq!(shape(expr), "(y = (z = 1))");
}

#[test]
fn spans_cover_the_source_text() {
    let source = "module main\nfn f(): i32 {\n    return 10 + 20\n}\n";
    let e = returned(source);
    assert_eq!(&source[e.span.start as usize..e.span.end as usize], "10 + 20");
    let program = parser_for(source).parse().unwrap();
    let item = &program.items[0];
    assert_eq!(&source[item.span.start as usize..item.span.end as usize], "fn f(): i32 {\n    return 10 + 20\n}");
}

#[test]
fn missing_token_is_reported_with_what_was_found() {
    let d = parse_error("module main\nfn f(: i32 {\n    return 0\n}\n");
    assert_eq!(d.code, ErrorCode::ParseExpectedIdent);
    assert_eq!(d.message, "expected identifier, got \":\"");
    let d = parse_error("module main\nfn f(): i32 {\n    return g(1\n}\n");
    assert_eq!(d.code, ErrorCode::ParseExpectedToken);
    assert_eq!(d.message, "expected \")\", got \"}\"");
}

#[test]
fn unknown_items_and_expressions_are_named() {
    let d = parse_error("module main\nlet x: i32 = 1\n");
    assert_eq!(d.code, ErrorCode::ParseUnknownItem);
    assert_eq!(d.message, "expected item (struct/type/fn), got \"let\"");
    let d = parse_error("module main\nfn f(): i32 {\n    return *\n}\n");
    assert_eq!(d.code, ErrorCode::ParseExpectedExpression);
    assert_eq!(d.message, "expected expression, got \"*\"");
}

#[test]
fn unterminated_block_is_reported_at_the_end() {
    let source = "module main\nfn f(): i32 {\n    return 0\n";
    let d = parse_error(source);
    assert_eq!(d.code, ErrorCode::ParseUnterminatedBlock);
    assert_eq!(d.message, "unterminated block");
    assert_eq!(d.span.start as usize, source.len());
}

#[test]
fn recovery_reports_every_broken_item() {
    let source = "module main\nfn a(: i32 { return 0 }\nfn ok(): i32 {\n    return 1\n}\nstruct S { x i32 }\n";
    let (program, diags) = parser_for(source).parse_recovering();
    assert_eq!(program.items.len(), 1);
    let Item::FnDecl { name, .. } = &program.items[0].node else { panic!() };
    assert_eq!(name, "ok");
    let messages: Vec<&str> = diags.iter().map(|d| d.message.as_str()).collect();
    assert_eq!(messages, vec!["expected identifier, got \":\"", "expected \":\", got \"i32\""]);
}

#[test]
fn recovery_without_a_module_declaration() {
    // Recovery skips at least the offending token, so the first item goes too.
    let source = "fn f(): i32 {\n    return 0\n}\nfn g(): i32 {\n    return 1\n}\n";
    let (program, diags) = parser_for(source).parse_recovering();
    assert!(program.module.path.is_empty());
    assert_eq!(program.items.len(), 1);
    let Item::FnDecl { name, .. } = &program.items[0].node else { panic!() };
    assert_eq!(name, "g");
    assert_eq!(diags.len(), 1);
    assert_eq!(diags[0].message, "expected \"module\", got \"fn\"");
}

#[test]
fn recovery_agrees_with_parse_on_valid_input() {
    let source = "module app.core\nimport std.io\nstruct P {\n    x: i32\n}\ntype N = Array<i32, 3>\nfn f(p: P): i32 {\n    return p.x\n}\nimpl P {\n    fn get(self: P): i32 {\n        return 1\n    }\n}\n";
    let strict = parser_for(source).parse().expect("parses");
    let (recovered, diags) = parser_for(source).parse_recovering();
    assert!(diags.is_empty());
    assert_eq!(strict.module.path, recovered.module.path);
    assert_eq!(strict.module.path, vec!["app", "core"]);
    assert_eq!(strict.imports.len(), 1);
    assert_eq!(recovered.imports.len(), 1);
    assert_eq!(strict.items.len(), 4);
    assert_eq!(recovered.items.len(), 4);
    for (a, b) in strict.items.iter().zip(recovered.items.iter()) {
        assert_eq!(a.span, b.span);
    }
}

#[test]
fn syntax_errors_carry_e2_codes() {
    let sources = [
        "module main\nfn f(: i32 {\n}\n",
        "module main\nlet x: i32 = 1\n",
        "module main\nfn f(): i32 {\n    return *\n}\n",
        "module main\nfn f(): i32 {\n",
        "module main\nfn f(): i32 {\n    return g(1\n}\n",
    ];
    for source in sources {
        let d = parse_error(source);
        assert!(d.code.code_str().starts_with("E2"), "{}", d.code.code_str());
    }
}

#[test]
fn every_node_carries_its_kind_tag() {
    let source = "module main\nimport std.io\nstruct P {\n    x: i32\n}\nfn f(a: i32): i32 {\n    let p: P = P { x: a }\n    match p {\n        Some(v) => {\n            return v\n        }\n    }\n    return 0\n}\n";
    let program = parser_for(source).parse().expect("parses");
    assert_eq!(program.kind, "Program");
    assert_eq!(program.module.kind, "ModuleDecl");
    assert_eq!(program.imports[0].kind, "ImportDecl");
    let Item::StructDecl { fields, .. } = &program.items[0].node else {
        panic!("expected a struct");
    };
    assert_eq!(fields[0].kind, "FieldDecl");
    let Item::FnDecl { params, body, .. } = &program.items[1].node else {
        panic!("expected a function");
    };
    assert_eq!(params[0].kind, "Param");
    assert_eq!(body.kind, "Block");
    let Stmt::LetStmt { value, .. } = &body.statements[0].node else {
        panic!("expected a let");
    };
    let Expr::StructLiteral { fields, .. } = &value.node else {
        panic!("expected a struct literal");
    };
    assert_eq!(fields[0].kind, "StructLiteralField");
    let Stmt::MatchStmt { arms, .. } = &body.statements[1].node else {
        panic!("expected a match");
    };
    assert_eq!(arms[0].kind, "MatchArm");
    assert_eq!(arms[0].body.kind, "Block");
}
