use xlang::ast::{Block, Expr, Item, ModuleDecl, Param, Program, Stmt, TypeNode};
use xlang::source::{Span, Spanned};
use xlang::error::{Diagnostics, ErrorCode};
use xlang::lexer::Lexer;
use xlang::parser::Parser;
use xlang::typecheck::{check_program, check_program_typed};

fn checked(body: &str) -> Diagnostics {
    let source = format!("module main\nfn helper(a: i32): i32 {{\n    return a\n}}\n{body}");
    let (tokens, lex) = Lexer::new(&source).tokenize();
    assert!(lex.is_empty(), "lexer: {lex:?}");
    let program = Parser::new(tokens, "<test>").parse().expect("parse source");
    check_program(&program)
}

fn messages(body: &str) -> Vec<(ErrorCode, String)> {
    checked(body)
        .items
        .into_iter()
        .map(|d| (d.code, d.message))
        .collect()
}

fn one(code: ErrorCode, message: &str) -> Vec<(ErrorCode, String)> {
    vec![(code, message.to_string())]
}

#[test]
fn unknown_variable_is_quoted() {
    assert_eq!(
        messages("fn main(): i32 {\n    return missing\n}\n"),
        one(ErrorCode::TypeUnknownVar, "unknown variable \"missing\"")
    );
}

#[test]
fn wrong_argument_count_names_both_counts() {
    assert_eq!(
        messages("fn main(): i32 {\n    return helper(1, 2)\n}\n"),
        one(ErrorCode::TypeArgCount, "function \"helper\" expects 1 arguments, got 2")
    );
}

#[test]
fn argument_mismatch_names_the_position() {
    assert_eq!(
        messages("fn main(): i32 {\n    return helper(true)\n}\n"),
        one(
            ErrorCode::TypeMismatch,
            "argument 1 for function \"helper\" expects i32, got bool"
        )
    );
}

#[test]
fn while_condition_must_be_bool() {
    assert_eq!(
        messages("fn main(): i32 {\n    while 1 {\n        return 0\n    }\n    return 1\n}\n"),
        one(ErrorCode::TypeBoolRequired, "while condition must be bool, got integer literal")
    );
}

#[test]
fn logical_operands_must_be_bool() {
    assert_eq!(
        messages("fn main(): i32 {\n    let c: bool = 1 && true\n    return 0\n}\n"),
        one(ErrorCode::TypeBoolRequired, "left operand of && must be bool, got integer literal")
    );
}

#[test]
fn negation_needs_a_number() {
    assert_eq!(
        messages("fn main(): i32 {\n    let z: bool = -true\n    return 0\n}\n"),
        one(ErrorCode::TypeNumericRequired, "operand of unary - must be numeric, got bool")
    );
}

#[test]
fn equality_between_unrelated_types() {
    assert_eq!(
        messages("fn main(): i32 {\n    let e: bool = 1 == \"a\"\n    return 0\n}\n"),
        one(
            ErrorCode::TypeOperatorMismatch,
            "operator == cannot compare integer literal and string literal"
        )
    );
}

#[test]
fn bare_return_in_a_function_with_a_result() {
    assert_eq!(
        messages("fn main(): i32 {\n    return\n}\n"),
        one(
            ErrorCode::TypeReturnMissingValue,
            "return statement missing value for function returning i32"
        )
    );
}

#[test]
fn assignment_to_an_undeclared_name() {
    assert_eq!(
        messages("fn main(): i32 {\n    q = 3\n    return 0\n}\n"),
        one(ErrorCode::TypeUnknownAssignTarget, "cannot assign to unknown variable \"q\"")
    );
}

#[test]
fn indexing_a_scalar() {
    assert_eq!(
        messages("fn main(): i32 {\n    let a: i32 = 5\n    return a[0]\n}\n"),
        one(ErrorCode::TypeMismatch, "cannot index into i32")
    );
}

#[test]
fn index_must_be_an_integer() {
    assert_eq!(
        messages(
            "fn main(): i32 {\n    let xs: Array<i32, 2> = [1, 2]\n    return xs[true]\n}\n"
        ),
        one(ErrorCode::TypeMismatch, "array index must be an integer, got bool")
    );
}

#[test]
fn literal_of_an_undeclared_struct() {
    assert_eq!(
        messages("fn main(): i32 {\n    let p: Pt = Pt { x: 1 }\n    return 0\n}\n"),
        one(ErrorCode::TypeMismatch, "unknown struct type \"Pt\"")
    );
}

#[test]
fn one_mistake_one_diagnostic() {
    // The unknown variable poisons the expression; nothing downstream reports it again.
    assert_eq!(
        messages("fn main(): i32 {\n    let v: i32 = nope + 1\n    return helper(v)\n}\n"),
        one(ErrorCode::TypeUnknownVar, "unknown variable \"nope\"")
    );
}

#[test]
fn type_map_records_inferred_types() {
    let source = "module main\nfn main(): i32 {\n    let s: String = \"a\" + \"b\"\n    return 0\n}\n";
    let (tokens, _) = Lexer::new(source).tokenize();
    let program = Parser::new(tokens, "<test>").parse().expect("parse source");
    let (diags, types) = check_program_typed(&program);
    assert!(diags.is_empty());
    let xlang::ast::Item::FnDecl { body, .. } = &program.items[0].node else {
        panic!("expected a function");
    };
    let xlang::ast::Stmt::LetStmt { value, .. } = &body.statements[0].node else {
        panic!("expected a let");
    };
    assert!(types.is_string(value));
    assert_eq!(types.named_type(value).as_deref(), Some("String"));
}

#[test]
fn type_errors_carry_e3_codes() {
    let bodies = [
        "fn main(): i32 {\n    return missing\n}\n",
        "fn main(): i32 {\n    return helper(1, 2)\n}\n",
        "fn main(): i32 {\n    q = 3\n    return 0\n}\n",
        "fn main(): i32 {\n    return\n}\n",
    ];
    for body in bodies {
        for d in checked(body).items {
            assert!(d.code.code_str().starts_with("E3"), "{}", d.code.code_str());
        }
    }
}

#[test]
fn compound_assignment_keeps_the_operation_type_apart() {
    let source = "module main\nfn main(): i32 {\n    let mut x: i32 = 1\n    x += \"a\"\n    return 0\n}\n";
    let (tokens, _) = Lexer::new(source).tokenize();
    let program = Parser::new(tokens, "<test>").parse().expect("parse source");
    let (_, types) = check_program_typed(&program);
    let xlang::ast::Item::FnDecl { body, .. } = &program.items[0].node else {
        panic!("expected a function");
    };
    let xlang::ast::Stmt::ExprStmt { expr } = &body.statements[1].node else {
        panic!("expected an expression statement");
    };
    let xlang::ast::Expr::AssignmentExpr { value, .. } = &expr.node else {
        panic!("expected an assignment");
    };
    assert_eq!(value.span, expr.span);
    // The `+` inside the assignment has its own type; the assignment has the target's.
    assert!(types.is_string(value));
    assert_eq!(types.named_type(value).as_deref(), Some("String"));
    match types.type_node(value) {
        Some(xlang::ast::TypeNode::TypeExpr { name, args }) => {
            assert_eq!(name, "String");
            assert!(args.is_empty());
        }
        other => panic!("unexpected {other:?}"),
    }
    assert!(!types.is_string(expr));
    assert_eq!(types.named_type(expr).as_deref(), Some("i32"));
}

#[test]
fn nodes_sharing_a_span_keep_their_own_types() {
    let at = Span::unknown(0);
    let ty = |name: &str| TypeNode::TypeExpr { name: name.to_string(), args: Vec::new() };
    let ident = |name: &str| Spanned::new(Expr::Identifier { name: name.to_string() }, at);
    let body = Block {
        kind: "Block",
        statements: vec![
            Spanned::new(Stmt::ExprStmt { expr: ident("s") }, at),
            Spanned::new(Stmt::ExprStmt { expr: ident("n") }, at),
            Spanned::new(Stmt::ReturnStmt { value: Some(ident("n")) }, at),
        ],
    };
    let f = Item::FnDecl {
        name: "main".to_string(),
        params: vec![
            Param { kind: "Param", name: "s".to_string(), ty: ty("String") },
            Param { kind: "Param", name: "n".to_string(), ty: ty("i32") },
        ],
        return_type: ty("i32"),
        body,
    };
    let program = Program {
        kind: "Program",
        module: ModuleDecl { kind: "ModuleDecl", path: vec!["main".to_string()] },
        imports: Vec::new(),
        items: vec![Spanned::new(f, at)],
    };
    let (diags, types) = check_program_typed(&program);
    assert!(diags.is_empty());
    let s = ident("s");
    let n = ident("n");
    assert!(types.is_string(&s));
    assert_eq!(types.named_type(&s).as_deref(), Some("String"));
    assert!(!types.is_string(&n));
    assert_eq!(types.named_type(&n).as_deref(), Some("i32"));
}
