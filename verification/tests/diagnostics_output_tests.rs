use xlang::driver::{
    accept_parsed, apply_suggestions, diagnostics_to_gcc, diagnostics_to_serializable,
    parse_source, suggestion_count,
};
use xlang::error::{Diagnostic, Diagnostics, ErrorCode, Severity, XError};
use xlang::source::Span;

const MISMATCH: &str = "module main\nfn main(): i32 {\n    let x: i32 = true\n    return x\n}\n";
const IMMUTABLE: &str = "module main\nfn main(): i32 {\n    let x: i32 = 1\n    x = 2\n    return x\n}\n";

#[test]
fn gcc_lines_name_file_position_severity_and_code() {
    let (_, diags) = parse_source(MISMATCH, "t.x");
    let lines = diagnostics_to_gcc(&diags, MISMATCH, "t.x");
    assert_eq!(
        lines,
        vec!["t.x:3:18: error[E3005]: initializer for variable \"x\" expects i32, got bool"]
    );
}

#[test]
fn serializable_ranges_are_one_based_and_inclusive() {
    let (_, diags) = parse_source(MISMATCH, "t.x");
    let out = diagnostics_to_serializable(&diags, MISMATCH, "t.x");
    assert_eq!(out.len(), 1);
    let d = &out[0];
    assert_eq!(d.code, ErrorCode::TypeMismatch);
    assert_eq!(d.severity, Severity::Error);
    assert_eq!(d.file, "t.x");
    assert_eq!((d.range.line, d.range.col), (3, 18));
    assert_eq!((d.range.end_line, d.range.end_col), (3, 21));
    assert_eq!((d.range.start, d.range.end), (46, 50));
    assert!(d.suggestions.is_empty());
}

#[test]
fn immutable_assignment_fix_inserts_mut() {
    let (_, diags) = parse_source(IMMUTABLE, "t.x");
    assert_eq!(diags.items.len(), 1);
    let d = &diags.items[0];
    assert_eq!(d.code, ErrorCode::TypeImmutableAssign);
    assert_eq!(
        d.message,
        "cannot assign to immutable variable \"x\"; declare it with `let mut x` if reassignment is intended"
    );
    assert_eq!(suggestion_count(&diags), 1);
    let fixed = apply_suggestions(IMMUTABLE, &diags);
    assert_eq!(fixed, IMMUTABLE.replace("let x", "let mut x"));
    let (_, after) = parse_source(&fixed, "t.x");
    assert!(after.is_empty());
}

#[test]
fn suggestions_apply_right_to_left() {
    let src = "abcdef";
    let mut diags = Diagnostics::new();
    diags.push(
        Diagnostic::error(ErrorCode::TypeMismatch, Span::new(0, 0, 1), "a".to_string())
            .with_suggestion(Span::new(0, 0, 1), "X".to_string()),
    );
    diags.push(
        Diagnostic::error(ErrorCode::TypeMismatch, Span::new(0, 4, 5), "b".to_string())
            .with_suggestion(Span::new(0, 4, 6), "YY-".to_string())
            .with_suggestion(Span::new(0, 9, 12), "out of range".to_string()),
    );
    assert_eq!(suggestion_count(&diags), 3);
    assert_eq!(apply_suggestions(src, &diags), "XbcdYY-");
}

#[test]
fn no_suggestions_leave_the_source_unchanged() {
    let (_, diags) = parse_source(MISMATCH, "t.x");
    assert_eq!(suggestion_count(&diags), 0);
    assert_eq!(apply_suggestions(MISMATCH, &diags), MISMATCH);
    assert_eq!(apply_suggestions("héllo", &Diagnostics::new()), "héllo");
}

#[test]
fn accepted_program_has_no_errors() {
    let src = "module main\nfn main(): i32 {\n    return 0\n}\n";
    let (program, diags) = parse_source(src, "t.x");
    assert!(accept_parsed(program, &diags).is_ok());
    let (program, diags) = parse_source(IMMUTABLE, "t.x");
    match accept_parsed(program, &diags) {
        Err(XError::Parse(m)) => assert_eq!(m, diags.items[0].message),
        other => panic!("unexpected {:?}", other.map(|_| ())),
    }
}

#[test]
fn rejected_program_lists_every_message() {
    let src = "module main\nfn main(): i32 {\n    let a: i32 = true\n    let b: bool = 1\n    return 0\n}\n";
    let (program, diags) = parse_source(src, "t.x");
    assert_eq!(diags.items.len(), 2);
    match accept_parsed(program, &diags) {
        Err(XError::Parse(m)) => assert_eq!(
            m,
            format!("{}; {}", diags.items[0].message, diags.items[1].message)
        ),
        other => panic!("unexpected {:?}", other.map(|_| ())),
    }
}
