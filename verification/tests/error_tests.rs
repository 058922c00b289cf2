use xlang::error::{Diagnostic, Diagnostics, ErrorCode};
use xlang::source::Span;



#[test]
fn diagnostics_dedup_identical() {
    let mut diags = Diagnostics::new();
    let span = Span::new(0, 5, 10);
    diags.push(Diagnostic::error(ErrorCode::TypeUnknownVar, span, "x".to_string()));
    diags.push(Diagnostic::error(ErrorCode::TypeUnknownVar, span, "x".to_string()));
    assert_eq!(diags.items.len(), 1);
    // same code, different span → kept
    diags.push(Diagnostic::error(
        ErrorCode::TypeUnknownVar,
        Span::new(0, 20, 25),
        "y".to_string(),
    ));
    assert_eq!(diags.items.len(), 2);
    assert!(diags.has_errors());
}

#[test]
fn error_code_serializes_to_stable_string() {
    assert_eq!(
        serde_json::to_string(ErrorCode::TypeUnknownVar.code_str()).unwrap(),
        "\"E3001\""
    );
    assert_eq!(
        serde_json::to_string(ErrorCode::LexUnexpectedChar.code_str()).unwrap(),
        "\"E1001\""
    );
}
