use xlang::lsp::{completion_names, definition, diagnostics, hover};

const SRC: &str = "module main\nfn add(a: i32, b: i32): i32 {\n    return a + b\n}\n";

#[test]
fn hover_returns_function_signature() {
    // "fn add" is on line 2; hovering anywhere on that line yields the sig.
    let h = hover(SRC, "<t>", 2, 5).expect("hover present");
    assert_eq!(h, "fn add(a: i32, b: i32) -> i32");
}

#[test]
fn definition_returns_the_defining_range() {
    let r = definition(SRC, "<t>", 2, 5).expect("definition present");
    assert_eq!(r.line, 2);
    assert_eq!(r.col, 1);
}

#[test]
fn hover_outside_any_symbol_is_none() {
    assert!(hover(SRC, "<t>", 99, 1).is_none());
}

#[test]
fn completion_lists_functions_and_structs() {
    let src = "module main\nstruct P {\n    x: i32\n}\nfn f(): i32 {\n    return 0\n}\n";
    let names = completion_names(src, "<t>");
    assert!(names.contains(&"f".to_string()));
    assert!(names.contains(&"P".to_string()));
}

#[test]
fn diagnostics_catch_a_type_error() {
    let src = "module main\nfn main(): i32 {\n    let x: i32 = true\n    return x\n}\n";
    let ds = diagnostics(src, "<t>");
    assert!(!ds.is_empty(), "expected a type-mismatch diagnostic");
}


#[test]
fn hover_includes_doc_comment() {
    let src = "module main\n/// Doubles x.\n/// Second line.\nfn double(x: i32): i32 {\n    return x * 2\n}\n";
    let h = hover(src, "<t>", 4, 5).expect("hover present");
    assert!(
        h.contains("fn double(x: i32) -> i32"),
        "hover should include signature: {h}"
    );
    assert!(h.contains("Doubles x."), "hover should include doc: {h}");
    assert!(
        h.contains("Second line."),
        "hover should include multi-line doc: {h}"
    );
}

#[test]
fn completion_skips_type_aliases_and_repeats() {
    let src = "module main\ntype Id = i32\nstruct B {\n    x: i32\n}\nfn a(): i32 {\n    return 0\n}\nfn a(): i32 {\n    return 1\n}\n";
    assert_eq!(completion_names(src, "<t>"), vec!["B".to_string(), "a".to_string()]);
}
