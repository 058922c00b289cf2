use xlang::lexer::Lexer;
use xlang::parser::Parser;
use xlang::symbols::{build_index, SymbolIndex};

fn index_of(src: &str) -> SymbolIndex {
    let (tokens, _) = Lexer::new(src).tokenize();
    let program = Parser::new(tokens, "<t>").parse().expect("parse");
    build_index(&program.items, src)
}

#[test]
fn extracts_function_with_params_and_range() {
    let src = "module main\nfn add(a: i32, b: i32): i32 {\n    return a + b\n}\n";
    let idx = index_of(src);
    assert_eq!(idx.functions.len(), 1);
    let f = &idx.functions[0];
    assert_eq!(f.name, "add");
    assert_eq!(f.params, vec!["a: i32".to_string(), "b: i32".to_string()]);
    assert_eq!(f.return_type, "i32");
    assert_eq!(f.range.line, 2);
    assert_eq!(f.range.col, 1);
}

#[test]
fn extracts_struct_with_fields() {
    let src = "module main\nstruct Point {\n    x: i32\n    y: i32\n}\n";
    let idx = index_of(src);
    assert_eq!(idx.structs.len(), 1);
    let s = &idx.structs[0];
    assert_eq!(s.name, "Point");
    assert_eq!(s.fields, vec!["x: i32".to_string(), "y: i32".to_string()]);
    assert_eq!(s.range.line, 2);
}

#[test]
fn renders_generic_types() {
    let src = "module main\nfn f(xs: Vec<i32>): Vec<String> {\n    return xs\n}\n";
    let idx = index_of(src);
    assert_eq!(idx.functions[0].params, vec!["xs: Vec<i32>".to_string()]);
    assert_eq!(idx.functions[0].return_type, "Vec<String>");
}
