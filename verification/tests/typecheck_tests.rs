use xlang::error::{Diagnostics, ErrorCode};
use xlang::lexer::Lexer;
use xlang::parser::Parser;
use xlang::typecheck::check_program;

fn check_source(source: &str) -> Diagnostics {
    let (tokens, _lex_diags) = Lexer::new(source).tokenize();
    let program = Parser::new(tokens, "<test>").parse().expect("parse source");
    check_program(&program)
}

fn first_message(diags: &Diagnostics) -> &str {
    diags
        .items
        .first()
        .map(|d| d.message.as_str())
        .unwrap_or("")
}

#[test]
fn rejects_assignment_to_immutable_local() {
    let diags = check_source(
        r#"
module main

fn main(): i32 {
let x: i32 = 1
x = 2
return x
}
"#,
    );
    assert!(first_message(&diags).contains("cannot assign to immutable variable \"x\""));
}

#[test]
fn immutable_assign_carries_let_mut_autofix() {
    let diags = check_source(
        r#"
module main

fn main(): i32 {
let x: i32 = 1
x = 2
return x
}
"#,
    );
    let d = diags
        .items
        .iter()
        .find(|d| d.code == ErrorCode::TypeImmutableAssign)
        .expect("immutable-assign diagnostic");
    assert_eq!(
        d.suggestions.len(),
        1,
        "should carry one autofix suggestion"
    );
    assert_eq!(d.suggestions[0].new_text, "mut ");
    // The insert point is a zero-width range right after `let `.
    assert_eq!(d.suggestions[0].range.start, d.suggestions[0].range.end);
}

#[test]
fn allows_assignment_to_mutable_local() {
    let diags = check_source(
        r#"
module main

fn main(): i32 {
let mut x: i32 = 1
x = 2
return x
}
"#,
    );
    assert!(
        diags.is_empty(),
        "expected no diagnostics, got: {:?}",
        diags.items
    );
}

#[test]
fn rejects_assignment_to_function_param() {
    let diags = check_source(
        r#"
module main

fn bump(x: i32): i32 {
x = x + 1
return x
}
"#,
    );
    assert!(first_message(&diags).contains("cannot assign to immutable variable \"x\""));
}

#[test]
fn rejects_let_initializer_type_mismatch() {
    let diags = check_source(
        r#"
module main

fn main(): i32 {
let x: i32 = true
return x
}
"#,
    );
    assert!(
        first_message(&diags).contains("initializer for variable \"x\" expects i32, got bool")
    );
}

#[test]
fn rejects_if_condition_that_is_not_bool() {
    let diags = check_source(
        r#"
module main

fn main(): i32 {
let x: i32 = 1
if x {
    return 1
}
return 0
}
"#,
    );
    assert!(first_message(&diags).contains("if condition must be bool, got i32"));
}

#[test]
fn rejects_return_type_mismatch() {
    let diags = check_source(
        r#"
module main

fn main(): i32 {
return true
}
"#,
    );
    assert!(first_message(&diags).contains("return value expects i32, got bool"));
}

#[test]
fn rejects_unknown_variable_use() {
    let diags = check_source(
        r#"
module main

fn main(): i32 {
return missing
}
"#,
    );
    assert!(first_message(&diags).contains("unknown variable \"missing\""));
}

#[test]
fn allows_builtin_option_none_variant_for_now() {
    let diags = check_source(
        r#"
module main

fn main(): i32 {
let missing: Option<i32> = None
return 0
}
"#,
    );
    assert!(
        diags.is_empty(),
        "expected no diagnostics, got: {:?}",
        diags.items
    );
}

#[test]
fn rejects_assignment_value_type_mismatch() {
    let diags = check_source(
        r#"
module main

fn main(): i32 {
let mut x: i32 = 1
x = true
return x
}
"#,
    );
    assert!(first_message(&diags).contains("assignment value expects i32, got bool"));
}

#[test]
fn rejects_array_literal_length_mismatch() {
    let diags = check_source(
        r#"
module main

fn main(): i32 {
let values: Array<i32, 2> = [1, 2, 3]
return 0
}
"#,
    );
    assert!(first_message(&diags).contains(
        "initializer for variable \"values\" expects Array<i32, 2>, got array literal with 3 elements"
    ));
}

#[test]
fn allows_function_call_with_checked_argument_and_return_types() {
    let diags = check_source(
        r#"
module main

fn id(x: i32): i32 {
return x
}

fn main(): i32 {
let y: i32 = id(1)
return y
}
"#,
    );
    assert!(
        diags.is_empty(),
        "expected no diagnostics, got: {:?}",
        diags.items
    );
}

#[test]
fn rejects_function_call_argument_type_mismatch() {
    let diags = check_source(
        r#"
module main

fn id(x: i32): i32 {
return x
}

fn main(): i32 {
return id(true)
}
"#,
    );
    assert!(
        first_message(&diags).contains("argument 1 for function \"id\" expects i32, got bool")
    );
}

#[test]
fn surfaces_multiple_errors_in_one_pass() {
    // Two independent type errors; multi-error recovery should report both
    // rather than bailing at the first.
    let diags = check_source(
        r#"
module main

fn main(): i32 {
let a: i32 = true
let b: i32 = "hello"
return 0
}
"#,
    );
    assert_eq!(
        diags.items.len(),
        2,
        "expected 2 diagnostics, got {}: {:?}",
        diags.items.len(),
        diags.items
    );
}

// ---- Phase 2/3 feature coverage ----

fn assert_clean(diags: &Diagnostics) {
    assert!(
        diags.is_empty(),
        "expected no diagnostics, got: {:?}",
        diags.items
    );
}

#[test]
fn struct_literal_and_field_access_typecheck() {
    let diags = check_source(
        r#"
module main

struct Point { x: i32 y: i32 }

fn main(): i32 {
let p: Point = Point { x: 1, y: 2 }
let sum: i32 = p.x + p.y
return sum
}
"#,
    );
    assert_clean(&diags);
}

#[test]
fn rejects_struct_literal_wrong_field_type() {
    let diags = check_source(
        r#"
module main

struct Point { x: i32 y: i32 }

fn main(): i32 {
let p: Point = Point { x: true, y: 2 }
return 0
}
"#,
    );
    assert!(first_message(&diags).contains("struct field \"x\" expects i32, got bool"));
}

#[test]
fn rejects_struct_literal_unknown_field() {
    let diags = check_source(
        r#"
module main

struct Point { x: i32 y: i32 }

fn main(): i32 {
let p: Point = Point { x: 1, y: 2, z: 3 }
return 0
}
"#,
    );
    assert!(first_message(&diags).contains("struct \"Point\" has no field \"z\""));
}

#[test]
fn rejects_assignment_to_immutable_struct_field() {
    let diags = check_source(
        r#"
module main

struct Point { x: i32 }

fn main(): i32 {
let p: Point = Point { x: 1 }
p.x = 5
return 0
}
"#,
    );
    assert!(first_message(&diags).contains("cannot assign to immutable variable \"p\""));
}

#[test]
fn for_in_over_array_typechecks() {
    let diags = check_source(
        r#"
module main

fn main(): i32 {
let nums: Array<i32, 3> = [1, 2, 3]
let mut sum: i32 = 0
for n in nums {
    sum += n
}
return sum
}
"#,
    );
    assert_clean(&diags);
}

#[test]
fn for_in_over_vec_typechecks() {
    let diags = check_source(
        r#"
module main

fn main(): i32 {
let v: Vec<i32> = vec_new()
let mut sum: i32 = 0
for n in v {
    sum += n
}
return sum
}
"#,
    );
    assert_clean(&diags);
}

#[test]
fn rejects_for_in_over_non_collection() {
    let diags = check_source(
        r#"
module main

fn main(): i32 {
let x: i32 = 5
for n in x {
    return n
}
return 0
}
"#,
    );
    assert!(first_message(&diags).contains("or a..b range, got i32"));
}

#[test]
fn accepts_numeric_range_for_loop() {
    // `for i in 0..n` typechecks cleanly and the iterator is usable as an i32
    // (here: as an array index and in arithmetic).
    let diags = check_source(
        r#"
module main

fn main(): i32 {
let n: i32 = 3
let mut s: i32 = 0
for i in 0..n {
    s = s + i
}
return s
}
"#,
    );
    assert!(
        diags.items.is_empty(),
        "range for-loop should typecheck: {diags:?}"
    );
}

#[test]
fn rejects_non_numeric_range_bound() {
    let diags = check_source(
        r#"
module main

fn main(): i32 {
for i in 0.."oops" {
    return i
}
return 0
}
"#,
    );
    assert!(
        first_message(&diags).contains("range end"),
        "should flag non-numeric range end: {diags:?}"
    );
}

#[test]
fn accepts_string_concatenation() {
    // `a + b`, `"x" + a`, and chained `a + b + c` all typecheck as String.
    let diags = check_source(
        r#"
module main

fn cat(a: String, b: String): String {
return a + b + "!"
}

fn main(): i32 { return 0 }
"#,
    );
    assert!(
        diags.items.is_empty(),
        "string + should typecheck: {diags:?}"
    );
}

#[test]
fn rejects_string_plus_integer() {
    let diags = check_source(
        r#"
module main
fn main(): i32 {
let s: String = "x"
let r: String = s + 5
print_str(r)
return 0
}
"#,
    );
    assert!(
        first_message(&diags).contains("cannot concatenate String"),
        "should reject String + int: {diags:?}"
    );
}

#[test]
fn rejects_string_plus_numeric_builtin() {
    // str_len is a known i32 builtin, so this is String + i32 → rejected.
    let diags = check_source(
        r#"
module main
fn main(): i32 {
let s: String = "hello"
let r: String = s + str_len(s)
print_str(r)
return 0
}
"#,
    );
    assert!(
        first_message(&diags).contains("cannot concatenate String with i32"),
        "should reject String + str_len (i32 builtin): {diags:?}"
    );
}

#[test]
fn accepts_string_ordering_and_equality() {
    // `<`, `<=`, `>`, `>=`, `==`, `!=` on strings all typecheck as bool.
    let diags = check_source(
        r#"
module main
fn cmp(a: String, b: String): bool {
return a < b && a <= b && a > b && a >= b && a == b && a != b
}
fn main(): i32 { return 0 }
"#,
    );
    assert!(
        diags.items.is_empty(),
        "string comparisons should typecheck: {diags:?}"
    );
}

#[test]
fn rejects_string_ordering_with_integer() {
    let diags = check_source(
        r#"
module main
fn main(): i32 {
let s: String = "x"
if s < 5 { return 1 }
return 0
}
"#,
    );
    assert!(
        first_message(&diags).contains("cannot compare String with integer literal using <"),
        "should reject String < int: {diags:?}"
    );
}

#[test]
fn accepts_and_rejects_method_calls() {
    // Method call with correct arity typechecks; wrong arity is rejected.
    let ok = check_source(
        r#"
module main
struct Box { v: i32 }
impl Box { fn add(self: Box, n: i32): i32 { return self.v + n } }
fn main(): i32 {
let b: Box = Box { v: 5 }
return b.add(3)
}
"#,
    );
    assert!(ok.items.is_empty(), "method call should typecheck: {ok:?}");

    let bad = check_source(
        r#"
module main
struct Box { v: i32 }
impl Box { fn add(self: Box, n: i32): i32 { return self.v + n } }
fn main(): i32 {
let b: Box = Box { v: 5 }
return b.add(1, 2)
}
"#,
    );
    assert!(
        first_message(&bad).contains("expects 1 arguments, got 2"),
        "wrong method arity should be rejected: {bad:?}"
    );
}

#[test]
fn rejects_indexing_a_non_array() {
    let diags = check_source(
        r#"
module main

fn main(): i32 {
let x: i32 = 5
let y: i32 = x[0]
return y
}
"#,
    );
    assert!(first_message(&diags).contains("cannot index into i32"));
}

#[test]
fn rejects_non_integer_array_index() {
    let diags = check_source(
        r#"
module main

fn main(): i32 {
let nums: Array<i32, 3> = [1, 2, 3]
let y: i32 = nums[true]
return y
}
"#,
    );
    assert!(first_message(&diags).contains("array index must be an integer, got bool"));
}

#[test]
fn rejects_compound_assignment_with_wrong_type() {
    // `sum += true` desugars to `sum = sum + true`; the + on a bool errors.
    let diags = check_source(
        r#"
module main

fn main(): i32 {
let mut sum: i32 = 0
sum += true
return sum
}
"#,
    );
    assert!(first_message(&diags).contains("right operand of + must be numeric, got bool"));
}

#[test]
fn match_on_option_typechecks() {
    let diags = check_source(
        r#"
module main

fn f(o: Option<i32>): i32 {
match o {
    Some(v) => { return v }
    None => { return 0 }
}
}

fn main(): i32 {
return 0
}
"#,
    );
    assert_clean(&diags);
}
