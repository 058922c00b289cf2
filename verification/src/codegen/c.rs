//! The C back end: lowers a checked program to one C translation unit.
use vstd::prelude::*;
use crate::ast::{
    Block, ElseBranch, Expr, FieldDecl, Item, MatchArm, Param, Pattern, Program, Stmt,
    StructLiteralField, TypeNode, TypeView,
};
use crate::checked_type::join_text;
use crate::error::{XError, XResult};
use crate::lexer::text_eq;
use crate::source::Spanned;
use crate::codegen::preamble::{
    networking_preamble, runtime_preamble, strs, INCLUDES, NETWORKING_1, NETWORKING_10,
    NETWORKING_11, NETWORKING_12, NETWORKING_2, NETWORKING_3, NETWORKING_4, NETWORKING_5,
    NETWORKING_6, NETWORKING_7, NETWORKING_8, NETWORKING_9, RUNTIME_1, RUNTIME_10, RUNTIME_11,
    RUNTIME_12, RUNTIME_13, RUNTIME_14, RUNTIME_2, RUNTIME_3, RUNTIME_4, RUNTIME_5, RUNTIME_6,
    RUNTIME_7, RUNTIME_8, RUNTIME_9,
};
use crate::text::{decimal, lex_lt, text_of};

verus! {

// ---------------------------------------------------------------------------
// Results
// ---------------------------------------------------------------------------

/// The text of a generation result: the generated text, or the message of
/// a code generation error. Any other error has no such view.
pub open spec fn gen_view(r: XResult<String>) -> Option<Result<Seq<char>, Seq<char>>> {
    match r {
        Ok(s) => Some(Ok(s@)),
        Err(XError::Codegen(m)) => Some(Err(m@)),
        Err(_) => None,
    }
}

fn codegen_err(m: String) -> (r: XError)
    ensures
        r matches XError::Codegen(x) && x@ == m@,
{
    XError::Codegen(m)
}

// ---------------------------------------------------------------------------
// Types
// ---------------------------------------------------------------------------

/// The C type of a scalar xlang type.
pub open spec fn scalar_c_type(name: Seq<char>) -> Option<Seq<char>> {
    if name == "i32"@ {
        Some("int32_t"@)
    } else if name == "i64"@ {
        Some("int64_t"@)
    } else if name == "f32"@ {
        Some("float"@)
    } else if name == "f64"@ {
        Some("double"@)
    } else if name == "bool"@ {
        Some("bool"@)
    } else if name == "String"@ || name == "Str"@ {
        Some("const char *"@)
    } else {
        None
    }
}

/// The scalar types whose own name serves as a type suffix.
pub open spec fn is_scalar_name(name: Seq<char>) -> bool {
    scalar_c_type(name) is Some
}

/// A type argument that must be a constant (an array length).
pub open spec fn const_arg_spec(t: TypeView, label: Seq<char>) -> Result<Seq<char>, Seq<char>> {
    match t {
        TypeView::ConstTypeArg { value } => Ok(value),
        TypeView::TypeExpr { name, .. } => Err(
            label + " must be a constant integer, got type "@ + name,
        ),
    }
}

/// `prefix + a`, or the error of `a`.
pub open spec fn then_prefix(prefix: Seq<char>, a: Result<Seq<char>, Seq<char>>) -> Result<
    Seq<char>,
    Seq<char>,
> {
    match a {
        Ok(s) => Ok(prefix + s),
        Err(m) => Err(m),
    }
}

/// `prefix + a + "_" + b`, or the first error.
pub open spec fn then_pair(
    prefix: Seq<char>,
    a: Result<Seq<char>, Seq<char>>,
    b: Result<Seq<char>, Seq<char>>,
) -> Result<Seq<char>, Seq<char>> {
    match a {
        Err(m) => Err(m),
        Ok(x) => match b {
            Err(m) => Err(m),
            Ok(y) => Ok(prefix + x + "_"@ + y),
        },
    }
}

/// The generated wrapper name of a generic type, given how its arguments
/// are named: `Slice_T`, `Array_T_N`, `Option_T`, `Result_T_E`, `Vec_T`;
/// `None` for any other head or arity.
pub open spec fn wrapper_name(
    structs: Seq<Seq<char>>,
    name: Seq<char>,
    args: Seq<TypeView>,
) -> Option<Result<Seq<char>, Seq<char>>>
    decreases args, 0nat,
{
    if name == "Slice"@ && args.len() == 1 {
        Some(then_prefix("Slice_"@, c_type_suffix_spec(structs, args[0])))
    } else if name == "Array"@ && args.len() == 2 {
        Some(
            then_pair(
                "Array_"@,
                c_type_suffix_spec(structs, args[0]),
                const_arg_spec(args[1], "Array length"@),
            ),
        )
    } else if name == "Option"@ && args.len() == 1 {
        Some(then_prefix("Option_"@, c_type_suffix_spec(structs, args[0])))
    } else if name == "Result"@ && args.len() == 2 {
        Some(
            then_pair(
                "Result_"@,
                c_type_suffix_spec(structs, args[0]),
                c_type_suffix_spec(structs, args[1]),
            ),
        )
    } else if name == "Vec"@ && args.len() == 1 {
        Some(then_prefix("Vec_"@, c_type_suffix_spec(structs, args[0])))
    } else {
        None
    }
}

/// The name a type contributes to generated wrapper and helper names.
pub open spec fn c_type_suffix_spec(structs: Seq<Seq<char>>, t: TypeView) -> Result<
    Seq<char>,
    Seq<char>,
>
    decreases t, 1nat,
{
    match t {
        TypeView::TypeExpr { name, args } => {
            if args.len() == 0 {
                if is_scalar_name(name) || structs.contains(name) {
                    Ok(name)
                } else {
                    Err("C backend does not support "@ + name + " as a generated type suffix yet"@)
                }
            } else {
                match wrapper_name(structs, name, args) {
                    Some(r) => r,
                    None => Err(
                        "C backend does not support "@ + name
                            + "<...> as a generated type suffix yet"@,
                    ),
                }
            }
        },
        TypeView::ConstTypeArg { value } => Err(
            "unexpected const type argument in C type suffix: "@ + value,
        ),
    }
}

/// The C type of an xlang type.
pub open spec fn c_type_spec(structs: Seq<Seq<char>>, t: TypeView) -> Result<Seq<char>, Seq<char>> {
    match t {
        TypeView::TypeExpr { name, args } => {
            if args.len() == 0 {
                match scalar_c_type(name) {
                    Some(c) => Ok(c),
                    None => if structs.contains(name) {
                        Ok(name)
                    } else {
                        Err("C backend does not support type yet: "@ + name)
                    },
                }
            } else {
                match wrapper_name(structs, name, args) {
                    Some(r) => r,
                    None => Err("C backend does not support generic type yet: "@ + name + "<...>"@),
                }
            }
        },
        TypeView::ConstTypeArg { value } => Err(
            "unexpected const type argument in C type position: "@ + value,
        ),
    }
}

// ---------------------------------------------------------------------------
// String literals
// ---------------------------------------------------------------------------

pub open spec fn hex_digit(n: nat) -> char {
    if n < 10 {
        ((n + 48) as u8) as char
    } else {
        ((n + 87) as u8) as char
    }
}

/// How JSON writes one character inside a string: `"` and `\` and the
/// control characters are escaped (`\b \t \n \f \r`, others as `\u00XX`
/// in lowercase hex); every other character stands for itself.
pub open spec fn json_escape(c: char) -> Seq<char> {
    if c == '"' {
        seq!['\\', '"']
    } else if c == '\\' {
        seq!['\\', '\\']
    } else if c == '\x08' {
        seq!['\\', 'b']
    } else if c == '\t' {
        seq!['\\', 't']
    } else if c == '\n' {
        seq!['\\', 'n']
    } else if c == '\x0c' {
        seq!['\\', 'f']
    } else if c == '\r' {
        seq!['\\', 'r']
    } else if (c as u32) < 0x20 {
        seq!['\\', 'u', '0', '0', hex_digit((c as u32 / 16) as nat), hex_digit((c as u32 % 16) as nat)]
    } else {
        seq![c]
    }
}

pub open spec fn json_body(s: Seq<char>) -> Seq<char>
    decreases s.len(),
{
    if s.len() == 0 {
        Seq::empty()
    } else {
        json_body(s.drop_last()) + json_escape(s.last())
    }
}

/// The JSON string literal of `s`.
pub open spec fn json_quoted(s: Seq<char>) -> Seq<char> {
    seq!['"'] + json_body(s) + seq!['"']
}

/// Serializes a string with `serde_json::to_string`. The contract claims
/// that it succeeds and gives the JSON string literal of the text, escaped
/// as serde_json's `format_escaped_str` does (serializing a `str` into the
/// crate's `Vec` buffer has no failing step).
#[verifier::external_body]
fn json_string_literal(s: &String) -> (r: Result<String, serde_json::Error>)
    ensures
        r is Ok,
        r->Ok_0@ == json_quoted(s@),
{
    serde_json::to_string(s)
}

/// Replaces every occurrence of `pat` (non-empty), scanning left to right.
pub open spec fn replace_all(s: Seq<char>, pat: Seq<char>, rep: Seq<char>) -> Seq<char>
    decreases s.len(),
{
    if pat.len() == 0 || s.len() < pat.len() {
        s
    } else if s.take(pat.len() as int) == pat {
        rep + replace_all(s.skip(pat.len() as int), pat, rep)
    } else {
        seq![s[0]] + replace_all(s.drop_first(), pat, rep)
    }
}

/// A C string literal for `value`: its JSON form, with the JSON escape of
/// ESC (`\u001b`) written the C way (`\x1b`).
pub open spec fn c_string_literal(value: Seq<char>) -> Seq<char> {
    replace_all(json_quoted(value), "\\u001b"@, "\\x1b"@)
}

fn starts_at(s: &Vec<char>, i: usize, pat: &Vec<char>) -> (r: bool)
    requires
        i + pat.len() <= s.len(),
    ensures
        r == (s@.subrange(i as int, i + pat.len()) == pat@),
{
    let mut k: usize = 0;
    while k < pat.len()
        invariant
            k <= pat.len(),
            i + pat.len() <= s.len(),
            forall|j: int| 0 <= j < k ==> s@[i + j] == pat@[j],
        decreases pat.len() - k,
    {
        if s[i + k] != pat[k] {
            assert(s@.subrange(i as int, i + pat.len())[k as int] != pat@[k as int]);
            return false;
        }
        k = k + 1;
    }
    assert(s@.subrange(i as int, i + pat.len()) =~= pat@);
    true
}

proof fn lemma_replace_step(s: Seq<char>, i: int, pat: Seq<char>, rep: Seq<char>)
    requires
        0 <= i < s.len(),
        pat.len() > 0,
    ensures
        i + pat.len() <= s.len() && s.subrange(i, i + pat.len()) == pat ==> replace_all(
            s.skip(i),
            pat,
            rep,
        ) == rep + replace_all(s.skip(i + pat.len()), pat, rep),
        !(i + pat.len() <= s.len() && s.subrange(i, i + pat.len()) == pat) ==> replace_all(
            s.skip(i),
            pat,
            rep,
        ) == seq![s[i]] + replace_all(s.skip(i + 1), pat, rep),
{
    let t = s.skip(i);
    if t.len() >= pat.len() {
        assert(t.take(pat.len() as int) =~= s.subrange(i, i + pat.len()));
        assert(t.skip(pat.len() as int) =~= s.skip(i + pat.len()));
    } else {
        assert(!(i + pat.len() <= s.len()));
    }
    assert(t.drop_first() =~= s.skip(i + 1));
    if t.len() < pat.len() {
        // replace_all leaves a too-short tail alone; so does one step
        lemma_replace_short(t.drop_first(), pat, rep);
        assert(t =~= seq![s[i]] + t.drop_first());
    }
}

proof fn lemma_replace_short(s: Seq<char>, pat: Seq<char>, rep: Seq<char>)
    requires
        s.len() < pat.len(),
    ensures
        replace_all(s, pat, rep) == s,
{
}

/// `replace_all` of a text and a pattern, computed.
fn replace_text(s: &String, pat: &str, rep: &str) -> (r: String)
    requires
        pat@.len() > 0,
    ensures
        r@ == replace_all(s@, pat@, rep@),
{
    let cs = crate::text::str_chars(s.as_str());
    let ps = crate::text::str_chars(pat);
    let mut out = String::new();
    let mut i: usize = 0;
    let ghost whole = cs@;
    assert(whole.skip(0) =~= whole);
    while i < cs.len()
        invariant
            i <= cs.len(),
            whole == cs@,
            ps@ == pat@,
            pat@.len() > 0,
            out@ + replace_all(whole.skip(i as int), pat@, rep@) == replace_all(whole, pat@, rep@),
        decreases cs.len() - i,
    {
        proof {
            lemma_replace_step(whole, i as int, pat@, rep@);
        }
        if ps.len() <= cs.len() - i && starts_at(&cs, i, &ps) {
            let ghost before = out@;
            out.append(rep);
            assert(before + (rep@ + replace_all(whole.skip(i + ps.len()), pat@, rep@)) =~= out@
                + replace_all(whole.skip(i + ps.len()), pat@, rep@));
            i = i + ps.len();
        } else {
            let ghost before = out@;
            out.push(cs[i]);
            assert(before + (seq![whole[i as int]] + replace_all(whole.skip(i + 1), pat@, rep@))
                =~= out@ + replace_all(whole.skip(i + 1), pat@, rep@));
            i = i + 1;
        }
    }
    proof {
        assert(whole.skip(i as int) =~= Seq::<char>::empty());
        assert(out@ + Seq::<char>::empty() =~= out@);
    }
    out
}

// ---------------------------------------------------------------------------
// Builtin calls
// ---------------------------------------------------------------------------

/// A piece of a call template: literal text, or the rendering of the
/// argument at an index.
pub enum Piece {
    Text(Seq<char>),
    Hole(nat),
}

/// A template segment, as the generator holds it.
#[derive(Clone, Copy, Debug)]
pub enum Seg {
    Lit(&'static str),
    Arg(usize),
}

pub open spec fn seg_view(s: Seg) -> Piece {
    match s {
        Seg::Lit(t) => Piece::Text(t@),
        Seg::Arg(i) => Piece::Hole(i as nat),
    }
}

pub open spec fn segs_view(s: Seq<Seg>) -> Seq<Piece> {
    s.map_values(|x: Seg| seg_view(x))
}

/// The text of a template with the argument renderings `vals` filled in.
pub open spec fn render(ps: Seq<Piece>, vals: Seq<Seq<char>>) -> Seq<char>
    decreases ps.len(),
{
    if ps.len() == 0 {
        Seq::empty()
    } else {
        render(ps.drop_last(), vals) + match ps.last() {
            Piece::Text(t) => t,
            Piece::Hole(i) => vals[i as int],
        }
    }
}

/// Every hole of the template refers to one of the first `n` arguments.
pub open spec fn holes_below(ps: Seq<Piece>, n: nat) -> bool {
    forall|k: int| 0 <= k < ps.len() ==> (#[trigger] ps[k] matches Piece::Hole(i) ==> i < n)
}

/// `f(a)`, `f(a, b)`, ... for `n` arguments (1 to 4).
pub open spec fn call_pieces(f: Seq<char>, n: nat) -> Seq<Piece> {
    if n <= 1 {
        seq![Piece::Text(f), Piece::Text("("@), Piece::Hole(0), Piece::Text(")"@)]
    } else if n == 2 {
        seq![
            Piece::Text(f),
            Piece::Text("("@),
            Piece::Hole(0),
            Piece::Text(", "@),
            Piece::Hole(1),
            Piece::Text(")"@),
        ]
    } else if n == 3 {
        seq![
            Piece::Text(f),
            Piece::Text("("@),
            Piece::Hole(0),
            Piece::Text(", "@),
            Piece::Hole(1),
            Piece::Text(", "@),
            Piece::Hole(2),
            Piece::Text(")"@),
        ]
    } else {
        seq![
            Piece::Text(f),
            Piece::Text("("@),
            Piece::Hole(0),
            Piece::Text(", "@),
            Piece::Hole(1),
            Piece::Text(", "@),
            Piece::Hole(2),
            Piece::Text(", "@),
            Piece::Hole(3),
            Piece::Text(")"@),
        ]
    }
}

fn call_segs(f: &'static str, n: usize) -> (r: Vec<Seg>)
    ensures
        segs_view(r@) == call_pieces(f@, n as nat),
{
    let r = if n <= 1 {
        vec![Seg::Lit(f), Seg::Lit("("), Seg::Arg(0), Seg::Lit(")")]
    } else if n == 2 {
        vec![Seg::Lit(f), Seg::Lit("("), Seg::Arg(0), Seg::Lit(", "), Seg::Arg(1), Seg::Lit(")")]
    } else if n == 3 {
        vec![
            Seg::Lit(f),
            Seg::Lit("("),
            Seg::Arg(0),
            Seg::Lit(", "),
            Seg::Arg(1),
            Seg::Lit(", "),
            Seg::Arg(2),
            Seg::Lit(")"),
        ]
    } else {
        vec![
            Seg::Lit(f),
            Seg::Lit("("),
            Seg::Arg(0),
            Seg::Lit(", "),
            Seg::Arg(1),
            Seg::Lit(", "),
            Seg::Arg(2),
            Seg::Lit(", "),
            Seg::Arg(3),
            Seg::Lit(")"),
        ]
    };
    assert(segs_view(r@) =~= call_pieces(f@, n as nat));
    r
}

/// Builtins that take no argument, and the C they lower to.
pub open spec fn zero_arg_builtin(name: Seq<char>) -> Option<Seq<char>> {
    if name == "fork"@ {
        Some("fork()"@)
    } else if name == "getpid"@ {
        Some("getpid()"@)
    } else if name == "make_pipe"@ {
        Some("__xlang_make_pipe()"@)
    } else if name == "pipe_read_end"@ {
        Some("__xlang_pipe_read_end()"@)
    } else if name == "pipe_write_end"@ {
        Some("__xlang_pipe_write_end()"@)
    } else if name == "wait_child"@ {
        Some("__xlang_wait_child()"@)
    } else if name == "wait_status"@ {
        Some("__xlang_wait_status()"@)
    } else if name == "epoll_create"@ {
        Some("__xlang_epoll_create()"@)
    } else if name == "argc"@ {
        Some("(__xlang_argc_g)"@)
    } else if name == "read_stdin"@ {
        Some("__xlang_read_stdin()"@)
    } else if name == "read_line"@ {
        Some("__xlang_read_line()"@)
    } else if name == "sb_new"@ {
        Some("__xlang_sb_new()"@)
    } else if name == "sb_str"@ {
        Some("__xlang_sb_str()"@)
    } else if name == "time_str"@ {
        Some("__xlang_time_str()"@)
    } else if name == "random_seed"@ {
        Some("srand((unsigned)time(NULL))"@)
    } else if name == "getcwd"@ {
        Some("__xlang_getcwd()"@)
    } else if name == "env_count"@ {
        Some("__xlang_env_count()"@)
    } else if name == "tty"@ {
        Some("__xlang_tty()"@)
    } else if name == "uname_machine"@ {
        Some("__xlang_uname_machine()"@)
    } else {
        None
    }
}

fn zero_arg_text(name: &String) -> (r: Option<&'static str>)
    ensures
        match r {
            Some(t) => zero_arg_builtin(name@) == Some(t@),
            None => zero_arg_builtin(name@) is None,
        },
{
    if text_eq(name, "fork") {
        Some("fork()")
    } else if text_eq(name, "getpid") {
        Some("getpid()")
    } else if text_eq(name, "make_pipe") {
        Some("__xlang_make_pipe()")
    } else if text_eq(name, "pipe_read_end") {
        Some("__xlang_pipe_read_end()")
    } else if text_eq(name, "pipe_write_end") {
        Some("__xlang_pipe_write_end()")
    } else if text_eq(name, "wait_child") {
        Some("__xlang_wait_child()")
    } else if text_eq(name, "wait_status") {
        Some("__xlang_wait_status()")
    } else if text_eq(name, "epoll_create") {
        Some("__xlang_epoll_create()")
    } else if text_eq(name, "argc") {
        Some("(__xlang_argc_g)")
    } else if text_eq(name, "read_stdin") {
        Some("__xlang_read_stdin()")
    } else if text_eq(name, "read_line") {
        Some("__xlang_read_line()")
    } else if text_eq(name, "sb_new") {
        Some("__xlang_sb_new()")
    } else if text_eq(name, "sb_str") {
        Some("__xlang_sb_str()")
    } else if text_eq(name, "time_str") {
        Some("__xlang_time_str()")
    } else if text_eq(name, "random_seed") {
        Some("srand((unsigned)time(NULL))")
    } else if text_eq(name, "getcwd") {
        Some("__xlang_getcwd()")
    } else if text_eq(name, "env_count") {
        Some("__xlang_env_count()")
    } else if text_eq(name, "tty") {
        Some("__xlang_tty()")
    } else if text_eq(name, "uname_machine") {
        Some("__xlang_uname_machine()")
    } else {
        None
    }
}

/// The print builtins, lowered to `printf` with a trailing newline.
pub open spec fn print_builtin(name: Seq<char>, a: Seq<char>) -> Option<Seq<char>> {
    if name == "print_i32"@ {
        Some("printf(\"%d\\n\", "@ + a + ")"@)
    } else if name == "print_f64"@ {
        Some("printf(\"%f\\n\", "@ + a + ")"@)
    } else if name == "print_str"@ {
        Some("printf(\"%s\\n\", "@ + a + ")"@)
    } else if name == "print_bool"@ {
        Some("printf(\"%s\\n\", ("@ + a + ") ? \"true\" : \"false\")"@)
    } else {
        None
    }
}

fn print_text(name: &String, a: &String) -> (r: Option<String>)
    ensures
        match r {
            Some(t) => print_builtin(name@, a@) == Some(t@),
            None => print_builtin(name@, a@) is None,
        },
{
    let (pre, post) = if text_eq(name, "print_i32") {
        ("printf(\"%d\\n\", ", ")")
    } else if text_eq(name, "print_f64") {
        ("printf(\"%f\\n\", ", ")")
    } else if text_eq(name, "print_str") {
        ("printf(\"%s\\n\", ", ")")
    } else if text_eq(name, "print_bool") {
        ("printf(\"%s\\n\", (", ") ? \"true\" : \"false\")")
    } else {
        return None;
    };
    let mut out = text_of(pre);
    out.append(a.as_str());
    out.append(post);
    Some(out)
}

/// Builtins with one string or integer argument.
pub open spec fn unary_builtin(name: Seq<char>) -> Option<Seq<Piece>> {
    if name == "str_len"@ {
        Some(seq![Piece::Text("(int32_t)strlen("@), Piece::Hole(0), Piece::Text(")"@)])
    } else if name == "argv"@ {
        Some(seq![Piece::Text("__xlang_argv_g["@), Piece::Hole(0), Piece::Text("]"@)])
    } else if name == "print_raw"@ {
        Some(seq![Piece::Text("printf(\"%s\", "@), Piece::Hole(0), Piece::Text(")"@)])
    } else if name == "int_to_str"@ {
        Some(call_pieces("__xlang_int_to_str"@, 1))
    } else if name == "sha256_hex"@ {
        Some(call_pieces("__xlang_sha256_hex"@, 1))
    } else if name == "md5_hex"@ {
        Some(call_pieces("__xlang_md5_hex"@, 1))
    } else if name == "sha1_hex"@ {
        Some(call_pieces("__xlang_sha1_hex"@, 1))
    } else if name == "sha512_hex"@ {
        Some(call_pieces("__xlang_sha512_hex"@, 1))
    } else if name == "sha224_hex"@ {
        Some(call_pieces("__xlang_sha224_hex"@, 1))
    } else if name == "sha384_hex"@ {
        Some(call_pieces("__xlang_sha384_hex"@, 1))
    } else if name == "str_reverse"@ {
        Some(call_pieces("__xlang_str_reverse"@, 1))
    } else if name == "str_trim"@ {
        Some(call_pieces("__xlang_str_trim"@, 1))
    } else if name == "dir_count"@ {
        Some(call_pieces("__xlang_dir_count"@, 1))
    } else if name == "is_dir"@ {
        Some(call_pieces("__xlang_is_dir"@, 1))
    } else if name == "file_size"@ {
        Some(call_pieces("__xlang_file_size"@, 1))
    } else if name == "file_exists"@ {
        Some(call_pieces("__xlang_file_exists"@, 1))
    } else if name == "chdir"@ {
        Some(seq![Piece::Text("chdir(("@), Piece::Hole(0), Piece::Text("))"@)])
    } else if name == "make_dir"@ {
        Some(seq![Piece::Text("mkdir("@), Piece::Hole(0), Piece::Text(", 0755)"@)])
    } else if name == "random_int"@ {
        Some(seq![Piece::Text("(int32_t)(rand() % ("@), Piece::Hole(0), Piece::Text("))"@)])
    } else if name == "sb_push"@ {
        Some(call_pieces("__xlang_sb_push"@, 1))
    } else if name == "sb_push_char"@ {
        Some(call_pieces("__xlang_sb_push_char"@, 1))
    } else if name == "getenv"@ {
        Some(
            seq![
                Piece::Text("(getenv("@),
                Piece::Hole(0),
                Piece::Text(") ? getenv("@),
                Piece::Hole(0),
                Piece::Text(") : \"\")"@),
            ],
        )
    } else {
        unary_builtin_more(name)
    }
}

pub open spec fn unary_builtin_more(name: Seq<char>) -> Option<Seq<Piece>> {
    if name == "readlink"@ {
        Some(call_pieces("__xlang_readlink"@, 1))
    } else if name == "realpath"@ {
        Some(call_pieces("__xlang_realpath"@, 1))
    } else if name == "env_entry"@ {
        Some(call_pieces("__xlang_env_entry"@, 1))
    } else if name == "mkfifo"@ {
        Some(seq![Piece::Text("mkfifo(("@), Piece::Hole(0), Piece::Text("), 0644)"@)])
    } else if name == "rmdir"@ {
        Some(seq![Piece::Text("rmdir(("@), Piece::Hole(0), Piece::Text("))"@)])
    } else if name == "str_to_int_oct"@ {
        Some(seq![Piece::Text("(int32_t)strtol("@), Piece::Hole(0), Piece::Text(", 0, 8)"@)])
    } else if name == "vec_len"@ {
        Some(seq![Piece::Text("((int32_t)("@), Piece::Hole(0), Piece::Text(").len)"@)])
    } else if name == "str_to_int"@ {
        Some(seq![Piece::Text("(int32_t)strtol("@), Piece::Hole(0), Piece::Text(", 0, 10)"@)])
    } else if name == "remove_file"@ {
        Some(call_pieces("remove"@, 1))
    } else if name == "system"@ {
        Some(call_pieces("system"@, 1))
    } else if name == "sleep_sec"@ {
        Some(seq![Piece::Text("(unsigned)sleep(("@), Piece::Hole(0), Piece::Text("))"@)])
    } else if name == "read_file"@ {
        Some(call_pieces("__xlang_read_file"@, 1))
    } else if name == "tcp_listen"@ {
        Some(call_pieces("__xlang_tcp_listen"@, 1))
    } else if name == "accept"@ {
        Some(seq![Piece::Text("accept("@), Piece::Hole(0), Piece::Text(", 0, 0)"@)])
    } else if name == "recv_str"@ {
        Some(call_pieces("__xlang_recv_str"@, 1))
    } else if name == "close_fd"@ {
        Some(call_pieces("close"@, 1))
    } else if name == "epoll_add"@ {
        Some(call_pieces("__xlang_epoll_add"@, 1))
    } else if name == "epoll_del"@ {
        Some(call_pieces("__xlang_epoll_del"@, 1))
    } else if name == "epoll_wait"@ {
        Some(call_pieces("__xlang_epoll_wait"@, 1))
    } else if name == "set_nonblock"@ {
        Some(call_pieces("__xlang_set_nonblock"@, 1))
    } else if name == "set_nodelay"@ {
        Some(call_pieces("__xlang_set_nodelay"@, 1))
    } else if name == "open_read"@ {
        Some(call_pieces("__xlang_open_read"@, 1))
    } else if name == "read_fd"@ {
        Some(call_pieces("__xlang_read_fd"@, 1))
    } else if name == "open_write"@ {
        Some(call_pieces("__xlang_open_write"@, 1))
    } else if name == "open_append"@ {
        Some(call_pieces("__xlang_open_append"@, 1))
    } else if name == "make_pipe_at"@ {
        Some(call_pieces("__xlang_make_pipe_at"@, 1))
    } else if name == "pipe_r_at"@ {
        Some(call_pieces("__xlang_pipe_r_at"@, 1))
    } else if name == "pipe_w_at"@ {
        Some(call_pieces("__xlang_pipe_w_at"@, 1))
    } else if name == "exec_sh"@ {
        Some(call_pieces("__xlang_exec_sh"@, 1))
    } else if name == "exec_split"@ {
        Some(call_pieces("__xlang_exec_split"@, 1))
    } else if name == "cache_open"@ {
        Some(call_pieces("__xlang_cache_open"@, 1))
    } else if name == "cache_size"@ {
        Some(call_pieces("__xlang_cache_size"@, 1))
    } else {
        None
    }
}

/// Builtins with two arguments.
pub open spec fn binary_builtin(name: Seq<char>) -> Option<Seq<Piece>> {
    if name == "pad_int"@ {
        Some(call_pieces("__xlang_pad_int"@, 2))
    } else if name == "str_concat"@ {
        Some(call_pieces("__xlang_str_concat"@, 2))
    } else if name == "str_eq"@ {
        Some(
            seq![
                Piece::Text("(strcmp("@),
                Piece::Hole(0),
                Piece::Text(", "@),
                Piece::Hole(1),
                Piece::Text(") == 0)"@),
            ],
        )
    } else if name == "str_find"@ {
        Some(call_pieces("__xlang_str_find"@, 2))
    } else if name == "str_contains"@ {
        Some(call_pieces("__xlang_str_contains"@, 2))
    } else if name == "str_starts_with"@ {
        Some(call_pieces("__xlang_str_starts_with"@, 2))
    } else if name == "str_ends_with"@ {
        Some(call_pieces("__xlang_str_ends_with"@, 2))
    } else if name == "str_char_at"@ {
        Some(
            seq![
                Piece::Text("(int32_t)(unsigned char)("@),
                Piece::Hole(0),
                Piece::Text("["@),
                Piece::Hole(1),
                Piece::Text("])"@),
            ],
        )
    } else if name == "kill"@ {
        Some(paren_call_pieces("kill"@))
    } else if name == "setenv"@ {
        Some(call_pieces("__xlang_setenv"@, 2))
    } else if name == "link_file"@ {
        Some(paren_call_pieces("link"@))
    } else if name == "truncate_file"@ {
        Some(paren_call_pieces("truncate"@))
    } else if name == "chmod"@ {
        Some(paren_call_pieces("chmod"@))
    } else if name == "symlink"@ {
        Some(paren_call_pieces("symlink"@))
    } else if name == "dir_entry"@ {
        Some(call_pieces("__xlang_dir_entry"@, 2))
    } else if name == "str_cmp"@ {
        Some(
            seq![
                Piece::Text("(int32_t)strcmp("@),
                Piece::Hole(0),
                Piece::Text(", "@),
                Piece::Hole(1),
                Piece::Text(")"@),
            ],
        )
    } else if name == "rename_file"@ {
        Some(call_pieces("rename"@, 2))
    } else if name == "write_file"@ {
        Some(call_pieces("__xlang_write_file"@, 2))
    } else if name == "tcp_connect"@ {
        Some(call_pieces("__xlang_tcp_connect"@, 2))
    } else if name == "dup2"@ {
        Some(call_pieces("__xlang_dup2"@, 2))
    } else if name == "send_str"@ {
        Some(
            seq![
                Piece::Text("send("@),
                Piece::Hole(0),
                Piece::Text(", "@),
                Piece::Hole(1),
                Piece::Text(", strlen("@),
                Piece::Hole(1),
                Piece::Text("), 0)"@),
            ],
        )
    } else {
        None
    }
}

/// `f((a), (b))`.
pub open spec fn paren_call_pieces(f: Seq<char>) -> Seq<Piece> {
    seq![
        Piece::Text(f),
        Piece::Text("(("@),
        Piece::Hole(0),
        Piece::Text("), ("@),
        Piece::Hole(1),
        Piece::Text("))"@),
    ]
}

/// Builtins with three or four arguments.
pub open spec fn nary_builtin(name: Seq<char>) -> Option<(nat, Seq<Piece>)> {
    if name == "str_slice"@ {
        Some((3, call_pieces("__xlang_str_slice"@, 3)))
    } else if name == "str_replace"@ {
        Some((3, call_pieces("__xlang_str_replace"@, 3)))
    } else if name == "str_translate"@ {
        Some((3, call_pieces("__xlang_str_translate"@, 3)))
    } else if name == "sendfile_fd"@ {
        Some((3, call_pieces("__xlang_sendfile_fd"@, 3)))
    } else if name == "sendfile_range"@ {
        Some((4, call_pieces("__xlang_sendfile_range"@, 4)))
    } else if name == "send_bytes"@ {
        Some(
            (
                3,
                seq![
                    Piece::Text("send("@),
                    Piece::Hole(0),
                    Piece::Text(", "@),
                    Piece::Hole(1),
                    Piece::Text(", (size_t)("@),
                    Piece::Hole(2),
                    Piece::Text("), 0)"@),
                ],
            ),
        )
    } else {
        None
    }
}

/// The string, file, process and network builtins: how many arguments each
/// needs, and its C template.
pub open spec fn string_builtin(name: Seq<char>) -> Option<(nat, Seq<Piece>)> {
    match unary_builtin(name) {
        Some(p) => Some((1, p)),
        None => match binary_builtin(name) {
            Some(p) => Some((2, p)),
            None => nary_builtin(name),
        },
    }
}

pub open spec fn builtin_view(r: Option<(usize, Vec<Seg>)>) -> Option<(nat, Seq<Piece>)> {
    match r {
        Some((n, v)) => Some((n as nat, segs_view(v@))),
        None => None,
    }
}

fn paren_call_segs(f: &'static str) -> (r: Vec<Seg>)
    ensures
        segs_view(r@) == paren_call_pieces(f@),
{
    let r = vec![Seg::Lit(f), Seg::Lit("(("), Seg::Arg(0), Seg::Lit("), ("), Seg::Arg(1), Seg::Lit("))")];
    assert(segs_view(r@) =~= paren_call_pieces(f@));
    r
}

#[verifier::rlimit(50)]
fn unary_segs(name: &String) -> (r: Option<Vec<Seg>>)
    ensures
        match r {
            Some(v) => unary_builtin(name@) == Some(segs_view(v@)),
            None => unary_builtin(name@) is None,
        },
{
    let r = {
    if text_eq(name, "str_len") {
        Some(vec![Seg::Lit("(int32_t)strlen("), Seg::Arg(0), Seg::Lit(")")])
    } else if text_eq(name, "argv") {
        Some(vec![Seg::Lit("__xlang_argv_g["), Seg::Arg(0), Seg::Lit("]")])
    } else if text_eq(name, "print_raw") {
        Some(vec![Seg::Lit("printf(\"%s\", "), Seg::Arg(0), Seg::Lit(")")])
    } else if text_eq(name, "int_to_str") {
        Some(call_segs("__xlang_int_to_str", 1))
    } else if text_eq(name, "sha256_hex") {
        Some(call_segs("__xlang_sha256_hex", 1))
    } else if text_eq(name, "md5_hex") {
        Some(call_segs("__xlang_md5_hex", 1))
    } else if text_eq(name, "sha1_hex") {
        Some(call_segs("__xlang_sha1_hex", 1))
    } else if text_eq(name, "sha512_hex") {
        Some(call_segs("__xlang_sha512_hex", 1))
    } else if text_eq(name, "sha224_hex") {
        Some(call_segs("__xlang_sha224_hex", 1))
    } else if text_eq(name, "sha384_hex") {
        Some(call_segs("__xlang_sha384_hex", 1))
    } else if text_eq(name, "str_reverse") {
        Some(call_segs("__xlang_str_reverse", 1))
    } else if text_eq(name, "str_trim") {
        Some(call_segs("__xlang_str_trim", 1))
    } else if text_eq(name, "dir_count") {
        Some(call_segs("__xlang_dir_count", 1))
    } else if text_eq(name, "is_dir") {
        Some(call_segs("__xlang_is_dir", 1))
    } else if text_eq(name, "file_size") {
        Some(call_segs("__xlang_file_size", 1))
    } else if text_eq(name, "file_exists") {
        Some(call_segs("__xlang_file_exists", 1))
    } else if text_eq(name, "chdir") {
        Some(vec![Seg::Lit("chdir(("), Seg::Arg(0), Seg::Lit("))")])
    } else if text_eq(name, "make_dir") {
        Some(vec![Seg::Lit("mkdir("), Seg::Arg(0), Seg::Lit(", 0755)")])
    } else if text_eq(name, "random_int") {
        Some(vec![Seg::Lit("(int32_t)(rand() % ("), Seg::Arg(0), Seg::Lit("))")])
    } else if text_eq(name, "sb_push") {
        Some(call_segs("__xlang_sb_push", 1))
    } else if text_eq(name, "sb_push_char") {
        Some(call_segs("__xlang_sb_push_char", 1))
    } else if text_eq(name, "getenv") {
        Some(
            vec![
                Seg::Lit("(getenv("),
                Seg::Arg(0),
                Seg::Lit(") ? getenv("),
                Seg::Arg(0),
                Seg::Lit(") : \"\")"),
            ],
        )
    } else {
        unary_segs_more(name)
    }
};
    r
}

#[verifier::rlimit(50)]
fn unary_segs_more(name: &String) -> (r: Option<Vec<Seg>>)
    ensures
        match r {
            Some(v) => unary_builtin_more(name@) == Some(segs_view(v@)),
            None => unary_builtin_more(name@) is None,
        },
{
    let r = {
    if text_eq(name, "readlink") {
        Some(call_segs("__xlang_readlink", 1))
    } else if text_eq(name, "realpath") {
        Some(call_segs("__xlang_realpath", 1))
    } else if text_eq(name, "env_entry") {
        Some(call_segs("__xlang_env_entry", 1))
    } else if text_eq(name, "mkfifo") {
        Some(vec![Seg::Lit("mkfifo(("), Seg::Arg(0), Seg::Lit("), 0644)")])
    } else if text_eq(name, "rmdir") {
        Some(vec![Seg::Lit("rmdir(("), Seg::Arg(0), Seg::Lit("))")])
    } else if text_eq(name, "str_to_int_oct") {
        Some(vec![Seg::Lit("(int32_t)strtol("), Seg::Arg(0), Seg::Lit(", 0, 8)")])
    } else if text_eq(name, "vec_len") {
        Some(vec![Seg::Lit("((int32_t)("), Seg::Arg(0), Seg::Lit(").len)")])
    } else if text_eq(name, "str_to_int") {
        Some(vec![Seg::Lit("(int32_t)strtol("), Seg::Arg(0), Seg::Lit(", 0, 10)")])
    } else if text_eq(name, "remove_file") {
        Some(call_segs("remove", 1))
    } else if text_eq(name, "system") {
        Some(call_segs("system", 1))
    } else if text_eq(name, "sleep_sec") {
        Some(vec![Seg::Lit("(unsigned)sleep(("), Seg::Arg(0), Seg::Lit("))")])
    } else if text_eq(name, "read_file") {
        Some(call_segs("__xlang_read_file", 1))
    } else if text_eq(name, "tcp_listen") {
        Some(call_segs("__xlang_tcp_listen", 1))
    } else if text_eq(name, "accept") {
        Some(vec![Seg::Lit("accept("), Seg::Arg(0), Seg::Lit(", 0, 0)")])
    } else if text_eq(name, "recv_str") {
        Some(call_segs("__xlang_recv_str", 1))
    } else if text_eq(name, "close_fd") {
        Some(call_segs("close", 1))
    } else if text_eq(name, "epoll_add") {
        Some(call_segs("__xlang_epoll_add", 1))
    } else if text_eq(name, "epoll_del") {
        Some(call_segs("__xlang_epoll_del", 1))
    } else if text_eq(name, "epoll_wait") {
        Some(call_segs("__xlang_epoll_wait", 1))
    } else if text_eq(name, "set_nonblock") {
        Some(call_segs("__xlang_set_nonblock", 1))
    } else if text_eq(name, "set_nodelay") {
        Some(call_segs("__xlang_set_nodelay", 1))
    } else if text_eq(name, "open_read") {
        Some(call_segs("__xlang_open_read", 1))
    } else if text_eq(name, "read_fd") {
        Some(call_segs("__xlang_read_fd", 1))
    } else if text_eq(name, "open_write") {
        Some(call_segs("__xlang_open_write", 1))
    } else if text_eq(name, "open_append") {
        Some(call_segs("__xlang_open_append", 1))
    } else if text_eq(name, "make_pipe_at") {
        Some(call_segs("__xlang_make_pipe_at", 1))
    } else if text_eq(name, "pipe_r_at") {
        Some(call_segs("__xlang_pipe_r_at", 1))
    } else if text_eq(name, "pipe_w_at") {
        Some(call_segs("__xlang_pipe_w_at", 1))
    } else if text_eq(name, "exec_sh") {
        Some(call_segs("__xlang_exec_sh", 1))
    } else if text_eq(name, "exec_split") {
        Some(call_segs("__xlang_exec_split", 1))
    } else if text_eq(name, "cache_open") {
        Some(call_segs("__xlang_cache_open", 1))
    } else if text_eq(name, "cache_size") {
        Some(call_segs("__xlang_cache_size", 1))
    } else {
        None
    }
};
    r
}

#[verifier::rlimit(50)]
fn binary_segs(name: &String) -> (r: Option<Vec<Seg>>)
    ensures
        match r {
            Some(v) => binary_builtin(name@) == Some(segs_view(v@)),
            None => binary_builtin(name@) is None,
        },
{
    let r = {
    if text_eq(name, "pad_int") {
        Some(call_segs("__xlang_pad_int", 2))
    } else if text_eq(name, "str_concat") {
        Some(call_segs("__xlang_str_concat", 2))
    } else if text_eq(name, "str_eq") {
        Some(
            vec![
                Seg::Lit("(strcmp("),
                Seg::Arg(0),
                Seg::Lit(", "),
                Seg::Arg(1),
                Seg::Lit(") == 0)"),
            ],
        )
    } else if text_eq(name, "str_find") {
        Some(call_segs("__xlang_str_find", 2))
    } else if text_eq(name, "str_contains") {
        Some(call_segs("__xlang_str_contains", 2))
    } else if text_eq(name, "str_starts_with") {
        Some(call_segs("__xlang_str_starts_with", 2))
    } else if text_eq(name, "str_ends_with") {
        Some(call_segs("__xlang_str_ends_with", 2))
    } else if text_eq(name, "str_char_at") {
        Some(
            vec![
                Seg::Lit("(int32_t)(unsigned char)("),
                Seg::Arg(0),
                Seg::Lit("["),
                Seg::Arg(1),
                Seg::Lit("])"),
            ],
        )
    } else if text_eq(name, "kill") {
        Some(paren_call_segs("kill"))
    } else if text_eq(name, "setenv") {
        Some(call_segs("__xlang_setenv", 2))
    } else if text_eq(name, "link_file") {
        Some(paren_call_segs("link"))
    } else if text_eq(name, "truncate_file") {
        Some(paren_call_segs("truncate"))
    } else if text_eq(name, "chmod") {
        Some(paren_call_segs("chmod"))
    } else if text_eq(name, "symlink") {
        Some(paren_call_segs("symlink"))
    } else if text_eq(name, "dir_entry") {
        Some(call_segs("__xlang_dir_entry", 2))
    } else if text_eq(name, "str_cmp") {
        Some(
            vec![
                Seg::Lit("(int32_t)strcmp("),
                Seg::Arg(0),
                Seg::Lit(", "),
                Seg::Arg(1),
                Seg::Lit(")"),
            ],
        )
    } else if text_eq(name, "rename_file") {
        Some(call_segs("rename", 2))
    } else if text_eq(name, "write_file") {
        Some(call_segs("__xlang_write_file", 2))
    } else if text_eq(name, "tcp_connect") {
        Some(call_segs("__xlang_tcp_connect", 2))
    } else if text_eq(name, "dup2") {
        Some(call_segs("__xlang_dup2", 2))
    } else if text_eq(name, "send_str") {
        Some(
            vec![
                Seg::Lit("send("),
                Seg::Arg(0),
                Seg::Lit(", "),
                Seg::Arg(1),
                Seg::Lit(", strlen("),
                Seg::Arg(1),
                Seg::Lit("), 0)"),
            ],
        )
    } else {
        None
    }
};
    r
}

#[verifier::rlimit(50)]
fn nary_segs(name: &String) -> (r: Option<(usize, Vec<Seg>)>)
    ensures
        match r {
            Some((n, v)) => nary_builtin(name@) == Some((n as nat, segs_view(v@))),
            None => nary_builtin(name@) is None,
        },
{
    let r = {
    if text_eq(name, "str_slice") {
        Some((3, call_segs("__xlang_str_slice", 3)))
    } else if text_eq(name, "str_replace") {
        Some((3, call_segs("__xlang_str_replace", 3)))
    } else if text_eq(name, "str_translate") {
        Some((3, call_segs("__xlang_str_translate", 3)))
    } else if text_eq(name, "sendfile_fd") {
        Some((3, call_segs("__xlang_sendfile_fd", 3)))
    } else if text_eq(name, "sendfile_range") {
        Some((4, call_segs("__xlang_sendfile_range", 4)))
    } else if text_eq(name, "send_bytes") {
        Some(
            (
                3,
                vec![
                    Seg::Lit("send("),
                    Seg::Arg(0),
                    Seg::Lit(", "),
                    Seg::Arg(1),
                    Seg::Lit(", (size_t)("),
                    Seg::Arg(2),
                    Seg::Lit("), 0)"),
                ],
            ),
        )
    } else {
        None
    }
};
    r
}


fn string_segs(name: &String) -> (r: Option<(usize, Vec<Seg>)>)
    ensures
        builtin_view(r) == string_builtin(name@),
{
    match unary_segs(name) {
        Some(v) => Some((1, v)),
        None => match binary_segs(name) {
            Some(v) => Some((2, v)),
            None => nary_segs(name),
        },
    }
}

/// Fills a template with the argument renderings.
fn render_segs(segs: &Vec<Seg>, vals: &Vec<String>) -> (r: String)
    requires
        holes_below(segs_view(segs@), vals@.len()),
    ensures
        r@ == render(segs_view(segs@), vals@.map_values(|v: String| v@)),
{
    let ghost ps = segs_view(segs@);
    let ghost vs = vals@.map_values(|v: String| v@);
    let mut out = String::new();
    let mut k: usize = 0;
    while k < segs.len()
        invariant
            k <= segs.len(),
            ps == segs_view(segs@),
            vs == vals@.map_values(|v: String| v@),
            holes_below(ps, vals@.len()),
            out@ == render(ps.take(k as int), vs),
        decreases segs.len() - k,
    {
        proof {
            assert(ps.take(k + 1).drop_last() =~= ps.take(k as int));
            assert(ps.take(k + 1).last() == ps[k as int]);
            assert(ps[k as int] == seg_view(segs@[k as int]));
        }
        match segs[k] {
            Seg::Lit(t) => {
                out.append(t);
            },
            Seg::Arg(i) => {
                assert(ps[k as int] matches Piece::Hole(j) ==> j < vals@.len());
                out.append(vals[i].as_str());
            },
        }
        k = k + 1;
    }
    assert(ps.take(segs.len() as int) =~= ps);
    out
}

proof fn lemma_call_pieces_holes(f: Seq<char>, n: nat)
    ensures
        holes_below(call_pieces(f, n), if n <= 1 { 1 } else if n <= 4 { n } else { 4 }),
{
}

proof fn lemma_builtin_holes(name: Seq<char>)
    ensures
        string_builtin(name) matches Some((n, ps)) ==> holes_below(ps, n) && 1 <= n <= 4,
{
    reveal_strlit("str_len");
    assert forall|f: Seq<char>, n: nat| 1 <= n <= 4 implies #[trigger] holes_below(call_pieces(f, n), n) by {
        lemma_call_pieces_holes(f, n);
    }
    assert forall|f: Seq<char>| #[trigger] holes_below(paren_call_pieces(f), 2) by {}
}

// ---------------------------------------------------------------------------
// The generator's state
// ---------------------------------------------------------------------------

/// What expression lowering reads of the generator: the user struct names
/// and the typed variables in scope, innermost scope last.
pub struct GenCtx {
    pub structs: Seq<Seq<char>>,
    pub scopes: Seq<Seq<(Seq<char>, TypeView)>>,
}

/// The type of `name` in one scope: its latest declaration there.
pub open spec fn scope_get(scope: Seq<(Seq<char>, TypeView)>, name: Seq<char>) -> Option<TypeView>
    decreases scope.len(),
{
    if scope.len() == 0 {
        None
    } else if scope.last().0 == name {
        Some(scope.last().1)
    } else {
        scope_get(scope.drop_last(), name)
    }
}

/// The type of `name`: from the innermost scope that declares it.
pub open spec fn lookup_spec(scopes: Seq<Seq<(Seq<char>, TypeView)>>, name: Seq<char>) -> Option<
    TypeView,
>
    decreases scopes.len(),
{
    if scopes.len() == 0 {
        None
    } else {
        match scope_get(scopes.last(), name) {
            Some(t) => Some(t),
            None => lookup_spec(scopes.drop_last(), name),
        }
    }
}

/// The C code generator.
pub struct CGen {
    lines: Vec<String>,
    indent: usize,
    scopes: Vec<Vec<(String, TypeNode)>>,
    temp_counter: usize,
    /// Return type of the function being generated (for constructing
    /// Some/None/Ok/Err in `return` position).
    fn_return: Option<TypeNode>,
    /// User-defined struct names, so that `c_type` knows them as value types.
    struct_names: Vec<String>,
}

pub open spec fn scope_view(s: Vec<(String, TypeNode)>) -> Seq<(Seq<char>, TypeView)> {
    s@.map_values(|p: (String, TypeNode)| (p.0@, p.1@))
}

impl CGen {
    pub closed spec fn structs(&self) -> Seq<Seq<char>> {
        self.struct_names@.map_values(|n: String| n@)
    }

    pub closed spec fn scopes_view(&self) -> Seq<Seq<(Seq<char>, TypeView)>> {
        self.scopes@.map_values(|s: Vec<(String, TypeNode)>| scope_view(s))
    }

    pub open spec fn ctx(&self) -> GenCtx {
        GenCtx { structs: self.structs(), scopes: self.scopes_view() }
    }

    /// The lines emitted so far.
    pub closed spec fn lines_view(&self) -> Seq<Seq<char>> {
        self.lines@.map_values(|l: String| l@)
    }

    pub closed spec fn indent_level(&self) -> nat {
        self.indent as nat
    }

    pub closed spec fn return_type(&self) -> Option<TypeView> {
        match self.fn_return {
            Some(t) => Some(t@),
            None => None,
        }
    }

    pub closed spec fn temps(&self) -> nat {
        self.temp_counter as nat
    }

    /// A generator with no output yet.
    pub fn new() -> (r: Self)
        ensures
            r.lines_view().len() == 0,
            r.indent_level() == 0,
            r.structs().len() == 0,
            r.scopes_view().len() == 0,
            r.return_type() is None,
            r.temps() == 0,
    {
        let r = CGen {
            lines: Vec::new(),
            indent: 0,
            scopes: Vec::new(),
            temp_counter: 0,
            fn_return: None,
            struct_names: Vec::new(),
        };
        assert(r.lines_view() =~= Seq::<Seq<char>>::empty());
        assert(r.structs() =~= Seq::<Seq<char>>::empty());
        assert(r.scopes_view() =~= Seq::<Seq<(Seq<char>, TypeView)>>::empty());
        r
    }

    fn is_struct(&self, name: &String) -> (r: bool)
        ensures
            r == self.structs().contains(name@),
    {
        let mut k: usize = 0;
        while k < self.struct_names.len()
            invariant
                k <= self.struct_names.len(),
                forall|j: int| 0 <= j < k ==> self.structs()[j] != name@,
            decreases self.struct_names.len() - k,
        {
            if text_eq(&self.struct_names[k], name.as_str()) {
                assert(self.structs()[k as int] == name@);
                return true;
            }
            k = k + 1;
        }
        false
    }

    fn scalar_c_type_str(name: &String) -> (r: Option<&'static str>)
        ensures
            match r {
                Some(t) => scalar_c_type(name@) == Some(t@),
                None => scalar_c_type(name@) is None,
            },
    {
        if text_eq(name, "i32") {
            Some("int32_t")
        } else if text_eq(name, "i64") {
            Some("int64_t")
        } else if text_eq(name, "f32") {
            Some("float")
        } else if text_eq(name, "f64") {
            Some("double")
        } else if text_eq(name, "bool") {
            Some("bool")
        } else if text_eq(name, "String") || text_eq(name, "Str") {
            Some("const char *")
        } else {
            None
        }
    }

    fn const_type_arg_value(ty: &TypeNode, label: &str) -> (r: XResult<String>)
        ensures
            gen_view(r) == Some(const_arg_spec(ty@, label@)),
    {
        match ty {
            TypeNode::ConstTypeArg { value } => Ok(value.clone()),
            TypeNode::TypeExpr { name, .. } => {
                let mut m = text_of(label);
                m.append(" must be a constant integer, got type ");
                m.append(name.as_str());
                Err(codegen_err(m))
            },
        }
    }

    /// The generated name of a wrapper type over `args`, if `name` is one.
    fn wrapper_name(&self, name: &String, args: &Vec<TypeNode>) -> (r: Option<XResult<String>>)
        ensures
            match r {
                Some(x) => wrapper_name(self.structs(), name@, crate::ast::types_view(args@))
                    == Some(gen_view(x)->Some_0) && gen_view(x) is Some,
                None => wrapper_name(self.structs(), name@, crate::ast::types_view(args@)) is None,
            },
        decreases args, 0nat,
    {
        proof {
            crate::ast::lemma_types_view(args@);
            assert(decreases_to!(*args => args@));
        }
        if args.len() == 1 && (text_eq(name, "Slice") || text_eq(name, "Option") || text_eq(
            name,
            "Vec",
        )) {
            proof {
                assert(decreases_to!(args@ => args@[0]));
            }
            let prefix = if text_eq(name, "Slice") {
                "Slice_"
            } else if text_eq(name, "Option") {
                "Option_"
            } else {
                "Vec_"
            };
            match self.c_type_suffix(&args[0]) {
                Ok(s) => {
                    let mut out = text_of(prefix);
                    out.append(s.as_str());
                    Some(Ok(out))
                },
                Err(e) => Some(Err(e)),
            }
        } else if args.len() == 2 && text_eq(name, "Array") {
            proof {
                assert(decreases_to!(args@ => args@[0]));
            }
            match self.c_type_suffix(&args[0]) {
                Err(e) => Some(Err(e)),
                Ok(s) => match Self::const_type_arg_value(&args[1], "Array length") {
                    Err(e) => Some(Err(e)),
                    Ok(n) => {
                        let mut out = text_of("Array_");
                        out.append(s.as_str());
                        out.append("_");
                        out.append(n.as_str());
                        Some(Ok(out))
                    },
                },
            }
        } else if args.len() == 2 && text_eq(name, "Result") {
            proof {
                assert(decreases_to!(args@ => args@[0]));
                assert(decreases_to!(args@ => args@[1]));
            }
            match self.c_type_suffix(&args[0]) {
                Err(e) => Some(Err(e)),
                Ok(a) => match self.c_type_suffix(&args[1]) {
                    Err(e) => Some(Err(e)),
                    Ok(b) => {
                        let mut out = text_of("Result_");
                        out.append(a.as_str());
                        out.append("_");
                        out.append(b.as_str());
                        Some(Ok(out))
                    },
                },
            }
        } else {
            None
        }
    }

    /// The name a type contributes to generated wrapper and helper names.
    fn c_type_suffix(&self, ty: &TypeNode) -> (r: XResult<String>)
        ensures
            gen_view(r) == Some(c_type_suffix_spec(self.structs(), ty@)),
        decreases ty, 1nat,
    {
        match ty {
            TypeNode::TypeExpr { name, args } => {
                proof {
                    crate::ast::lemma_types_view(args@);
                    assert(decreases_to!(*ty => *args));
                }
                if args.len() == 0 {
                    if Self::scalar_c_type_str(name).is_some() || self.is_struct(name) {
                        Ok(name.clone())
                    } else {
                        let mut m = text_of("C backend does not support ");
                        m.append(name.as_str());
                        m.append(" as a generated type suffix yet");
                        Err(codegen_err(m))
                    }
                } else {
                    match self.wrapper_name(name, args) {
                        Some(r) => r,
                        None => {
                            let mut m = text_of("C backend does not support ");
                            m.append(name.as_str());
                            m.append("<...> as a generated type suffix yet");
                            Err(codegen_err(m))
                        },
                    }
                }
            },
            TypeNode::ConstTypeArg { value } => {
                let mut m = text_of("unexpected const type argument in C type suffix: ");
                m.append(value.as_str());
                Err(codegen_err(m))
            },
        }
    }

    /// The C type of an xlang type.
    fn c_type(&self, ty: &TypeNode) -> (r: XResult<String>)
        ensures
            gen_view(r) == Some(c_type_spec(self.structs(), ty@)),
    {
        match ty {
            TypeNode::TypeExpr { name, args } => {
                proof {
                    crate::ast::lemma_types_view(args@);
                }
                if args.len() == 0 {
                    match Self::scalar_c_type_str(name) {
                        Some(c) => Ok(text_of(c)),
                        None => if self.is_struct(name) {
                            Ok(name.clone())
                        } else {
                            let mut m = text_of("C backend does not support type yet: ");
                            m.append(name.as_str());
                            Err(codegen_err(m))
                        },
                    }
                } else {
                    match self.wrapper_name(name, args) {
                        Some(r) => r,
                        None => {
                            let mut m = text_of("C backend does not support generic type yet: ");
                            m.append(name.as_str());
                            m.append("<...>");
                            Err(codegen_err(m))
                        },
                    }
                }
            },
            TypeNode::ConstTypeArg { value } => {
                let mut m = text_of("unexpected const type argument in C type position: ");
                m.append(value.as_str());
                Err(codegen_err(m))
            },
        }
    }

    /// The type of a variable in scope.
    fn lookup_var(&self, name: &String) -> (r: Option<TypeNode>)
        ensures
            match r {
                Some(t) => lookup_spec(self.scopes_view(), name@) == Some(t@),
                None => lookup_spec(self.scopes_view(), name@) is None,
            },
    {
        let ghost sv = self.scopes_view();
        let mut s: usize = self.scopes.len();
        assert(sv.take(s as int) =~= sv);
        while s > 0
            invariant
                s <= self.scopes.len(),
                sv == self.scopes_view(),
                lookup_spec(sv, name@) == lookup_spec(sv.take(s as int), name@),
            decreases s,
        {
            let scope = &self.scopes[s - 1];
            let ghost scv = scope_view(*scope);
            proof {
                assert(sv.take(s as int).last() == scv);
                assert(sv.take(s as int).drop_last() =~= sv.take(s - 1));
            }
            let mut k: usize = scope.len();
            assert(scv.take(k as int) =~= scv);
            while k > 0
                invariant
                    k <= scope.len(),
                    scv == scope_view(*scope),
                    1 <= s <= self.scopes.len(),
                    sv == self.scopes_view(),
                    sv.take(s as int).last() == scv,
                    lookup_spec(sv, name@) == lookup_spec(sv.take(s as int), name@),
                    scope_get(scv, name@) == scope_get(scv.take(k as int), name@),
                decreases k,
            {
                proof {
                    assert(scv.take(k as int).drop_last() =~= scv.take(k - 1));
                    assert(scv.take(k as int).last() == (scope@[k - 1].0@, scope@[k - 1].1@));
                }
                if text_eq(name, scope[k - 1].0.as_str()) {
                    return Some(crate::ast::clone_type(&scope[k - 1].1));
                }
                k = k - 1;
            }
            proof {
                assert(scv.take(0) =~= Seq::<(Seq<char>, TypeView)>::empty());
            }
            s = s - 1;
        }
        proof {
            assert(sv.take(0) =~= Seq::<Seq<(Seq<char>, TypeView)>>::empty());
        }
        None
    }
}

// ---------------------------------------------------------------------------
// Expressions
// ---------------------------------------------------------------------------

pub open spec fn array_literal_message() -> Seq<char> {
    "array literals are only supported in typed Array<T, N> let initializers"@
}

pub open spec fn range_message() -> Seq<char> {
    "range expressions are only supported as for-loop iterables"@
}

/// The C of an expression, or the message of the first construct the back
/// end cannot lower (sub-expressions are lowered left to right).
pub open spec fn expr_c(g: GenCtx, e: Expr) -> Result<Seq<char>, Seq<char>>
    decreases e, 3nat,
{
    match e {
        Expr::IntLiteral { value } => Ok(value@),
        Expr::FloatLiteral { value } => Ok(value@),
        Expr::StringLiteral { value } => Ok(c_string_literal(value@)),
        Expr::BoolLiteral { value } => Ok(
            if value {
                "true"@
            } else {
                "false"@
            },
        ),
        Expr::Identifier { name } => Ok(name@),
        Expr::ArrayLiteral { .. } => Err(array_literal_message()),
        Expr::BinaryExpr { op, left, right } => match expr_c(g, left.node) {
            Err(m) => Err(m),
            Ok(l) => match expr_c(g, right.node) {
                Err(m) => Err(m),
                Ok(r) => Ok("("@ + l + " "@ + op@ + " "@ + r + ")"@),
            },
        },
        Expr::UnaryExpr { op, value } => match expr_c(g, value.node) {
            Err(m) => Err(m),
            Ok(v) => Ok("("@ + op@ + v + ")"@),
        },
        Expr::AssignmentExpr { target, value } => match expr_c(g, target.node) {
            Err(m) => Err(m),
            Ok(t) => match expr_c(g, value.node) {
                Err(m) => Err(m),
                Ok(v) => Ok("("@ + t + " = "@ + v + ")"@),
            },
        },
        Expr::CallExpr { .. } => call_c(g, e),
        Expr::FieldAccessExpr { object, field } => match expr_c(g, object.node) {
            Err(m) => Err(m),
            Ok(o) => Ok(o + "."@ + field@),
        },
        Expr::IndexExpr { object, index } => match expr_c(g, object.node) {
            Err(m) => Err(m),
            Ok(o) => match expr_c(g, index.node) {
                Err(m) => Err(m),
                Ok(i) => Ok(o + ".data["@ + i + "]"@),
            },
        },
        Expr::RangeExpr { .. } => Err(range_message()),
        Expr::StructLiteral { name, fields } => match fields_c(g, fields@) {
            Err(m) => Err(m),
            Ok(parts) => Ok("("@ + name@ + "){ "@ + join_text(parts, ", "@) + " }"@),
        },
    }
}

/// The C of each expression, in order, or the first error.
pub open spec fn exprs_c(g: GenCtx, es: Seq<Spanned<Expr>>) -> Result<Seq<Seq<char>>, Seq<char>>
    decreases es, 0nat,
{
    if es.len() == 0 {
        Ok(Seq::empty())
    } else {
        match expr_c(g, es[0].node) {
            Err(m) => Err(m),
            Ok(t) => match exprs_c(g, es.subrange(1, es.len() as int)) {
                Err(m) => Err(m),
                Ok(ts) => Ok(seq![t] + ts),
            },
        }
    }
}

/// `.name = value` for each field of a struct literal, or the first error.
pub open spec fn fields_c(g: GenCtx, fs: Seq<StructLiteralField>) -> Result<Seq<Seq<char>>, Seq<char>>
    decreases fs, 0nat,
{
    if fs.len() == 0 {
        Ok(Seq::empty())
    } else {
        match expr_c(g, fs[0].value.node) {
            Err(m) => Err(m),
            Ok(v) => match fields_c(g, fs.subrange(1, fs.len() as int)) {
                Err(m) => Err(m),
                Ok(ts) => Ok(seq!["."@ + fs[0].name@ + " = "@ + v] + ts),
            },
        }
    }
}

/// The print path of a call: a one-argument call of an identifier lowers
/// its argument first; a print builtin then becomes `printf`.
pub open spec fn print_path(g: GenCtx, e: Expr) -> Result<Option<Seq<char>>, Seq<char>>
    decreases e, 1nat,
{
    match e {
        Expr::CallExpr { callee, args } => match callee.node {
            Expr::Identifier { name } => if args@.len() == 1 {
                match expr_c(g, args@[0].node) {
                    Err(m) => Err(m),
                    Ok(a) => Ok(print_builtin(name@, a)),
                }
            } else {
                Ok(None)
            },
            _ => Ok(None),
        },
        _ => Ok(None),
    }
}

/// The builtin path of a call of an identifier with arguments: the first
/// argument is lowered first; a builtin given enough arguments then fills
/// its template with them (the others lowered in order).
pub open spec fn string_path(g: GenCtx, e: Expr) -> Result<Option<Seq<char>>, Seq<char>>
    decreases e, 1nat,
{
    match e {
        Expr::CallExpr { callee, args } => match callee.node {
            Expr::Identifier { name } => if args@.len() >= 1 {
                match expr_c(g, args@[0].node) {
                    Err(m) => Err(m),
                    Ok(a) => match string_builtin(name@) {
                        None => Ok(None),
                        Some((n, ps)) => if args@.len() < n {
                            Ok(None)
                        } else {
                            match exprs_c(g, args@.subrange(1, n as int)) {
                                Err(m) => Err(m),
                                Ok(rest) => Ok(Some(render(ps, seq![a] + rest))),
                            }
                        },
                    },
                }
            } else {
                Ok(None)
            },
            _ => Ok(None),
        },
        _ => Ok(None),
    }
}

/// `v.push(x)` on a variable of type `Vec<T>`: a call of the element
/// type's push helper.
pub open spec fn vec_push_path(g: GenCtx, e: Expr) -> Result<Option<Seq<char>>, Seq<char>>
    decreases e, 1nat,
{
    match e {
        Expr::CallExpr { callee, args } => match callee.node {
            Expr::FieldAccessExpr { object, field } => if field@ == "push"@ && args@.len() == 1 {
                match object.node {
                    Expr::Identifier { name: vname } => match lookup_spec(g.scopes, vname@) {
                        Some(TypeView::TypeExpr { name: tn, args: targs }) => if tn == "Vec"@
                            && targs.len() == 1 {
                            match c_type_suffix_spec(g.structs, targs[0]) {
                                Err(m) => Err(m),
                                Ok(sfx) => match expr_c(g, object.node) {
                                    Err(m) => Err(m),
                                    Ok(v) => match expr_c(g, args@[0].node) {
                                        Err(m) => Err(m),
                                        Ok(x) => Ok(
                                            Some(
                                                "__xlang_vec_push_"@ + sfx + "(&"@ + v + ", "@ + x
                                                    + ")"@,
                                            ),
                                        ),
                                    },
                                },
                            }
                        } else {
                            Ok(None)
                        },
                        _ => Ok(None),
                    },
                    _ => Ok(None),
                }
            } else {
                Ok(None)
            },
            _ => Ok(None),
        },
        _ => Ok(None),
    }
}

/// An ordinary call: the arguments in order, then the callee.
pub open spec fn plain_call(g: GenCtx, e: Expr) -> Result<Seq<char>, Seq<char>>
    decreases e, 1nat,
{
    match e {
        Expr::CallExpr { callee, args } => match exprs_c(g, args@) {
            Err(m) => Err(m),
            Ok(parts) => match expr_c(g, callee.node) {
                Err(m) => Err(m),
                Ok(c) => Ok(c + "("@ + join_text(parts, ", "@) + ")"@),
            },
        },
        _ => Err(Seq::empty()),
    }
}

/// A call: a zero-argument builtin, a print builtin, another builtin, a
/// vector push, or else an ordinary call, tried in this order.
pub open spec fn call_c(g: GenCtx, e: Expr) -> Result<Seq<char>, Seq<char>>
    decreases e, 2nat,
{
    let zero = match e {
        Expr::CallExpr { callee, args } => if args@.len() == 0 {
            match callee.node {
                Expr::Identifier { name } => zero_arg_builtin(name@),
                _ => None,
            }
        } else {
            None
        },
        _ => None,
    };
    match zero {
        Some(z) => Ok(z),
        None => match print_path(g, e) {
            Err(m) => Err(m),
            Ok(Some(t)) => Ok(t),
            Ok(None) => match string_path(g, e) {
                Err(m) => Err(m),
                Ok(Some(t)) => Ok(t),
                Ok(None) => match vec_push_path(g, e) {
                    Err(m) => Err(m),
                    Ok(Some(t)) => Ok(t),
                    Ok(None) => plain_call(g, e),
                },
            },
        },
    }
}

pub open spec fn gen_opt_view(r: XResult<Option<String>>) -> Option<Result<Option<Seq<char>>, Seq<char>>> {
    match r {
        Ok(Some(s)) => Some(Ok(Some(s@))),
        Ok(None) => Some(Ok(None)),
        Err(XError::Codegen(m)) => Some(Err(m@)),
        Err(_) => None,
    }
}

pub open spec fn gen_list_view(r: XResult<Vec<String>>) -> Option<Result<Seq<Seq<char>>, Seq<char>>> {
    match r {
        Ok(v) => Some(Ok(v@.map_values(|s: String| s@))),
        Err(XError::Codegen(m)) => Some(Err(m@)),
        Err(_) => None,
    }
}

pub open spec fn prepend_ok(vs: Seq<Seq<char>>, r: Result<Seq<Seq<char>>, Seq<char>>) -> Result<
    Seq<Seq<char>>,
    Seq<char>,
> {
    match r {
        Ok(ts) => Ok(vs + ts),
        Err(m) => Err(m),
    }
}

/// `parts` joined with `sep`.
fn join_strings(parts: &Vec<String>, sep: &str) -> (r: String)
    ensures
        r@ == join_text(parts@.map_values(|p: String| p@), sep@),
{
    let ghost ps = parts@.map_values(|p: String| p@);
    let mut out = String::new();
    let mut k: usize = 0;
    while k < parts.len()
        invariant
            k <= parts.len(),
            ps == parts@.map_values(|p: String| p@),
            out@ == join_text(ps.take(k as int), sep@),
        decreases parts.len() - k,
    {
        if k > 0 {
            out.append(sep);
        }
        out.append(parts[k].as_str());
        proof {
            assert(ps[k as int] == parts@[k as int]@);
            assert(ps.take(k + 1).drop_last() =~= ps.take(k as int));
            if k == 0 {
                assert(ps.take(1) =~= seq![ps[0]]);
            }
        }
        k = k + 1;
    }
    assert(ps.take(parts.len() as int) =~= ps);
    out
}

proof fn lemma_exprs_len(g: GenCtx, es: Seq<Spanned<Expr>>)
    ensures
        exprs_c(g, es) matches Ok(ts) ==> ts.len() == es.len(),
    decreases es.len(),
{
    if es.len() > 0 {
        lemma_exprs_len(g, es.subrange(1, es.len() as int));
    }
}

impl CGen {
    /// Lowers `es[from..to]`, in order.
    fn gen_exprs(&self, es: &Vec<Spanned<Expr>>, from: usize, to: usize) -> (r: XResult<Vec<String>>)
        requires
            from <= to <= es.len(),
        ensures
            gen_list_view(r) == Some(exprs_c(self.ctx(), es@.subrange(from as int, to as int))),
        decreases es, 0nat,
    {
        let ghost g = self.ctx();
        let ghost whole = es@.subrange(from as int, to as int);
        let mut out: Vec<String> = Vec::new();
        let mut k: usize = from;
        assert(es@.subrange(from as int, to as int) =~= whole);
        while k < to
            invariant
                from <= k <= to <= es.len(),
                g == self.ctx(),
                whole == es@.subrange(from as int, to as int),
                exprs_c(g, whole) == prepend_ok(
                    out@.map_values(|s: String| s@),
                    exprs_c(g, es@.subrange(k as int, to as int)),
                ),
            decreases to - k,
        {
            proof {
                assert(decreases_to!(*es => es@));
                assert(decreases_to!(es@ => es@[k as int]));
                let rest = es@.subrange(k as int, to as int);
                assert(rest[0] == es@[k as int]);
                assert(rest.subrange(1, rest.len() as int) =~= es@.subrange(k + 1, to as int));
            }
            let t = match self.gen_expr(&es[k]) {
                Ok(t) => t,
                Err(e) => return Err(e),
            };
            let ghost old_v = out@.map_values(|s: String| s@);
            let ghost tv = t@;
            out.push(t);
            proof {
                assert(out@.map_values(|s: String| s@) =~= old_v.push(tv));
                match exprs_c(g, es@.subrange(k + 1, to as int)) {
                    Ok(ts) => {
                        assert(old_v + (seq![tv] + ts) =~= old_v.push(tv) + ts);
                    },
                    Err(_) => {},
                }
            }
            k = k + 1;
        }
        proof {
            assert(es@.subrange(k as int, to as int) =~= Seq::<Spanned<Expr>>::empty());
            assert(out@.map_values(|s: String| s@) + Seq::<Seq<char>>::empty() =~= out@.map_values(
                |s: String| s@,
            ));
        }
        Ok(out)
    }

    /// Lowers the fields of a struct literal to `.name = value`.
    fn gen_fields(&self, fs: &Vec<StructLiteralField>) -> (r: XResult<Vec<String>>)
        ensures
            gen_list_view(r) == Some(fields_c(self.ctx(), fs@)),
        decreases fs, 0nat,
    {
        let ghost g = self.ctx();
        let mut out: Vec<String> = Vec::new();
        let mut k: usize = 0;
        assert(fs@.subrange(0, fs@.len() as int) =~= fs@);
        while k < fs.len()
            invariant
                k <= fs.len(),
                g == self.ctx(),
                fields_c(g, fs@) == prepend_ok(
                    out@.map_values(|s: String| s@),
                    fields_c(g, fs@.subrange(k as int, fs@.len() as int)),
                ),
            decreases fs.len() - k,
        {
            proof {
                assert(decreases_to!(*fs => fs@));
                assert(decreases_to!(fs@ => fs@[k as int]));
                assert(decreases_to!(fs@[k as int] => fs@[k as int].value));
                let rest = fs@.subrange(k as int, fs@.len() as int);
                assert(rest[0] == fs@[k as int]);
                assert(rest.subrange(1, rest.len() as int) =~= fs@.subrange(
                    k + 1,
                    fs@.len() as int,
                ));
            }
            let v = match self.gen_expr(&fs[k].value) {
                Ok(v) => v,
                Err(e) => return Err(e),
            };
            let mut t = text_of(".");
            t.append(fs[k].name.as_str());
            t.append(" = ");
            t.append(v.as_str());
            let ghost old_v = out@.map_values(|s: String| s@);
            let ghost tv = t@;
            out.push(t);
            proof {
                assert(out@.map_values(|s: String| s@) =~= old_v.push(tv));
                match fields_c(g, fs@.subrange(k + 1, fs@.len() as int)) {
                    Ok(ts) => {
                        assert(old_v + (seq![tv] + ts) =~= old_v.push(tv) + ts);
                    },
                    Err(_) => {},
                }
            }
            k = k + 1;
        }
        proof {
            assert(fs@.subrange(k as int, fs@.len() as int) =~= Seq::<StructLiteralField>::empty());
            assert(out@.map_values(|s: String| s@) + Seq::<Seq<char>>::empty() =~= out@.map_values(
                |s: String| s@,
            ));
        }
        Ok(out)
    }

    /// The print path of a call expression.
    fn try_print_call(&self, expr: &Spanned<Expr>) -> (r: XResult<Option<String>>)
        ensures
            gen_opt_view(r) == Some(print_path(self.ctx(), expr.node)),
        decreases expr, 1nat,
    {
        match &expr.node {
            Expr::CallExpr { callee, args } => match &callee.node {
                Expr::Identifier { name } => {
                    if args.len() != 1 {
                        return Ok(None);
                    }
                    proof {
                        assert(decreases_to!(*expr => expr.node));
                        assert(decreases_to!(expr.node => *args));
                        assert(decreases_to!(*args => args@));
                        assert(decreases_to!(args@ => args@[0]));
                    }
                    let a = match self.gen_expr(&args[0]) {
                        Ok(a) => a,
                        Err(e) => return Err(e),
                    };
                    Ok(print_text(name, &a))
                },
                _ => Ok(None),
            },
            _ => Ok(None),
        }
    }

    /// The builtin path of a call expression.
    fn try_string_call(&self, expr: &Spanned<Expr>) -> (r: XResult<Option<String>>)
        ensures
            gen_opt_view(r) == Some(string_path(self.ctx(), expr.node)),
        decreases expr, 1nat,
    {
        match &expr.node {
            Expr::CallExpr { callee, args } => match &callee.node {
                Expr::Identifier { name } => {
                    if args.len() == 0 {
                        return Ok(None);
                    }
                    proof {
                        assert(decreases_to!(*expr => expr.node));
                        assert(decreases_to!(expr.node => *args));
                        assert(decreases_to!(*args => args@));
                        assert(decreases_to!(args@ => args@[0]));
                    }
                    let a = match self.gen_expr(&args[0]) {
                        Ok(a) => a,
                        Err(e) => return Err(e),
                    };
                    match string_segs(name) {
                        None => Ok(None),
                        Some((n, segs)) => {
                            proof {
                                lemma_builtin_holes(name@);
                            }
                            if args.len() < n {
                                return Ok(None);
                            }
                            let rest = match self.gen_exprs(args, 1, n) {
                                Ok(v) => v,
                                Err(e) => return Err(e),
                            };
                            proof {
                                lemma_exprs_len(self.ctx(), args@.subrange(1, n as int));
                            }
                            let mut vals: Vec<String> = Vec::new();
                            let ghost av = a@;
                            vals.push(a);
                            let ghost head = vals@.map_values(|s: String| s@);
                            assert(head =~= seq![av]);
                            let mut k: usize = 0;
                            while k < rest.len()
                                invariant
                                    k <= rest.len(),
                                    vals@.map_values(|s: String| s@) == head + rest@.take(
                                        k as int,
                                    ).map_values(|s: String| s@),
                                decreases rest.len() - k,
                            {
                                let c = rest[k].clone();
                                assert(c@ == rest@[k as int]@);
                                let ghost old_v = vals@.map_values(|s: String| s@);
                                let ghost cv = c@;
                                assert(rest@.take(k + 1) =~= rest@.take(k as int).push(
                                    rest@[k as int],
                                ));
                                vals.push(c);
                                assert(vals@.map_values(|s: String| s@) =~= old_v.push(cv));
                                assert(vals@.map_values(|s: String| s@) =~= head + rest@.take(
                                    k + 1,
                                ).map_values(|s: String| s@));
                                k = k + 1;
                            }
                            assert(rest@.take(rest.len() as int) =~= rest@);
                            assert(vals@.map_values(|s: String| s@) =~= seq![av] + rest@.map_values(
                                |s: String| s@,
                            ));
                            Ok(Some(render_segs(&segs, &vals)))
                        },
                    }
                },
                _ => Ok(None),
            },
            _ => Ok(None),
        }
    }

    /// The vector push path of a call expression.
    fn try_vec_push_call(&self, expr: &Spanned<Expr>) -> (r: XResult<Option<String>>)
        ensures
            gen_opt_view(r) == Some(vec_push_path(self.ctx(), expr.node)),
        decreases expr, 1nat,
    {
        match &expr.node {
            Expr::CallExpr { callee, args } => match &callee.node {
                Expr::FieldAccessExpr { object, field } => {
                    if !text_eq(field, "push") || args.len() != 1 {
                        return Ok(None);
                    }
                    let vname = match &object.node {
                        Expr::Identifier { name } => name,
                        _ => {
                            return Ok(None);
                        },
                    };
                    let found = self.lookup_var(vname);
                    let elem = match &found {
                        Some(TypeNode::TypeExpr { name, args: targs }) => {
                            proof {
                                crate::ast::lemma_types_view(targs@);
                            }
                            if !text_eq(name, "Vec") || targs.len() != 1 {
                                return Ok(None);
                            }
                            &targs[0]
                        },
                        _ => {
                            return Ok(None);
                        },
                    };
                    let sfx = match self.c_type_suffix(elem) {
                        Ok(s) => s,
                        Err(e) => return Err(e),
                    };
                    proof {
                        assert(decreases_to!(*expr => expr.node));
                        assert(decreases_to!(expr.node => **callee));
                        assert(decreases_to!(callee.node => **object));
                        assert(decreases_to!(expr.node => *args));
                        assert(decreases_to!(*args => args@));
                        assert(decreases_to!(args@ => args@[0]));
                    }
                    let v = match self.gen_expr(object) {
                        Ok(v) => v,
                        Err(e) => return Err(e),
                    };
                    let x = match self.gen_expr(&args[0]) {
                        Ok(x) => x,
                        Err(e) => return Err(e),
                    };
                    let mut out = text_of("__xlang_vec_push_");
                    out.append(sfx.as_str());
                    out.append("(&");
                    out.append(v.as_str());
                    out.append(", ");
                    out.append(x.as_str());
                    out.append(")");
                    Ok(Some(out))
                },
                _ => Ok(None),
            },
            _ => Ok(None),
        }
    }

    /// Lowers a call expression.
    fn gen_call(&self, expr: &Spanned<Expr>) -> (r: XResult<String>)
        requires
            expr.node is CallExpr,
        ensures
            gen_view(r) == Some(call_c(self.ctx(), expr.node)),
        decreases expr, 2nat,
    {
        match &expr.node {
            Expr::CallExpr { callee, args } => {
                if args.len() == 0 {
                    match &callee.node {
                        Expr::Identifier { name } => match zero_arg_text(name) {
                            Some(t) => {
                                return Ok(text_of(t));
                            },
                            None => {},
                        },
                        _ => {},
                    }
                }
                match self.try_print_call(expr) {
                    Err(e) => {
                        return Err(e);
                    },
                    Ok(Some(t)) => {
                        return Ok(t);
                    },
                    Ok(None) => {},
                }
                match self.try_string_call(expr) {
                    Err(e) => {
                        return Err(e);
                    },
                    Ok(Some(t)) => {
                        return Ok(t);
                    },
                    Ok(None) => {},
                }
                match self.try_vec_push_call(expr) {
                    Err(e) => {
                        return Err(e);
                    },
                    Ok(Some(t)) => {
                        return Ok(t);
                    },
                    Ok(None) => {},
                }
                proof {
                    assert(decreases_to!(*expr => expr.node));
                    assert(decreases_to!(expr.node => *args));
                    assert(decreases_to!(expr.node => **callee));
                    assert(args@.subrange(0, args@.len() as int) =~= args@);
                }
                let parts = match self.gen_exprs(args, 0, args.len()) {
                    Ok(p) => p,
                    Err(e) => return Err(e),
                };
                let c = match self.gen_expr(callee) {
                    Ok(c) => c,
                    Err(e) => return Err(e),
                };
                let mut out = c;
                out.append("(");
                let joined = join_strings(&parts, ", ");
                out.append(joined.as_str());
                out.append(")");
                Ok(out)
            },
            _ => Err(codegen_err(String::new())),
        }
    }

    /// Lowers an expression to C.
    fn gen_expr(&self, expr: &Spanned<Expr>) -> (r: XResult<String>)
        ensures
            gen_view(r) == Some(expr_c(self.ctx(), expr.node)),
        decreases expr, 3nat,
    {
        proof {
            assert(decreases_to!(*expr => expr.node));
        }
        match &expr.node {
            Expr::IntLiteral { value } => Ok(value.clone()),
            Expr::FloatLiteral { value } => Ok(value.clone()),
            Expr::StringLiteral { value } => match json_string_literal(value) {
                Ok(j) => {
                    proof {
                        reveal_strlit("\\u001b");
                    }
                    Ok(replace_text(&j, "\\u001b", "\\x1b"))
                },
                Err(e) => Err(XError::Json(e)),
            },
            Expr::BoolLiteral { value } => Ok(
                if *value {
                    text_of("true")
                } else {
                    text_of("false")
                },
            ),
            Expr::Identifier { name } => Ok(name.clone()),
            Expr::ArrayLiteral { .. } => Err(
                codegen_err(
                    text_of(
                        "array literals are only supported in typed Array<T, N> let initializers",
                    ),
                ),
            ),
            Expr::BinaryExpr { op, left, right } => {
                proof {
                    assert(decreases_to!(expr.node => **left));
                    assert(decreases_to!(expr.node => **right));
                }
                let l = match self.gen_expr(left) {
                    Ok(l) => l,
                    Err(e) => return Err(e),
                };
                let r = match self.gen_expr(right) {
                    Ok(r) => r,
                    Err(e) => return Err(e),
                };
                let mut out = text_of("(");
                out.append(l.as_str());
                out.append(" ");
                out.append(op.as_str());
                out.append(" ");
                out.append(r.as_str());
                out.append(")");
                Ok(out)
            },
            Expr::UnaryExpr { op, value } => {
                proof {
                    assert(decreases_to!(expr.node => **value));
                }
                let v = match self.gen_expr(value) {
                    Ok(v) => v,
                    Err(e) => return Err(e),
                };
                let mut out = text_of("(");
                out.append(op.as_str());
                out.append(v.as_str());
                out.append(")");
                Ok(out)
            },
            Expr::AssignmentExpr { target, value } => {
                proof {
                    assert(decreases_to!(expr.node => **target));
                    assert(decreases_to!(expr.node => **value));
                }
                let t = match self.gen_expr(target) {
                    Ok(t) => t,
                    Err(e) => return Err(e),
                };
                let v = match self.gen_expr(value) {
                    Ok(v) => v,
                    Err(e) => return Err(e),
                };
                let mut out = text_of("(");
                out.append(t.as_str());
                out.append(" = ");
                out.append(v.as_str());
                out.append(")");
                Ok(out)
            },
            Expr::CallExpr { .. } => self.gen_call(expr),
            Expr::FieldAccessExpr { object, field } => {
                proof {
                    assert(decreases_to!(expr.node => **object));
                }
                let o = match self.gen_expr(object) {
                    Ok(o) => o,
                    Err(e) => return Err(e),
                };
                let mut out = o;
                out.append(".");
                out.append(field.as_str());
                Ok(out)
            },
            Expr::IndexExpr { object, index } => {
                proof {
                    assert(decreases_to!(expr.node => **object));
                    assert(decreases_to!(expr.node => **index));
                }
                let o = match self.gen_expr(object) {
                    Ok(o) => o,
                    Err(e) => return Err(e),
                };
                let i = match self.gen_expr(index) {
                    Ok(i) => i,
                    Err(e) => return Err(e),
                };
                let mut out = o;
                out.append(".data[");
                out.append(i.as_str());
                out.append("]");
                Ok(out)
            },
            Expr::RangeExpr { .. } => Err(
                codegen_err(text_of("range expressions are only supported as for-loop iterables")),
            ),
            Expr::StructLiteral { name, fields } => {
                proof {
                    assert(decreases_to!(expr.node => *fields));
                }
                let parts = match self.gen_fields(fields) {
                    Ok(p) => p,
                    Err(e) => return Err(e),
                };
                let mut out = text_of("(");
                out.append(name.as_str());
                out.append("){ ");
                let joined = join_strings(&parts, ", ");
                out.append(joined.as_str());
                out.append(" }");
                Ok(out)
            },
        }
    }
}

// ---------------------------------------------------------------------------
// Statements
// ---------------------------------------------------------------------------

/// Everything the generator holds, as plain values.
pub struct GenState {
    pub lines: Seq<Seq<char>>,
    pub indent: nat,
    pub scopes: Seq<Seq<(Seq<char>, TypeView)>>,
    pub temps: nat,
    pub ret: Option<TypeView>,
    pub structs: Seq<Seq<char>>,
}

pub open spec fn ctx_of(st: GenState) -> GenCtx {
    GenCtx { structs: st.structs, scopes: st.scopes }
}

/// Four spaces per level.
pub open spec fn indent_text(n: nat) -> Seq<char>
    decreases n,
{
    if n == 0 {
        Seq::empty()
    } else {
        indent_text((n - 1) as nat) + "    "@
    }
}

/// Appends one line at the current indentation.
pub open spec fn emit_line(st: GenState, line: Seq<char>) -> GenState {
    GenState { lines: st.lines.push(indent_text(st.indent) + line), ..st }
}

/// One level deeper (the count stops at the machine limit).
pub open spec fn indent_in(st: GenState) -> GenState {
    GenState {
        indent: if st.indent < usize::MAX {
            st.indent + 1
        } else {
            st.indent
        },
        ..st
    }
}

/// One level shallower.
pub open spec fn indent_out(st: GenState) -> GenState {
    GenState {
        indent: if st.indent > 0 {
            (st.indent - 1) as nat
        } else {
            0
        },
        ..st
    }
}

pub open spec fn push_scope_st(st: GenState) -> GenState {
    GenState { scopes: st.scopes.push(Seq::empty()), ..st }
}

pub open spec fn pop_scope_st(st: GenState) -> GenState {
    GenState {
        scopes: if st.scopes.len() > 0 {
            st.scopes.drop_last()
        } else {
            st.scopes
        },
        ..st
    }
}

/// Declares a variable in the innermost scope (nothing without a scope).
pub open spec fn declare_st(st: GenState, name: Seq<char>, ty: TypeView) -> GenState {
    if st.scopes.len() > 0 {
        GenState {
            scopes: st.scopes.update(
                st.scopes.len() - 1,
                st.scopes.last().push((name, ty)),
            ),
            ..st
        }
    } else {
        st
    }
}

/// The name of the next loop index temporary, and the state after taking it.
pub open spec fn temp_name(st: GenState, prefix: Seq<char>) -> Seq<char> {
    "__xlang_"@ + prefix + crate::text::decimal(st.temps)
}

pub open spec fn take_temp(st: GenState) -> GenState {
    GenState {
        temps: if st.temps < usize::MAX {
            st.temps + 1
        } else {
            st.temps
        },
        ..st
    }
}

/// The compound literal for a `Some`/`None`/`Ok`/`Err`/`vec_new()` value of
/// an `Option`/`Result`/`Vec` type, if `value` is one; the C type of `ty`
/// is resolved first.
pub open spec fn constructor_c(g: GenCtx, ty: TypeView, value: Expr) -> Result<Option<Seq<char>>, Seq<char>> {
    match ty {
        TypeView::TypeExpr { name, args } => match c_type_spec(g.structs, ty) {
            Err(m) => Err(m),
            Ok(alias) => if name == "Option"@ && args.len() == 1 {
                match value {
                    Expr::CallExpr { callee, args: cargs } => match callee.node {
                        Expr::Identifier { name: n } => if n@ == "Some"@ && cargs@.len() == 1 {
                            match expr_c(g, cargs@[0].node) {
                                Err(m) => Err(m),
                                Ok(v) => Ok(
                                    Some("("@ + alias + "){ .some = true, .value = "@ + v + " }"@),
                                ),
                            }
                        } else {
                            Ok(None)
                        },
                        _ => Ok(None),
                    },
                    Expr::Identifier { name: n } => if n@ == "None"@ {
                        Ok(Some("("@ + alias + "){ .some = false }"@))
                    } else {
                        Ok(None)
                    },
                    _ => Ok(None),
                }
            } else if name == "Result"@ && args.len() == 2 {
                match value {
                    Expr::CallExpr { callee, args: cargs } => match callee.node {
                        Expr::Identifier { name: n } => if n@ == "Ok"@ && cargs@.len() == 1 {
                            match expr_c(g, cargs@[0].node) {
                                Err(m) => Err(m),
                                Ok(v) => Ok(
                                    Some("("@ + alias + "){ .ok = true, .value = "@ + v + " }"@),
                                ),
                            }
                        } else if n@ == "Err"@ && cargs@.len() == 1 {
                            match expr_c(g, cargs@[0].node) {
                                Err(m) => Err(m),
                                Ok(v) => Ok(
                                    Some("("@ + alias + "){ .ok = false, .error = "@ + v + " }"@),
                                ),
                            }
                        } else {
                            Ok(None)
                        },
                        _ => Ok(None),
                    },
                    _ => Ok(None),
                }
            } else if name == "Vec"@ && args.len() == 1 {
                match value {
                    Expr::CallExpr { callee, args: cargs } => match callee.node {
                        Expr::Identifier { name: n } => if n@ == "vec_new"@ && cargs@.len() == 0 {
                            Ok(Some("("@ + alias + "){ .data = 0, .len = 0, .cap = 0 }"@))
                        } else {
                            Ok(None)
                        },
                        _ => Ok(None),
                    },
                    _ => Ok(None),
                }
            } else {
                Ok(None)
            },
        },
        _ => Ok(None),
    }
}

/// `let name: ty = [elements]` with `ty` an `Array<T, N>` of exactly N
/// elements: a brace initializer of the lowered elements.
pub open spec fn array_let_c(g: GenCtx, name: Seq<char>, ty: TypeView, elements: Seq<Spanned<Expr>>) -> Result<Seq<char>, Seq<char>> {
    match ty {
        TypeView::TypeExpr { name: ty_name, args } => if ty_name != "Array"@ || args.len() != 2 {
            Err("array literal initializer requires Array<T, N>, got "@ + ty_name + "<...>"@)
        } else {
            match const_arg_spec(args[1], "Array length"@) {
                Err(m) => Err(m),
                Ok(len_text) => match crate::checked_type::parse_usize_spec(len_text) {
                    None => Err(
                        "Array length must fit usize for codegen, got "@
                            + crate::text::debug_str_text(len_text),
                    ),
                    Some(n) => if elements.len() != n {
                        Err(
                            "Array literal length mismatch: Array expects "@
                                + crate::text::decimal(n) + " elements, got "@
                                + crate::text::decimal(elements.len()),
                        )
                    } else {
                        match exprs_c(g, elements) {
                            Err(m) => Err(m),
                            Ok(parts) => match c_type_spec(g.structs, ty) {
                                Err(m) => Err(m),
                                Ok(ct) => Ok(
                                    ct + " "@ + name + " = { .data = {"@ + join_text(parts, ", "@)
                                        + "} };"@,
                                ),
                            },
                        }
                    },
                },
            }
        },
        _ => Err("array literal initializer requires an Array<T, N> type annotation"@),
    }
}

/// A `let`: the declaration line, then the variable enters the innermost
/// scope.
pub open spec fn let_c(st: GenState, name: Seq<char>, ty: TypeView, value: Expr) -> Result<GenState, Seq<char>> {
    let g = ctx_of(st);
    let line = match value {
        Expr::ArrayLiteral { elements } => array_let_c(g, name, ty, elements@),
        _ => match constructor_c(g, ty, value) {
            Err(m) => Err(m),
            Ok(Some(rendered)) => match c_type_spec(g.structs, ty) {
                Err(m) => Err(m),
                Ok(ct) => Ok(ct + " "@ + name + " = "@ + rendered + ";"@),
            },
            Ok(None) => match c_type_spec(g.structs, ty) {
                Err(m) => Err(m),
                Ok(ct) => match expr_c(g, value) {
                    Err(m) => Err(m),
                    Ok(v) => Ok(ct + " "@ + name + " = "@ + v + ";"@),
                },
            },
        },
    };
    match line {
        Err(m) => Err(m),
        Ok(l) => Ok(declare_st(emit_line(st, l), name, ty)),
    }
}

/// The value of a `return`: a constructor of the function's return type
/// when it is one, else the lowered expression.
pub open spec fn return_value_c(st: GenState, value: Expr) -> Result<Seq<char>, Seq<char>> {
    match st.ret {
        Some(rt) => match constructor_c(ctx_of(st), rt, value) {
            Err(m) => Err(m),
            Ok(Some(c)) => Ok(c),
            Ok(None) => expr_c(ctx_of(st), value),
        },
        None => expr_c(ctx_of(st), value),
    }
}

/// The statements of a block, in order, or the first error.
pub open spec fn stmts_c(st: GenState, ss: Seq<Spanned<Stmt>>) -> Result<GenState, Seq<char>>
    decreases ss, 0nat,
{
    if ss.len() == 0 {
        Ok(st)
    } else {
        match stmt_c(st, ss[0].node) {
            Err(m) => Err(m),
            Ok(st2) => stmts_c(st2, ss.subrange(1, ss.len() as int)),
        }
    }
}

/// `{ body }` one level deeper, in a scope of its own when `scoped`.
pub open spec fn nested_c(st: GenState, ss: Seq<Spanned<Stmt>>, scoped: bool) -> Result<GenState, Seq<char>>
    decreases ss, 1nat,
{
    let st1 = indent_in(st);
    let st2 = if scoped {
        push_scope_st(st1)
    } else {
        st1
    };
    match stmts_c(st2, ss) {
        Err(m) => Err(m),
        Ok(st3) => Ok(indent_out(if scoped {
            pop_scope_st(st3)
        } else {
            st3
        })),
    }
}

/// One statement: the lines it emits and what it declares.
pub open spec fn stmt_c(st: GenState, s: Stmt) -> Result<GenState, Seq<char>>
    decreases s, 3nat,
{
    let g = ctx_of(st);
    match s {
        Stmt::LetStmt { name, ty, value, .. } => let_c(st, name@, ty@, value.node),
        Stmt::ReturnStmt { value } => match value {
            Some(e) => match return_value_c(st, e.node) {
                Err(m) => Err(m),
                Ok(r) => Ok(emit_line(st, "return "@ + r + ";"@)),
            },
            None => Ok(emit_line(st, "return;"@)),
        },
        Stmt::IfStmt { condition, then_block, else_branch } => match expr_c(g, condition.node) {
            Err(m) => Err(m),
            Ok(c) => match nested_c(
                emit_line(st, "if ("@ + c + ") {"@),
                then_block.statements@,
                false,
            ) {
                Err(m) => Err(m),
                Ok(st2) => match else_branch {
                    None => Ok(emit_line(st2, "}"@)),
                    Some(ElseBranch::Block(b)) => match nested_c(
                        emit_line(st2, "} else {"@),
                        b.statements@,
                        false,
                    ) {
                        Err(m) => Err(m),
                        Ok(st3) => Ok(emit_line(st3, "}"@)),
                    },
                    Some(ElseBranch::IfStmt(inner)) => match stmt_c(
                        indent_in(emit_line(st2, "} else {"@)),
                        inner.node,
                    ) {
                        Err(m) => Err(m),
                        Ok(st3) => Ok(emit_line(indent_out(st3), "}"@)),
                    },
                },
            },
        },
        Stmt::WhileStmt { condition, body } => match expr_c(g, condition.node) {
            Err(m) => Err(m),
            Ok(c) => match nested_c(emit_line(st, "while ("@ + c + ") {"@), body.statements@, true) {
                Err(m) => Err(m),
                Ok(st2) => Ok(emit_line(st2, "}"@)),
            },
        },
        Stmt::ForStmt { .. } => for_c(st, s),
        Stmt::ExprStmt { expr } => match expr_c(g, expr.node) {
            Err(m) => Err(m),
            Ok(e) => Ok(emit_line(st, e + ";"@)),
        },
        Stmt::BreakStmt => Ok(emit_line(st, "break;"@)),
        Stmt::ContinueStmt => Ok(emit_line(st, "continue;"@)),
        Stmt::MatchStmt { .. } => match_c(st, s),
    }
}

/// The element type, loop bound and element array of a `for` over a
/// variable of type `Slice<T>`, `Array<T, N>` or `Vec<T>`.
pub open spec fn for_source(iter_c: Seq<char>, name: Seq<char>, args: Seq<TypeView>) -> Result<(TypeView, Seq<char>, Seq<char>), Seq<char>> {
    if (name == "Slice"@ || name == "Vec"@) && args.len() == 1 {
        Ok((args[0], iter_c + ".len"@, iter_c + ".data"@))
    } else if name == "Array"@ && args.len() == 2 {
        match const_arg_spec(args[1], "Array length"@) {
            Err(m) => Err(m),
            Ok(n) => Ok((args[0], n, iter_c + ".data"@)),
        }
    } else {
        Err(
            "C backend only supports for-in over Slice<T> or Array<T, N>, got "@ + name
                + "<...>"@,
        )
    }
}

/// `for x in v { .. }`: an index loop over the elements of `v`.
pub open spec fn for_c(st: GenState, s: Stmt) -> Result<GenState, Seq<char>>
    decreases s, 2nat,
{
    let g = ctx_of(st);
    match s {
        Stmt::ForStmt { iterator, iterable, body } => match iterable.node {
            Expr::Identifier { name: iname } => match lookup_spec(st.scopes, iname@) {
                Some(TypeView::TypeExpr { name, args }) => match expr_c(g, iterable.node) {
                    Err(m) => Err(m),
                    Ok(iter_c) => match for_source(iter_c, name, args) {
                        Err(m) => Err(m),
                        Ok((elem, bound, data)) => match c_type_spec(g.structs, elem) {
                            Err(m) => Err(m),
                            Ok(elem_c) => {
                                let index = temp_name(st, "i"@);
                                let st1 = take_temp(st);
                                let st2 = emit_line(
                                    st1,
                                    "for (size_t "@ + index + " = 0; "@ + index + " < "@ + bound
                                        + "; "@ + index + "++) {"@,
                                );
                                let st3 = declare_st(push_scope_st(indent_in(st2)), iterator@, elem);
                                let st4 = emit_line(
                                    st3,
                                    elem_c + " "@ + iterator@ + " = "@ + data + "["@ + index + "];"@,
                                );
                                match stmts_c(st4, body.statements@) {
                                    Err(m) => Err(m),
                                    Ok(st5) => Ok(emit_line(indent_out(pop_scope_st(st5)), "}"@)),
                                }
                            },
                        },
                    },
                },
                _ => Err(
                    "unknown iterable "@ + crate::text::debug_str_text(iname@) + " in for loop"@,
                ),
            },
            _ => Err(
                "C backend only supports `for value in values` where values is an identifier"@,
            ),
        },
        _ => Err(Seq::empty()),
    }
}

/// Which arm of a match is the positive one (`Some`/`Ok`) and which the
/// negative one (`None`/`Err`); the last arm of each kind counts. Any other
/// variant is an error.
pub open spec fn arm_split(arms: Seq<MatchArm>) -> Result<(Option<int>, Option<int>), Seq<char>>
    decreases arms.len(),
{
    if arms.len() == 0 {
        Ok((None, None))
    } else {
        match arm_split(arms.drop_last()) {
            Err(m) => Err(m),
            Ok((pos, neg)) => {
                let k = arms.len() - 1;
                match arms.last().pattern {
                    Pattern::VariantPattern { name, .. } => if name@ == "Some"@ || name@ == "Ok"@ {
                        Ok((Some(k), neg))
                    } else if name@ == "None"@ || name@ == "Err"@ {
                        Ok((pos, Some(k)))
                    } else {
                        Err(
                            "C backend does not support match variant "@
                                + crate::text::debug_str_text(name@),
                        )
                    },
                }
            },
        }
    }
}

pub proof fn lemma_arm_split_range(arms: Seq<MatchArm>)
    ensures
        arm_split(arms) matches Ok((pos, neg)) ==> (pos matches Some(k) ==> 0 <= k < arms.len())
            && (neg matches Some(k) ==> 0 <= k < arms.len()),
    decreases arms.len(),
{
    if arms.len() > 0 {
        lemma_arm_split_range(arms.drop_last());
    }
}

/// The body of one arm of a lowered match: the binding (if any) read from
/// `field` of the scrutinee, then the arm's statements, in a scope of their
/// own.
pub open spec fn arm_c(
    st: GenState,
    arm: MatchArm,
    bind_ty: Option<TypeView>,
    scrut_c: Seq<char>,
    field: Seq<char>,
) -> Result<GenState, Seq<char>>
    decreases arm, 0nat,
{
    let st1 = push_scope_st(indent_in(st));
    let st2 = match bind_ty {
        Some(t) => match arm.pattern {
            Pattern::VariantPattern { bindings, .. } => if bindings@.len() > 0 {
                match c_type_spec(st1.structs, t) {
                    Err(m) => Err(m),
                    Ok(tc) => Ok(
                        emit_line(
                            declare_st(st1, bindings@[0]@, t),
                            tc + " "@ + bindings@[0]@ + " = "@ + scrut_c + "."@ + field + ";"@,
                        ),
                    ),
                }
            } else {
                Ok(st1)
            },
        },
        None => Ok(st1),
    };
    match st2 {
        Err(m) => Err(m),
        Ok(st3) => match stmts_c(st3, arm.body.statements@) {
            Err(m) => Err(m),
            Ok(st4) => Ok(indent_out(pop_scope_st(st4))),
        },
    }
}

/// `match v { Some(x) => .., None => .. }` (or `Ok`/`Err`) on a variable:
/// an `if` on the discriminant.
pub open spec fn match_c(st: GenState, s: Stmt) -> Result<GenState, Seq<char>>
    decreases s, 2nat,
{
    let g = ctx_of(st);
    match s {
        Stmt::MatchStmt { value, arms } => match value.node {
            Expr::Identifier { name: sname } => match lookup_spec(st.scopes, sname@) {
                Some(TypeView::TypeExpr { name: ty_name, args }) => {
                    let is_option = ty_name == "Option"@ && args.len() == 1;
                    let is_result = ty_name == "Result"@ && args.len() == 2;
                    if !is_option && !is_result {
                        Err("match supports Option<T> / Result<T, E>, got "@ + ty_name)
                    } else {
                        let disc = if is_option {
                            "some"@
                        } else {
                            "ok"@
                        };
                        let err_ty = if is_option {
                            None
                        } else {
                            Some(args[1])
                        };
                        match arm_split(arms@) {
                            Err(m) => Err(m),
                            Ok((pos, neg)) => match expr_c(g, value.node) {
                                Err(m) => Err(m),
                                Ok(scrut_c) => {
                                    proof {
                                        lemma_arm_split_range(arms@);
                                    }
                                    let st1 = emit_line(st, "if ("@ + scrut_c + "."@ + disc + ") {"@);
                                    let st2 = match pos {
                                        Some(k) => arm_c(st1, arms@[k], Some(args[0]), scrut_c, "value"@),
                                        None => Ok(indent_out(pop_scope_st(push_scope_st(indent_in(st1))))),
                                    };
                                    match st2 {
                                        Err(m) => Err(m),
                                        Ok(st3) => {
                                            let st4 = match neg {
                                                Some(k) => arm_c(
                                                    emit_line(st3, "} else {"@),
                                                    arms@[k],
                                                    err_ty,
                                                    scrut_c,
                                                    "error"@,
                                                ),
                                                None => Ok(st3),
                                            };
                                            match st4 {
                                                Err(m) => Err(m),
                                                Ok(st5) => Ok(emit_line(st5, "}"@)),
                                            }
                                        },
                                    }
                                },
                            },
                        }
                    }
                },
                _ => Err(
                    "match scrutinee "@ + crate::text::debug_str_text(sname@)
                        + " is not a typed variable"@,
                ),
            },
            _ => Err("match currently supports only a variable (identifier) scrutinee"@),
        },
        _ => Err(Seq::empty()),
    }
}

pub open spec fn stmt_result(r: XResult<()>, after: GenState, expected: Result<GenState, Seq<char>>) -> bool {
    match r {
        Ok(()) => expected == Ok::<GenState, Seq<char>>(after),
        Err(XError::Codegen(m)) => expected == Err::<GenState, Seq<char>>(m@),
        Err(_) => false,
    }
}

pub open spec fn opt_type_view(t: Option<TypeNode>) -> Option<TypeView> {
    match t {
        Some(x) => Some(x@),
        None => None,
    }
}

impl CGen {
    /// The whole generator state.
    pub closed spec fn state(&self) -> GenState {
        GenState {
            lines: self.lines_view(),
            indent: self.indent as nat,
            scopes: self.scopes_view(),
            temps: self.temp_counter as nat,
            ret: self.return_type(),
            structs: self.structs(),
        }
    }

    proof fn lemma_ctx(&self)
        ensures
            self.ctx() == ctx_of(self.state()),
    {
    }

    fn emit(&mut self, line: &str)
        ensures
            final(self).state() == emit_line(old(self).state(), line@),
    {
        let mut out = String::new();
        let mut k: usize = 0;
        while k < self.indent
            invariant
                k <= self.indent,
                out@ == indent_text(k as nat),
            decreases self.indent - k,
        {
            out.append("    ");
            k = k + 1;
        }
        out.append(line);
        let ghost old_lines = self.lines_view();
        let ghost ov = out@;
        self.lines.push(out);
        assert(self.lines_view() =~= old_lines.push(ov));
    }

    fn indent_in(&mut self)
        ensures
            final(self).state() == indent_in(old(self).state()),
    {
        if self.indent < usize::MAX {
            self.indent = self.indent + 1;
        }
    }

    fn indent_out(&mut self)
        ensures
            final(self).state() == indent_out(old(self).state()),
    {
        if self.indent > 0 {
            self.indent = self.indent - 1;
        }
    }

    fn push_scope(&mut self)
        ensures
            final(self).state() == push_scope_st(old(self).state()),
    {
        let ghost old_sv = self.scopes_view();
        let scope: Vec<(String, TypeNode)> = Vec::new();
        assert(scope_view(scope) =~= Seq::<(Seq<char>, TypeView)>::empty());
        self.scopes.push(scope);
        assert(self.scopes_view() =~= old_sv.push(Seq::empty()));
    }

    fn pop_scope(&mut self)
        ensures
            final(self).state() == pop_scope_st(old(self).state()),
    {
        let ghost old_sv = self.scopes_view();
        if self.scopes.len() > 0 {
            let _ = self.scopes.pop();
            assert(self.scopes_view() =~= old_sv.drop_last());
        }
    }

    fn declare_var(&mut self, name: &String, ty: &TypeNode)
        ensures
            final(self).state() == declare_st(old(self).state(), name@, ty@),
    {
        let ghost old_sv = self.scopes_view();
        match self.scopes.pop() {
            Some(mut last) => {
                let ghost lv = scope_view(last);
                let entry = (name.clone(), crate::ast::clone_type(ty));
                last.push(entry);
                assert(scope_view(last) =~= lv.push((name@, ty@)));
                self.scopes.push(last);
                assert(self.scopes_view() =~= old_sv.update(
                    old_sv.len() - 1,
                    old_sv.last().push((name@, ty@)),
                ));
            },
            None => {},
        }
    }

    fn next_temp(&mut self, prefix: &str) -> (r: String)
        ensures
            r@ == temp_name(old(self).state(), prefix@),
            final(self).state() == take_temp(old(self).state()),
    {
        let id = self.temp_counter;
        if self.temp_counter < usize::MAX {
            self.temp_counter = self.temp_counter + 1;
        }
        let mut out = text_of("__xlang_");
        out.append(prefix);
        let d = crate::text::decimal_string(id);
        out.append(d.as_str());
        out
    }

    /// The compound literal for a constructor of an `Option`, `Result` or
    /// `Vec` type, if `value` is one.
    fn try_constructor(&self, ty: &TypeNode, value: &Spanned<Expr>) -> (r: XResult<Option<String>>)
        ensures
            gen_opt_view(r) == Some(constructor_c(self.ctx(), ty@, value.node)),
    {
        let (name, args) = match ty {
            TypeNode::TypeExpr { name, args } => (name, args),
            _ => {
                return Ok(None);
            },
        };
        let alias = match self.c_type(ty) {
            Ok(a) => a,
            Err(e) => return Err(e),
        };
        proof {
            crate::ast::lemma_types_view(args@);
        }
        let (callee_name, cargs): (Option<&String>, Option<&Vec<Spanned<Expr>>>) = match &value.node {
            Expr::CallExpr { callee, args: cargs } => match &callee.node {
                Expr::Identifier { name: n } => (Some(n), Some(cargs)),
                _ => (None, None),
            },
            _ => (None, None),
        };
        if args.len() == 1 && text_eq(name, "Option") {
            match (callee_name, cargs) {
                (Some(n), Some(cargs)) => {
                    if text_eq(n, "Some") && cargs.len() == 1 {
                        let v = match self.gen_expr(&cargs[0]) {
                            Ok(v) => v,
                            Err(e) => return Err(e),
                        };
                        let mut out = text_of("(");
                        out.append(alias.as_str());
                        out.append("){ .some = true, .value = ");
                        out.append(v.as_str());
                        out.append(" }");
                        return Ok(Some(out));
                    }
                    return Ok(None);
                },
                _ => {},
            }
            match &value.node {
                Expr::Identifier { name: n } => {
                    if text_eq(n, "None") {
                        let mut out = text_of("(");
                        out.append(alias.as_str());
                        out.append("){ .some = false }");
                        return Ok(Some(out));
                    }
                    Ok(None)
                },
                _ => Ok(None),
            }
        } else if args.len() == 2 && text_eq(name, "Result") {
            match (callee_name, cargs) {
                (Some(n), Some(cargs)) => {
                    if text_eq(n, "Ok") && cargs.len() == 1 {
                        let v = match self.gen_expr(&cargs[0]) {
                            Ok(v) => v,
                            Err(e) => return Err(e),
                        };
                        let mut out = text_of("(");
                        out.append(alias.as_str());
                        out.append("){ .ok = true, .value = ");
                        out.append(v.as_str());
                        out.append(" }");
                        Ok(Some(out))
                    } else if text_eq(n, "Err") && cargs.len() == 1 {
                        let v = match self.gen_expr(&cargs[0]) {
                            Ok(v) => v,
                            Err(e) => return Err(e),
                        };
                        let mut out = text_of("(");
                        out.append(alias.as_str());
                        out.append("){ .ok = false, .error = ");
                        out.append(v.as_str());
                        out.append(" }");
                        Ok(Some(out))
                    } else {
                        Ok(None)
                    }
                },
                _ => Ok(None),
            }
        } else if args.len() == 1 && text_eq(name, "Vec") {
            match (callee_name, cargs) {
                (Some(n), Some(cargs)) => {
                    if text_eq(n, "vec_new") && cargs.len() == 0 {
                        let mut out = text_of("(");
                        out.append(alias.as_str());
                        out.append("){ .data = 0, .len = 0, .cap = 0 }");
                        Ok(Some(out))
                    } else {
                        Ok(None)
                    }
                },
                _ => Ok(None),
            }
        } else {
            Ok(None)
        }
    }

    /// The declaration line of `let name: Array<T, N> = [elements]`.
    fn gen_array_let(&self, name: &String, ty: &TypeNode, elements: &Vec<Spanned<Expr>>) -> (r:
        XResult<String>)
        ensures
            gen_view(r) == Some(array_let_c(self.ctx(), name@, ty@, elements@)),
    {
        let (ty_name, args) = match ty {
            TypeNode::TypeExpr { name, args } => (name, args),
            _ => {
                return Err(
                    codegen_err(
                        text_of("array literal initializer requires an Array<T, N> type annotation"),
                    ),
                );
            },
        };
        proof {
            crate::ast::lemma_types_view(args@);
        }
        if !text_eq(ty_name, "Array") || args.len() != 2 {
            let mut m = text_of("array literal initializer requires Array<T, N>, got ");
            m.append(ty_name.as_str());
            m.append("<...>");
            return Err(codegen_err(m));
        }
        let len_text = match Self::const_type_arg_value(&args[1], "Array length") {
            Ok(t) => t,
            Err(e) => return Err(e),
        };
        let n = match crate::checked_type::parse_usize(&len_text) {
            Some(n) => n,
            None => {
                let mut m = text_of("Array length must fit usize for codegen, got ");
                let d = crate::text::debug_str(len_text.as_str());
                m.append(d.as_str());
                return Err(codegen_err(m));
            },
        };
        if elements.len() != n {
            let mut m = text_of("Array literal length mismatch: Array expects ");
            let a = crate::text::decimal_string(n);
            m.append(a.as_str());
            m.append(" elements, got ");
            let b = crate::text::decimal_string(elements.len());
            m.append(b.as_str());
            return Err(codegen_err(m));
        }
        assert(elements@.subrange(0, elements@.len() as int) =~= elements@);
        let parts = match self.gen_exprs(elements, 0, elements.len()) {
            Ok(p) => p,
            Err(e) => return Err(e),
        };
        let ct = match self.c_type(ty) {
            Ok(c) => c,
            Err(e) => return Err(e),
        };
        let mut out = ct;
        out.append(" ");
        out.append(name.as_str());
        out.append(" = { .data = {");
        let joined = join_strings(&parts, ", ");
        out.append(joined.as_str());
        out.append("} };");
        Ok(out)
    }

    fn gen_let_stmt(&mut self, name: &String, ty: &TypeNode, value: &Spanned<Expr>) -> (r: XResult<
        (),
    >)
        ensures
            stmt_result(r, final(self).state(), let_c(old(self).state(), name@, ty@, value.node)),
    {
        proof {
            self.lemma_ctx();
        }
        let line = match &value.node {
            Expr::ArrayLiteral { elements } => match self.gen_array_let(name, ty, elements) {
                Ok(l) => l,
                Err(e) => return Err(e),
            },
            _ => match self.try_constructor(ty, value) {
                Err(e) => return Err(e),
                Ok(Some(rendered)) => {
                    let ct = match self.c_type(ty) {
                        Ok(c) => c,
                        Err(e) => return Err(e),
                    };
                    let mut out = ct;
                    out.append(" ");
                    out.append(name.as_str());
                    out.append(" = ");
                    out.append(rendered.as_str());
                    out.append(";");
                    out
                },
                Ok(None) => {
                    let ct = match self.c_type(ty) {
                        Ok(c) => c,
                        Err(e) => return Err(e),
                    };
                    let v = match self.gen_expr(value) {
                        Ok(v) => v,
                        Err(e) => return Err(e),
                    };
                    let mut out = ct;
                    out.append(" ");
                    out.append(name.as_str());
                    out.append(" = ");
                    out.append(v.as_str());
                    out.append(";");
                    out
                },
            },
        };
        self.emit(line.as_str());
        self.declare_var(name, ty);
        Ok(())
    }

    /// Lowers a block's statements, in order.
    fn gen_stmts(&mut self, ss: &Vec<Spanned<Stmt>>) -> (r: XResult<()>)
        ensures
            stmt_result(r, final(self).state(), stmts_c(old(self).state(), ss@)),
        decreases ss, 0nat,
    {
        let ghost st0 = self.state();
        let mut k: usize = 0;
        assert(ss@.subrange(0, ss@.len() as int) =~= ss@);
        while k < ss.len()
            invariant
                k <= ss.len(),
                st0 == old(self).state(),
                stmts_c(st0, ss@) == stmts_c(self.state(), ss@.subrange(k as int, ss@.len() as int)),
            decreases ss.len() - k,
        {
            proof {
                assert(decreases_to!(*ss => ss@));
                assert(decreases_to!(ss@ => ss@[k as int]));
                let rest = ss@.subrange(k as int, ss@.len() as int);
                assert(rest[0] == ss@[k as int]);
                assert(rest.subrange(1, rest.len() as int) =~= ss@.subrange(k + 1, ss@.len() as int));
            }
            let ghost cur = self.state();
            let ghost rest = ss@.subrange(k as int, ss@.len() as int);
            match self.gen_stmt(&ss[k]) {
                Ok(()) => {},
                Err(e) => {
                    assert(stmts_c(cur, rest) == match stmt_c(cur, rest[0].node) {
                        Err(m) => Err(m),
                        Ok(st2) => stmts_c(st2, rest.subrange(1, rest.len() as int)),
                    });
                    return Err(e);
                },
            }
            k = k + 1;
        }
        assert(ss@.subrange(k as int, ss@.len() as int) =~= Seq::<Spanned<Stmt>>::empty());
        Ok(())
    }

    /// `{ body }` one level deeper, in a scope of its own when `scoped`.
    fn gen_nested(&mut self, ss: &Vec<Spanned<Stmt>>, scoped: bool) -> (r: XResult<()>)
        ensures
            stmt_result(r, final(self).state(), nested_c(old(self).state(), ss@, scoped)),
        decreases ss, 1nat,
    {
        self.indent_in();
        if scoped {
            self.push_scope();
        }
        match self.gen_stmts(ss) {
            Ok(()) => {},
            Err(e) => {
                return Err(e);
            },
        }
        if scoped {
            self.pop_scope();
        }
        self.indent_out();
        Ok(())
    }

    /// Lowers one statement.
    fn gen_stmt(&mut self, stmt: &Spanned<Stmt>) -> (r: XResult<()>)
        ensures
            stmt_result(r, final(self).state(), stmt_c(old(self).state(), stmt.node)),
        decreases stmt, 3nat,
    {
        proof {
            assert(decreases_to!(*stmt => stmt.node));
            self.lemma_ctx();
        }
        match &stmt.node {
            Stmt::LetStmt { name, ty, value, .. } => self.gen_let_stmt(name, ty, value),
            Stmt::ReturnStmt { value } => match value {
                Some(expr) => {
                    let constructed = match &self.fn_return {
                        Some(ret_ty) => match self.try_constructor(ret_ty, expr) {
                            Ok(c) => c,
                            Err(e) => return Err(e),
                        },
                        None => None,
                    };
                    let rendered = match constructed {
                        Some(c) => c,
                        None => match self.gen_expr(expr) {
                            Ok(v) => v,
                            Err(e) => return Err(e),
                        },
                    };
                    let mut line = text_of("return ");
                    line.append(rendered.as_str());
                    line.append(";");
                    self.emit(line.as_str());
                    Ok(())
                },
                None => {
                    self.emit("return;");
                    Ok(())
                },
            },
            Stmt::IfStmt { condition, then_block, else_branch } => {
                let c = match self.gen_expr(condition) {
                    Ok(c) => c,
                    Err(e) => return Err(e),
                };
                let mut head = text_of("if (");
                head.append(c.as_str());
                head.append(") {");
                self.emit(head.as_str());
                proof {
                    assert(decreases_to!(stmt.node => *then_block));
                    assert(decreases_to!(*then_block => then_block.statements));
                }
                match self.gen_nested(&then_block.statements, false) {
                    Ok(()) => {},
                    Err(e) => {
                        return Err(e);
                    },
                }
                match else_branch {
                    None => {
                        self.emit("}");
                    },
                    Some(ElseBranch::Block(block)) => {
                        self.emit("} else {");
                        proof {
                            assert(decreases_to!(stmt.node => *else_branch));
                            assert(decreases_to!(*else_branch => else_branch->Some_0));
                        }
                        match self.gen_nested(&block.statements, false) {
                            Ok(()) => {},
                            Err(e) => {
                                return Err(e);
                            },
                        }
                        self.emit("}");
                    },
                    Some(ElseBranch::IfStmt(inner)) => {
                        self.emit("} else {");
                        self.indent_in();
                        proof {
                            assert(decreases_to!(stmt.node => *else_branch));
                            assert(decreases_to!(*else_branch => else_branch->Some_0));
                        }
                        match self.gen_stmt(inner) {
                            Ok(()) => {},
                            Err(e) => {
                                return Err(e);
                            },
                        }
                        self.indent_out();
                        self.emit("}");
                    },
                }
                Ok(())
            },
            Stmt::WhileStmt { condition, body } => {
                let c = match self.gen_expr(condition) {
                    Ok(c) => c,
                    Err(e) => return Err(e),
                };
                let mut head = text_of("while (");
                head.append(c.as_str());
                head.append(") {");
                self.emit(head.as_str());
                proof {
                    assert(decreases_to!(stmt.node => *body));
                    assert(decreases_to!(*body => body.statements));
                }
                match self.gen_nested(&body.statements, true) {
                    Ok(()) => {},
                    Err(e) => {
                        return Err(e);
                    },
                }
                self.emit("}");
                Ok(())
            },
            Stmt::ForStmt { .. } => self.gen_for_stmt(stmt),
            Stmt::ExprStmt { expr } => {
                let e = match self.gen_expr(expr) {
                    Ok(e) => e,
                    Err(err) => return Err(err),
                };
                let mut line = e;
                line.append(";");
                self.emit(line.as_str());
                Ok(())
            },
            Stmt::BreakStmt => {
                self.emit("break;");
                Ok(())
            },
            Stmt::ContinueStmt => {
                self.emit("continue;");
                Ok(())
            },
            Stmt::MatchStmt { .. } => self.gen_match_stmt(stmt),
        }
    }

    fn for_source(iter_c: &String, name: &String, args: &Vec<TypeNode>) -> (r: XResult<
        (TypeNode, String, String),
    >)
        ensures
            match r {
                Ok((t, bound, data)) => for_source(iter_c@, name@, crate::ast::types_view(args@))
                    == Ok::<(TypeView, Seq<char>, Seq<char>), Seq<char>>((t@, bound@, data@)),
                Err(XError::Codegen(m)) => for_source(
                    iter_c@,
                    name@,
                    crate::ast::types_view(args@),
                ) == Err::<(TypeView, Seq<char>, Seq<char>), Seq<char>>(m@),
                Err(_) => false,
            },
    {
        proof {
            crate::ast::lemma_types_view(args@);
        }
        if (text_eq(name, "Slice") || text_eq(name, "Vec")) && args.len() == 1 {
            let mut bound = iter_c.clone();
            bound.append(".len");
            let mut data = iter_c.clone();
            data.append(".data");
            Ok((crate::ast::clone_type(&args[0]), bound, data))
        } else if text_eq(name, "Array") && args.len() == 2 {
            let n = match Self::const_type_arg_value(&args[1], "Array length") {
                Ok(n) => n,
                Err(e) => return Err(e),
            };
            let mut data = iter_c.clone();
            data.append(".data");
            Ok((crate::ast::clone_type(&args[0]), n, data))
        } else {
            let mut m = text_of("C backend only supports for-in over Slice<T> or Array<T, N>, got ");
            m.append(name.as_str());
            m.append("<...>");
            Err(codegen_err(m))
        }
    }

    fn gen_for_stmt(&mut self, stmt: &Spanned<Stmt>) -> (r: XResult<()>)
        requires
            stmt.node is ForStmt,
        ensures
            stmt_result(r, final(self).state(), for_c(old(self).state(), stmt.node)),
        decreases stmt, 2nat,
    {
        proof {
            self.lemma_ctx();
        }
        let (iterator, iterable, body) = match &stmt.node {
            Stmt::ForStmt { iterator, iterable, body } => (iterator, iterable, body),
            _ => {
                return Err(codegen_err(String::new()));
            },
        };
        let iname = match &iterable.node {
            Expr::Identifier { name } => name,
            _ => {
                return Err(
                    codegen_err(
                        text_of(
                            "C backend only supports `for value in values` where values is an identifier",
                        ),
                    ),
                );
            },
        };
        let found = self.lookup_var(iname);
        let (tname, targs) = match &found {
            Some(TypeNode::TypeExpr { name, args }) => (name, args),
            _ => {
                let mut m = text_of("unknown iterable ");
                let d = crate::text::debug_str(iname.as_str());
                m.append(d.as_str());
                m.append(" in for loop");
                return Err(codegen_err(m));
            },
        };
        let iter_c = match self.gen_expr(iterable) {
            Ok(c) => c,
            Err(e) => return Err(e),
        };
        let (elem_ty, bound, data) = match Self::for_source(&iter_c, tname, targs) {
            Ok(x) => x,
            Err(e) => return Err(e),
        };
        let elem_c = match self.c_type(&elem_ty) {
            Ok(c) => c,
            Err(e) => return Err(e),
        };
        let index = self.next_temp("i");
        let mut head = text_of("for (size_t ");
        head.append(index.as_str());
        head.append(" = 0; ");
        head.append(index.as_str());
        head.append(" < ");
        head.append(bound.as_str());
        head.append("; ");
        head.append(index.as_str());
        head.append("++) {");
        self.emit(head.as_str());
        self.indent_in();
        self.push_scope();
        self.declare_var(iterator, &elem_ty);
        let mut first = elem_c;
        first.append(" ");
        first.append(iterator.as_str());
        first.append(" = ");
        first.append(data.as_str());
        first.append("[");
        first.append(index.as_str());
        first.append("];");
        self.emit(first.as_str());
        proof {
            assert(decreases_to!(*stmt => stmt.node));
            assert(decreases_to!(stmt.node => *body));
            assert(decreases_to!(*body => body.statements));
        }
        match self.gen_stmts(&body.statements) {
            Ok(()) => {},
            Err(e) => {
                return Err(e);
            },
        }
        self.pop_scope();
        self.indent_out();
        self.emit("}");
        Ok(())
    }
}

impl CGen {
    /// The arm of a match that handles `Some`/`Ok` and the one that handles
    /// `None`/`Err` (the last of each kind).
    fn split_arms(arms: &Vec<MatchArm>) -> (r: XResult<(Option<usize>, Option<usize>)>)
        ensures
            match r {
                Ok((pos, neg)) => arm_split(arms@) == Ok::<(Option<int>, Option<int>), Seq<char>>(
                    (
                        match pos {
                            Some(k) => Some(k as int),
                            None => None,
                        },
                        match neg {
                            Some(k) => Some(k as int),
                            None => None,
                        },
                    ),
                ),
                Err(XError::Codegen(m)) => arm_split(arms@) == Err::<(Option<int>, Option<int>), Seq<char>>(m@),
                Err(_) => false,
            },
    {
        let mut pos: Option<usize> = None;
        let mut neg: Option<usize> = None;
        let mut k: usize = 0;
        while k < arms.len()
            invariant
                k <= arms.len(),
                arm_split(arms@.take(k as int)) == Ok::<(Option<int>, Option<int>), Seq<char>>(
                    (
                        match pos {
                            Some(j) => Some(j as int),
                            None => None,
                        },
                        match neg {
                            Some(j) => Some(j as int),
                            None => None,
                        },
                    ),
                ),
            decreases arms.len() - k,
        {
            proof {
                assert(arms@.take(k + 1).drop_last() =~= arms@.take(k as int));
                assert(arms@.take(k + 1).last() == arms@[k as int]);
            }
            let Pattern::VariantPattern { name, .. } = &arms[k].pattern;
            if text_eq(name, "Some") || text_eq(name, "Ok") {
                pos = Some(k);
            } else if text_eq(name, "None") || text_eq(name, "Err") {
                neg = Some(k);
            } else {
                let mut m = text_of("C backend does not support match variant ");
                let d = crate::text::debug_str(name.as_str());
                m.append(d.as_str());
                proof {
                    lemma_arm_split_err_prefix(arms@, k + 1);
                }
                return Err(codegen_err(m));
            }
            k = k + 1;
        }
        assert(arms@.take(arms.len() as int) =~= arms@);
        Ok((pos, neg))
    }

    /// One arm of a lowered match.
    fn gen_arm(
        &mut self,
        arm: &MatchArm,
        bind_ty: &Option<TypeNode>,
        scrut_c: &String,
        field: &str,
    ) -> (r: XResult<()>)
        ensures
            stmt_result(
                r,
                final(self).state(),
                arm_c(old(self).state(), *arm, opt_type_view(*bind_ty), scrut_c@, field@),
            ),
        decreases arm, 0nat,
    {
        self.indent_in();
        self.push_scope();
        match bind_ty {
            Some(t) => {
                let Pattern::VariantPattern { bindings, .. } = &arm.pattern;
                if bindings.len() > 0 {
                    let tc = match self.c_type(t) {
                        Ok(c) => c,
                        Err(e) => return Err(e),
                    };
                    self.declare_var(&bindings[0], t);
                    let mut line = tc;
                    line.append(" ");
                    line.append(bindings[0].as_str());
                    line.append(" = ");
                    line.append(scrut_c.as_str());
                    line.append(".");
                    line.append(field);
                    line.append(";");
                    self.emit(line.as_str());
                }
            },
            None => {},
        }
        proof {
            assert(decreases_to!(*arm => arm.body));
            assert(decreases_to!(arm.body => arm.body.statements));
        }
        match self.gen_stmts(&arm.body.statements) {
            Ok(()) => {},
            Err(e) => {
                return Err(e);
            },
        }
        self.pop_scope();
        self.indent_out();
        Ok(())
    }

    fn gen_match_stmt(&mut self, stmt: &Spanned<Stmt>) -> (r: XResult<()>)
        requires
            stmt.node is MatchStmt,
        ensures
            stmt_result(r, final(self).state(), match_c(old(self).state(), stmt.node)),
        decreases stmt, 2nat,
    {
        proof {
            self.lemma_ctx();
        }
        let (value, arms) = match &stmt.node {
            Stmt::MatchStmt { value, arms } => (value, arms),
            _ => {
                return Err(codegen_err(String::new()));
            },
        };
        let sname = match &value.node {
            Expr::Identifier { name } => name,
            _ => {
                return Err(
                    codegen_err(
                        text_of("match currently supports only a variable (identifier) scrutinee"),
                    ),
                );
            },
        };
        let found = self.lookup_var(sname);
        let (ty_name, args) = match &found {
            Some(TypeNode::TypeExpr { name, args }) => (name, args),
            _ => {
                let mut m = text_of("match scrutinee ");
                let d = crate::text::debug_str(sname.as_str());
                m.append(d.as_str());
                m.append(" is not a typed variable");
                return Err(codegen_err(m));
            },
        };
        proof {
            crate::ast::lemma_types_view(args@);
        }
        let is_option = text_eq(ty_name, "Option") && args.len() == 1;
        let is_result = text_eq(ty_name, "Result") && args.len() == 2;
        if !is_option && !is_result {
            let mut m = text_of("match supports Option<T> / Result<T, E>, got ");
            m.append(ty_name.as_str());
            return Err(codegen_err(m));
        }
        let disc = if is_option {
            "some"
        } else {
            "ok"
        };
        let payload = Some(crate::ast::clone_type(&args[0]));
        let err_ty = if is_option {
            None
        } else {
            Some(crate::ast::clone_type(&args[1]))
        };
        let (pos, neg) = match Self::split_arms(arms) {
            Ok(x) => x,
            Err(e) => return Err(e),
        };
        let scrut_c = match self.gen_expr(value) {
            Ok(c) => c,
            Err(e) => return Err(e),
        };
        proof {
            lemma_arm_split_range(arms@);
        }
        let mut head = text_of("if (");
        head.append(scrut_c.as_str());
        head.append(".");
        head.append(disc);
        head.append(") {");
        self.emit(head.as_str());
        proof {
            assert(decreases_to!(*stmt => stmt.node));
            assert(decreases_to!(stmt.node => *arms));
            assert(decreases_to!(*arms => arms@));
        }
        match pos {
            Some(k) => {
                proof {
                    assert(decreases_to!(arms@ => arms@[k as int]));
                }
                match self.gen_arm(&arms[k], &payload, &scrut_c, "value") {
                    Ok(()) => {},
                    Err(e) => {
                        return Err(e);
                    },
                }
            },
            None => {
                self.indent_in();
                self.push_scope();
                self.pop_scope();
                self.indent_out();
            },
        }
        match neg {
            Some(k) => {
                self.emit("} else {");
                proof {
                    assert(decreases_to!(arms@ => arms@[k as int]));
                }
                match self.gen_arm(&arms[k], &err_ty, &scrut_c, "error") {
                    Ok(()) => {},
                    Err(e) => {
                        return Err(e);
                    },
                }
            },
            None => {},
        }
        self.emit("}");
        Ok(())
    }
}

proof fn lemma_arm_split_err_prefix(arms: Seq<MatchArm>, n: int)
    requires
        0 <= n <= arms.len(),
        arm_split(arms.take(n)) is Err,
    ensures
        arm_split(arms) == arm_split(arms.take(n)),
    decreases arms.len(),
{
    if n < arms.len() {
        assert(arms.drop_last().take(n) =~= arms.take(n));
        lemma_arm_split_err_prefix(arms.drop_last(), n);
    } else {
        assert(arms.take(n) =~= arms);
    }
}

// ---------------------------------------------------------------------------
// Wrapper typedefs
// ---------------------------------------------------------------------------

/// Typedef definitions by name, in ascending name order (the order of the
/// map they are collected in).
pub open spec fn tbl_insert(t: Seq<(Seq<char>, Seq<char>)>, k: Seq<char>, v: Seq<char>) -> Seq<
    (Seq<char>, Seq<char>),
>
    decreases t.len(),
{
    if t.len() == 0 {
        seq![(k, v)]
    } else if t[0].0 == k {
        t
    } else if lex_lt(k, t[0].0) {
        seq![(k, v)] + t
    } else {
        seq![t[0]] + tbl_insert(t.drop_first(), k, v)
    }
}

pub open spec fn one_arg_message(name: Seq<char>, n: nat) -> Seq<char> {
    name + " expects exactly one type argument, got "@ + decimal(n)
}

pub open spec fn two_arg_message(name: Seq<char>, n: nat) -> Seq<char> {
    name + " expects exactly two type arguments, got "@ + decimal(n)
}

/// The typedefs (and, for `Vec`, the push helper) of one wrapper type whose
/// arguments were collected already.
pub open spec fn wrapper_typedefs(
    structs: Seq<Seq<char>>,
    t: Seq<(Seq<char>, Seq<char>)>,
    ty: TypeView,
    name: Seq<char>,
    args: Seq<TypeView>,
) -> Result<Seq<(Seq<char>, Seq<char>)>, Seq<char>> {
    if name == "Slice"@ {
        if args.len() != 1 {
            Err(one_arg_message(name, args.len()))
        } else {
            match c_type_spec(structs, ty) {
                Err(m) => Err(m),
                Ok(alias) => match c_type_spec(structs, args[0]) {
                    Err(m) => Err(m),
                    Ok(elem_c) => Ok(
                        tbl_insert(
                            t,
                            alias,
                            "typedef struct {\n    "@ + elem_c + " *data;\n    size_t len;\n} "@ + alias
                                + ";"@,
                        ),
                    ),
                },
            }
        }
    } else if name == "Array"@ {
        if args.len() != 2 {
            Err(two_arg_message(name, args.len()))
        } else {
            match const_arg_spec(args[1], "Array length"@) {
                Err(m) => Err(m),
                Ok(len) => match c_type_spec(structs, ty) {
                    Err(m) => Err(m),
                    Ok(alias) => match c_type_spec(structs, args[0]) {
                        Err(m) => Err(m),
                        Ok(elem_c) => Ok(
                            tbl_insert(
                                t,
                                alias,
                                "typedef struct {\n    "@ + elem_c + " data["@ + len + "];\n} "@ + alias
                                    + ";"@,
                            ),
                        ),
                    },
                },
            }
        }
    } else if name == "Option"@ {
        if args.len() != 1 {
            Err(one_arg_message(name, args.len()))
        } else {
            match c_type_spec(structs, ty) {
                Err(m) => Err(m),
                Ok(alias) => match c_type_spec(structs, args[0]) {
                    Err(m) => Err(m),
                    Ok(payload_c) => Ok(
                        tbl_insert(
                            t,
                            alias,
                            "typedef struct {\n    bool some;\n    "@ + payload_c + " value;\n} "@ + alias
                                + ";"@,
                        ),
                    ),
                },
            }
        }
    } else if name == "Result"@ {
        if args.len() != 2 {
            Err(two_arg_message(name, args.len()))
        } else {
            match c_type_spec(structs, ty) {
                Err(m) => Err(m),
                Ok(alias) => match c_type_spec(structs, args[0]) {
                    Err(m) => Err(m),
                    Ok(ok_c) => match c_type_spec(structs, args[1]) {
                        Err(m) => Err(m),
                        Ok(err_c) => Ok(
                            tbl_insert(
                                t,
                                alias,
                                "typedef struct {\n    bool ok;\n    "@ + ok_c + " value;\n    "@ + err_c
                                    + " error;\n} "@ + alias + ";"@,
                            ),
                        ),
                    },
                },
            }
        }
    } else if name == "Vec"@ {
        if args.len() != 1 {
            Err(one_arg_message(name, args.len()))
        } else {
            match c_type_spec(structs, ty) {
                Err(m) => Err(m),
                Ok(alias) => match c_type_spec(structs, args[0]) {
                    Err(m) => Err(m),
                    Ok(elem_c) => match c_type_suffix_spec(structs, args[0]) {
                        Err(m) => Err(m),
                        Ok(sfx) => {
                            let push_name = "__xlang_vec_push_"@ + sfx;
                            let t1 = tbl_insert(
                                t,
                                alias,
                                "typedef struct {\n    "@ + elem_c
                                    + " *data;\n    size_t len;\n    size_t cap;\n} "@ + alias + ";"@,
                            );
                            Ok(
                                tbl_insert(
                                    t1,
                                    push_name,
                                    vec_push_helper(push_name, alias, elem_c),
                                ),
                            )
                        },
                    },
                },
            }
        }
    } else {
        Ok(t)
    }
}

/// The push helper of a vector type: grows the buffer by doubling.
pub open spec fn vec_push_helper(push_name: Seq<char>, alias: Seq<char>, elem_c: Seq<char>) -> Seq<char> {
    "void "@ + push_name + "("@ + alias + " *v, "@ + elem_c
        + " x) {\n    if (v->len == v->cap) {\n        v->cap = v->cap ? v->cap * 2 : 4;\n        v->data = ("@
        + elem_c + " *)realloc(v->data, v->cap * sizeof("@ + elem_c
        + "));\n    }\n    v->data[v->len++] = x;\n}"@
}

/// The typedefs a type needs: those of its arguments first, then its own.
pub open spec fn type_typedefs(structs: Seq<Seq<char>>, t: Seq<(Seq<char>, Seq<char>)>, ty: TypeView) -> Result<Seq<(Seq<char>, Seq<char>)>, Seq<char>>
    decreases ty, 1nat,
{
    match ty {
        TypeView::ConstTypeArg { .. } => Ok(t),
        TypeView::TypeExpr { name, args } => match args_typedefs(structs, t, args) {
            Err(m) => Err(m),
            Ok(t1) => wrapper_typedefs(structs, t1, ty, name, args),
        },
    }
}

pub open spec fn args_typedefs(structs: Seq<Seq<char>>, t: Seq<(Seq<char>, Seq<char>)>, args: Seq<TypeView>) -> Result<Seq<(Seq<char>, Seq<char>)>, Seq<char>>
    decreases args, 0nat,
{
    if args.len() == 0 {
        Ok(t)
    } else {
        match type_typedefs(structs, t, args[0]) {
            Err(m) => Err(m),
            Ok(t1) => args_typedefs(structs, t1, args.subrange(1, args.len() as int)),
        }
    }
}

/// The typedefs needed by the `let` types of a statement, looking into
/// nested blocks.
pub open spec fn stmt_typedefs(structs: Seq<Seq<char>>, t: Seq<(Seq<char>, Seq<char>)>, s: Stmt) -> Result<Seq<(Seq<char>, Seq<char>)>, Seq<char>>
    decreases s, 1nat,
{
    match s {
        Stmt::LetStmt { ty, .. } => type_typedefs(structs, t, ty@),
        Stmt::IfStmt { then_block, else_branch, .. } => match stmts_typedefs(
            structs,
            t,
            then_block.statements@,
        ) {
            Err(m) => Err(m),
            Ok(t1) => match else_branch {
                Some(ElseBranch::Block(b)) => stmts_typedefs(structs, t1, b.statements@),
                Some(ElseBranch::IfStmt(inner)) => stmt_typedefs(structs, t1, inner.node),
                None => Ok(t1),
            },
        },
        Stmt::ForStmt { body, .. } => stmts_typedefs(structs, t, body.statements@),
        Stmt::WhileStmt { body, .. } => stmts_typedefs(structs, t, body.statements@),
        Stmt::MatchStmt { arms, .. } => arms_typedefs(structs, t, arms@),
        _ => Ok(t),
    }
}

pub open spec fn stmts_typedefs(structs: Seq<Seq<char>>, t: Seq<(Seq<char>, Seq<char>)>, ss: Seq<Spanned<Stmt>>) -> Result<Seq<(Seq<char>, Seq<char>)>, Seq<char>>
    decreases ss, 0nat,
{
    if ss.len() == 0 {
        Ok(t)
    } else {
        match stmt_typedefs(structs, t, ss[0].node) {
            Err(m) => Err(m),
            Ok(t1) => stmts_typedefs(structs, t1, ss.subrange(1, ss.len() as int)),
        }
    }
}

pub open spec fn arms_typedefs(structs: Seq<Seq<char>>, t: Seq<(Seq<char>, Seq<char>)>, arms: Seq<MatchArm>) -> Result<Seq<(Seq<char>, Seq<char>)>, Seq<char>>
    decreases arms, 0nat,
{
    if arms.len() == 0 {
        Ok(t)
    } else {
        match stmts_typedefs(structs, t, arms[0].body.statements@) {
            Err(m) => Err(m),
            Ok(t1) => arms_typedefs(structs, t1, arms.subrange(1, arms.len() as int)),
        }
    }
}

/// The typedefs of a list of types, in order.
pub open spec fn types_typedefs(structs: Seq<Seq<char>>, t: Seq<(Seq<char>, Seq<char>)>, ts: Seq<TypeView>) -> Result<Seq<(Seq<char>, Seq<char>)>, Seq<char>>
    decreases ts.len(),
{
    if ts.len() == 0 {
        Ok(t)
    } else {
        match type_typedefs(structs, t, ts[0]) {
            Err(m) => Err(m),
            Ok(t1) => types_typedefs(structs, t1, ts.drop_first()),
        }
    }
}

/// The typedefs an item needs: field types; an alias's type; a function's
/// return type, parameter types and `let` types.
pub open spec fn item_typedefs(structs: Seq<Seq<char>>, t: Seq<(Seq<char>, Seq<char>)>, item: Item) -> Result<Seq<(Seq<char>, Seq<char>)>, Seq<char>> {
    match item {
        Item::StructDecl { fields, .. } => types_typedefs(
            structs,
            t,
            fields@.map_values(|f: FieldDecl| f.ty@),
        ),
        Item::TypeAliasDecl { ty, .. } => type_typedefs(structs, t, ty@),
        Item::FnDecl { params, return_type, body, .. } => match type_typedefs(
            structs,
            t,
            return_type@,
        ) {
            Err(m) => Err(m),
            Ok(t1) => match types_typedefs(structs, t1, params@.map_values(|p: Param| p.ty@)) {
                Err(m) => Err(m),
                Ok(t2) => stmts_typedefs(structs, t2, body.statements@),
            },
        },
        Item::ImplDecl { .. } => Ok(t),
    }
}

pub open spec fn items_typedefs(structs: Seq<Seq<char>>, t: Seq<(Seq<char>, Seq<char>)>, items: Seq<Spanned<Item>>) -> Result<Seq<(Seq<char>, Seq<char>)>, Seq<char>>
    decreases items.len(),
{
    if items.len() == 0 {
        Ok(t)
    } else {
        match item_typedefs(structs, t, items[0].node) {
            Err(m) => Err(m),
            Ok(t1) => items_typedefs(structs, t1, items.drop_first()),
        }
    }
}

/// `t` occurs in `s`.
pub open spec fn contains_text(s: Seq<char>, t: Seq<char>) -> bool {
    exists|i: int| 0 <= i && i + t.len() <= s.len() && #[trigger] s.subrange(i, i + t.len()) == t
}

/// The definition of `name` mentions another pending typedef.
pub open spec fn blocked(pending: Seq<(Seq<char>, Seq<char>)>, name: Seq<char>, def: Seq<char>) -> bool {
    exists|j: int|
        0 <= j < pending.len() && pending[j].0 != name && contains_text(def, #[trigger] pending[j].0)
}

pub open spec fn tbl_get(t: Seq<(Seq<char>, Seq<char>)>, k: Seq<char>) -> Option<Seq<char>>
    decreases t.len(),
{
    if t.len() == 0 {
        None
    } else if t[0].0 == k {
        Some(t[0].1)
    } else {
        tbl_get(t.drop_first(), k)
    }
}

pub open spec fn tbl_remove(t: Seq<(Seq<char>, Seq<char>)>, k: Seq<char>) -> Seq<(Seq<char>, Seq<char>)>
    decreases t.len(),
{
    if t.len() == 0 {
        t
    } else if t[0].0 == k {
        t.drop_first()
    } else {
        seq![t[0]] + tbl_remove(t.drop_first(), k)
    }
}

/// One pass over the names pending at its start: each definition that
/// mentions no other pending typedef is emitted and leaves the pending set.
pub open spec fn order_pass(
    pending: Seq<(Seq<char>, Seq<char>)>,
    names: Seq<Seq<char>>,
    ordered: Seq<Seq<char>>,
) -> (Seq<(Seq<char>, Seq<char>)>, Seq<Seq<char>>, bool)
    decreases names.len(),
{
    if names.len() == 0 {
        (pending, ordered, false)
    } else {
        let name = names[0];
        let (p, o, prog) = match tbl_get(pending, name) {
            None => (pending, ordered, false),
            Some(def) => if blocked(pending, name, def) {
                (pending, ordered, false)
            } else {
                (tbl_remove(pending, name), ordered.push(def), true)
            },
        };
        let (p2, o2, prog2) = order_pass(p, names.drop_first(), o);
        (p2, o2, prog || prog2)
    }
}

pub open spec fn tbl_keys(t: Seq<(Seq<char>, Seq<char>)>) -> Seq<Seq<char>> {
    t.map_values(|e: (Seq<char>, Seq<char>)| e.0)
}

pub open spec fn tbl_values(t: Seq<(Seq<char>, Seq<char>)>) -> Seq<Seq<char>> {
    t.map_values(|e: (Seq<char>, Seq<char>)| e.1)
}

/// The typedefs in dependency order: passes repeat while one makes
/// progress; whatever stays blocked (a cycle) follows in name order.
pub open spec fn order_typedefs(pending: Seq<(Seq<char>, Seq<char>)>, ordered: Seq<Seq<char>>) -> Seq<Seq<char>>
    decreases pending.len(),
{
    if pending.len() == 0 {
        ordered
    } else {
        let (p2, o2, prog) = order_pass(pending, tbl_keys(pending), ordered);
        if prog && p2.len() < pending.len() {
            order_typedefs(p2, o2)
        } else {
            o2 + tbl_values(p2)
        }
    }
}

// ---------------------------------------------------------------------------
// Items and the whole program
// ---------------------------------------------------------------------------

/// Emits lines one after another.
pub open spec fn emit_all(st: GenState, ls: Seq<Seq<char>>) -> GenState
    decreases ls.len(),
{
    if ls.len() == 0 {
        st
    } else {
        emit_line(emit_all(st, ls.drop_last()), ls.last())
    }
}

pub open spec fn includes() -> Seq<Seq<char>> {
    strs(INCLUDES@)
}

/// `Type name` for each parameter, or the first error.
pub open spec fn param_list_c(structs: Seq<Seq<char>>, ps: Seq<Param>) -> Result<Seq<Seq<char>>, Seq<char>>
    decreases ps.len(),
{
    if ps.len() == 0 {
        Ok(Seq::empty())
    } else {
        match c_type_spec(structs, ps[0].ty@) {
            Err(m) => Err(m),
            Ok(ct) => match param_list_c(structs, ps.drop_first()) {
                Err(m) => Err(m),
                Ok(rest) => Ok(seq![ct + " "@ + ps[0].name@] + rest),
            },
        }
    }
}

/// The parameter list of a C function: `main` without parameters takes
/// `argc`/`argv`, any other function without parameters takes `void`.
pub open spec fn params_c(structs: Seq<Seq<char>>, name: Seq<char>, ps: Seq<Param>) -> Result<Seq<char>, Seq<char>> {
    if name == "main"@ && ps.len() == 0 {
        Ok("int argc, char** argv"@)
    } else if ps.len() == 0 {
        Ok("void"@)
    } else {
        match param_list_c(structs, ps) {
            Err(m) => Err(m),
            Ok(parts) => Ok(join_text(parts, ", "@)),
        }
    }
}

/// The C signature of a function: return type, name, parameter list.
pub open spec fn signature_c(structs: Seq<Seq<char>>, name: Seq<char>, ps: Seq<Param>, ret: TypeView) -> Result<Seq<char>, Seq<char>> {
    match c_type_spec(structs, ret) {
        Err(m) => Err(m),
        Ok(r) => match params_c(structs, name, ps) {
            Err(m) => Err(m),
            Ok(p) => Ok(r + " "@ + name + "("@ + p + ")"@),
        },
    }
}

pub open spec fn declare_params(st: GenState, ps: Seq<Param>) -> GenState
    decreases ps.len(),
{
    if ps.len() == 0 {
        st
    } else {
        declare_st(declare_params(st, ps.drop_last()), ps.last().name@, ps.last().ty@)
    }
}

/// A function definition: its signature, the parameters in scope, the
/// `argc`/`argv` capture for `main`, and the body.
pub open spec fn fn_c(st: GenState, name: Seq<char>, ps: Seq<Param>, ret: TypeView, body: Seq<Spanned<Stmt>>) -> Result<GenState, Seq<char>> {
    match signature_c(st.structs, name, ps, ret) {
        Err(m) => Err(m),
        Ok(sig) => {
            let st1 = declare_params(push_scope_st(indent_in(emit_line(st, sig + " {"@))), ps);
            let st2 = if name == "main"@ && ps.len() == 0 {
                emit_line(emit_line(st1, "__xlang_argc_g = argc;"@), "__xlang_argv_g = argv;"@)
            } else {
                st1
            };
            match stmts_c(GenState { ret: Some(ret), ..st2 }, body) {
                Err(m) => Err(m),
                Ok(st3) => Ok(emit_line(indent_out(pop_scope_st(GenState { ret: None, ..st3 })), "}"@)),
            }
        },
    }
}

/// The fields of a struct typedef, one per line.
pub open spec fn field_lines_c(st: GenState, fs: Seq<FieldDecl>) -> Result<GenState, Seq<char>>
    decreases fs.len(),
{
    if fs.len() == 0 {
        Ok(st)
    } else {
        match c_type_spec(st.structs, fs[0].ty@) {
            Err(m) => Err(m),
            Ok(ct) => field_lines_c(emit_line(st, ct + " "@ + fs[0].name@ + ";"@), fs.drop_first()),
        }
    }
}

/// `typedef struct Name { fields } Name;`.
pub open spec fn struct_c(st: GenState, name: Seq<char>, fs: Seq<FieldDecl>) -> Result<GenState, Seq<char>> {
    match field_lines_c(indent_in(emit_line(st, "typedef struct "@ + name + " {"@)), fs) {
        Err(m) => Err(m),
        Ok(st1) => Ok(emit_line(indent_out(st1), "} "@ + name + ";"@)),
    }
}

/// The struct definitions, each followed by an empty line.
pub open spec fn structs_c(st: GenState, items: Seq<Spanned<Item>>) -> Result<GenState, Seq<char>>
    decreases items.len(),
{
    if items.len() == 0 {
        Ok(st)
    } else {
        let next = match items[0].node {
            Item::StructDecl { name, fields } => match struct_c(st, name@, fields@) {
                Err(m) => Err(m),
                Ok(st1) => Ok(emit_line(st1, ""@)),
            },
            _ => Ok(st),
        };
        match next {
            Err(m) => Err(m),
            Ok(st1) => structs_c(st1, items.drop_first()),
        }
    }
}

/// A prototype for every function, so that they may appear in any order.
pub open spec fn prototypes_c(st: GenState, items: Seq<Spanned<Item>>) -> Result<GenState, Seq<char>>
    decreases items.len(),
{
    if items.len() == 0 {
        Ok(st)
    } else {
        let next = match items[0].node {
            Item::FnDecl { name, params, return_type, .. } => match signature_c(
                st.structs,
                name@,
                params@,
                return_type@,
            ) {
                Err(m) => Err(m),
                Ok(sig) => Ok(emit_line(st, sig + ";"@)),
            },
            _ => Ok(st),
        };
        match next {
            Err(m) => Err(m),
            Ok(st1) => prototypes_c(st1, items.drop_first()),
        }
    }
}

pub open spec fn impl_message() -> Seq<char> {
    "C backend does not support impl blocks yet"@
}

/// The function definitions, each followed by an empty line.
pub open spec fn fns_c(st: GenState, items: Seq<Spanned<Item>>) -> Result<GenState, Seq<char>>
    decreases items.len(),
{
    if items.len() == 0 {
        Ok(st)
    } else {
        let next = match items[0].node {
            Item::FnDecl { name, params, return_type, body } => match fn_c(
                st,
                name@,
                params@,
                return_type@,
                body.statements@,
            ) {
                Err(m) => Err(m),
                Ok(st1) => Ok(emit_line(st1, ""@)),
            },
            Item::ImplDecl { .. } => Err(impl_message()),
            _ => Ok(st),
        };
        match next {
            Err(m) => Err(m),
            Ok(st1) => fns_c(st1, items.drop_first()),
        }
    }
}

/// The names of the struct declarations among `items`.
pub open spec fn struct_names_of(items: Seq<Spanned<Item>>) -> Seq<Seq<char>>
    decreases items.len(),
{
    if items.len() == 0 {
        Seq::empty()
    } else {
        let prev = struct_names_of(items.drop_last());
        match items.last().node {
            Item::StructDecl { name, .. } => prev.push(name@),
            _ => prev,
        }
    }
}

/// `s` without trailing whitespace.
pub open spec fn trim_end(s: Seq<char>) -> Seq<char> {
    s.take(crate::symbols::skip_ws_back(s, s.len() as int))
}

/// The C translation unit of a program: includes, runtime helpers, struct
/// definitions, wrapper typedefs in dependency order, prototypes, then the
/// function definitions; trailing whitespace trimmed and one final newline.
pub open spec fn generate_c(st0: GenState, program: Program) -> Result<Seq<char>, Seq<char>> {
    let items = program.items@;
    let st1 = GenState { structs: st0.structs + struct_names_of(items), ..st0 };
    let st2 = emit_all(st1, includes() + runtime_preamble() + networking_preamble());
    match structs_c(st2, items) {
        Err(m) => Err(m),
        Ok(st3) => match items_typedefs(st3.structs, Seq::empty(), items) {
            Err(m) => Err(m),
            Ok(tbl) => {
                let st4 = emit_all(st3, order_typedefs(tbl, Seq::empty()));
                let st5 = if st4.lines.len() > 0 && st4.lines.last().len() == 0 {
                    st4
                } else {
                    emit_line(st4, ""@)
                };
                match prototypes_c(st5, items) {
                    Err(m) => Err(m),
                    Ok(st6) => match fns_c(emit_line(st6, ""@), items) {
                        Err(m) => Err(m),
                        Ok(st7) => Ok(trim_end(join_text(st7.lines, seq!['\n'])) + seq!['\n']),
                    },
                }
            },
        },
    }
}

pub open spec fn tbl_view(t: Seq<(String, String)>) -> Seq<(Seq<char>, Seq<char>)> {
    t.map_values(|e: (String, String)| (e.0@, e.1@))
}

pub open spec fn tbl_result(
    r: XResult<()>,
    after: Seq<(Seq<char>, Seq<char>)>,
    expected: Result<Seq<(Seq<char>, Seq<char>)>, Seq<char>>,
) -> bool {
    match r {
        Ok(()) => expected == Ok::<Seq<(Seq<char>, Seq<char>)>, Seq<char>>(after),
        Err(XError::Codegen(m)) => expected == Err::<Seq<(Seq<char>, Seq<char>)>, Seq<char>>(m@),
        Err(_) => false,
    }
}

proof fn lemma_tbl_insert(t: Seq<(Seq<char>, Seq<char>)>, k: Seq<char>, v: Seq<char>, p: int)
    requires
        0 <= p <= t.len(),
        forall|i: int| 0 <= i < p ==> lex_lt(#[trigger] t[i].0, k),
        p < t.len() ==> !lex_lt(t[p].0, k),
    ensures
        tbl_insert(t, k, v) == (if p < t.len() && t[p].0 == k {
            t
        } else {
            t.take(p) + seq![(k, v)] + t.skip(p)
        }),
    decreases p,
{
    if p == 0 {
        if t.len() > 0 && t[0].0 != k {
            crate::text::lemma_lex_trichotomy(k, t[0].0);
        }
        assert(t.take(0) + seq![(k, v)] + t.skip(0) =~= seq![(k, v)] + t);
    } else {
        let u = t.drop_first();
        crate::text::lemma_lex_irreflexive(k);
        crate::text::lemma_lex_asymmetric(t[0].0, k);
        assert forall|i: int| 0 <= i < p - 1 implies lex_lt(#[trigger] u[i].0, k) by {
            assert(u[i] == t[i + 1]);
        }
        if p < t.len() {
            assert(u[p - 1] == t[p]);
        }
        lemma_tbl_insert(u, k, v, p - 1);
        if !(p < t.len() && t[p].0 == k) {
            assert(t.take(p) + seq![(k, v)] + t.skip(p) =~= seq![t[0]] + (u.take(p - 1) + seq![(k, v)]
                + u.skip(p - 1)));
        } else {
            assert(seq![t[0]] + u =~= t);
        }
    }
}

/// Inserts a typedef unless one of that name is there already.
fn tbl_insert_exec(t: &mut Vec<(String, String)>, k: String, v: String)
    ensures
        tbl_view(final(t)@) == tbl_insert(tbl_view(old(t)@), k@, v@),
{
    let ghost tv = tbl_view(t@);
    let kc = crate::text::str_chars(k.as_str());
    let mut p: usize = 0;
    while p < t.len() && crate::text::text_less(&crate::text::str_chars(t[p].0.as_str()), &kc)
        invariant
            p <= t.len(),
            tv == tbl_view(t@),
            kc@ == k@,
            forall|i: int| 0 <= i < p ==> lex_lt(#[trigger] tv[i].0, k@),
        decreases t.len() - p,
    {
        assert(tv[p as int].0 == t@[p as int].0@);
        p = p + 1;
    }
    proof {
        if p < t.len() {
            assert(tv[p as int].0 == t@[p as int].0@);
        }
        lemma_tbl_insert(tv, k@, v@, p as int);
    }
    if p < t.len() && text_eq(&t[p].0, k.as_str()) {
        return;
    }
    let ghost kv = (k@, v@);
    t.insert(p, (k, v));
    assert(tbl_view(t@) =~= tv.take(p as int) + seq![kv] + tv.skip(p as int));
}

/// The error for a wrapper type given the wrong number of arguments.
fn arity_error(name: &String, n: usize, one: bool) -> (r: XError)
    ensures
        r matches XError::Codegen(m) && m@ == (if one {
            one_arg_message(name@, n as nat)
        } else {
            two_arg_message(name@, n as nat)
        }),
{
    let mut m = name.clone();
    if one {
        m.append(" expects exactly one type argument, got ");
    } else {
        m.append(" expects exactly two type arguments, got ");
    }
    let d = crate::text::decimal_string(n);
    m.append(d.as_str());
    codegen_err(m)
}

proof fn lemma_emit_all_concat(st: GenState, a: Seq<Seq<char>>, b: Seq<Seq<char>>)
    ensures
        emit_all(emit_all(st, a), b) == emit_all(st, a + b),
    decreases b.len(),
{
    if b.len() == 0 {
        assert(a + b =~= a);
    } else {
        lemma_emit_all_concat(st, a, b.drop_last());
        assert((a + b).drop_last() =~= a + b.drop_last());
        assert((a + b).last() == b.last());
    }
}

impl CGen {
    fn emit_all(&mut self, ls: &[&'static str])
        ensures
            final(self).state() == emit_all(old(self).state(), strs(ls@)),
    {
        let ghost st0 = self.state();
        let mut k: usize = 0;
        while k < ls.len()
            invariant
                k <= ls.len(),
                self.state() == emit_all(st0, strs(ls@).take(k as int)),
            decreases ls.len() - k,
        {
            self.emit(ls[k]);
            proof {
                assert(strs(ls@).take(k + 1).drop_last() =~= strs(ls@).take(k as int));
                assert(strs(ls@).take(k + 1).last() == ls@[k as int]@);
            }
            k = k + 1;
        }
        assert(strs(ls@).take(ls.len() as int) =~= strs(ls@));
    }

    /// The typedefs of one wrapper type whose arguments were collected.
    fn wrapper_typedefs(
        &self,
        ty: &TypeNode,
        name: &String,
        args: &Vec<TypeNode>,
        typedefs: &mut Vec<(String, String)>,
    ) -> (r: XResult<()>)
        requires
            *ty == (TypeNode::TypeExpr { name: *name, args: *args }),
        ensures
            tbl_result(
                r,
                tbl_view(final(typedefs)@),
                wrapper_typedefs(
                    self.structs(),
                    tbl_view(old(typedefs)@),
                    ty@,
                    name@,
                    crate::ast::types_view(args@),
                ),
            ),
    {
        proof {
            crate::ast::lemma_types_view(args@);
        }
        if text_eq(name, "Slice") {
            if args.len() != 1 {
                return Err(arity_error(name, args.len(), true));
            }
            let alias = match self.c_type(ty) {
                Ok(a) => a,
                Err(e) => return Err(e),
            };
            let elem_c = match self.c_type(&args[0]) {
                Ok(c) => c,
                Err(e) => return Err(e),
            };
            let mut def = text_of("typedef struct {\n    ");
            def.append(elem_c.as_str());
            def.append(" *data;\n    size_t len;\n} ");
            def.append(alias.as_str());
            def.append(";");
            tbl_insert_exec(typedefs, alias, def);
            Ok(())
        } else if text_eq(name, "Array") {
            if args.len() != 2 {
                return Err(arity_error(name, args.len(), false));
            }
            let len = match Self::const_type_arg_value(&args[1], "Array length") {
                Ok(l) => l,
                Err(e) => return Err(e),
            };
            let alias = match self.c_type(ty) {
                Ok(a) => a,
                Err(e) => return Err(e),
            };
            let elem_c = match self.c_type(&args[0]) {
                Ok(c) => c,
                Err(e) => return Err(e),
            };
            let mut def = text_of("typedef struct {\n    ");
            def.append(elem_c.as_str());
            def.append(" data[");
            def.append(len.as_str());
            def.append("];\n} ");
            def.append(alias.as_str());
            def.append(";");
            tbl_insert_exec(typedefs, alias, def);
            Ok(())
        } else if text_eq(name, "Option") {
            if args.len() != 1 {
                return Err(arity_error(name, args.len(), true));
            }
            let alias = match self.c_type(ty) {
                Ok(a) => a,
                Err(e) => return Err(e),
            };
            let payload_c = match self.c_type(&args[0]) {
                Ok(c) => c,
                Err(e) => return Err(e),
            };
            let mut def = text_of("typedef struct {\n    bool some;\n    ");
            def.append(payload_c.as_str());
            def.append(" value;\n} ");
            def.append(alias.as_str());
            def.append(";");
            tbl_insert_exec(typedefs, alias, def);
            Ok(())
        } else if text_eq(name, "Result") {
            if args.len() != 2 {
                return Err(arity_error(name, args.len(), false));
            }
            let alias = match self.c_type(ty) {
                Ok(a) => a,
                Err(e) => return Err(e),
            };
            let ok_c = match self.c_type(&args[0]) {
                Ok(c) => c,
                Err(e) => return Err(e),
            };
            let err_c = match self.c_type(&args[1]) {
                Ok(c) => c,
                Err(e) => return Err(e),
            };
            let mut def = text_of("typedef struct {\n    bool ok;\n    ");
            def.append(ok_c.as_str());
            def.append(" value;\n    ");
            def.append(err_c.as_str());
            def.append(" error;\n} ");
            def.append(alias.as_str());
            def.append(";");
            tbl_insert_exec(typedefs, alias, def);
            Ok(())
        } else if text_eq(name, "Vec") {
            if args.len() != 1 {
                return Err(arity_error(name, args.len(), true));
            }
            let alias = match self.c_type(ty) {
                Ok(a) => a,
                Err(e) => return Err(e),
            };
            let elem_c = match self.c_type(&args[0]) {
                Ok(c) => c,
                Err(e) => return Err(e),
            };
            let sfx = match self.c_type_suffix(&args[0]) {
                Ok(s) => s,
                Err(e) => return Err(e),
            };
            let mut def = text_of("typedef struct {\n    ");
            def.append(elem_c.as_str());
            def.append(" *data;\n    size_t len;\n    size_t cap;\n} ");
            def.append(alias.as_str());
            def.append(";");
            let alias2 = alias.clone();
            tbl_insert_exec(typedefs, alias, def);
            let mut push_name = text_of("__xlang_vec_push_");
            push_name.append(sfx.as_str());
            let mut helper = text_of("void ");
            helper.append(push_name.as_str());
            helper.append("(");
            helper.append(alias2.as_str());
            helper.append(" *v, ");
            helper.append(elem_c.as_str());
            helper.append(
                " x) {\n    if (v->len == v->cap) {\n        v->cap = v->cap ? v->cap * 2 : 4;\n        v->data = (",
            );
            helper.append(elem_c.as_str());
            helper.append(" *)realloc(v->data, v->cap * sizeof(");
            helper.append(elem_c.as_str());
            helper.append("));\n    }\n    v->data[v->len++] = x;\n}");
            tbl_insert_exec(typedefs, push_name, helper);
            Ok(())
        } else {
            Ok(())
        }
    }

    /// Collects the typedefs a type needs.
    #[verifier::loop_isolation(false)]
    fn collect_type_typedefs(&self, ty: &TypeNode, typedefs: &mut Vec<(String, String)>) -> (r:
        XResult<()>)
        ensures
            tbl_result(
                r,
                tbl_view(final(typedefs)@),
                type_typedefs(self.structs(), tbl_view(old(typedefs)@), ty@),
            ),
        decreases ty, 1nat,
    {
        let (name, args) = match ty {
            TypeNode::TypeExpr { name, args } => {
                proof {
                    assert(decreases_to!(*ty => *args));
                }
                (name, args)
            },
            _ => {
                return Ok(());
            },
        };
        proof {
            crate::ast::lemma_types_view(args@);
            assert(decreases_to!(*ty => *args));
        }
        let ghost av = crate::ast::types_view(args@);
        let ghost t0 = tbl_view(typedefs@);
        let mut k: usize = 0;
        assert(av.subrange(0, av.len() as int) =~= av);
        while k < args.len()
            invariant
                k <= args.len(),
                av == crate::ast::types_view(args@),
                av.len() == args@.len(),
                forall|j: int| 0 <= j < args@.len() ==> #[trigger] av[j] == args@[j]@,
                t0 == tbl_view(old(typedefs)@),
                args_typedefs(self.structs(), t0, av) == args_typedefs(
                    self.structs(),
                    tbl_view(typedefs@),
                    av.subrange(k as int, av.len() as int),
                ),
            decreases args.len() - k,
        {
            proof {
                assert(decreases_to!(*ty => *args));
                assert(decreases_to!(*args => args@));
                assert(decreases_to!(args@ => args@[k as int]));
                let rest = av.subrange(k as int, av.len() as int);
                assert(rest[0] == args@[k as int]@);
                assert(rest.subrange(1, rest.len() as int) =~= av.subrange(k + 1, av.len() as int));
            }
            let ghost cur = tbl_view(typedefs@);
            match self.collect_type_typedefs(&args[k], typedefs) {
                Ok(()) => {},
                Err(e) => {
                    return Err(e);
                },
            }
            k = k + 1;
        }
        assert(av.subrange(k as int, av.len() as int) =~= Seq::<TypeView>::empty());
        self.wrapper_typedefs(ty, name, args, typedefs)
    }

    /// Collects the typedefs of a list of types, in order.
    fn collect_types_typedefs(&self, tys: &Vec<&TypeNode>, typedefs: &mut Vec<(String, String)>) -> (r:
        XResult<()>)
        ensures
            tbl_result(
                r,
                tbl_view(final(typedefs)@),
                types_typedefs(
                    self.structs(),
                    tbl_view(old(typedefs)@),
                    tys@.map_values(|t: &TypeNode| t@),
                ),
            ),
    {
        let ghost tv = tys@.map_values(|t: &TypeNode| t@);
        let ghost t0 = tbl_view(typedefs@);
        let mut k: usize = 0;
        assert(tv.skip(0) =~= tv);
        while k < tys.len()
            invariant
                k <= tys.len(),
                tv == tys@.map_values(|t: &TypeNode| t@),
                t0 == tbl_view(old(typedefs)@),
                types_typedefs(self.structs(), t0, tv) == types_typedefs(
                    self.structs(),
                    tbl_view(typedefs@),
                    tv.skip(k as int),
                ),
            decreases tys.len() - k,
        {
            proof {
                assert(tv.skip(k as int)[0] == tys@[k as int]@);
                assert(tv.skip(k as int).drop_first() =~= tv.skip(k + 1));
            }
            match self.collect_type_typedefs(tys[k], typedefs) {
                Ok(()) => {},
                Err(e) => {
                    return Err(e);
                },
            }
            k = k + 1;
        }
        assert(tv.skip(k as int) =~= Seq::<TypeView>::empty());
        Ok(())
    }

    /// Collects the typedefs of the `let` types in a block.
    fn collect_block_typedefs(&self, ss: &Vec<Spanned<Stmt>>, typedefs: &mut Vec<(String, String)>) -> (r:
        XResult<()>)
        ensures
            tbl_result(
                r,
                tbl_view(final(typedefs)@),
                stmts_typedefs(self.structs(), tbl_view(old(typedefs)@), ss@),
            ),
        decreases ss, 0nat,
    {
        let ghost t0 = tbl_view(typedefs@);
        let mut k: usize = 0;
        assert(ss@.subrange(0, ss@.len() as int) =~= ss@);
        while k < ss.len()
            invariant
                k <= ss.len(),
                t0 == tbl_view(old(typedefs)@),
                stmts_typedefs(self.structs(), t0, ss@) == stmts_typedefs(
                    self.structs(),
                    tbl_view(typedefs@),
                    ss@.subrange(k as int, ss@.len() as int),
                ),
            decreases ss.len() - k,
        {
            proof {
                assert(decreases_to!(*ss => ss@));
                assert(decreases_to!(ss@ => ss@[k as int]));
                let rest = ss@.subrange(k as int, ss@.len() as int);
                assert(rest[0] == ss@[k as int]);
                assert(rest.subrange(1, rest.len() as int) =~= ss@.subrange(k + 1, ss@.len() as int));
            }
            match self.collect_stmt_typedefs(&ss[k], typedefs) {
                Ok(()) => {},
                Err(e) => {
                    return Err(e);
                },
            }
            k = k + 1;
        }
        assert(ss@.subrange(k as int, ss@.len() as int) =~= Seq::<Spanned<Stmt>>::empty());
        Ok(())
    }

    /// Collects the typedefs of the `let` types in a statement.
    #[verifier::loop_isolation(false)]
    fn collect_stmt_typedefs(&self, stmt: &Spanned<Stmt>, typedefs: &mut Vec<(String, String)>) -> (r:
        XResult<()>)
        ensures
            tbl_result(
                r,
                tbl_view(final(typedefs)@),
                stmt_typedefs(self.structs(), tbl_view(old(typedefs)@), stmt.node),
            ),
        decreases stmt, 1nat,
    {
        proof {
            assert(decreases_to!(*stmt => stmt.node));
        }
        match &stmt.node {
            Stmt::LetStmt { ty, .. } => self.collect_type_typedefs(ty, typedefs),
            Stmt::IfStmt { then_block, else_branch, .. } => {
                proof {
                    assert(decreases_to!(stmt.node => *then_block));
                    assert(decreases_to!(*then_block => then_block.statements));
                }
                match self.collect_block_typedefs(&then_block.statements, typedefs) {
                    Ok(()) => {},
                    Err(e) => {
                        return Err(e);
                    },
                }
                match else_branch {
                    Some(ElseBranch::Block(block)) => {
                        proof {
                            assert(decreases_to!(stmt.node => *else_branch));
                            assert(decreases_to!(*else_branch => else_branch->Some_0));
                        }
                        self.collect_block_typedefs(&block.statements, typedefs)
                    },
                    Some(ElseBranch::IfStmt(inner)) => {
                        proof {
                            assert(decreases_to!(stmt.node => *else_branch));
                            assert(decreases_to!(*else_branch => else_branch->Some_0));
                        }
                        self.collect_stmt_typedefs(inner, typedefs)
                    },
                    None => Ok(()),
                }
            },
            Stmt::ForStmt { body, .. } => {
                proof {
                    assert(decreases_to!(stmt.node => *body));
                    assert(decreases_to!(*body => body.statements));
                }
                self.collect_block_typedefs(&body.statements, typedefs)
            },
            Stmt::WhileStmt { body, .. } => {
                proof {
                    assert(decreases_to!(stmt.node => *body));
                    assert(decreases_to!(*body => body.statements));
                }
                self.collect_block_typedefs(&body.statements, typedefs)
            },
            Stmt::MatchStmt { arms, .. } => {
                let ghost t0 = tbl_view(typedefs@);
                let mut k: usize = 0;
                assert(arms@.subrange(0, arms@.len() as int) =~= arms@);
                while k < arms.len()
                    invariant
                        k <= arms.len(),
                        t0 == tbl_view(old(typedefs)@),
                        arms_typedefs(self.structs(), t0, arms@) == arms_typedefs(
                            self.structs(),
                            tbl_view(typedefs@),
                            arms@.subrange(k as int, arms@.len() as int),
                        ),
                    decreases arms.len() - k,
                {
                    proof {
                        assert(decreases_to!(stmt.node => *arms));
                        assert(decreases_to!(*arms => arms@));
                        assert(decreases_to!(arms@ => arms@[k as int]));
                        assert(decreases_to!(arms@[k as int] => arms@[k as int].body));
                        assert(decreases_to!(arms@[k as int].body => arms@[k as int].body.statements));
                        let rest = arms@.subrange(k as int, arms@.len() as int);
                        assert(rest[0] == arms@[k as int]);
                        assert(rest.subrange(1, rest.len() as int) =~= arms@.subrange(
                            k + 1,
                            arms@.len() as int,
                        ));
                    }
                    match self.collect_block_typedefs(&arms[k].body.statements, typedefs) {
                        Ok(()) => {},
                        Err(e) => {
                            return Err(e);
                        },
                    }
                    k = k + 1;
                }
                assert(arms@.subrange(k as int, arms@.len() as int) =~= Seq::<MatchArm>::empty());
                Ok(())
            },
            _ => Ok(()),
        }
    }

    /// Collects the typedefs of one item.
    fn collect_item_typedefs(&self, item: &Item, typedefs: &mut Vec<(String, String)>) -> (r: XResult<
        (),
    >)
        ensures
            tbl_result(
                r,
                tbl_view(final(typedefs)@),
                item_typedefs(self.structs(), tbl_view(old(typedefs)@), *item),
            ),
    {
        match item {
            Item::StructDecl { fields, .. } => {
                let mut tys: Vec<&TypeNode> = Vec::new();
                let mut k: usize = 0;
                while k < fields.len()
                    invariant
                        k <= fields.len(),
                        tys@.map_values(|t: &TypeNode| t@) == fields@.take(k as int).map_values(
                            |f: FieldDecl| f.ty@,
                        ),
                    decreases fields.len() - k,
                {
                    let ghost old_v = tys@.map_values(|t: &TypeNode| t@);
                    tys.push(&fields[k].ty);
                    assert(tys@.map_values(|t: &TypeNode| t@) =~= old_v.push(fields@[k as int].ty@));
                    assert(fields@.take(k + 1) =~= fields@.take(k as int).push(fields@[k as int]));
                    assert(tys@.map_values(|t: &TypeNode| t@) =~= fields@.take(k + 1).map_values(
                        |f: FieldDecl| f.ty@,
                    ));
                    k = k + 1;
                }
                assert(fields@.take(fields.len() as int) =~= fields@);
                self.collect_types_typedefs(&tys, typedefs)
            },
            Item::TypeAliasDecl { ty, .. } => self.collect_type_typedefs(ty, typedefs),
            Item::FnDecl { params, return_type, body, .. } => {
                match self.collect_type_typedefs(return_type, typedefs) {
                    Ok(()) => {},
                    Err(e) => {
                        return Err(e);
                    },
                }
                let mut tys: Vec<&TypeNode> = Vec::new();
                let mut k: usize = 0;
                while k < params.len()
                    invariant
                        k <= params.len(),
                        tys@.map_values(|t: &TypeNode| t@) == params@.take(k as int).map_values(
                            |p: Param| p.ty@,
                        ),
                    decreases params.len() - k,
                {
                    let ghost old_v = tys@.map_values(|t: &TypeNode| t@);
                    tys.push(&params[k].ty);
                    assert(tys@.map_values(|t: &TypeNode| t@) =~= old_v.push(params@[k as int].ty@));
                    assert(params@.take(k + 1) =~= params@.take(k as int).push(params@[k as int]));
                    assert(tys@.map_values(|t: &TypeNode| t@) =~= params@.take(k + 1).map_values(
                        |p: Param| p.ty@,
                    ));
                    k = k + 1;
                }
                assert(params@.take(params.len() as int) =~= params@);
                match self.collect_types_typedefs(&tys, typedefs) {
                    Ok(()) => {},
                    Err(e) => {
                        return Err(e);
                    },
                }
                self.collect_block_typedefs(&body.statements, typedefs)
            },
            Item::ImplDecl { .. } => Ok(()),
        }
    }
}

// ---------------------------------------------------------------------------
// Ordering the typedefs
// ---------------------------------------------------------------------------

proof fn lemma_tbl_first(t: Seq<(Seq<char>, Seq<char>)>, k: Seq<char>, i: int)
    requires
        0 <= i < t.len(),
        forall|j: int| 0 <= j < i ==> #[trigger] t[j].0 != k,
        t[i].0 == k,
    ensures
        tbl_get(t, k) == Some(t[i].1),
        tbl_remove(t, k) == t.remove(i),
    decreases i,
{
    if i > 0 {
        let u = t.drop_first();
        assert forall|j: int| 0 <= j < i - 1 implies #[trigger] u[j].0 != k by {
            assert(u[j] == t[j + 1]);
        }
        assert(u[i - 1] == t[i]);
        lemma_tbl_first(u, k, i - 1);
        assert(seq![t[0]] + u.remove(i - 1) =~= t.remove(i));
    } else {
        assert(t.drop_first() =~= t.remove(0));
    }
}

proof fn lemma_tbl_absent(t: Seq<(Seq<char>, Seq<char>)>, k: Seq<char>)
    requires
        forall|j: int| 0 <= j < t.len() ==> #[trigger] t[j].0 != k,
    ensures
        tbl_get(t, k) is None,
        tbl_remove(t, k) == t,
    decreases t.len(),
{
    if t.len() > 0 {
        let u = t.drop_first();
        assert forall|j: int| 0 <= j < u.len() implies #[trigger] u[j].0 != k by {
            assert(u[j] == t[j + 1]);
        }
        lemma_tbl_absent(u, k);
        assert(seq![t[0]] + u =~= t);
    }
}

proof fn lemma_tbl_remove_len(t: Seq<(Seq<char>, Seq<char>)>, k: Seq<char>)
    ensures
        tbl_get(t, k) is Some ==> tbl_remove(t, k).len() + 1 == t.len(),
        tbl_get(t, k) is None ==> tbl_remove(t, k).len() == t.len(),
    decreases t.len(),
{
    if t.len() > 0 {
        lemma_tbl_remove_len(t.drop_first(), k);
    }
}

proof fn lemma_order_pass_len(p: Seq<(Seq<char>, Seq<char>)>, names: Seq<Seq<char>>, o: Seq<Seq<char>>)
    ensures
        order_pass(p, names, o).0.len() <= p.len(),
        order_pass(p, names, o).2 ==> order_pass(p, names, o).0.len() < p.len(),
    decreases names.len(),
{
    if names.len() > 0 {
        let name = names[0];
        lemma_tbl_remove_len(p, name);
        match tbl_get(p, name) {
            None => lemma_order_pass_len(p, names.drop_first(), o),
            Some(def) => if blocked(p, name, def) {
                lemma_order_pass_len(p, names.drop_first(), o);
            } else {
                lemma_order_pass_len(tbl_remove(p, name), names.drop_first(), o.push(def));
            },
        }
    }
}

/// Where the typedef named `name` stands.
fn tbl_find(t: &Vec<(String, String)>, name: &String) -> (r: Option<usize>)
    ensures
        match r {
            Some(i) => i < t@.len() && tbl_get(tbl_view(t@), name@) == Some(tbl_view(t@)[i as int].1)
                && tbl_remove(tbl_view(t@), name@) == tbl_view(t@).remove(i as int),
            None => tbl_get(tbl_view(t@), name@) is None && tbl_remove(tbl_view(t@), name@)
                == tbl_view(t@),
        },
{
    let ghost tv = tbl_view(t@);
    let mut k: usize = 0;
    while k < t.len()
        invariant
            k <= t.len(),
            tv == tbl_view(t@),
            forall|j: int| 0 <= j < k ==> #[trigger] tv[j].0 != name@,
        decreases t.len() - k,
    {
        assert(tv[k as int].0 == t@[k as int].0@);
        if text_eq(&t[k].0, name.as_str()) {
            proof {
                lemma_tbl_first(tv, name@, k as int);
            }
            return Some(k);
        }
        k = k + 1;
    }
    proof {
        lemma_tbl_absent(tv, name@);
    }
    None
}

/// Whether `t` occurs in `s`.
fn text_contains(s: &Vec<char>, t: &Vec<char>) -> (r: bool)
    ensures
        r == contains_text(s@, t@),
{
    if t.len() > s.len() {
        return false;
    }
    let last = s.len() - t.len();
    let mut i: usize = 0;
    loop
        invariant
            t.len() <= s.len(),
            last == s.len() - t.len(),
            i <= last,
            forall|j: int| 0 <= j < i ==> #[trigger] s@.subrange(j, j + t@.len()) != t@,
        decreases last - i,
    {
        if starts_at(s, i, t) {
            return true;
        }
        if i == last {
            return false;
        }
        i = i + 1;
    }
}

/// Whether the definition of `name` mentions another pending typedef.
fn is_blocked(pending: &Vec<(String, String)>, name: &String, def: &String) -> (r: bool)
    ensures
        r == blocked(tbl_view(pending@), name@, def@),
{
    let ghost pv = tbl_view(pending@);
    let dc = crate::text::str_chars(def.as_str());
    let mut j: usize = 0;
    while j < pending.len()
        invariant
            j <= pending.len(),
            pv == tbl_view(pending@),
            dc@ == def@,
            forall|i: int|
                0 <= i < j ==> !(#[trigger] pv[i].0 != name@ && contains_text(def@, pv[i].0)),
        decreases pending.len() - j,
    {
        assert(pv[j as int].0 == pending@[j as int].0@);
        if !text_eq(&pending[j].0, name.as_str()) {
            let kc = crate::text::str_chars(pending[j].0.as_str());
            if text_contains(&dc, &kc) {
                return true;
            }
        }
        j = j + 1;
    }
    false
}

/// The typedefs in dependency order.
fn order_typedefs_exec(table: Vec<(String, String)>) -> (r: Vec<String>)
    ensures
        r@.map_values(|s: String| s@) == order_typedefs(tbl_view(table@), Seq::empty()),
{
    let ghost goal = order_typedefs(tbl_view(table@), Seq::empty());
    let mut pending = table;
    let mut ordered: Vec<String> = Vec::new();
    assert(ordered@.map_values(|s: String| s@) =~= Seq::<Seq<char>>::empty());
    loop
        invariant_except_break
            goal == order_typedefs(tbl_view(pending@), ordered@.map_values(|s: String| s@)),
        ensures
            ordered@.map_values(|s: String| s@) == goal,
        decreases pending.len(),
    {
        if pending.len() == 0 {
            break;
        }
        let ghost p0 = tbl_view(pending@);
        let ghost o0 = ordered@.map_values(|s: String| s@);
        let ghost full = order_pass(p0, tbl_keys(p0), o0);
        let mut names: Vec<String> = Vec::new();
        let mut k: usize = 0;
        while k < pending.len()
            invariant
                k <= pending.len(),
                p0 == tbl_view(pending@),
                names@.map_values(|s: String| s@) == tbl_keys(p0).take(k as int),
            decreases pending.len() - k,
        {
            let ghost old_n = names@.map_values(|s: String| s@);
            let nm = pending[k].0.clone();
            let ghost nv = nm@;
            names.push(nm);
            assert(names@.map_values(|s: String| s@) =~= old_n.push(nv));
            assert(tbl_keys(p0).take(k + 1) =~= tbl_keys(p0).take(k as int).push(p0[k as int].0));
            k = k + 1;
        }
        assert(tbl_keys(p0).take(pending.len() as int) =~= tbl_keys(p0));
        let ghost nv = tbl_keys(p0);
        let mut progressed = false;
        let mut j: usize = 0;
        assert(nv.skip(0) =~= nv);
        while j < names.len()
            invariant
                j <= names.len(),
                names@.map_values(|s: String| s@) == nv,
                full == order_pass(p0, nv, o0),
                order_pass(tbl_view(pending@), nv.skip(j as int), ordered@.map_values(|s: String| s@)).0
                    == full.0,
                order_pass(tbl_view(pending@), nv.skip(j as int), ordered@.map_values(|s: String| s@)).1
                    == full.1,
                full.2 == (progressed || order_pass(
                    tbl_view(pending@),
                    nv.skip(j as int),
                    ordered@.map_values(|s: String| s@),
                ).2),
            decreases names.len() - j,
        {
            let ghost pc = tbl_view(pending@);
            let ghost oc = ordered@.map_values(|s: String| s@);
            proof {
                assert(nv.skip(j as int)[0] == names@[j as int]@);
                assert(nv.skip(j as int).drop_first() =~= nv.skip(j + 1));
            }
            match tbl_find(&pending, &names[j]) {
                None => {},
                Some(i) => {
                    let def = pending[i].1.clone();
                    if !is_blocked(&pending, &names[j], &def) {
                        let ghost dv = def@;
                        ordered.push(def);
                        let _ = pending.remove(i);
                        progressed = true;
                        proof {
                            assert(ordered@.map_values(|s: String| s@) =~= oc.push(dv));
                            assert(tbl_view(pending@) =~= pc.remove(i as int));
                        }
                    }
                },
            }
            j = j + 1;
        }
        proof {
            assert(nv.skip(j as int) =~= Seq::<Seq<char>>::empty());
            lemma_order_pass_len(p0, nv, o0);
        }
        if !progressed {
            let mut q: usize = 0;
            let ghost base = ordered@.map_values(|s: String| s@);
            while q < pending.len()
                invariant
                    q <= pending.len(),
                    ordered@.map_values(|s: String| s@) == base + tbl_values(tbl_view(pending@)).take(
                        q as int,
                    ),
                decreases pending.len() - q,
            {
                let ghost old_o = ordered@.map_values(|s: String| s@);
                let v = pending[q].1.clone();
                let ghost vv = v@;
                ordered.push(v);
                assert(ordered@.map_values(|s: String| s@) =~= old_o.push(vv));
                assert(tbl_values(tbl_view(pending@)).take(q + 1) =~= tbl_values(
                    tbl_view(pending@),
                ).take(q as int).push(vv));
                q = q + 1;
            }
            assert(tbl_values(tbl_view(pending@)).take(pending.len() as int) =~= tbl_values(
                tbl_view(pending@),
            ));
            break;
        }
    }
    ordered
}

// ---------------------------------------------------------------------------
// Items and the program
// ---------------------------------------------------------------------------

/// `s` without trailing whitespace.
fn trim_end_text(s: &String) -> (r: String)
    ensures
        r@ == trim_end(s@),
{
    let cs = crate::text::str_chars(s.as_str());
    let e = crate::symbols::skip_ws_back_exec(&cs, 0, cs.len());
    assert(cs@.skip(0) =~= cs@);
    let r = crate::text::chars_range_to_string(cs.as_slice(), 0, e);
    assert(cs@.subrange(0, e as int) =~= cs@.take(e as int));
    r
}

impl CGen {
    /// `typedef struct Name { fields } Name;`.
    #[verifier::loop_isolation(false)]
    fn gen_struct(&mut self, name: &String, fields: &Vec<FieldDecl>) -> (r: XResult<()>)
        ensures
            stmt_result(r, final(self).state(), struct_c(old(self).state(), name@, fields@)),
    {
        let mut head = text_of("typedef struct ");
        head.append(name.as_str());
        head.append(" {");
        self.emit(head.as_str());
        self.indent_in();
        let ghost st1 = self.state();
        let mut k: usize = 0;
        assert(fields@.skip(0) =~= fields@);
        while k < fields.len()
            invariant
                k <= fields.len(),
                field_lines_c(st1, fields@) == field_lines_c(self.state(), fields@.skip(k as int)),
            decreases fields.len() - k,
        {
            proof {
                assert(fields@.skip(k as int)[0] == fields@[k as int]);
                assert(fields@.skip(k as int).drop_first() =~= fields@.skip(k + 1));
            }
            let ct = match self.c_type(&fields[k].ty) {
                Ok(c) => c,
                Err(e) => {
                    return Err(e);
                },
            };
            let mut line = ct;
            line.append(" ");
            line.append(fields[k].name.as_str());
            line.append(";");
            self.emit(line.as_str());
            k = k + 1;
        }
        assert(fields@.skip(k as int) =~= Seq::<FieldDecl>::empty());
        self.indent_out();
        let mut tail = text_of("} ");
        tail.append(name.as_str());
        tail.append(";");
        self.emit(tail.as_str());
        Ok(())
    }

    /// The parameter list of a C function.
    fn params_text(&self, name: &String, params: &Vec<Param>) -> (r: XResult<String>)
        ensures
            gen_view(r) == Some(params_c(self.structs(), name@, params@)),
    {
        if text_eq(name, "main") && params.len() == 0 {
            return Ok(text_of("int argc, char** argv"));
        }
        if params.len() == 0 {
            return Ok(text_of("void"));
        }
        let mut parts: Vec<String> = Vec::new();
        let mut k: usize = 0;
        assert(params@.skip(0) =~= params@);
        while k < params.len()
            invariant
                k <= params.len(),
                param_list_c(self.structs(), params@) == prepend_ok(
                    parts@.map_values(|s: String| s@),
                    param_list_c(self.structs(), params@.skip(k as int)),
                ),
            decreases params.len() - k,
        {
            proof {
                assert(params@.skip(k as int)[0] == params@[k as int]);
                assert(params@.skip(k as int).drop_first() =~= params@.skip(k + 1));
            }
            let ct = match self.c_type(&params[k].ty) {
                Ok(c) => c,
                Err(e) => return Err(e),
            };
            let mut p = ct;
            p.append(" ");
            p.append(params[k].name.as_str());
            let ghost old_v = parts@.map_values(|s: String| s@);
            let ghost pv = p@;
            parts.push(p);
            proof {
                assert(parts@.map_values(|s: String| s@) =~= old_v.push(pv));
                match param_list_c(self.structs(), params@.skip(k + 1)) {
                    Ok(ts) => {
                        assert(old_v + (seq![pv] + ts) =~= old_v.push(pv) + ts);
                    },
                    Err(_) => {},
                }
            }
            k = k + 1;
        }
        proof {
            assert(params@.skip(k as int) =~= Seq::<Param>::empty());
            assert(parts@.map_values(|s: String| s@) + Seq::<Seq<char>>::empty() =~= parts@.map_values(
                |s: String| s@,
            ));
        }
        Ok(join_strings(&parts, ", "))
    }

    /// `Ret name(params)`.
    fn signature(&self, name: &String, params: &Vec<Param>, ret: &TypeNode) -> (r: XResult<String>)
        ensures
            gen_view(r) == Some(signature_c(self.structs(), name@, params@, ret@)),
    {
        let r = match self.c_type(ret) {
            Ok(r) => r,
            Err(e) => return Err(e),
        };
        let p = match self.params_text(name, params) {
            Ok(p) => p,
            Err(e) => return Err(e),
        };
        let mut out = r;
        out.append(" ");
        out.append(name.as_str());
        out.append("(");
        out.append(p.as_str());
        out.append(")");
        Ok(out)
    }

    /// A function definition.
    fn gen_fn(&mut self, name: &String, params: &Vec<Param>, return_type: &TypeNode, body: &Block) -> (r:
        XResult<()>)
        ensures
            stmt_result(
                r,
                final(self).state(),
                fn_c(old(self).state(), name@, params@, return_type@, body.statements@),
            ),
    {
        let sig = match self.signature(name, params, return_type) {
            Ok(s) => s,
            Err(e) => return Err(e),
        };
        let mut head = sig;
        head.append(" {");
        self.emit(head.as_str());
        self.indent_in();
        self.push_scope();
        let ghost st1 = self.state();
        let mut k: usize = 0;
        while k < params.len()
            invariant
                k <= params.len(),
                self.state() == declare_params(st1, params@.take(k as int)),
            decreases params.len() - k,
        {
            self.declare_var(&params[k].name, &params[k].ty);
            proof {
                assert(params@.take(k + 1).drop_last() =~= params@.take(k as int));
                assert(params@.take(k + 1).last() == params@[k as int]);
            }
            k = k + 1;
        }
        assert(params@.take(params.len() as int) =~= params@);
        if text_eq(name, "main") && params.len() == 0 {
            self.emit("__xlang_argc_g = argc;");
            self.emit("__xlang_argv_g = argv;");
        }
        self.fn_return = Some(crate::ast::clone_type(return_type));
        match self.gen_stmts(&body.statements) {
            Ok(()) => {},
            Err(e) => {
                return Err(e);
            },
        }
        self.fn_return = None;
        self.pop_scope();
        self.indent_out();
        self.emit("}");
        Ok(())
    }

    /// Records the names of the struct declarations.
    fn collect_struct_names(&mut self, items: &Vec<Spanned<Item>>)
        ensures
            final(self).state() == (GenState {
                structs: old(self).state().structs + struct_names_of(items@),
                ..old(self).state()
            }),
    {
        let ghost st0 = self.state();
        let mut k: usize = 0;
        assert(st0.structs + struct_names_of(items@.take(0)) =~= st0.structs);
        while k < items.len()
            invariant
                k <= items.len(),
                st0 == old(self).state(),
                self.state() == (GenState {
                    structs: st0.structs + struct_names_of(items@.take(k as int)),
                    ..st0
                }),
            decreases items.len() - k,
        {
            proof {
                assert(items@.take(k + 1).drop_last() =~= items@.take(k as int));
                assert(items@.take(k + 1).last() == items@[k as int]);
            }
            match &items[k].node {
                Item::StructDecl { name, .. } => {
                    let ghost old_s = self.structs();
                    self.struct_names.push(name.clone());
                    assert(self.structs() =~= old_s.push(name@));
                    assert(st0.structs + struct_names_of(items@.take(k as int)).push(name@)
                        =~= st0.structs + struct_names_of(items@.take(k + 1)));
                },
                _ => {},
            }
            k = k + 1;
        }
        assert(items@.take(items.len() as int) =~= items@);
    }

    fn emit_runtime_preamble(&mut self)
        ensures
            final(self).state() == emit_all(old(self).state(), runtime_preamble()),
    {
        let ghost st0 = self.state();
        self.emit_all(&RUNTIME_1);
        let ghost acc = strs(RUNTIME_1@);
        self.emit_all(&RUNTIME_2);
        proof {
            lemma_emit_all_concat(st0, acc, strs(RUNTIME_2@));
        }
        let ghost acc = acc + strs(RUNTIME_2@);
        self.emit_all(&RUNTIME_3);
        proof {
            lemma_emit_all_concat(st0, acc, strs(RUNTIME_3@));
        }
        let ghost acc = acc + strs(RUNTIME_3@);
        self.emit_all(&RUNTIME_4);
        proof {
            lemma_emit_all_concat(st0, acc, strs(RUNTIME_4@));
        }
        let ghost acc = acc + strs(RUNTIME_4@);
        self.emit_all(&RUNTIME_5);
        proof {
            lemma_emit_all_concat(st0, acc, strs(RUNTIME_5@));
        }
        let ghost acc = acc + strs(RUNTIME_5@);
        self.emit_all(&RUNTIME_6);
        proof {
            lemma_emit_all_concat(st0, acc, strs(RUNTIME_6@));
        }
        let ghost acc = acc + strs(RUNTIME_6@);
        self.emit_all(&RUNTIME_7);
        proof {
            lemma_emit_all_concat(st0, acc, strs(RUNTIME_7@));
        }
        let ghost acc = acc + strs(RUNTIME_7@);
        self.emit_all(&RUNTIME_8);
        proof {
            lemma_emit_all_concat(st0, acc, strs(RUNTIME_8@));
        }
        let ghost acc = acc + strs(RUNTIME_8@);
        self.emit_all(&RUNTIME_9);
        proof {
            lemma_emit_all_concat(st0, acc, strs(RUNTIME_9@));
        }
        let ghost acc = acc + strs(RUNTIME_9@);
        self.emit_all(&RUNTIME_10);
        proof {
            lemma_emit_all_concat(st0, acc, strs(RUNTIME_10@));
        }
        let ghost acc = acc + strs(RUNTIME_10@);
        self.emit_all(&RUNTIME_11);
        proof {
            lemma_emit_all_concat(st0, acc, strs(RUNTIME_11@));
        }
        let ghost acc = acc + strs(RUNTIME_11@);
        self.emit_all(&RUNTIME_12);
        proof {
            lemma_emit_all_concat(st0, acc, strs(RUNTIME_12@));
        }
        let ghost acc = acc + strs(RUNTIME_12@);
        self.emit_all(&RUNTIME_13);
        proof {
            lemma_emit_all_concat(st0, acc, strs(RUNTIME_13@));
        }
        let ghost acc = acc + strs(RUNTIME_13@);
        self.emit_all(&RUNTIME_14);
        proof {
            lemma_emit_all_concat(st0, acc, strs(RUNTIME_14@));
        }
        let ghost acc = acc + strs(RUNTIME_14@);
    }

    fn emit_networking_preamble(&mut self)
        ensures
            final(self).state() == emit_all(old(self).state(), networking_preamble()),
    {
        let ghost st0 = self.state();
        self.emit_all(&NETWORKING_1);
        let ghost acc = strs(NETWORKING_1@);
        self.emit_all(&NETWORKING_2);
        proof {
            lemma_emit_all_concat(st0, acc, strs(NETWORKING_2@));
        }
        let ghost acc = acc + strs(NETWORKING_2@);
        self.emit_all(&NETWORKING_3);
        proof {
            lemma_emit_all_concat(st0, acc, strs(NETWORKING_3@));
        }
        let ghost acc = acc + strs(NETWORKING_3@);
        self.emit_all(&NETWORKING_4);
        proof {
            lemma_emit_all_concat(st0, acc, strs(NETWORKING_4@));
        }
        let ghost acc = acc + strs(NETWORKING_4@);
        self.emit_all(&NETWORKING_5);
        proof {
            lemma_emit_all_concat(st0, acc, strs(NETWORKING_5@));
        }
        let ghost acc = acc + strs(NETWORKING_5@);
        self.emit_all(&NETWORKING_6);
        proof {
            lemma_emit_all_concat(st0, acc, strs(NETWORKING_6@));
        }
        let ghost acc = acc + strs(NETWORKING_6@);
        self.emit_all(&NETWORKING_7);
        proof {
            lemma_emit_all_concat(st0, acc, strs(NETWORKING_7@));
        }
        let ghost acc = acc + strs(NETWORKING_7@);
        self.emit_all(&NETWORKING_8);
        proof {
            lemma_emit_all_concat(st0, acc, strs(NETWORKING_8@));
        }
        let ghost acc = acc + strs(NETWORKING_8@);
        self.emit_all(&NETWORKING_9);
        proof {
            lemma_emit_all_concat(st0, acc, strs(NETWORKING_9@));
        }
        let ghost acc = acc + strs(NETWORKING_9@);
        self.emit_all(&NETWORKING_10);
        proof {
            lemma_emit_all_concat(st0, acc, strs(NETWORKING_10@));
        }
        let ghost acc = acc + strs(NETWORKING_10@);
        self.emit_all(&NETWORKING_11);
        proof {
            lemma_emit_all_concat(st0, acc, strs(NETWORKING_11@));
        }
        let ghost acc = acc + strs(NETWORKING_11@);
        self.emit_all(&NETWORKING_12);
        proof {
            lemma_emit_all_concat(st0, acc, strs(NETWORKING_12@));
        }
        let ghost acc = acc + strs(NETWORKING_12@);
    }

    /// The struct definitions, each followed by an empty line.
    fn gen_structs(&mut self, items: &Vec<Spanned<Item>>) -> (r: XResult<()>)
        ensures
            stmt_result(r, final(self).state(), structs_c(old(self).state(), items@)),
    {
        let ghost st0 = self.state();
        let mut k: usize = 0;
        assert(items@.skip(0) =~= items@);
        while k < items.len()
            invariant
                k <= items.len(),
                st0 == old(self).state(),
                structs_c(st0, items@) == structs_c(self.state(), items@.skip(k as int)),
            decreases items.len() - k,
        {
            proof {
                assert(items@.skip(k as int)[0] == items@[k as int]);
                assert(items@.skip(k as int).drop_first() =~= items@.skip(k + 1));
            }
            match &items[k].node {
                Item::StructDecl { name, fields } => {
                    match self.gen_struct(name, fields) {
                        Ok(()) => {},
                        Err(e) => {
                            return Err(e);
                        },
                    }
                    self.emit("");
                },
                _ => {},
            }
            k = k + 1;
        }
        assert(items@.skip(k as int) =~= Seq::<Spanned<Item>>::empty());
        Ok(())
    }

    /// The typedefs the items need.
    fn collect_runtime_typedefs(&self, items: &Vec<Spanned<Item>>) -> (r: XResult<
        Vec<(String, String)>,
    >)
        ensures
            match r {
                Ok(t) => items_typedefs(self.structs(), Seq::empty(), items@) == Ok::<
                    Seq<(Seq<char>, Seq<char>)>,
                    Seq<char>,
                >(tbl_view(t@)),
                Err(XError::Codegen(m)) => items_typedefs(self.structs(), Seq::empty(), items@)
                    == Err::<Seq<(Seq<char>, Seq<char>)>, Seq<char>>(m@),
                Err(_) => false,
            },
    {
        let mut typedefs: Vec<(String, String)> = Vec::new();
        let mut k: usize = 0;
        assert(tbl_view(typedefs@) =~= Seq::<(Seq<char>, Seq<char>)>::empty());
        assert(items@.skip(0) =~= items@);
        while k < items.len()
            invariant
                k <= items.len(),
                items_typedefs(self.structs(), Seq::empty(), items@) == items_typedefs(
                    self.structs(),
                    tbl_view(typedefs@),
                    items@.skip(k as int),
                ),
            decreases items.len() - k,
        {
            proof {
                assert(items@.skip(k as int)[0] == items@[k as int]);
                assert(items@.skip(k as int).drop_first() =~= items@.skip(k + 1));
            }
            match self.collect_item_typedefs(&items[k].node, &mut typedefs) {
                Ok(()) => {},
                Err(e) => {
                    return Err(e);
                },
            }
            k = k + 1;
        }
        assert(items@.skip(k as int) =~= Seq::<Spanned<Item>>::empty());
        Ok(typedefs)
    }

    /// Emits the typedefs, one per line.
    fn emit_strings(&mut self, ls: &Vec<String>)
        ensures
            final(self).state() == emit_all(old(self).state(), ls@.map_values(|s: String| s@)),
    {
        let ghost st0 = self.state();
        let ghost lv = ls@.map_values(|s: String| s@);
        let mut q: usize = 0;
        while q < ls.len()
            invariant
                q <= ls.len(),
                lv == ls@.map_values(|s: String| s@),
                self.state() == emit_all(st0, lv.take(q as int)),
            decreases ls.len() - q,
        {
            self.emit(ls[q].as_str());
            proof {
                assert(lv.take(q + 1).drop_last() =~= lv.take(q as int));
                assert(lv.take(q + 1).last() == ls@[q as int]@);
            }
            q = q + 1;
        }
        assert(lv.take(ls.len() as int) =~= lv);
    }

    /// A prototype for every function.
    fn gen_prototypes(&mut self, items: &Vec<Spanned<Item>>) -> (r: XResult<()>)
        ensures
            stmt_result(r, final(self).state(), prototypes_c(old(self).state(), items@)),
    {
        let ghost st0 = self.state();
        let mut k: usize = 0;
        assert(items@.skip(0) =~= items@);
        while k < items.len()
            invariant
                k <= items.len(),
                st0 == old(self).state(),
                prototypes_c(st0, items@) == prototypes_c(self.state(), items@.skip(k as int)),
            decreases items.len() - k,
        {
            proof {
                assert(items@.skip(k as int)[0] == items@[k as int]);
                assert(items@.skip(k as int).drop_first() =~= items@.skip(k + 1));
            }
            match &items[k].node {
                Item::FnDecl { name, params, return_type, .. } => {
                    let sig = match self.signature(name, params, return_type) {
                        Ok(s) => s,
                        Err(e) => {
                            return Err(e);
                        },
                    };
                    let mut line = sig;
                    line.append(";");
                    self.emit(line.as_str());
                },
                _ => {},
            }
            k = k + 1;
        }
        assert(items@.skip(k as int) =~= Seq::<Spanned<Item>>::empty());
        Ok(())
    }

    /// The function definitions, each followed by an empty line.
    fn gen_fns(&mut self, items: &Vec<Spanned<Item>>) -> (r: XResult<()>)
        ensures
            stmt_result(r, final(self).state(), fns_c(old(self).state(), items@)),
    {
        let ghost st0 = self.state();
        let mut k: usize = 0;
        assert(items@.skip(0) =~= items@);
        while k < items.len()
            invariant
                k <= items.len(),
                st0 == old(self).state(),
                fns_c(st0, items@) == fns_c(self.state(), items@.skip(k as int)),
            decreases items.len() - k,
        {
            proof {
                assert(items@.skip(k as int)[0] == items@[k as int]);
                assert(items@.skip(k as int).drop_first() =~= items@.skip(k + 1));
            }
            match &items[k].node {
                Item::FnDecl { name, params, return_type, body } => {
                    match self.gen_fn(name, params, return_type, body) {
                        Ok(()) => {},
                        Err(e) => {
                            return Err(e);
                        },
                    }
                    self.emit("");
                },
                Item::ImplDecl { .. } => {
                    return Err(codegen_err(text_of("C backend does not support impl blocks yet")));
                },
                _ => {},
            }
            k = k + 1;
        }
        assert(items@.skip(k as int) =~= Seq::<Spanned<Item>>::empty());
        Ok(())
    }

    /// The generated text: the lines joined with newlines, trailing
    /// whitespace trimmed, one final newline.
    fn finish_text(&self) -> (r: String)
        ensures
            r@ == trim_end(join_text(self.state().lines, seq!['\n'])) + seq!['\n'],
    {
        let joined = join_strings(&self.lines, "\n");
        proof {
            reveal_strlit("\n");
            assert("\n"@ =~= seq!['\n']);
        }
        let mut out = trim_end_text(&joined);
        out.push('\n');
        out
    }

    /// Lowers a program to one C translation unit: includes, the runtime
    /// helpers, struct definitions, wrapper typedefs in dependency order,
    /// prototypes, then the function definitions.
    pub fn generate(self, program: &Program) -> (r: XResult<String>)
        ensures
            gen_view(r) == Some(generate_c(self.state(), *program)),
    {
        let mut g = self;
        let ghost st0 = g.state();
        let items = &program.items;
        g.collect_struct_names(items);
        let ghost st1 = g.state();
        g.emit_all(&INCLUDES);
        g.emit_runtime_preamble();
        g.emit_networking_preamble();
        proof {
            lemma_emit_all_concat(st1, includes(), runtime_preamble());
            lemma_emit_all_concat(st1, includes() + runtime_preamble(), networking_preamble());
        }
        match g.gen_structs(items) {
            Ok(()) => {},
            Err(e) => {
                return Err(e);
            },
        }
        let ghost st3 = g.state();
        let typedefs = match g.collect_runtime_typedefs(items) {
            Ok(t) => t,
            Err(e) => {
                return Err(e);
            },
        };
        let ordered = order_typedefs_exec(typedefs);
        g.emit_strings(&ordered);
        let n = g.lines.len();
        let last_empty = n > 0 && g.lines[n - 1].as_str().is_empty();
        proof {
            if n > 0 {
                assert(g.state().lines.last() == g.lines@[n - 1]@);
            }
        }
        if !last_empty {
            g.emit("");
        }
        match g.gen_prototypes(items) {
            Ok(()) => {},
            Err(e) => {
                return Err(e);
            },
        }
        g.emit("");
        match g.gen_fns(items) {
            Ok(()) => {},
            Err(e) => {
                return Err(e);
            },
        }
        Ok(g.finish_text())
    }
}


/// A binary expression becomes a parenthesized C expression with the C of
/// its left operand first, then the operator, then the C of its right
/// operand, separated by single spaces; an error in either operand (the left
/// one first) is the error of the whole.
pub proof fn law_binary_c_keeps_operand_order(
    g: GenCtx,
    op: String,
    left: Spanned<Expr>,
    right: Spanned<Expr>,
)
    ensures
        ({
            let e = Expr::BinaryExpr { op, left: Box::new(left), right: Box::new(right) };
            match (expr_c(g, left.node), expr_c(g, right.node)) {
                (Ok(l), Ok(r)) => expr_c(g, e) == Ok::<Seq<char>, Seq<char>>(
                    seq!['('] + l + seq![' '] + op@ + seq![' '] + r + seq![')'],
                ),
                (Err(m), _) => expr_c(g, e) == Err::<Seq<char>, Seq<char>>(m),
                (Ok(_), Err(m)) => expr_c(g, e) == Err::<Seq<char>, Seq<char>>(m),
            }
        }),
{
    reveal_strlit("(");
    reveal_strlit(" ");
    reveal_strlit(")");
    let e = Expr::BinaryExpr { op, left: Box::new(left), right: Box::new(right) };
    match (expr_c(g, left.node), expr_c(g, right.node)) {
        (Ok(l), Ok(r)) => {
            assert("("@ + l + " "@ + op@ + " "@ + r + ")"@ =~= seq!['('] + l + seq![' '] + op@
                + seq![' '] + r + seq![')']);
        },
        _ => {},
    }
}

/// An assignment becomes `(target = value)` with the C of the target first;
/// an indexing becomes `object.data[index]`. An error in a part (the first
/// part first) is the error of the whole.
pub proof fn law_assignment_and_index_c_keep_order(g: GenCtx, a: Spanned<Expr>, b: Spanned<Expr>)
    ensures
        ({
            let asg = Expr::AssignmentExpr { target: Box::new(a), value: Box::new(b) };
            let ix = Expr::IndexExpr { object: Box::new(a), index: Box::new(b) };
            match (expr_c(g, a.node), expr_c(g, b.node)) {
                (Ok(x), Ok(y)) => {
                    &&& expr_c(g, asg) == Ok::<Seq<char>, Seq<char>>(
                        seq!['('] + x + seq![' ', '=', ' '] + y + seq![')'],
                    )
                    &&& expr_c(g, ix) == Ok::<Seq<char>, Seq<char>>(
                        x + seq!['.', 'd', 'a', 't', 'a', '['] + y + seq![']'],
                    )
                },
                (Err(m), _) => expr_c(g, asg) == Err::<Seq<char>, Seq<char>>(m) && expr_c(g, ix)
                    == Err::<Seq<char>, Seq<char>>(m),
                (Ok(_), Err(m)) => expr_c(g, asg) == Err::<Seq<char>, Seq<char>>(m) && expr_c(
                    g,
                    ix,
                ) == Err::<Seq<char>, Seq<char>>(m),
            }
        }),
{
    reveal_strlit("(");
    reveal_strlit(" = ");
    reveal_strlit(")");
    reveal_strlit(".data[");
    reveal_strlit("]");
    match (expr_c(g, a.node), expr_c(g, b.node)) {
        (Ok(x), Ok(y)) => {
            assert("("@ + x + " = "@ + y + ")"@ =~= seq!['('] + x + seq![' ', '=', ' '] + y + seq![')']);
            assert(x + ".data["@ + y + "]"@ =~= x + seq!['.', 'd', 'a', 't', 'a', '['] + y + seq![']']);
        },
        _ => {},
    }
}

} // verus!
