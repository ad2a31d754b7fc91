use eval_sandbox::gov::Limits;
use eval_sandbox::registry::{bootstrap, initialize, Module};

fn base() -> eval_sandbox::registry::BaseEnvironment {
    initialize().ok().expect("bootstrap must succeed")
}

fn run(src: &str) -> String {
    let b = base();
    eval_sandbox::evaluate_default(&b, src)
}

#[test]
fn addition_formats_value_and_type() {
    assert_eq!(run("1 + 1"), "2 : Int");
}

#[test]
fn unterminated_string_reports_lex_error() {
    assert_eq!(
        run("\"abc"),
        "syntax error: unterminated string literal at offset 0"
    );
}

#[test]
fn runaway_tail_recursion_times_out() {
    let started = std::time::Instant::now();
    let msg = run("rec f(x: Int): Int = f(x) in f(0)");
    assert_eq!(
        msg,
        "execution aborted: the evaluation exceeded the allowed execution time"
    );
    assert!(started.elapsed().as_secs() < 15);
}

#[test]
fn unbounded_allocation_hits_memory_limit() {
    assert_eq!(
        run("rec f(s: Str): Str = f(s ++ s) in f(\"ab\")"),
        "execution aborted: the evaluation exceeded the memory limit"
    );
}

#[test]
fn deep_recursion_hits_stack_limit() {
    let b = base();
    let lim = Limits {
        max_heap_bytes: 2_000_000,
        max_stack_depth: 64,
        max_wall_ms: 10_000,
    };
    let msg = eval_sandbox::evaluate(
        &b,
        "rec f(x: Int): Int = if x < 1 then 0 else 1 + f(x - 1) in f(1000)",
        &lim,
    );
    assert_eq!(
        msg,
        "execution aborted: the evaluation exceeded the call stack depth limit"
    );
}

#[test]
fn sessions_are_isolated() {
    let b = base();
    assert_eq!(eval_sandbox::evaluate_default(&b, "let x = 1"), "1 : Int");
    assert_eq!(eval_sandbox::evaluate_default(&b, "let x = 2"), "2 : Int");
    // the binding from either session is gone in a fresh one
    assert_eq!(
        eval_sandbox::evaluate_default(&b, "x"),
        "runtime fault: unbound variable: x"
    );
}

#[test]
fn reformat_is_idempotent_on_its_output() {
    let b = base();
    let once = eval_sandbox::reformat(&b, "let x=1+2 in  x*3").expect("grammatical");
    let twice = eval_sandbox::reformat(&b, &once).expect("still grammatical");
    assert_eq!(once, twice);
    assert_eq!(once, "let x = 1 + 2 in x * 3");
}

#[test]
fn reformat_surfaces_parse_errors() {
    let b = base();
    let r = eval_sandbox::reformat(&b, "1 +");
    assert_eq!(r, Err("syntax error: unexpected end of input".to_string()));
}

#[test]
fn duplicate_module_name_is_configuration_error() {
    let mods = vec![
        Module {
            name: "std.dup".to_string(),
            prims: Vec::new(),
        },
        Module {
            name: "std.dup".to_string(),
            prims: Vec::new(),
        },
    ];
    match bootstrap(mods) {
        Ok(_) => panic!("duplicate registration must fail"),
        Err(e) => assert_eq!(e.message, "duplicate primitive module name: std.dup"),
    }
}

#[test]
fn initialize_builds_the_base_environment() {
    let b = base();
    assert_eq!(b.modules.len(), 3);
    assert!(b.import_paths.is_empty());
}

#[test]
fn registered_primitives_are_callable() {
    assert_eq!(run("std.string.prim.len(\"abc\")"), "3 : Int");
    assert_eq!(run("std.int.prim.abs(0 - 5)"), "5 : Int");
    assert_eq!(run("std.int.prim.neg(7)"), "-7 : Int");
}

#[test]
fn division_by_zero_is_a_runtime_fault() {
    assert_eq!(run("1 / 0"), "runtime fault: division by zero");
}

#[test]
fn integer_overflow_is_a_runtime_fault() {
    assert_eq!(
        run("9223372036854775807 + 1"),
        "runtime fault: integer overflow"
    );
}

#[test]
fn strings_concatenate_and_render_quoted() {
    assert_eq!(run("\"ab\" ++ \"cd\""), "\"abcd\" : Str");
}

#[test]
fn conditionals_and_bindings_evaluate() {
    assert_eq!(run("if 1 < 2 then 10 else 20"), "10 : Int");
    assert_eq!(run("let x = 5 in x * x"), "25 : Int");
    assert_eq!(run("let y = 2 in let y = 3 in y"), "3 : Int");
    assert_eq!(run("true"), "true : Bool");
}

#[test]
fn terminating_recursion_returns_its_value() {
    assert_eq!(
        run("rec f(x: Int): Int = if x < 1 then 0 else x + f(x - 1) in f(10)"),
        "55 : Int"
    );
}

#[test]
fn unknown_names_are_reported() {
    assert_eq!(run("nope(1)"), "runtime fault: unknown function: nope");
    assert_eq!(run("1 + zz"), "runtime fault: unbound variable: zz");
}

#[test]
fn lexical_errors_name_their_offset() {
    assert_eq!(run("1 ? 2"), "syntax error: unexpected character at offset 2");
    assert_eq!(
        run("99999999999999999999"),
        "syntax error: integer literal out of range at offset 0"
    );
}

#[test]
fn declared_parameter_types_are_enforced() {
    assert_eq!(
        run("rec f(x: Int): Int = x in f(\"a\")"),
        "type error: value does not match its declared type"
    );
}

#[test]
fn declared_return_types_are_enforced() {
    assert_eq!(
        run("rec f(x: Int): Str = x in f(1)"),
        "type error: value does not match its declared type"
    );
}

#[test]
fn division_truncates_toward_zero() {
    assert_eq!(run("(0 - 7) / 2"), "-3 : Int");
    assert_eq!(run("7 / (0 - 2)"), "-3 : Int");
    assert_eq!(run("(0 - 7) / (0 - 2)"), "3 : Int");
    assert_eq!(run("7 / 2"), "3 : Int");
}

#[test]
fn string_values_render_on_one_line() {
    let line = run("\"a\nb\"");
    assert_eq!(line, "\"a\\nb\" : Str");
    assert!(!line.contains('\n'));
}
