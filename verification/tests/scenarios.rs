use splash::parse::SplashParser;
use splash::run::{Runtime, SplashRuntimeError};
use splash::utils::locate_error;

fn parse_source(src: &str) -> Result<splash::parse::parsers::program::Program, splash::parse::SplashParseError> {
    let parser = SplashParser;
    parser.parse(&src.as_bytes().to_vec())
}

fn parsed(src: &str) -> splash::parse::parsers::program::Program {
    match parse_source(src) {
        Ok(program) => program,
        Err(_) => panic!("the source should parse"),
    }
}

fn parse_failure(src: &str) -> splash::parse::SplashParseError {
    match parse_source(src) {
        Ok(_) => panic!("the source should not parse"),
        Err(e) => e,
    }
}

fn run_source(src: &str) -> (Vec<String>, Result<(), SplashRuntimeError>) {
    let program = parsed(src);
    let (out, res) = Runtime::new(program).start(1 << 32);
    let lines = out
        .into_iter()
        .map(|l| String::from_utf8(l).expect("output should be text"))
        .collect();
    (lines, res)
}

#[test]
fn prints_sum_with_precedence() {
    let (out, res) = run_source("{ let x = 2; let y = 3; print(x + y * 2); }");
    assert!(res.is_ok());
    assert_eq!(out, vec!["8".to_string()]);
}

#[test]
fn recursive_factorial() {
    let (out, res) = run_source(
        "{ fn f(n) { if (n <= 1) { return 1; } return (n * f(n - 1)); } print(f(5)); }",
    );
    assert!(res.is_ok());
    assert_eq!(out, vec!["120".to_string()]);
}

#[test]
fn index_assignment_replaces_one_element() {
    let (out, res) = run_source("{ let list = [1,2,3]; list[1] = 9; print(list); }");
    assert!(res.is_ok());
    assert_eq!(out, vec!["[1, 9, 3]".to_string()]);
}

#[test]
fn division_by_zero_prints_nothing() {
    let (out, res) = run_source("{ print(1 / 0); }");
    assert!(matches!(res, Err(SplashRuntimeError::DivisionByZero)));
    assert!(out.is_empty());
}

#[test]
fn parse_failure_is_located_after_the_binding() {
    let src = "{ let x = ; }";
    let err = parse_failure(src);
    let located = locate_error(&src.as_bytes().to_vec(), &err);
    assert_eq!(located, Some((1, 8)));
}

#[test]
fn locate_error_counts_lines() {
    let src = "{\nlet a = 1;\nlet b = ; }";
    let err = parse_failure(src);
    let (line, _) = locate_error(&src.as_bytes().to_vec(), &err).expect("a located failure");
    assert_eq!(line, 3);
}

#[test]
fn scope_isolation_keeps_inner_let_inside() {
    let (out, res) = run_source("{ let x = 1; if (true) { let x = 2; print(x); } print(x); }");
    assert!(res.is_ok());
    assert_eq!(out, vec!["2".to_string(), "1".to_string()]);
}

#[test]
fn inner_binding_is_gone_after_the_block() {
    let (_, res) = run_source("{ if (true) { let y = 9; } print(y); }");
    assert!(matches!(res, Err(SplashRuntimeError::NotDefined(_))));
}

#[test]
fn nested_blocks_see_enclosing_bindings() {
    let (out, res) = run_source("{ let x = 7; if (true) { if (true) { print(x); } } }");
    assert!(res.is_ok());
    assert_eq!(out, vec!["7".to_string()]);
}

#[test]
fn call_site_scoping_reads_the_call_site() {
    let (out, res) = run_source("{ fn f() { return a; } let a = 42; print(f()); }");
    assert!(res.is_ok());
    assert_eq!(out, vec!["42".to_string()]);
}

#[test]
fn arity_error_with_too_few_arguments() {
    let (_, res) = run_source("{ fn g(a, b) { return a; } print(g(1)); }");
    match res {
        Err(SplashRuntimeError::InvalidSignature(name, expected, actual)) => {
            assert_eq!(name, b"g".to_vec());
            assert_eq!(expected, 2);
            assert_eq!(actual, 1);
        }
        other => panic!("expected the arity failure, got {:?}", other.is_ok()),
    }
}

#[test]
fn arity_error_with_too_many_arguments() {
    let (_, res) = run_source("{ fn g(a, b) { return a; } print(g(1, 2, 3)); }");
    match res {
        Err(SplashRuntimeError::InvalidSignature(_, expected, actual)) => {
            assert_eq!(expected, 2);
            assert_eq!(actual, 3);
        }
        other => panic!("expected the arity failure, got {:?}", other.is_ok()),
    }
}

#[test]
fn push_rejects_a_non_list() {
    let (_, res) = run_source("{ print(push(1, 2)); }");
    assert!(matches!(res, Err(SplashRuntimeError::NotAList(_))));
}

#[test]
fn while_loop_counts_up() {
    let (out, res) = run_source("{ let i = 0; while (i < 5) { i = i + 1; } print(i); }");
    assert!(res.is_ok());
    assert_eq!(out, vec!["5".to_string()]);
}

#[test]
fn for_loop_sums_a_list() {
    let (out, res) = run_source("{ let s = 0; for v in [1,2,3] { s = s + v; } print(s); }");
    assert!(res.is_ok());
    assert_eq!(out, vec!["6".to_string()]);
}

#[test]
fn comments_are_trivia() {
    let (out, res) = run_source("{ /* a block comment */ let x = 1; // a line comment\n print(x); }");
    assert!(res.is_ok());
    assert_eq!(out, vec!["1".to_string()]);
}

#[test]
fn string_concatenation_and_display() {
    let (out, res) = run_source("{ print(\"ab\" + \"cd\"); print(string(42)); }");
    assert!(res.is_ok());
    assert_eq!(out, vec!["abcd".to_string(), "42".to_string()]);
}

#[test]
fn builtin_length_and_range() {
    let (out, res) = run_source("{ print(length([1,2])); print(range(3)); print(length(\"abc\")); }");
    assert!(res.is_ok());
    assert_eq!(
        out,
        vec!["2".to_string(), "[0, 1, 2]".to_string(), "3".to_string()]
    );
}

#[test]
fn equality_and_negation() {
    let (out, res) = run_source("{ print(1 == 2); print(!true); print(\"a\" != \"b\"); }");
    assert!(res.is_ok());
    assert_eq!(
        out,
        vec!["false".to_string(), "false".to_string(), "true".to_string()]
    );
}

#[test]
fn equal_priority_operators_associate_left_to_right() {
    let (out, res) = run_source("{ print(10 - 4 - 3); }");
    assert!(res.is_ok());
    assert_eq!(out, vec!["3".to_string()]);
}

#[test]
fn overflow_is_a_runtime_error() {
    let (_, res) = run_source("{ print(9223372036854775807 + 1); }");
    assert!(matches!(res, Err(SplashRuntimeError::Overflow)));
}

#[test]
fn negative_index_is_out_of_range() {
    let (_, res) = run_source("{ let l = [1]; print(l[0 - 1]); }");
    assert!(matches!(res, Err(SplashRuntimeError::OutOfRange(_))));
}

#[test]
fn index_out_of_bounds_is_out_of_range() {
    let (_, res) = run_source("{ let l = [1, 2]; print(l[2]); }");
    assert!(matches!(res, Err(SplashRuntimeError::OutOfRange(_))));
}

#[test]
fn indexing_a_number_is_not_a_list() {
    let (_, res) = run_source("{ let n = 4; print(n[0]); }");
    assert!(matches!(res, Err(SplashRuntimeError::NotAList(_))));
}

#[test]
fn indexing_with_a_boolean_is_not_an_index() {
    let (_, res) = run_source("{ let l = [1]; print(l[true]); }");
    assert!(matches!(res, Err(SplashRuntimeError::NotAnIndex(_))));
}

#[test]
fn non_boolean_condition_is_an_invalid_predicate() {
    let (_, res) = run_source("{ if (1) { print(1); } }");
    assert!(matches!(res, Err(SplashRuntimeError::InvalidPredicate(_))));
}

#[test]
fn undefined_variable_is_not_defined() {
    let (_, res) = run_source("{ print(zz); }");
    assert!(matches!(res, Err(SplashRuntimeError::NotDefined(_))));
}

#[test]
fn assignment_to_unbound_name_fails() {
    let (_, res) = run_source("{ q = 1; }");
    assert!(matches!(res, Err(SplashRuntimeError::NotDefined(_))));
}

#[test]
fn print_of_nothing_is_no_value() {
    let (_, res) = run_source("{ let v = print(1); }");
    assert!(matches!(res, Err(SplashRuntimeError::NoValue)));
}

#[test]
fn a_small_budget_runs_out_and_a_larger_one_finishes() {
    let program = parsed("{ let i = 0; while (i < 50) { i = i + 1; } print(i); }");
    let runtime = Runtime::new(program);
    let (_, starved) = runtime.start(8);
    assert!(matches!(starved, Err(SplashRuntimeError::OutOfFuel)));
    let (out, res) = runtime.start(1 << 32);
    assert!(res.is_ok());
    assert_eq!(out, vec![b"50".to_vec()]);
}

#[test]
fn push_and_pop_are_copy_on_use() {
    let (out, res) = run_source(
        "{ let l = [1]; let m = push(l, 2); let n = pop(l); print(l); print(m); print(n); }",
    );
    assert!(res.is_ok());
    assert_eq!(
        out,
        vec!["[1]".to_string(), "[1, 2]".to_string(), "[]".to_string()]
    );
}

#[test]
fn shadowing_parameter_hides_call_site_binding() {
    let (out, res) = run_source("{ fn f(a) { return a; } let a = 1; print(f(9)); }");
    assert!(res.is_ok());
    assert_eq!(out, vec!["9".to_string()]);
}

#[test]
fn return_propagates_through_nested_blocks() {
    let (out, res) = run_source(
        "{ fn f() { while (true) { if (true) { return 5; } } return 0; } print(f()); }",
    );
    assert!(res.is_ok());
    assert_eq!(out, vec!["5".to_string()]);
}
