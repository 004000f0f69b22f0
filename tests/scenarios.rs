use rlox::grammar::GrammerError;
use rlox::interpreter::Interpreter;
use rlox::parser::Parser;
use rlox::scanner::Scanner;
use rlox::value::RuntimeError;

#[derive(Debug, PartialEq)]
enum Failure {
    Scan(Vec<String>),
    Parse(GrammerError),
    Run(RuntimeError),
}

fn run_in(interpreter: &mut Interpreter, source: &str) -> (Vec<String>, Result<(), Failure>) {
    let mut scanner = Scanner::new();
    let tokens = scanner.scan_tokens(source);
    let errors = scanner.errors();
    if !errors.is_empty() {
        return (Vec::new(), Err(Failure::Scan(errors)));
    }
    let stmts = match Parser::new().parse(tokens) {
        Ok(s) => s,
        Err(e) => return (Vec::new(), Err(Failure::Parse(e))),
    };
    let r = interpreter.interpret(stmts).map_err(Failure::Run);
    (interpreter.take_output(), r)
}

fn run(source: &str) -> (Vec<String>, Result<(), Failure>) {
    run_in(&mut Interpreter::new(), source)
}

fn output(source: &str) -> Vec<String> {
    let (out, r) = run(source);
    assert_eq!(r, Ok(()), "program failed: {}", source);
    out
}

#[test]
fn arithmetic_precedence() {
    assert_eq!(output("print 3 * 5 + 6 * 3;"), vec!["33"]);
}

#[test]
fn block_shadows_global() {
    assert_eq!(output("var a = 1; { var a = 2; print a; } print a;"), vec!["2", "1"]);
}

#[test]
fn scoping_walk() {
    let src = r#"
var a = "global a"; var b = "global b"; var c = "global c";
{ var a = "outer a"; var b = "outer b";
  { var a = "inner a"; print a; print b; print c; }
  print a; print b; print c; }
print a; print b; print c;
"#;
    assert_eq!(
        output(src),
        vec![
            "inner a", "outer b", "global c", "outer a", "outer b", "global c", "global a",
            "global b", "global c"
        ]
    );
}

#[test]
fn function_call_sums_arguments() {
    assert_eq!(output("fun f(a,b,c){ print a+b+c; } f(1,2,3);"), vec!["6"]);
}

#[test]
fn short_circuit_or() {
    assert_eq!(output(r#"print true or "x"; print nil or "y";"#), vec!["true", "y"]);
}

#[test]
fn for_loop_counts() {
    assert_eq!(output("for (var i = 0; i < 3; i = i + 1) print i;"), vec!["0", "1", "2"]);
}

#[test]
fn negate_non_number_is_type_error() {
    assert_eq!(run(r#"print -"a";"#).1, Err(Failure::Run(RuntimeError::TypeError { line: 1 })));
    assert_eq!(output("print -3;"), vec!["-3"]);
}

#[test]
fn arity_mismatch_is_arity_error() {
    assert_eq!(
        run("fun f(a) { print a; }\nf(1, 2);").1,
        Err(Failure::Run(RuntimeError::ArityError { line: 2 }))
    );
    assert_eq!(run("clock(1);").1, Err(Failure::Run(RuntimeError::ArityError { line: 1 })));
}

#[test]
fn undefined_name_is_name_error() {
    assert_eq!(run("print x;").1, Err(Failure::Run(RuntimeError::NameError { line: 1 })));
    assert_eq!(run("x = 1;").1, Err(Failure::Run(RuntimeError::NameError { line: 1 })));
}

#[test]
fn assignment_to_non_variable_is_parse_error() {
    assert_eq!(
        run("1 = 2;").1,
        Err(Failure::Parse(GrammerError::InvalidAssignmentTarget { line: 1 }))
    );
    assert_eq!(
        run("var a = 1; (a) = 2;").1,
        Err(Failure::Parse(GrammerError::InvalidAssignmentTarget { line: 1 }))
    );
}

fn numbered(prefix: &str, n: usize) -> Vec<String> {
    (0..n).map(|i| format!("{}{}", prefix, i)).collect()
}

#[test]
fn too_many_arguments_is_parse_error() {
    let args = numbered("", 256).join(", ");
    assert_eq!(
        run(&format!("f({});", args)).1,
        Err(Failure::Parse(GrammerError::TooManyArguments { line: 1 }))
    );
    let params = numbered("p", 255).join(", ");
    let args = numbered("", 255).join(", ");
    assert_eq!(output(&format!("fun f({}) {{ print p254; }} f({});", params, args)), vec!["254"]);
}

#[test]
fn too_many_parameters_is_parse_error() {
    let params = numbered("p", 256).join(", ");
    assert_eq!(
        run(&format!("fun f({}) {{}}", params)).1,
        Err(Failure::Parse(GrammerError::TooManyParameters { line: 1 }))
    );
    let params = numbered("p", 255).join(", ");
    assert_eq!(run(&format!("fun f({}) {{}}", params)).1, Ok(()));
}

#[test]
fn parsing_twice_gives_the_same_tree() {
    let src = "var a = 1; fun f(x) { return x ? a : -x, 2; } for (;a < 3;) a = a + 1;";
    let tokens = Scanner::new().scan_tokens(src);
    let first = Parser::new().parse(tokens.clone()).unwrap();
    let second = Parser::new().parse(tokens).unwrap();
    assert_eq!(format!("{:?}", first), format!("{:?}", second));
}

#[test]
fn block_scope_is_released_on_every_exit() {
    let mut interp = Interpreter::new();
    let (_, r) = run_in(&mut interp, "{ var inner = 1; print missing; }");
    assert_eq!(r, Err(Failure::Run(RuntimeError::NameError { line: 1 })));
    let (_, r) = run_in(&mut interp, "print inner;");
    assert_eq!(r, Err(Failure::Run(RuntimeError::NameError { line: 1 })));
    let (out, r) = run_in(
        &mut interp,
        "var g = 0; fun f() { { var local = 1; return local; } } print f(); while (true) { var w = 1; break; } g = g + 1; print g;",
    );
    assert_eq!(r, Ok(()));
    assert_eq!(out, vec!["1", "1"]);
    let (_, r) = run_in(&mut interp, "print local;");
    assert_eq!(r, Err(Failure::Run(RuntimeError::NameError { line: 1 })));
    let (_, r) = run_in(&mut interp, "print w;");
    assert_eq!(r, Err(Failure::Run(RuntimeError::NameError { line: 1 })));
}

#[test]
fn return_stops_the_function() {
    assert_eq!(
        output("fun f() { print 1; return 2; print 3; } print f(); fun g() { print 4; } print g();"),
        vec!["1", "2", "4", "nil"]
    );
}

#[test]
fn logic_returns_operand_values() {
    assert_eq!(
        output(r#"print nil or "y"; print 0 or 1; print false and 1; print 1 and 2; print "" or 3;"#),
        vec!["y", "0", "false", "2", ""]
    );
}

#[test]
fn logic_short_circuits() {
    assert_eq!(output("var a = 0; true or (a = 1); false and (a = 2); print a;"), vec!["0"]);
}

#[test]
fn grouping_is_transparent() {
    assert_eq!(output("print (1 + 2) * 3; print ((4)); print (\"s\");"), vec!["9", "4", "s"]);
}

#[test]
fn for_matches_its_desugaring() {
    let a = output("var s = 0; for (var i = 0; i < 4; i = i + 1) { s = s + i; print s; } print s;");
    let b = output(
        "var s = 0; { var i = 0; while (i < 4) { { s = s + i; print s; } i = i + 1; } } print s;",
    );
    assert_eq!(a, b);
    assert_eq!(a, vec!["0", "1", "3", "6", "6"]);
}

#[test]
fn functions_see_globals_not_callers() {
    let (_, r) = run("fun f() { print local; } { var local = 1; f(); }");
    assert_eq!(r, Err(Failure::Run(RuntimeError::NameError { line: 1 })));
    assert_eq!(output("var g = 1; fun f() { g = g + 1; } f(); f(); print g;"), vec!["3"]);
}

#[test]
fn recursion_works() {
    assert_eq!(
        output("fun fib(n) { if (n < 2) return n; return fib(n - 1) + fib(n - 2); } print fib(15);"),
        vec!["610"]
    );
}
