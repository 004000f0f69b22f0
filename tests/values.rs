use rlox::interpreter::Interpreter;
use rlox::parser::Parser;
use rlox::scanner::{decimal_text, error, report, Scanner};
use rlox::value::RuntimeError;

fn run_in(interpreter: &mut Interpreter, source: &str) -> (Vec<String>, Result<(), RuntimeError>) {
    let tokens = Scanner::new().scan_tokens(source);
    let stmts = Parser::new().parse(tokens).expect("grammar error");
    let r = interpreter.interpret(stmts);
    (interpreter.take_output(), r)
}

fn output(source: &str) -> Vec<String> {
    let (out, r) = run_in(&mut Interpreter::new(), source);
    assert_eq!(r, Ok(()), "program failed: {}", source);
    out
}

fn failure(source: &str) -> RuntimeError {
    run_in(&mut Interpreter::new(), source).1.unwrap_err()
}

#[test]
fn number_arithmetic() {
    assert_eq!(
        output("print 1 + 2; print 7 - 10; print 6 * 7; print 7 / 2; print 3.25 + 0;"),
        vec!["3", "-3", "42", "3.5", "3.25"]
    );
}

#[test]
fn division_by_zero_gives_infinity() {
    assert_eq!(output("print 1 / 0; print -1 / 0;"), vec!["+Inf", "-Inf"]);
    assert_eq!(output("print (0 / 0) == (0 / 0);"), vec!["false"]);
}

#[test]
fn signed_zero_equals_zero() {
    assert_eq!(output("print -0 == 0; print 0 < -0;"), vec!["true", "false"]);
}

#[test]
fn string_concatenation() {
    assert_eq!(output(r#"print "a" + "b"; print "n" + 1; print "x" + 2.5;"#), vec!["ab", "n1", "x2.5"]);
    assert_eq!(failure(r#"print 1 + "a";"#), RuntimeError::TypeError { line: 1 });
    assert_eq!(failure("print nil + 1;"), RuntimeError::TypeError { line: 1 });
    assert_eq!(failure(r#"print "a" - "b";"#), RuntimeError::TypeError { line: 1 });
}

#[test]
fn equality_rules() {
    assert_eq!(
        output(r#"print nil == nil; print nil == 1; print 1 == nil; print "a" == "a"; print true != false; print 2 == 2;"#),
        vec!["true", "false", "false", "true", "true", "true"]
    );
    assert_eq!(failure(r#"print 1 == "1";"#), RuntimeError::TypeError { line: 1 });
    assert_eq!(
        output("fun f() {} fun g() {} var h = f; print f == h; print f == g; print clock == clock; print f == clock;"),
        vec!["true", "false", "true", "false"]
    );
    assert_eq!(failure("fun f() {} print f == 1;"), RuntimeError::TypeError { line: 1 });
}

#[test]
fn ordering_rules() {
    assert_eq!(
        output(r#"print 1 < 2; print 2 <= 2; print 3 > 4; print 4 >= 4; print "ab" < "b"; print "b" <= "ab"; print "a" < "ab"; print false < true;"#),
        vec!["true", "true", "false", "true", "true", "false", "true", "true"]
    );
    assert_eq!(failure("print nil < nil;"), RuntimeError::TypeError { line: 1 });
    assert_eq!(failure(r#"print 1 < "2";"#), RuntimeError::TypeError { line: 1 });
}

#[test]
fn truthiness() {
    assert_eq!(
        output(r#"print !nil; print !false; print !0; print !""; if (0) print "zero";"#),
        vec!["true", "true", "false", "false", "zero"]
    );
}

#[test]
fn ternary_rules() {
    assert_eq!(
        output("print true ? 1 : 2; print false ? 1 : 2; print 3 ? 4 : 5; print 0 ? 4 : 5; print -1 ? 4 : 5;"),
        vec!["1", "2", "4", "5", "5"]
    );
    assert_eq!(failure(r#"print "s" ? 1 : 2;"#), RuntimeError::TypeError { line: 1 });
}

#[test]
fn comma_yields_last() {
    assert_eq!(output("var a = 0; print (a = 1, a + 1, a + 2);"), vec!["3"]);
}

#[test]
fn calling_a_non_function() {
    assert_eq!(failure("var a = 1; a();"), RuntimeError::NotCallable { line: 1 });
}

#[test]
fn rendering_of_values() {
    assert_eq!(
        output("fun f() {} print f; print clock; print nil; print 100000; print 0.5;"),
        vec!["<fn f>", "<native fn>", "nil", "100000", "0.5"]
    );
}

#[test]
fn clock_reads_host_time() {
    let mut interp = Interpreter::new();
    interp.set_clock(1500);
    let (out, r) = run_in(&mut interp, "var a = clock(); var b = clock(); print a; print b >= a;");
    assert_eq!(r, Ok(()));
    assert_eq!(out, vec!["1.5", "true"]);
}

#[test]
fn endless_loop_runs_out_of_fuel_only_at_the_bound() {
    assert_eq!(output("var i = 0; while (i < 1000) i = i + 1; print i;"), vec!["1000"]);
}

#[test]
fn break_leaves_the_loop() {
    assert_eq!(
        output("var i = 0; while (true) { i = i + 1; if (i == 3) break; } print i; for (;;) { break; } print \"done\";"),
        vec!["3", "done"]
    );
}

#[test]
fn diagnostics_text() {
    assert_eq!(error(12, "Unexpected character"), "[line:12] Error:Unexpected character");
    assert_eq!(report(3, " at end", "x"), "[line:3] Error at end:x");
    assert_eq!(decimal_text(0), "0");
    assert_eq!(decimal_text(907), "907");
}

#[test]
fn scanner_reports_bad_characters() {
    let mut s = Scanner::new();
    let tokens = s.scan_tokens("var a = 1;\n@");
    assert_eq!(s.errors(), vec!["[line:2] Error:Unexpected character".to_string()]);
    assert_eq!(tokens.len(), 6);
    let mut s = Scanner::new();
    s.scan_tokens("\"open");
    assert_eq!(s.errors(), vec!["[line:1] Error:Unterminated string.".to_string()]);
}
