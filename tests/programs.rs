use rlox::interpreter::Interpreter;
use rlox::parser::Parser;
use rlox::scanner::Scanner;
use rlox::token::{Literal, TokenType};

struct Lox {
    scanner: Scanner,
    interpreter: Interpreter,
}

impl Lox {
    fn new() -> Self {
        Lox { scanner: Scanner::new(), interpreter: Interpreter::new() }
    }

    fn run(&mut self, script: &str) -> Vec<String> {
        let tokens = self.scanner.scan_tokens(script);
        let stmts = Parser::new().parse(tokens).expect("grammar error");
        self.interpreter.interpret(stmts).expect("runtime error");
        self.interpreter.take_output()
    }
}

fn kinds(script: &str) -> Vec<TokenType> {
    let mut s = Scanner::new();
    let tokens = s.scan_tokens(script);
    assert!(s.errors().is_empty());
    tokens.iter().map(|t| t.token_type).collect()
}

#[test]
fn scanner_identifiers() {
    let script = "andy formless fo _ _123 _abc ab123\nabcdefghijklmnopqrstuvwxyz ABCDEFGHIJKLMNOPQRSTUVWXYZ1234567890_";
    let mut s = Scanner::new();
    let tokens = s.scan_tokens(script);
    assert_eq!(tokens.len(), 10);
    assert!(tokens[..9].iter().all(|t| t.token_type == TokenType::Identifier));
    assert_eq!(tokens[0].lexeme, "andy");
    assert_eq!(tokens[8].line, 2);
    assert_eq!(tokens[9].token_type, TokenType::Eof);
}

#[test]
fn scanner_keywords() {
    assert_eq!(
        kinds("and class else false for fun if nil or return super this true var while break print"),
        vec![TokenType::And, TokenType::Class, TokenType::Else, TokenType::False, TokenType::For, TokenType::Fun, TokenType::If, TokenType::Nil, TokenType::Or, TokenType::Return, TokenType::Super, TokenType::This, TokenType::True, TokenType::Var, TokenType::While, TokenType::Break, TokenType::Print, TokenType::Eof]
    );
}

#[test]
fn scanner_numbers() {
    let mut s = Scanner::new();
    let tokens = s.scan_tokens("123\n123.456\n.456\n123.");
    let kinds: Vec<TokenType> = tokens.iter().map(|t| t.token_type).collect();
    assert_eq!(kinds, vec![TokenType::Number, TokenType::Number, TokenType::Dot, TokenType::Number, TokenType::Number, TokenType::Dot, TokenType::Eof]);
    match &tokens[1].literal {
        Literal::Number(n) => assert_eq!(n.bits, 123.456f64.to_bits()),
        other => panic!("not a number: {:?}", other),
    }
    match &tokens[3].literal {
        Literal::Number(n) => assert_eq!(n.bits, 456f64.to_bits()),
        other => panic!("not a number: {:?}", other),
    }
}

#[test]
fn scanner_punctuators() {
    assert_eq!(
        kinds("(){};,+-*!===<=>=!=<>/.?:"),
        vec![
            TokenType::LeftParen, TokenType::RightParen, TokenType::LeftBrace, TokenType::RightBrace, TokenType::Semicolon, TokenType::Comma, TokenType::Plus, TokenType::Minus, TokenType::Star,
            TokenType::BangEqual, TokenType::EqualEqual, TokenType::LessEqual, TokenType::GreaterEqual, TokenType::BangEqual, TokenType::Less, TokenType::Greater, TokenType::Slash, TokenType::Dot,
            TokenType::QuestionMark, TokenType::Colon, TokenType::Eof
        ]
    );
}

#[test]
fn scanner_strings() {
    let mut s = Scanner::new();
    let tokens = s.scan_tokens("\"\"\n\"string\"");
    assert_eq!(tokens.len(), 3);
    match &tokens[1].literal {
        Literal::String(text) => assert_eq!(text, "string"),
        other => panic!("not a string: {:?}", other),
    }
    assert_eq!(tokens[1].lexeme, "\"string\"");
    assert_eq!(tokens[1].line, 2);
}

#[test]
fn scanner_whitespaces() {
    assert_eq!(kinds("space    tabs\t\t\t\tnewlines\n\n\n\n\nend // comment\n/* block\n comment */ x"), vec![
        TokenType::Identifier, TokenType::Identifier, TokenType::Identifier, TokenType::Identifier, TokenType::Identifier, TokenType::Eof
    ]);
}

#[test]
fn interpreter_statement_1() {
    let script = [
        "print 3 * 5 + 6 * 3 ;",
        "print 2 - 3 + 4 - 5 * 6 ;",
        "print (2 - 3 + 4) * (5 + 6 * 7) ;",
        "print (3 ? 4 : 3 ? 1 ? 2 : 3 : 4) == 4 ;",
        "print 3 ? 4 : 3 ? 1 ? 2 : 3 : 4 == 4 ;",
        "print (3 + 4 + 8) ? 4 : 3 ? 1 ? 2 : 3 : 4 == 4 ;",
        "print 3 + 5 ;",
        r#" print true or "nihao" ; "#,
    ];
    let expected = ["33", "-27", "141", "true", "4", "4", "8", "true"];
    let mut lox = Lox::new();
    for (s, e) in script.iter().zip(expected.iter()) {
        assert_eq!(lox.run(s), vec![e.to_string()]);
    }
}

#[test]
fn interpreter_statement_2() {
    let script = [
        "var a = 10; print a;",
        "var b = \"nihao\"; print b;",
        "var a = 10; var b = \"nihao\"; print b + a;",
        "   var a = 10;
                {
                    // var a = 11;
                    print a;
                    a = a + 1;
                    print a;
                }
                print a;
            ",
        r#"
                var a = "global a";
                var b = "global b";
                var c = "global c";

                {
                    var a = "outer a";
                    var b = "outer b";
                    {
                        var a = "inner a";
                        print a;
                        print b;
                        print c;
                    }
                    print a;
                    print b;
                    print c;
                }

                print a;
                print b;
                print c;
            "#,
    ];
    let expected: [&[&str]; 5] = [
        &["10"],
        &["nihao"],
        &["nihao10"],
        &["10", "11", "11"],
        &["inner a", "outer b", "global c", "outer a", "outer b", "global c", "global a", "global b", "global c"],
    ];
    let mut lox = Lox::new();
    for (s, e) in script.iter().zip(expected.iter()) {
        assert_eq!(lox.run(s), e.iter().map(|x| x.to_string()).collect::<Vec<_>>());
    }
}

#[test]
fn interpreter_statement_3() {
    let script = [
        "for (;false;);",
        r#"fun func(a, b, c) { print "func start"; print a + b +c; } 
             print func(1, 2, 3);"#,
    ];
    let expected: [&[&str]; 2] = [&[], &["func start", "6", "nil"]];
    let mut lox = Lox::new();
    for (s, e) in script.iter().zip(expected.iter()) {
        assert_eq!(lox.run(s), e.iter().map(|x| x.to_string()).collect::<Vec<_>>());
    }
}
