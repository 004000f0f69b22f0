use rlox::parser::Parser;
use rlox::printer::AstPrinterVisitor;
use rlox::scanner::Scanner;
use rlox::stmt::Stmt;

fn printed(source: &str) -> String {
    let tokens = Scanner::new().scan_tokens(source);
    let stmts = Parser::new().parse(tokens).expect("grammar error");
    match &stmts[0] {
        Stmt::Expr(e) => AstPrinterVisitor.print(&e.expr),
        other => panic!("not an expression statement: {:?}", other),
    }
}

#[test]
fn prints_precedence_as_nesting() {
    assert_eq!(printed("-1 + 2 * (3);"), "( + -1 ( * 2 (group 3 ) ) )");
}

#[test]
fn prints_every_node_kind() {
    assert_eq!(printed("a = b or c ? f(1, \"s\") : nil, true;"), "( ( = a ( or b c ) ) ? ( call f 1 s ) : ( , nil true ) )");
}
