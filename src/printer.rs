//! A printer of expression trees in a parenthesised prefix form, for
//! inspecting what the parser built.
use crate::expr::{expr_model, exprs_model, lemma_exprs_model, Expr, ExprModel, LiteralModel};
use crate::value::number_text;
use vstd::prelude::*;

verus! {

pub struct AstPrinterVisitor;

pub open spec fn literal_text(l: LiteralModel) -> Seq<char> {
    match l {
        LiteralModel::Nil => "nil"@,
        LiteralModel::Boolean(b) => if b {
            "true"@
        } else {
            "false"@
        },
        LiteralModel::Number(n) => number_text(n),
        LiteralModel::String(s) => s,
    }
}

/// The printed form of an expression: operators first, nodes in parentheses.
pub open spec fn ast_text(e: ExprModel) -> Seq<char>
    decreases e,
{
    match e {
        ExprModel::Literal(l) => literal_text(l),
        ExprModel::Variable(name) => name.lexeme,
        ExprModel::Assign(name, v) => "( = "@ + name.lexeme + " "@ + ast_text(*v) + " )"@,
        ExprModel::Group(g) => "(group "@ + ast_text(*g) + " )"@,
        ExprModel::Unary(op, x) => op.lexeme + ast_text(*x),
        ExprModel::Binary(op, l, r) => "( "@ + op.lexeme + " "@ + ast_text(*l) + " "@ + ast_text(*r)
            + " )"@,
        ExprModel::Logic(op, l, r) => "( "@ + op.lexeme + " "@ + ast_text(*l) + " "@ + ast_text(*r)
            + " )"@,
        ExprModel::Ternary(c, _, l, r) => "( "@ + ast_text(*c) + " ? "@ + ast_text(*l) + " : "@
            + ast_text(*r) + " )"@,
        ExprModel::Call(c, _, args) => "( call "@ + ast_text(*c) + list_text(args) + " )"@,
        ExprModel::Comma(items) => "( ,"@ + list_text(items) + " )"@,
    }
}

/// Each item after a space.
pub open spec fn list_text(es: Seq<ExprModel>) -> Seq<char>
    decreases es,
{
    if es.len() == 0 {
        Seq::empty()
    } else {
        list_text(es.drop_last()) + " "@ + ast_text(es.last())
    }
}

impl AstPrinterVisitor {
    /// The printed form of `expr`.
    pub fn print(&self, expr: &Expr) -> (r: String)
        ensures
            r@ == ast_text(expr_model(*expr)),
    {
        let mut out = String::new();
        self.write(&mut out, expr);
        out
    }

    fn write(&self, out: &mut String, e: &Expr)
        ensures
            final(out)@ == old(out)@ + ast_text(expr_model(*e)),
        decreases *e, 1nat,
    {
        let ghost start = out@;
        match e {
            crate::expr::Expr::Literal(l) => {
                let t = match l {
                    crate::token::Literal::Nil => String::from_str("nil"),
                    crate::token::Literal::Boolean(b) => if *b {
                        String::from_str("true")
                    } else {
                        String::from_str("false")
                    },
                    crate::token::Literal::Number(n) => n.render(),
                    crate::token::Literal::String(s) => s.clone(),
                };
                out.append(t.as_str());
            },
            crate::expr::Expr::Variable(v) => out.append(v.name.lexeme.as_str()),
            crate::expr::Expr::Assign(a) => {
                out.append("( = ");
                out.append(a.name.lexeme.as_str());
                out.append(" ");
                self.write(out, &a.value);
                out.append(" )");
                assert(out@ =~= start + ast_text(expr_model(*e)));
            },
            crate::expr::Expr::Group(g) => {
                out.append("(group ");
                self.write(out, &g.expr);
                out.append(" )");
                assert(out@ =~= start + ast_text(expr_model(*e)));
            },
            crate::expr::Expr::Unary(u) => {
                out.append(u.operator.lexeme.as_str());
                self.write(out, &u.expr);
                assert(out@ =~= start + ast_text(expr_model(*e)));
            },
            crate::expr::Expr::Binary(b) => {
                out.append("( ");
                out.append(b.operator.lexeme.as_str());
                out.append(" ");
                self.write(out, &b.lhs);
                out.append(" ");
                self.write(out, &b.rhs);
                out.append(" )");
                assert(out@ =~= start + ast_text(expr_model(*e)));
            },
            crate::expr::Expr::Logic(b) => {
                out.append("( ");
                out.append(b.operator.lexeme.as_str());
                out.append(" ");
                self.write(out, &b.lhs);
                out.append(" ");
                self.write(out, &b.rhs);
                out.append(" )");
                assert(out@ =~= start + ast_text(expr_model(*e)));
            },
            crate::expr::Expr::Ternary(t) => {
                out.append("( ");
                self.write(out, &t.cond);
                out.append(" ? ");
                self.write(out, &t.lhs);
                out.append(" : ");
                self.write(out, &t.rhs);
                out.append(" )");
                assert(out@ =~= start + ast_text(expr_model(*e)));
            },
            crate::expr::Expr::Call(c) => {
                out.append("( call ");
                self.write(out, &c.callee);
                self.write_list(out, &c.arguments);
                out.append(" )");
                assert(out@ =~= start + ast_text(expr_model(*e)));
            },
            crate::expr::Expr::Comma(c) => {
                out.append("( ,");
                self.write_list(out, &c.internal);
                out.append(" )");
                assert(out@ =~= start + ast_text(expr_model(*e)));
            },
        }
    }

    fn write_list(&self, out: &mut String, es: &Vec<Expr>)
        ensures
            final(out)@ == old(out)@ + list_text(exprs_model(es@)),
        decreases es, 0nat,
    {
        let ghost m = exprs_model(es@);
        proof {
            lemma_exprs_model(es@);
        }
        let mut i: usize = 0;
        assert(m.subrange(0, 0) =~= Seq::<ExprModel>::empty());
        while i < es.len()
            invariant
                i <= es@.len(),
                m == exprs_model(es@),
                m.len() == es@.len(),
                forall|k: int| 0 <= k < es@.len() ==> #[trigger] m[k] == expr_model(es@[k]),
                out@ == old(out)@ + list_text(m.subrange(0, i as int)),
            decreases es@.len() - i,
        {
            let ghost before = out@;
            out.append(" ");
            self.write(out, &es[i]);
            proof {
                let s = m.subrange(0, i + 1);
                assert(s.drop_last() =~= m.subrange(0, i as int));
                assert(s.last() == m[i as int]);
                assert(out@ =~= old(out)@ + list_text(s));
            }
            i += 1;
        }
        assert(m.subrange(0, i as int) =~= m);
    }
}

} // verus!
