//! The syntax tree: statements over expressions. Expression operators are
//! carried as their literal lexeme text; the parser only ever produces the
//! four arithmetic operators (see [`spec_expr_ops_ok`]).

use vstd::prelude::*;

use crate::text::{append_str, string_from_chars};

verus! {

/// An expression: a number literal (kept as its decimal text), an
/// identifier, or a unary or binary operator application.
pub enum ExpressionStmt {
    Number(String),
    Identifier(String),
    Unary(String, Box<ExpressionStmt>),
    Binary(String, Box<(ExpressionStmt, ExpressionStmt)>),
}

/// The mathematical shape of an [`ExpressionStmt`].
pub enum ExprV {
    Number(Seq<char>),
    Identifier(Seq<char>),
    Unary(Seq<char>, Box<ExprV>),
    Binary(Seq<char>, Box<ExprV>, Box<ExprV>),
}

/// The view of an expression tree.
pub open spec fn expr_view(e: ExpressionStmt) -> ExprV
    decreases e,
{
    match e {
        ExpressionStmt::Number(t) => ExprV::Number(t@),
        ExpressionStmt::Identifier(n) => ExprV::Identifier(n@),
        ExpressionStmt::Unary(op, operand) => ExprV::Unary(op@, Box::new(expr_view(*operand))),
        ExpressionStmt::Binary(op, operands) => ExprV::Binary(
            op@,
            Box::new(expr_view((*operands).0)),
            Box::new(expr_view((*operands).1)),
        ),
    }
}

impl View for ExpressionStmt {
    type V = ExprV;

    open spec fn view(&self) -> ExprV {
        expr_view(*self)
    }
}

/// A `print` statement's payload.
pub struct PrintStmt {
    pub expr: ExpressionStmt,
}

impl View for PrintStmt {
    type V = ExprV;

    open spec fn view(&self) -> ExprV {
        self.expr@
    }
}

/// A statement. `For`, `If`, `Return`, `While` and `Block` are placeholders
/// reserved for lowerings that are not part of this design.
pub enum Statement {
    Expression(ExpressionStmt),
    VarDeclaration(String, Option<ExpressionStmt>),
    For,
    If,
    Print(PrintStmt),
    Return,
    While,
    Block,
}

/// The mathematical shape of a [`Statement`].
pub enum StmtV {
    Expression(ExprV),
    VarDeclaration(Seq<char>, Option<ExprV>),
    For,
    If,
    Print(ExprV),
    Return,
    While,
    Block,
}

impl View for Statement {
    type V = StmtV;

    open spec fn view(&self) -> StmtV {
        match self {
            Statement::Expression(e) => StmtV::Expression(e@),
            Statement::VarDeclaration(name, init) => StmtV::VarDeclaration(
                name@,
                match init {
                    Option::Some(e) => Option::Some(e@),
                    Option::None => Option::None,
                },
            ),
            Statement::For => StmtV::For,
            Statement::If => StmtV::If,
            Statement::Print(p) => StmtV::Print(p@),
            Statement::Return => StmtV::Return,
            Statement::While => StmtV::While,
            Statement::Block => StmtV::Block,
        }
    }
}

/// Every operator in the tree is one of `+ - * /` (and a unary one is `+`
/// or `-`): what the parser guarantees by construction.
pub open spec fn spec_expr_ops_ok(e: ExprV) -> bool
    decreases e,
{
    match e {
        ExprV::Number(_) => true,
        ExprV::Identifier(_) => true,
        ExprV::Unary(op, operand) => (op == "+"@ || op == "-"@) && spec_expr_ops_ok(*operand),
        ExprV::Binary(op, lhs, rhs) => (op == "+"@ || op == "-"@ || op == "*"@ || op == "/"@)
            && spec_expr_ops_ok(*lhs) && spec_expr_ops_ok(*rhs),
    }
}

/// What the compiler can lower: operators are valid and no identifier
/// occurs (identifier lowering has no bytecode yet).
pub open spec fn spec_lowerable(e: ExprV) -> bool
    decreases e,
{
    match e {
        ExprV::Number(_) => true,
        ExprV::Identifier(_) => false,
        ExprV::Unary(op, operand) => (op == "+"@ || op == "-"@) && spec_lowerable(*operand),
        ExprV::Binary(op, lhs, rhs) => (op == "+"@ || op == "-"@ || op == "*"@ || op == "/"@)
            && spec_lowerable(*lhs) && spec_lowerable(*rhs),
    }
}

/// The canonical parenthesized text of an expression: numbers and
/// identifiers stand as themselves, `(op operand)` for a unary node and
/// `(op lhs rhs)` for a binary one.
pub open spec fn spec_canonical(e: ExprV) -> Seq<char>
    decreases e,
{
    match e {
        ExprV::Number(t) => t,
        ExprV::Identifier(n) => n,
        ExprV::Unary(op, operand) => seq!['('] + op + seq![' '] + spec_canonical(*operand) + seq![
            ')',
        ],
        ExprV::Binary(op, lhs, rhs) => seq!['('] + op + seq![' '] + spec_canonical(*lhs) + seq![
            ' ',
        ] + spec_canonical(*rhs) + seq![')'],
    }
}

impl ExpressionStmt {
    /// Appends the canonical text of this expression to `out`.
    fn render_into(&self, out: &mut Vec<char>)
        ensures
            final(out)@ == old(out)@ + spec_canonical(self@),
        decreases self,
    {
        match self {
            ExpressionStmt::Number(t) => {
                append_str(out, t.as_str());
            },
            ExpressionStmt::Identifier(n) => {
                append_str(out, n.as_str());
            },
            ExpressionStmt::Unary(op, operand) => {
                out.push('(');
                append_str(out, op.as_str());
                out.push(' ');
                operand.render_into(out);
                out.push(')');
                proof {
                    assert(out@ =~= old(out)@ + spec_canonical(self@));
                }
            },
            ExpressionStmt::Binary(op, operands) => {
                out.push('(');
                append_str(out, op.as_str());
                out.push(' ');
                operands.0.render_into(out);
                out.push(' ');
                operands.1.render_into(out);
                out.push(')');
                proof {
                    assert(out@ =~= old(out)@ + spec_canonical(self@));
                }
            },
        }
    }

    /// The canonical parenthesized text of this expression.
    pub fn render(&self) -> (s: String)
        ensures
            s@ == spec_canonical(self@),
    {
        let mut out: Vec<char> = Vec::new();
        self.render_into(&mut out);
        string_from_chars(out.as_slice())
    }
}

impl PrintStmt {
    /// The canonical text of a print statement: `(print expr)`.
    pub fn render(&self) -> (s: String)
        ensures
            s@ == "(print "@ + spec_canonical(self@) + ")"@,
    {
        let mut out: Vec<char> = Vec::new();
        append_str(&mut out, "(print ");
        self.expr.render_into(&mut out);
        out.push(')');
        proof {
            reveal_strlit(")");
            assert(")"@ =~= seq![')']);
            assert(out@ =~= "(print "@ + spec_canonical(self@) + ")"@);
        }
        string_from_chars(out.as_slice())
    }
}

} // verus!
