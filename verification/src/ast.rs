//! The abstract syntax tree: expressions, statements, one function, and
//! the program root, together with their mathematical models.
//!
//! The tree is immutable after construction: the parser builds it bottom-up
//! and the code generator only reads it. Each node type has a model type
//! (`ExprModel` and friends) in which identifier payloads are character
//! sequences and literals are unbounded integers; all contracts speak of
//! these models.

use vstd::prelude::*;
use vstd::string::StringExecFns;

use crate::numeral::dec_int;
use crate::numeral::i128_to_string;
use crate::token::BinaryOperator;
use crate::token::UnaryOperator;

verus! {

/// An expression node. Sub-expressions are owned through boxes because the
/// type is self-referential.
#[derive(Debug, PartialEq)]
pub enum Expression {
    Const(i32),
    Unary { op: UnaryOperator, exp: Box<Expression> },
    Binary { exp1: Box<Expression>, op: BinaryOperator, exp2: Box<Expression> },
    Assign { name: String, exp: Box<Expression> },
    Var { name: String },
}

/// A statement: a return, a single-name declaration with an optional
/// initializer, or an expression evaluated for its side effect.
#[derive(Debug, PartialEq)]
pub enum Statement {
    Return(Expression),
    Exp(Expression),
    Declare { name: String, exp: Option<Expression> },
}

/// A function: a name and the ordered statements of its body. The language
/// has no parameters and no nested scopes.
#[derive(Debug, PartialEq)]
pub struct Function {
    pub name: String,
    pub body: Vec<Statement>,
}

/// A program: exactly one function.
#[derive(Debug, PartialEq)]
pub struct Program {
    pub func: Function,
}

/// The mathematical model of an [`Expression`].
pub enum ExprModel {
    Const(int),
    Unary { op: UnaryOperator, exp: Box<ExprModel> },
    Binary { exp1: Box<ExprModel>, op: BinaryOperator, exp2: Box<ExprModel> },
    Assign { name: Seq<char>, exp: Box<ExprModel> },
    Var { name: Seq<char> },
}

/// The mathematical model of a [`Statement`].
pub enum StmtModel {
    Return(ExprModel),
    Exp(ExprModel),
    Declare { name: Seq<char>, exp: Option<ExprModel> },
}

/// The mathematical model of a [`Function`].
pub ghost struct FunModel {
    pub name: Seq<char>,
    pub body: Seq<StmtModel>,
}

/// The mathematical model of a [`Program`].
pub ghost struct ProgModel {
    pub func: FunModel,
}

/// The model of an expression node.
pub open spec fn expr_model(e: Expression) -> ExprModel
    decreases e,
{
    match e {
        Expression::Const(v) => ExprModel::Const(v as int),
        Expression::Unary { op, exp } => ExprModel::Unary {
            op,
            exp: Box::new(expr_model(*exp)),
        },
        Expression::Binary { exp1, op, exp2 } => ExprModel::Binary {
            exp1: Box::new(expr_model(*exp1)),
            op,
            exp2: Box::new(expr_model(*exp2)),
        },
        Expression::Assign { name, exp } => ExprModel::Assign {
            name: name@,
            exp: Box::new(expr_model(*exp)),
        },
        Expression::Var { name } => ExprModel::Var { name: name@ },
    }
}

/// The model of a statement node.
pub open spec fn stmt_model(s: Statement) -> StmtModel {
    match s {
        Statement::Return(e) => StmtModel::Return(expr_model(e)),
        Statement::Exp(e) => StmtModel::Exp(expr_model(e)),
        Statement::Declare { name, exp } => StmtModel::Declare {
            name: name@,
            exp: match exp {
                Some(e) => Some(expr_model(e)),
                None => None,
            },
        },
    }
}

impl View for Expression {
    type V = ExprModel;

    open spec fn view(&self) -> ExprModel {
        expr_model(*self)
    }
}

impl DeepView for Expression {
    type V = ExprModel;

    open spec fn deep_view(&self) -> ExprModel {
        expr_model(*self)
    }
}

impl View for Statement {
    type V = StmtModel;

    open spec fn view(&self) -> StmtModel {
        stmt_model(*self)
    }
}

impl DeepView for Statement {
    type V = StmtModel;

    open spec fn deep_view(&self) -> StmtModel {
        stmt_model(*self)
    }
}

impl View for Function {
    type V = FunModel;

    open spec fn view(&self) -> FunModel {
        FunModel { name: self.name@, body: self.body.deep_view() }
    }
}

impl View for Program {
    type V = ProgModel;

    open spec fn view(&self) -> ProgModel {
        ProgModel { func: self.func@ }
    }
}

/// The name a unary operator prints as.
pub open spec fn unary_op_text(op: UnaryOperator) -> Seq<char> {
    match op {
        UnaryOperator::Negation => "Negation"@,
        UnaryOperator::BitwiseComplement => "BitwiseComplement"@,
        UnaryOperator::LogicalNegation => "LogicalNegation"@,
    }
}

/// The name a binary operator prints as.
pub open spec fn binary_op_text(op: BinaryOperator) -> Seq<char> {
    match op {
        BinaryOperator::Addition => "Addition"@,
        BinaryOperator::Minus => "Minus"@,
        BinaryOperator::Multiplication => "Multiplication"@,
        BinaryOperator::Division => "Division"@,
        BinaryOperator::And => "And"@,
        BinaryOperator::Or => "Or"@,
        BinaryOperator::Equal => "Equal"@,
        BinaryOperator::NotEqual => "NotEqual"@,
        BinaryOperator::LessThan => "LessThan"@,
        BinaryOperator::LessThanOrEqual => "LessThanOrEqual"@,
        BinaryOperator::GreaterThan => "GreaterThan"@,
        BinaryOperator::GreaterThanOrEqual => "GreaterThanOrEqual"@,
    }
}

/// The text an expression prints as.
pub open spec fn expr_text(e: ExprModel) -> Seq<char>
    decreases e,
{
    match e {
        ExprModel::Const(v) => "Int("@ + dec_int(v) + ")"@,
        ExprModel::Unary { op, exp } => unary_op_text(op) + "["@ + expr_text(*exp) + "]"@,
        ExprModel::Binary { exp1, op, exp2 } => "{"@ + expr_text(*exp1) + "}"@ + binary_op_text(
            op,
        ) + "{"@ + expr_text(*exp2) + "}"@,
        ExprModel::Assign { name, exp } => "("@ + name + " = ["@ + expr_text(*exp) + "])"@,
        ExprModel::Var { name } => "("@ + name + ")"@,
    }
}

/// The text a statement prints as.
pub open spec fn stmt_text(s: StmtModel) -> Seq<char> {
    match s {
        StmtModel::Return(e) => "RETURN "@ + expr_text(e),
        StmtModel::Declare { name, exp } => match exp {
            Some(e) => "INT "@ + name + " = "@ + expr_text(e),
            None => "INT "@ + name,
        },
        StmtModel::Exp(e) => expr_text(e),
    }
}

/// One indented line per statement of a function body.
pub open spec fn body_lines(ss: Seq<StmtModel>) -> Seq<char>
    decreases ss.len(),
{
    if ss.len() == 0 {
        Seq::<char>::empty()
    } else {
        body_lines(ss.drop_last()) + ("    "@ + stmt_text(ss.last()) + "\n"@)
    }
}

/// The text a function prints as: a header line and one indented line
/// per statement of its body.
pub open spec fn fun_text(f: FunModel) -> Seq<char> {
    "FUN INT "@ + f.name + ":\n  params: ()\n  body:\n"@ + body_lines(f.body)
}

/// The number of nodes in an expression.
pub open spec fn expr_size(e: ExprModel) -> nat
    decreases e,
{
    match e {
        ExprModel::Const(_) => 1,
        ExprModel::Unary { op, exp } => 1 + expr_size(*exp),
        ExprModel::Binary { exp1, op, exp2 } => 1 + expr_size(*exp1) + expr_size(*exp2),
        ExprModel::Assign { name, exp } => 1 + expr_size(*exp),
        ExprModel::Var { name } => 1,
    }
}

/// The number of nodes in a statement.
pub open spec fn stmt_size(s: StmtModel) -> nat {
    match s {
        StmtModel::Return(e) => 1 + expr_size(e),
        StmtModel::Exp(e) => 1 + expr_size(e),
        StmtModel::Declare { name, exp } => match exp {
            Some(e) => 1 + expr_size(e),
            None => 1,
        },
    }
}

/// The name a unary operator prints as.
fn unary_op_str(op: UnaryOperator) -> (r: &'static str)
    ensures
        r@ == unary_op_text(op),
{
    match op {
        UnaryOperator::Negation => "Negation",
        UnaryOperator::BitwiseComplement => "BitwiseComplement",
        UnaryOperator::LogicalNegation => "LogicalNegation",
    }
}

/// The name a binary operator prints as.
fn binary_op_str(op: BinaryOperator) -> (r: &'static str)
    ensures
        r@ == binary_op_text(op),
{
    match op {
        BinaryOperator::Addition => "Addition",
        BinaryOperator::Minus => "Minus",
        BinaryOperator::Multiplication => "Multiplication",
        BinaryOperator::Division => "Division",
        BinaryOperator::And => "And",
        BinaryOperator::Or => "Or",
        BinaryOperator::Equal => "Equal",
        BinaryOperator::NotEqual => "NotEqual",
        BinaryOperator::LessThan => "LessThan",
        BinaryOperator::LessThanOrEqual => "LessThanOrEqual",
        BinaryOperator::GreaterThan => "GreaterThan",
        BinaryOperator::GreaterThanOrEqual => "GreaterThanOrEqual",
    }
}

impl Expression {
    /// Renders the expression: exactly the text of [`expr_text`].
    pub fn describe(&self) -> (r: String)
        ensures
            r@ == expr_text(self@),
        decreases *self,
    {
        match self {
            Expression::Const(v) => {
                let mut s = String::from_str("Int(");
                let digits = i128_to_string(*v as i128);
                s.append(digits.as_str());
                s.append(")");
                s
            },
            Expression::Unary { op, exp } => {
                let mut s = String::from_str(unary_op_str(*op));
                s.append("[");
                let inner = exp.describe();
                s.append(inner.as_str());
                s.append("]");
                s
            },
            Expression::Binary { exp1, op, exp2 } => {
                let mut s = String::from_str("{");
                let left = exp1.describe();
                s.append(left.as_str());
                s.append("}");
                s.append(binary_op_str(*op));
                s.append("{");
                let right = exp2.describe();
                s.append(right.as_str());
                s.append("}");
                s
            },
            Expression::Assign { name, exp } => {
                let mut s = String::from_str("(");
                s.append(name.as_str());
                s.append(" = [");
                let inner = exp.describe();
                s.append(inner.as_str());
                s.append("])");
                s
            },
            Expression::Var { name } => {
                let mut s = String::from_str("(");
                s.append(name.as_str());
                s.append(")");
                s
            },
        }
    }
}

impl Statement {
    /// Renders the statement: exactly the text of [`stmt_text`].
    pub fn describe(&self) -> (r: String)
        ensures
            r@ == stmt_text(self@),
    {
        match self {
            Statement::Return(e) => {
                let mut s = String::from_str("RETURN ");
                let inner = e.describe();
                s.append(inner.as_str());
                s
            },
            Statement::Declare { name, exp } => {
                let mut s = String::from_str("INT ");
                s.append(name.as_str());
                match exp {
                    Some(e) => {
                        s.append(" = ");
                        let inner = e.describe();
                        s.append(inner.as_str());
                    },
                    None => {},
                }
                s
            },
            Statement::Exp(e) => e.describe(),
        }
    }
}

impl Function {
    /// Renders the function: exactly the text of [`fun_text`].
    #[verifier::loop_isolation(false)]
    pub fn describe(&self) -> (r: String)
        ensures
            r@ == fun_text(self@),
    {
        let mut s = String::from_str("FUN INT ");
        s.append(self.name.as_str());
        s.append(":\n  params: ()\n  body:\n");
        let ghost stmts = self@.body;
        let ghost header = s@;
        let mut i: usize = 0;
        let n = self.body.len();
        proof {
            assert(stmts.subrange(0, 0) =~= Seq::<StmtModel>::empty());
        }
        while i < n
            invariant
                0 <= i <= n,
                s@ == header + body_lines(stmts.subrange(0, i as int)),
            decreases n - i,
        {
            proof {
                assert(stmts.subrange(0, i as int + 1).drop_last() =~= stmts.subrange(
                    0,
                    i as int,
                ));
                assert(stmts.subrange(0, i as int + 1).last() == stmts[i as int]);
            }
            s.append("    ");
            let line = self.body[i].describe();
            s.append(line.as_str());
            s.append("\n");
            i = i + 1;
        }
        proof {
            assert(stmts.subrange(0, n as int) =~= stmts);
        }
        s
    }
}

impl Program {
    /// Renders the program: the text of its one function.
    pub fn describe(&self) -> (r: String)
        ensures
            r@ == fun_text(self@.func),
    {
        self.func.describe()
    }
}

/// The number of nodes in a sequence of statements.
pub open spec fn body_size(ss: Seq<StmtModel>) -> nat
    decreases ss.len(),
{
    if ss.len() == 0 {
        0
    } else {
        stmt_size(ss[0]) + body_size(ss.drop_first())
    }
}

/// The number of nodes in a function.
pub open spec fn fun_size(f: FunModel) -> nat {
    1 + body_size(f.body)
}

/// The number of nodes in a program.
pub open spec fn prog_size(p: ProgModel) -> nat {
    fun_size(p.func)
}

} // verus!
