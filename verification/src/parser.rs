//! Recursive-descent parser with a fixed operator-precedence ladder.
//!
//! The grammar, lowest precedence first, each binary level left-associative:
//! ```text
//! program      := function
//! function     := 'int' IDENT '(' ')' '{' statement* '}'
//! statement    := 'return' expr ';'
//!               | 'int' IDENT ('=' expr)? ';'
//!               | expr ';'
//! expr         := IDENT '=' expr | logic_or
//! logic_or     := logic_and ('||' logic_and)*
//! logic_and    := equality ('&&' equality)*
//! equality     := relational (('=='|'!=') relational)*
//! relational   := additive (('<'|'<='|'>'|'>=') additive)*
//! additive     := term (('+'|'-') term)*
//! term         := factor (('*'|'/') factor)*
//! factor       := '(' expr ')' | ('-'|'~'|'!') factor | IDENT | INTEGER
//! ```
//! Every executable parsing function is specified against a spec-level
//! parser over the token models (`sp_factor` and friends), which returns
//! either the parsed node together with the position one past the last
//! consumed token, or the characters of the diagnostic message. The first
//! syntax error aborts the entire parse.
//!
//! All six binary levels share one parsing routine, [`parse_binary_level`],
//! parameterized by the precedence level; assignment is special-cased at
//! the top because it is right-associative and needs two tokens of
//! lookahead that must be abandoned when the second token is not `=`.

use vstd::prelude::*;
use vstd::string::StringExecFns;

use crate::ast::ExprModel;
use crate::ast::Expression;
use crate::ast::FunModel;
use crate::ast::ProgModel;
use crate::ast::Program;
use crate::ast::Statement;
use crate::ast::StmtModel;
use crate::ast::Function;
use crate::ast::body_size;
use crate::ast::expr_size;
use crate::ast::fun_size;
use crate::ast::prog_size;
use crate::ast::stmt_size;
use crate::error::CompilerStage;
use crate::error::SyntaxError;
use crate::scanner::Scanner;
use crate::token::BinaryOperator;
use crate::token::Token;
use crate::token::TokenModel;
use crate::token::UnaryOperator;
use crate::token::binary_op_of;
use crate::token::kind_eq;

verus! {

/// One level of the binary-operator precedence ladder, outermost first.
#[derive(Debug, Clone, Copy, PartialEq, Eq, Structural)]
pub enum Precedence {
    Or,
    And,
    Equality,
    Relational,
    Additive,
    Term,
}

/// The position of a level in the ladder; the innermost level is zero.
pub open spec fn level_rank(l: Precedence) -> nat {
    match l {
        Precedence::Or => 5,
        Precedence::And => 4,
        Precedence::Equality => 3,
        Precedence::Relational => 2,
        Precedence::Additive => 1,
        Precedence::Term => 0,
    }
}

/// The next-tighter precedence level.
pub open spec fn next_level_spec(l: Precedence) -> Precedence {
    match l {
        Precedence::Or => Precedence::And,
        Precedence::And => Precedence::Equality,
        Precedence::Equality => Precedence::Relational,
        Precedence::Relational => Precedence::Additive,
        Precedence::Additive => Precedence::Term,
        Precedence::Term => Precedence::Term,
    }
}

/// Whether a binary operator belongs to a precedence level.
pub open spec fn level_accepts(l: Precedence, op: BinaryOperator) -> bool {
    match l {
        Precedence::Or => op == BinaryOperator::Or,
        Precedence::And => op == BinaryOperator::And,
        Precedence::Equality => op == BinaryOperator::Equal || op == BinaryOperator::NotEqual,
        Precedence::Relational => op == BinaryOperator::LessThan || op
            == BinaryOperator::LessThanOrEqual || op == BinaryOperator::GreaterThan || op
            == BinaryOperator::GreaterThanOrEqual,
        Precedence::Additive => op == BinaryOperator::Addition || op == BinaryOperator::Minus,
        Precedence::Term => op == BinaryOperator::Multiplication || op
            == BinaryOperator::Division,
    }
}

/// Wraps a sub-expression parse in a unary operator node.
pub open spec fn mk_unary(op: UnaryOperator, r: Result<(ExprModel, int), Seq<char>>) -> Result<
    (ExprModel, int),
    Seq<char>,
> {
    match r {
        Ok((e, p2)) => Ok((ExprModel::Unary { op, exp: Box::new(e) }, p2)),
        Err(m) => Err(m),
    }
}

/// The spec parser for `factor`.
pub open spec fn sp_factor(t: Seq<TokenModel>, p: int) -> Result<(ExprModel, int), Seq<char>>
    decreases t.len() - p, 1int, 0int,
{
    if p < 0 || p >= t.len() {
        Err("token not found"@)
    } else {
        match t[p] {
            TokenModel::OpenParenthesis => match sp_expr(t, p + 1) {
                Ok((e, p2)) => if 0 <= p2 < t.len() && t[p2] is CloseParenthesis {
                    Ok((e, p2 + 1))
                } else {
                    Err("parenthesis not balanced"@)
                },
                Err(m) => Err(m),
            },
            TokenModel::Negation => mk_unary(UnaryOperator::Negation, sp_factor(t, p + 1)),
            TokenModel::BitwiseComplement => mk_unary(
                UnaryOperator::BitwiseComplement,
                sp_factor(t, p + 1),
            ),
            TokenModel::LogicalNegation => mk_unary(
                UnaryOperator::LogicalNegation,
                sp_factor(t, p + 1),
            ),
            TokenModel::Identifier(name) => Ok((ExprModel::Var { name }, p + 1)),
            TokenModel::Integer(v) => Ok((ExprModel::Const(v), p + 1)),
            _ => Err("invalid tokens"@),
        }
    }
}

/// The spec parser for the left-associative fold of one precedence level:
/// having already parsed `acc`, folds in `op sub-expression` pairs as long
/// as the next token is an operator of the level. A successful
/// sub-expression parse always consumes at least one token; the guard on
/// the returned position keeps the recursion well-founded.
pub open spec fn sp_binary_more(t: Seq<TokenModel>, p: int, l: Precedence, acc: ExprModel) -> Result<
    (ExprModel, int),
    Seq<char>,
>
    decreases t.len() - p, 2int + 2 * level_rank(l), 0int,
{
    if 0 <= p < t.len() {
        match binary_op_of(t[p]) {
            Some(op) => if level_accepts(l, op) {
                match (if l is Term {
                    sp_factor(t, p + 1)
                } else {
                    sp_binary(t, p + 1, next_level_spec(l))
                }) {
                    Ok((e2, p3)) => if p < p3 <= t.len() {
                        sp_binary_more(
                            t,
                            p3,
                            l,
                            ExprModel::Binary {
                                exp1: Box::new(acc),
                                op,
                                exp2: Box::new(e2),
                            },
                        )
                    } else {
                        Err("invalid tokens"@)
                    },
                    Err(m) => Err(m),
                }
            } else {
                Ok((acc, p))
            },
            None => Ok((acc, p)),
        }
    } else {
        Ok((acc, p))
    }
}

/// The spec parser for one precedence level: the next-tighter level (or a
/// factor), then the fold of [`sp_binary_more`]. The guard on the
/// returned position keeps the recursion well-founded.
pub open spec fn sp_binary(t: Seq<TokenModel>, p: int, l: Precedence) -> Result<
    (ExprModel, int),
    Seq<char>,
>
    decreases t.len() - p, 3int + 2 * level_rank(l), 0int,
{
    match (if l is Term {
        sp_factor(t, p)
    } else {
        sp_binary(t, p, next_level_spec(l))
    }) {
        Ok((e, p2)) => if p <= p2 <= t.len() {
            sp_binary_more(t, p2, l, e)
        } else {
            Err("invalid tokens"@)
        },
        Err(m) => Err(m),
    }
}

/// The spec parser for `expr`: right-associative assignment when an
/// identifier is directly followed by `=`, otherwise the precedence
/// ladder from `logic_or` down.
pub open spec fn sp_expr(t: Seq<TokenModel>, p: int) -> Result<(ExprModel, int), Seq<char>>
    decreases t.len() - p, 15int, 0int,
{
    if 0 <= p && p + 1 < t.len() {
        match (t[p], t[p + 1]) {
            (TokenModel::Identifier(name), TokenModel::Assignment) => match sp_expr(t, p + 2) {
                Ok((e, p2)) => Ok((ExprModel::Assign { name, exp: Box::new(e) }, p2)),
                Err(m) => Err(m),
            },
            _ => sp_binary(t, p, Precedence::Or),
        }
    } else {
        sp_binary(t, p, Precedence::Or)
    }
}

/// The spec parser for `statement`: return statement, declaration, or
/// expression statement, each terminated by a semicolon.
pub open spec fn sp_statement(t: Seq<TokenModel>, p: int) -> Result<(StmtModel, int), Seq<char>>
    decreases t.len() - p, 16int, 0int,
{
    if 0 <= p < t.len() && t[p] is Return {
        match sp_expr(t, p + 1) {
            Ok((e, p2)) => if 0 <= p2 < t.len() && t[p2] is SemiColon {
                Ok((StmtModel::Return(e), p2 + 1))
            } else {
                Err("invalid token, type should be SemiColon"@)
            },
            Err(m) => Err(m),
        }
    } else if 0 <= p < t.len() && t[p] is Int {
        if p + 1 < t.len() {
            match t[p + 1] {
                TokenModel::Identifier(name) => if p + 2 < t.len() && t[p + 2] is Assignment {
                    match sp_expr(t, p + 3) {
                        Ok((e, p2)) => if 0 <= p2 < t.len() && t[p2] is SemiColon {
                            Ok((StmtModel::Declare { name, exp: Some(e) }, p2 + 1))
                        } else {
                            Err("expecting a semicolon at end of declaration"@)
                        },
                        Err(m) => Err(m),
                    }
                } else {
                    if p + 2 < t.len() && t[p + 2] is SemiColon {
                        Ok((StmtModel::Declare { name, exp: None }, p + 3))
                    } else {
                        Err("expecting a semicolon at end of declaration"@)
                    }
                },
                _ => Err("expected a identifier"@),
            }
        } else {
            Err("indetifier not found"@)
        }
    } else {
        match sp_expr(t, p) {
            Ok((e, p2)) => if 0 <= p2 < t.len() && t[p2] is SemiColon {
                Ok((StmtModel::Exp(e), p2 + 1))
            } else {
                Err("expecting a semi colon"@)
            },
            Err(m) => Err(m),
        }
    }
}

/// The spec parser for a function body: statements are parsed from the
/// committed position `p` while the lookahead cursor `look` walks ahead;
/// a closing brace under the lookahead is skipped over (the loop stops
/// only when the lookahead runs off the end of the input), and any other
/// token rewinds the lookahead and parses one statement at `p`. A
/// successful statement parse always consumes at least one token; the
/// guard on its returned position keeps the recursion well-founded.
pub open spec fn sp_body(t: Seq<TokenModel>, p: int, look: int) -> Result<
    (Seq<StmtModel>, int),
    Seq<char>,
>
    decreases t.len() - p, 17int, t.len() - look,
{
    if look < 0 || look >= t.len() {
        Ok((Seq::<StmtModel>::empty(), p))
    } else if t[look] is CloseBrace {
        sp_body(t, p, look + 1)
    } else {
        match sp_statement(t, p) {
            Ok((st, p2)) => if p < p2 <= t.len() {
                match sp_body(t, p2, p2) {
                    Ok((rest, p3)) => Ok((seq![st] + rest, p3)),
                    Err(m) => Err(m),
                }
            } else {
                Err("invalid tokens"@)
            },
            Err(m) => Err(m),
        }
    }
}

/// The spec parser for `function`: the fixed header
/// `'int' IDENT '(' ')' '{'`, then the body, then the closing brace.
pub open spec fn sp_function(t: Seq<TokenModel>, p: int) -> Result<(FunModel, int), Seq<char>>
    decreases t.len() - p, 18int, 0int,
{
    if p < 0 || p >= t.len() || !(t[p] is Int) {
        Err("invalid token, type should be Int"@)
    } else if p + 1 >= t.len() {
        Err("token not found"@)
    } else {
        match t[p + 1] {
            TokenModel::Identifier(name) => if p + 2 >= t.len() || !(t[p + 2]
                is OpenParenthesis) {
                Err("invalid token, type should be OpenParenthesis"@)
            } else if p + 3 >= t.len() || !(t[p + 3] is CloseParenthesis) {
                Err("invalid token, type should be CloseParenthesis"@)
            } else if p + 4 >= t.len() || !(t[p + 4] is OpenBrace) {
                Err("invalid token, type should be OpenBrace"@)
            } else {
                match sp_body(t, p + 5, p + 5) {
                    Ok((stmts, p2)) => if 0 <= p2 < t.len() && t[p2] is CloseBrace {
                        Ok((FunModel { name, body: stmts }, p2 + 1))
                    } else {
                        Err("invalid token, type should be CloseBrace"@)
                    },
                    Err(m) => Err(m),
                }
            },
            _ => Err("invalid token, type should be Identifier"@),
        }
    }
}

/// The spec parser for `program`: exactly one function.
pub open spec fn sp_program(t: Seq<TokenModel>, p: int) -> Result<(ProgModel, int), Seq<char>>
    decreases t.len() - p, 19int, 0int,
{
    match sp_function(t, p) {
        Ok((f, p2)) => Ok((ProgModel { func: f }, p2)),
        Err(m) => Err(m),
    }
}

/// Whether an executable parse result mirrors a spec parse result: a
/// parsed node models the spec node with the scanner stopped at the spec
/// position, and an error is a parse error carrying the spec message.
pub open spec fn mirrors<E: View>(
    r: Result<E, SyntaxError>,
    sr: Result<(E::V, int), Seq<char>>,
    endpos: int,
) -> bool {
    match r {
        Ok(v) => sr == Ok::<(E::V, int), Seq<char>>((v@, endpos)),
        Err(e) => match sr {
            Ok(_) => false,
            Err(m) => e@.stage == CompilerStage::Parser && e@.message == m,
        },
    }
}

/// The next-tighter precedence level.
fn next_level(l: Precedence) -> (r: Precedence)
    ensures
        r == next_level_spec(l),
{
    match l {
        Precedence::Or => Precedence::And,
        Precedence::And => Precedence::Equality,
        Precedence::Equality => Precedence::Relational,
        Precedence::Relational => Precedence::Additive,
        Precedence::Additive => Precedence::Term,
        Precedence::Term => Precedence::Term,
    }
}

/// Whether a binary operator belongs to a precedence level.
fn accepts(l: Precedence, op: BinaryOperator) -> (r: bool)
    ensures
        r == level_accepts(l, op),
{
    match l {
        Precedence::Or => op == BinaryOperator::Or,
        Precedence::And => op == BinaryOperator::And,
        Precedence::Equality => op == BinaryOperator::Equal || op == BinaryOperator::NotEqual,
        Precedence::Relational => op == BinaryOperator::LessThan || op
            == BinaryOperator::LessThanOrEqual || op == BinaryOperator::GreaterThan || op
            == BinaryOperator::GreaterThanOrEqual,
        Precedence::Additive => op == BinaryOperator::Addition || op == BinaryOperator::Minus,
        Precedence::Term => op == BinaryOperator::Multiplication || op
            == BinaryOperator::Division,
    }
}

/// Parses one `factor`: a parenthesized expression, a unary operator
/// applied to a factor, a variable reference, or an integer literal.
fn parse_factor(s: &mut Scanner) -> (r: Result<Expression, SyntaxError>)
    requires
        old(s).wf(),
        old(s)@.look == old(s)@.pos,
    ensures
        final(s).wf(),
        final(s)@.tokens == old(s)@.tokens,
        final(s)@.look == final(s)@.pos,
        mirrors(r, sp_factor(old(s)@.tokens, old(s)@.pos), final(s)@.pos),
        r is Ok ==> final(s)@.pos > old(s)@.pos,
    decreases old(s)@.tokens.len() - old(s)@.pos, 1int,
{
    let token = match s.pop("token not found") {
        Ok(t) => t,
        Err(e) => {
            return Err(e);
        },
    };
    match token {
        Token::OpenParenthesis => {
            let inner_exp = match parse_expression(s) {
                Ok(e) => e,
                Err(e) => {
                    return Err(e);
                },
            };
            match s.take(Token::CloseParenthesis, "parenthesis not balanced") {
                Ok(_) => {},
                Err(e) => {
                    return Err(e);
                },
            }
            Ok(inner_exp)
        },
        Token::Negation | Token::BitwiseComplement | Token::LogicalNegation => {
            let op = match UnaryOperator::try_from(&token) {
                Ok(op) => op,
                Err(e) => {
                    proof {
                        assert(false);
                    }
                    return Err(e);
                },
            };
            let inner_exp = match parse_factor(s) {
                Ok(e) => e,
                Err(e) => {
                    return Err(e);
                },
            };
            Ok(Expression::Unary { op, exp: Box::new(inner_exp) })
        },
        Token::Identifier(name) => Ok(Expression::Var { name }),
        Token::Integer(v) => Ok(Expression::Const(v)),
        _ => Err(SyntaxError::new_parse_error(String::from_str("invalid tokens"))),
    }
}

/// Parses one precedence level: the next-tighter level once, then a
/// left-associative fold over the level's operators. This one routine,
/// parameterized by the level, implements all six binary rungs of the
/// grammar.
#[verifier::loop_isolation(false)]
fn parse_binary_level(s: &mut Scanner, level: Precedence) -> (r: Result<Expression, SyntaxError>)
    requires
        old(s).wf(),
        old(s)@.look == old(s)@.pos,
    ensures
        final(s).wf(),
        final(s)@.tokens == old(s)@.tokens,
        final(s)@.look == final(s)@.pos,
        mirrors(r, sp_binary(old(s)@.tokens, old(s)@.pos, level), final(s)@.pos),
        r is Ok ==> final(s)@.pos > old(s)@.pos,
    decreases old(s)@.tokens.len() - old(s)@.pos, 3int + 2 * level_rank(level),
{
    let ghost t = old(s)@.tokens;
    let ghost p0 = old(s)@.pos;
    let first = match (match level {
        Precedence::Term => parse_factor(s),
        _ => parse_binary_level(s, next_level(level)),
    }) {
        Ok(e) => e,
        Err(e) => {
            return Err(e);
        },
    };
    let mut exp = first;
    let mut done = false;
    while !done
        invariant
            s.wf(),
            s@.tokens == t,
            s@.look == s@.pos,
            p0 < s@.pos <= t.len(),
            !done ==> sp_binary(t, p0, level) == sp_binary_more(t, s@.pos, level, exp@),
            done ==> sp_binary(t, p0, level) == Ok::<(ExprModel, int), Seq<char>>(
                (exp@, s@.pos),
            ),
        decreases t.len() - s@.pos, (if done { 0int } else { 1int }),
    {
        let next_tok = s.peek();
        match next_tok {
            Some(val) => {
                match BinaryOperator::try_from(&val) {
                    Ok(bin_op) => {
                        if accepts(level, bin_op) {
                            match s.pop("") {
                                Ok(_) => {},
                                Err(e) => {
                                    proof {
                                        assert(false);
                                    }
                                    return Err(e);
                                },
                            }
                            let next_exp = match (match level {
                                Precedence::Term => parse_factor(s),
                                _ => parse_binary_level(s, next_level(level)),
                            }) {
                                Ok(e) => e,
                                Err(e) => {
                                    return Err(e);
                                },
                            };
                            exp = Expression::Binary {
                                exp1: Box::new(exp),
                                op: bin_op,
                                exp2: Box::new(next_exp),
                            };
                        } else {
                            s.reset_peek();
                            done = true;
                        }
                    },
                    Err(_) => {
                        s.reset_peek();
                        done = true;
                    },
                }
            },
            None => {
                s.reset_peek();
                done = true;
            },
        }
    }
    Ok(exp)
}

/// Parses one `expr`: an assignment when an identifier is directly
/// followed by `=` (two tokens of lookahead, abandoned otherwise), else
/// the precedence ladder from the `||` level down.
fn parse_expression(s: &mut Scanner) -> (r: Result<Expression, SyntaxError>)
    requires
        old(s).wf(),
        old(s)@.look == old(s)@.pos,
    ensures
        final(s).wf(),
        final(s)@.tokens == old(s)@.tokens,
        final(s)@.look == final(s)@.pos,
        mirrors(r, sp_expr(old(s)@.tokens, old(s)@.pos), final(s)@.pos),
        r is Ok ==> final(s)@.pos > old(s)@.pos,
    decreases old(s)@.tokens.len() - old(s)@.pos, 15int,
{
    let first = s.peek();
    match first {
        Some(Token::Identifier(name)) => {
            let second = s.peek();
            match second {
                Some(Token::Assignment) => {
                    match s.pop("") {
                        Ok(_) => {},
                        Err(e) => {
                            proof {
                                assert(false);
                            }
                            return Err(e);
                        },
                    }
                    match s.take(Token::Assignment, "expecting an assignment operator over here") {
                        Ok(_) => {},
                        Err(e) => {
                            proof {
                                assert(false);
                            }
                            return Err(e);
                        },
                    }
                    let inner_exp = match parse_expression(s) {
                        Ok(e) => e,
                        Err(e) => {
                            return Err(e);
                        },
                    };
                    Ok(Expression::Assign { name, exp: Box::new(inner_exp) })
                },
                _ => {
                    s.reset_peek();
                    parse_binary_level(s, Precedence::Or)
                },
            }
        },
        _ => {
            s.reset_peek();
            parse_binary_level(s, Precedence::Or)
        },
    }
}

/// Parses one `statement`, dispatching on one token of lookahead: a
/// `return` statement, a declaration, or the expression-statement
/// fallback, which rewinds the lookahead before re-parsing.
fn parse_statement(s: &mut Scanner) -> (r: Result<Statement, SyntaxError>)
    requires
        old(s).wf(),
        old(s)@.look == old(s)@.pos,
    ensures
        final(s).wf(),
        final(s)@.tokens == old(s)@.tokens,
        final(s)@.look == final(s)@.pos,
        mirrors(r, sp_statement(old(s)@.tokens, old(s)@.pos), final(s)@.pos),
        r is Ok ==> final(s)@.pos > old(s)@.pos,
    decreases old(s)@.tokens.len() - old(s)@.pos, 16int,
{
    let first = s.peek();
    match first {
        Some(Token::Return) => {
            match s.take(Token::Return, "") {
                Ok(_) => {},
                Err(e) => {
                    proof {
                        assert(false);
                    }
                    return Err(e);
                },
            }
            let expression = match parse_expression(s) {
                Ok(e) => e,
                Err(e) => {
                    return Err(e);
                },
            };
            match s.take(Token::SemiColon, "invalid token, type should be SemiColon") {
                Ok(_) => {},
                Err(e) => {
                    return Err(e);
                },
            }
            Ok(Statement::Return(expression))
        },
        Some(Token::Int) => {
            match s.take(Token::Int, "") {
                Ok(_) => {},
                Err(e) => {
                    proof {
                        assert(false);
                    }
                    return Err(e);
                },
            }
            let identifier = match s.pop("indetifier not found") {
                Ok(t) => t,
                Err(e) => {
                    return Err(e);
                },
            };
            match identifier {
                Token::Identifier(identifier_name) => {
                    let mut exp: Option<Expression> = None;
                    let assign = s.peek();
                    match assign {
                        Some(Token::Assignment) => {
                            match s.take(Token::Assignment, "") {
                                Ok(_) => {},
                                Err(e) => {
                                    proof {
                                        assert(false);
                                    }
                                    return Err(e);
                                },
                            }
                            let init = match parse_expression(s) {
                                Ok(e) => e,
                                Err(e) => {
                                    return Err(e);
                                },
                            };
                            exp = Some(init);
                        },
                        _ => {},
                    }
                    s.reset_peek();
                    match s.take(Token::SemiColon, "expecting a semicolon at end of declaration") {
                        Ok(_) => {},
                        Err(e) => {
                            return Err(e);
                        },
                    }
                    Ok(Statement::Declare { name: identifier_name, exp })
                },
                _ => Err(
                    SyntaxError::new_parse_error(String::from_str("expected a identifier")),
                ),
            }
        },
        _ => {
            s.reset_peek();
            let exp = match parse_expression(s) {
                Ok(e) => e,
                Err(e) => {
                    return Err(e);
                },
            };
            match s.take(Token::SemiColon, "expecting a semi colon") {
                Ok(_) => {},
                Err(e) => {
                    return Err(e);
                },
            }
            Ok(Statement::Exp(exp))
        },
    }
}

/// Parses one `function`: the fixed header, the statement loop, and the
/// closing brace. The loop peeks ahead without committing; a closing
/// brace under the lookahead is skipped over, and any other token rewinds
/// the lookahead and parses one statement at the committed position.
#[verifier::loop_isolation(false)]
fn parse_function(s: &mut Scanner) -> (r: Result<Function, SyntaxError>)
    requires
        old(s).wf(),
        old(s)@.look == old(s)@.pos,
    ensures
        final(s).wf(),
        final(s)@.tokens == old(s)@.tokens,
        mirrors(r, sp_function(old(s)@.tokens, old(s)@.pos), final(s)@.pos),
    decreases old(s)@.tokens.len() - old(s)@.pos, 18int,
{
    let ghost t = old(s)@.tokens;
    match s.take(Token::Int, "invalid token, type should be Int") {
        Ok(_) => {},
        Err(e) => {
            return Err(e);
        },
    }
    let token = match s.pop("token not found") {
        Ok(tok) => tok,
        Err(e) => {
            return Err(e);
        },
    };
    let func_name = match token {
        Token::Identifier(val) => val,
        _ => {
            return Err(
                SyntaxError::new_parse_error(
                    String::from_str("invalid token, type should be Identifier"),
                ),
            );
        },
    };
    match s.take(Token::OpenParenthesis, "invalid token, type should be OpenParenthesis") {
        Ok(_) => {},
        Err(e) => {
            return Err(e);
        },
    }
    match s.take(Token::CloseParenthesis, "invalid token, type should be CloseParenthesis") {
        Ok(_) => {},
        Err(e) => {
            return Err(e);
        },
    }
    match s.take(Token::OpenBrace, "invalid token, type should be OpenBrace") {
        Ok(_) => {},
        Err(e) => {
            return Err(e);
        },
    }
    let ghost pb = s@.pos;
    let mut statements: Vec<Statement> = Vec::new();
    let mut done = false;
    while !done
        invariant
            s.wf(),
            s@.tokens == t,
            pb <= s@.pos,
            !done ==> (match sp_body(t, s@.pos, s@.look) {
                Ok((rest, pend)) => sp_body(t, pb, pb) == Ok::<(Seq<StmtModel>, int), Seq<char>>(
                    (statements.deep_view() + rest, pend),
                ),
                Err(m) => sp_body(t, pb, pb) == Err::<(Seq<StmtModel>, int), Seq<char>>(m),
            }),
            done ==> sp_body(t, pb, pb) == Ok::<(Seq<StmtModel>, int), Seq<char>>(
                (statements.deep_view(), s@.pos),
            ),
        decreases t.len() - s@.pos, (if done { 0int } else { 1int }), t.len() - s@.look,
    {
        let val = s.peek();
        match val {
            Some(tok) => {
                if !kind_eq(&tok, &Token::CloseBrace) {
                    s.reset_peek();
                    let ghost pre = statements.deep_view();
                    let func_body = match parse_statement(s) {
                        Ok(st) => st,
                        Err(e) => {
                            return Err(e);
                        },
                    };
                    statements.push(func_body);
                    proof {
                        assert(statements.deep_view() =~= pre + seq![func_body@]);
                        match sp_body(t, s@.pos, s@.pos) {
                            Ok((rest2, pend)) => {
                                assert((pre + (seq![func_body@] + rest2)) =~= ((pre + seq![
                                    func_body@,
                                ]) + rest2));
                            },
                            Err(m) => {},
                        }
                    }
                }
            },
            None => {
                proof {
                    assert((statements.deep_view() + Seq::<StmtModel>::empty())
                        =~= statements.deep_view());
                }
                done = true;
            },
        }
    }
    match s.take(Token::CloseBrace, "invalid token, type should be CloseBrace") {
        Ok(_) => {},
        Err(e) => {
            return Err(e);
        },
    }
    Ok(Function { name: func_name, body: statements })
}

/// A parsed factor consumes at least one token and never has more nodes
/// than the tokens it consumed.
pub proof fn lemma_sp_factor_size(t: Seq<TokenModel>, p: int)
    ensures
        (match sp_factor(t, p) {
            Ok((e, p2)) => p < p2 <= t.len() && expr_size(e) <= p2 - p,
            Err(_) => true,
        }),
    decreases t.len() - p, 1int, 0int,
{
    if 0 <= p < t.len() {
        match t[p] {
            TokenModel::OpenParenthesis => {
                lemma_sp_expr_size(t, p + 1);
            },
            TokenModel::Negation => {
                lemma_sp_factor_size(t, p + 1);
            },
            TokenModel::BitwiseComplement => {
                lemma_sp_factor_size(t, p + 1);
            },
            TokenModel::LogicalNegation => {
                lemma_sp_factor_size(t, p + 1);
            },
            _ => {},
        }
    }
}

/// Folding further operators of one level onto `acc` advances the
/// position and adds at most one node per consumed token.
pub proof fn lemma_sp_binary_more_size(t: Seq<TokenModel>, p: int, l: Precedence, acc: ExprModel)
    requires
        p <= t.len(),
    ensures
        (match sp_binary_more(t, p, l, acc) {
            Ok((e, p2)) => p <= p2 <= t.len() && expr_size(e) <= expr_size(acc) + (p2 - p),
            Err(_) => true,
        }),
    decreases t.len() - p, 2int + 2 * level_rank(l), 0int,
{
    if 0 <= p < t.len() {
        match binary_op_of(t[p]) {
            Some(op) => if level_accepts(l, op) {
                if l is Term {
                    lemma_sp_factor_size(t, p + 1);
                } else {
                    lemma_sp_binary_size(t, p + 1, next_level_spec(l));
                }
                match (if l is Term {
                    sp_factor(t, p + 1)
                } else {
                    sp_binary(t, p + 1, next_level_spec(l))
                }) {
                    Ok((e2, p3)) => if p < p3 <= t.len() {
                        assert(expr_size(
                            ExprModel::Binary { exp1: Box::new(acc), op, exp2: Box::new(e2) },
                        ) == 1 + expr_size(acc) + expr_size(e2));
                        lemma_sp_binary_more_size(
                            t,
                            p3,
                            l,
                            ExprModel::Binary { exp1: Box::new(acc), op, exp2: Box::new(e2) },
                        );
                    } else {
                    },
                    Err(_) => {},
                }
            } else {
            },
            None => {},
        }
    }
}

/// A parsed level consumes at least one token and never has more nodes
/// than the tokens it consumed.
pub proof fn lemma_sp_binary_size(t: Seq<TokenModel>, p: int, l: Precedence)
    ensures
        (match sp_binary(t, p, l) {
            Ok((e, p2)) => p < p2 <= t.len() && expr_size(e) <= p2 - p,
            Err(_) => true,
        }),
    decreases t.len() - p, 3int + 2 * level_rank(l), 0int,
{
    if l is Term {
        lemma_sp_factor_size(t, p);
    } else {
        lemma_sp_binary_size(t, p, next_level_spec(l));
    }
    match (if l is Term {
        sp_factor(t, p)
    } else {
        sp_binary(t, p, next_level_spec(l))
    }) {
        Ok((e, p2)) => if p <= p2 <= t.len() {
            lemma_sp_binary_more_size(t, p2, l, e);
        } else {
        },
        Err(_) => {},
    }
}

/// A parsed expression consumes at least one token and never has more
/// nodes than the tokens it consumed.
pub proof fn lemma_sp_expr_size(t: Seq<TokenModel>, p: int)
    ensures
        (match sp_expr(t, p) {
            Ok((e, p2)) => p < p2 <= t.len() && expr_size(e) <= p2 - p,
            Err(_) => true,
        }),
    decreases t.len() - p, 15int, 0int,
{
    if 0 <= p && p + 1 < t.len() {
        match (t[p], t[p + 1]) {
            (TokenModel::Identifier(name), TokenModel::Assignment) => {
                lemma_sp_expr_size(t, p + 2);
            },
            _ => {
                lemma_sp_binary_size(t, p, Precedence::Or);
            },
        }
    } else {
        lemma_sp_binary_size(t, p, Precedence::Or);
    }
}

/// A parsed statement consumes at least one token and never has more
/// nodes than the tokens it consumed.
pub proof fn lemma_sp_statement_size(t: Seq<TokenModel>, p: int)
    ensures
        (match sp_statement(t, p) {
            Ok((s, p2)) => p < p2 <= t.len() && stmt_size(s) <= p2 - p,
            Err(_) => true,
        }),
    decreases t.len() - p, 16int, 0int,
{
    if 0 <= p < t.len() && t[p] is Return {
        lemma_sp_expr_size(t, p + 1);
    } else if 0 <= p < t.len() && t[p] is Int {
        if p + 2 < t.len() && t[p + 2] is Assignment {
            lemma_sp_expr_size(t, p + 3);
        }
    } else {
        lemma_sp_expr_size(t, p);
    }
}

/// A parsed function body consumes no more tokens than are left and
/// never has more nodes than the tokens it consumed.
pub proof fn lemma_sp_body_size(t: Seq<TokenModel>, p: int, look: int)
    requires
        0 <= p <= t.len(),
    ensures
        (match sp_body(t, p, look) {
            Ok((ss, p2)) => p <= p2 <= t.len() && body_size(ss) <= p2 - p,
            Err(_) => true,
        }),
    decreases t.len() - p, 17int, t.len() - look,
{
    if look < 0 || look >= t.len() {
    } else if t[look] is CloseBrace {
        lemma_sp_body_size(t, p, look + 1);
    } else {
        lemma_sp_statement_size(t, p);
        match sp_statement(t, p) {
            Ok((st, p2)) => if p < p2 <= t.len() {
                lemma_sp_body_size(t, p2, p2);
                match sp_body(t, p2, p2) {
                    Ok((rest, p3)) => {
                        assert((seq![st] + rest)[0] == st);
                        assert((seq![st] + rest).drop_first() =~= rest);
                    },
                    Err(_) => {},
                }
            } else {
            },
            Err(_) => {},
        }
    }
}

/// A parsed function consumes at least one token and never has more
/// nodes than the tokens it consumed.
pub proof fn lemma_sp_function_size(t: Seq<TokenModel>, p: int)
    ensures
        (match sp_function(t, p) {
            Ok((f, p2)) => p < p2 <= t.len() && fun_size(f) <= p2 - p,
            Err(_) => true,
        }),
    decreases t.len() - p, 18int, 0int,
{
    if 0 <= p < t.len() && t[p] is Int && p + 1 < t.len() {
        match t[p + 1] {
            TokenModel::Identifier(name) => {
                if p + 4 < t.len() && t[p + 2] is OpenParenthesis && t[p + 3]
                    is CloseParenthesis && t[p + 4] is OpenBrace {
                    lemma_sp_body_size(t, p + 5, p + 5);
                }
            },
            _ => {},
        }
    }
}

/// A parsed program never has more nodes than the tokens it consumed.
pub proof fn lemma_sp_program_size(t: Seq<TokenModel>, p: int)
    ensures
        (match sp_program(t, p) {
            Ok((prog, p2)) => p < p2 <= t.len() && prog_size(prog) <= p2 - p,
            Err(_) => true,
        }),
    decreases t.len() - p, 19int, 0int,
{
    lemma_sp_function_size(t, p);
}

/// Parses a whole program: exactly one function.
pub fn parse_program(tokens: &mut Scanner) -> (r: Result<Program, SyntaxError>)
    requires
        old(tokens).wf(),
        old(tokens)@.look == old(tokens)@.pos,
    ensures
        final(tokens).wf(),
        final(tokens)@.tokens == old(tokens)@.tokens,
        mirrors(r, sp_program(old(tokens)@.tokens, old(tokens)@.pos), final(tokens)@.pos),
    decreases old(tokens)@.tokens.len() - old(tokens)@.pos, 19int,
{
    let function = match parse_function(tokens) {
        Ok(f) => f,
        Err(e) => {
            return Err(e);
        },
    };
    Ok(Program { func: function })
}

} // verus!
