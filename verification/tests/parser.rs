use minicc::ast::Expression;
use minicc::ast::Statement;
use minicc::error::CompilerStage;
use minicc::parser::parse_program;
use minicc::scanner::Scanner;
use minicc::token::BinaryOperator;
use minicc::token::Token;
use minicc::token::UnaryOperator;
use minicc::tokenizer::string_tokenizer;

fn parse_source(source: &str) -> Result<minicc::ast::Program, minicc::error::SyntaxError> {
    let tokens = string_tokenizer(source).unwrap();
    let mut scanner = Scanner::new(tokens);
    parse_program(&mut scanner)
}

fn return_expression(source: &str) -> Expression {
    let program = parse_source(source).unwrap();
    let mut body = program.func.body;
    assert_eq!(body.len(), 1);
    match body.remove(0) {
        Statement::Return(e) => e,
        other => panic!("expected a return statement, got {:?}", other),
    }
}

#[test]
fn multiplication_binds_tighter_than_addition() {
    let e = return_expression("int main(){ return 1 + 2 * 3; }");
    assert_eq!(
        e,
        Expression::Binary {
            exp1: Box::new(Expression::Const(1)),
            op: BinaryOperator::Addition,
            exp2: Box::new(Expression::Binary {
                exp1: Box::new(Expression::Const(2)),
                op: BinaryOperator::Multiplication,
                exp2: Box::new(Expression::Const(3)),
            }),
        }
    );
}

#[test]
fn subtraction_is_left_associative() {
    let e = return_expression("int main(){ return 1 - 2 - 3; }");
    assert_eq!(
        e,
        Expression::Binary {
            exp1: Box::new(Expression::Binary {
                exp1: Box::new(Expression::Const(1)),
                op: BinaryOperator::Minus,
                exp2: Box::new(Expression::Const(2)),
            }),
            op: BinaryOperator::Minus,
            exp2: Box::new(Expression::Const(3)),
        }
    );
}

#[test]
fn parentheses_override_precedence() {
    let e = return_expression("int main(){ return (1 + 2) * 3; }");
    assert_eq!(
        e,
        Expression::Binary {
            exp1: Box::new(Expression::Binary {
                exp1: Box::new(Expression::Const(1)),
                op: BinaryOperator::Addition,
                exp2: Box::new(Expression::Const(2)),
            }),
            op: BinaryOperator::Multiplication,
            exp2: Box::new(Expression::Const(3)),
        }
    );
}

#[test]
fn unary_operators_nest_right_recursively() {
    let e = return_expression("int main(){ return !~-5; }");
    assert_eq!(
        e,
        Expression::Unary {
            op: UnaryOperator::LogicalNegation,
            exp: Box::new(Expression::Unary {
                op: UnaryOperator::BitwiseComplement,
                exp: Box::new(Expression::Unary {
                    op: UnaryOperator::Negation,
                    exp: Box::new(Expression::Const(5)),
                }),
            }),
        }
    );
}

#[test]
fn logical_or_is_outermost() {
    let e = return_expression("int main(){ return 1 || 0 && 2; }");
    assert_eq!(
        e,
        Expression::Binary {
            exp1: Box::new(Expression::Const(1)),
            op: BinaryOperator::Or,
            exp2: Box::new(Expression::Binary {
                exp1: Box::new(Expression::Const(0)),
                op: BinaryOperator::And,
                exp2: Box::new(Expression::Const(2)),
            }),
        }
    );
}

#[test]
fn assignment_is_right_associative() {
    let program = parse_source("int main(){ int a; int b; a = b = 2; }").unwrap();
    assert_eq!(program.func.body.len(), 3);
    assert_eq!(
        program.func.body[2],
        Statement::Exp(Expression::Assign {
            name: "a".to_string(),
            exp: Box::new(Expression::Assign {
                name: "b".to_string(),
                exp: Box::new(Expression::Const(2)),
            }),
        })
    );
}

#[test]
fn declarations_with_and_without_initializer() {
    let program = parse_source("int main(){ int a = 5; int b; }").unwrap();
    assert_eq!(
        program.func.body[0],
        Statement::Declare {
            name: "a".to_string(),
            exp: Some(Expression::Const(5)),
        }
    );
    assert_eq!(
        program.func.body[1],
        Statement::Declare { name: "b".to_string(), exp: None }
    );
}

#[test]
fn function_name_is_kept() {
    let program = parse_source("int fortytwo(){ return 42; }").unwrap();
    assert_eq!(program.func.name, "fortytwo");
}

#[test]
fn missing_semicolon_is_parse_error() {
    let err = parse_source("int main(){ return 2 }").unwrap_err();
    assert_eq!(err.stage(), CompilerStage::Parser);
    assert_eq!(err.message(), "invalid token, type should be SemiColon");
}

#[test]
fn missing_close_brace_is_parse_error() {
    let err = parse_source("int main(){ return 2;").unwrap_err();
    assert_eq!(err.stage(), CompilerStage::Parser);
    assert_eq!(err.message(), "invalid token, type should be CloseBrace");
}

#[test]
fn unbalanced_parenthesis_is_parse_error() {
    let err = parse_source("int main(){ return (1; }").unwrap_err();
    assert_eq!(err.stage(), CompilerStage::Parser);
    assert_eq!(err.message(), "parenthesis not balanced");
}

#[test]
fn empty_input_is_parse_error() {
    let mut scanner = Scanner::new(Vec::<Token>::new());
    let err = parse_program(&mut scanner).unwrap_err();
    assert_eq!(err.stage(), CompilerStage::Parser);
    assert_eq!(err.message(), "invalid token, type should be Int");
}

#[test]
fn tokens_after_the_function_are_rejected() {
    let err = parse_source("int main(){ return 0; } int").unwrap_err();
    assert_eq!(err.stage(), CompilerStage::Parser);
    assert_eq!(err.message(), "invalid tokens");
}

#[test]
fn expression_statement_fallback() {
    let program = parse_source("int main(){ 1 + 2; }").unwrap();
    assert_eq!(
        program.func.body[0],
        Statement::Exp(Expression::Binary {
            exp1: Box::new(Expression::Const(1)),
            op: BinaryOperator::Addition,
            exp2: Box::new(Expression::Const(2)),
        })
    );
}
