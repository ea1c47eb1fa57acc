use minicc::ast::Expression;
use minicc::ast::Statement;
use minicc::parser::parse_program;
use minicc::scanner::Scanner;
use minicc::token::BinaryOperator;
use minicc::token::UnaryOperator;
use minicc::tokenizer::string_tokenizer;

#[test]
fn expressions_render_structurally() {
    let e = Expression::Binary {
        exp1: Box::new(Expression::Const(1)),
        op: BinaryOperator::Addition,
        exp2: Box::new(Expression::Binary {
            exp1: Box::new(Expression::Const(2)),
            op: BinaryOperator::Multiplication,
            exp2: Box::new(Expression::Const(3)),
        }),
    };
    assert_eq!(
        e.describe(),
        "{Int(1)}Addition{{Int(2)}Multiplication{Int(3)}}"
    );
}

#[test]
fn unary_and_variable_rendering() {
    let e = Expression::Unary {
        op: UnaryOperator::Negation,
        exp: Box::new(Expression::Var { name: "x".to_string() }),
    };
    assert_eq!(e.describe(), "Negation[(x)]");
    let a = Expression::Assign {
        name: "a".to_string(),
        exp: Box::new(Expression::Const(2)),
    };
    assert_eq!(a.describe(), "(a = [Int(2)])");
}

#[test]
fn statements_render_with_their_keyword() {
    assert_eq!(
        Statement::Return(Expression::Const(3)).describe(),
        "RETURN Int(3)"
    );
    assert_eq!(
        Statement::Declare {
            name: "a".to_string(),
            exp: Some(Expression::Const(5)),
        }
        .describe(),
        "INT a = Int(5)"
    );
    assert_eq!(
        Statement::Declare { name: "b".to_string(), exp: None }.describe(),
        "INT b"
    );
}

#[test]
fn programs_render_one_line_per_statement() {
    let tokens = string_tokenizer("int main(){ int a = 1; return a; }").unwrap();
    let mut scanner = Scanner::new(tokens);
    let program = parse_program(&mut scanner).unwrap();
    assert_eq!(
        program.describe(),
        "FUN INT main:\n  params: ()\n  body:\n    INT a = Int(1)\n    RETURN (a)\n"
    );
}

#[test]
fn negative_constants_render_with_sign() {
    assert_eq!(Expression::Const(-7).describe(), "Int(-7)");
    assert_eq!(Expression::Const(i32::MIN).describe(), "Int(-2147483648)");
}
