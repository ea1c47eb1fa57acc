use minicc::error::CompilerStage;
use minicc::pipeline::compile_lines;

#[test]
fn identical_source_compiles_byte_identically() {
    let lines = vec![
        "int main(){".to_string(),
        "  int a = 1;".to_string(),
        "  return a && 2 || 0;".to_string(),
        "}".to_string(),
    ];
    let first = compile_lines(&lines).unwrap();
    let second = compile_lines(&lines).unwrap();
    assert_eq!(first, second);
}

#[test]
fn line_breaks_do_not_change_the_output() {
    let split = vec![
        "int main(){".to_string(),
        "return 7;".to_string(),
        "}".to_string(),
    ];
    let joined = vec!["int main(){ return 7; }".to_string()];
    assert_eq!(compile_lines(&split).unwrap(), compile_lines(&joined).unwrap());
}

#[test]
fn full_pipeline_emits_expected_text() {
    let lines = vec!["int main(){ return 0; }".to_string()];
    let expected = "\n\t.globl main\nmain:\n\tpush\t%rbp\n\tmov\t%rsp, %rbp\n\tmov\t$0, %rax\n\tmov\t%rbp, %rsp\n\tpop\t%rbp\n\tret\n\n\t\n";
    assert_eq!(compile_lines(&lines).unwrap(), expected);
}

#[test]
fn lex_error_stops_the_pipeline() {
    let lines = vec!["int main(){ return 2 @ ; }".to_string()];
    let err = compile_lines(&lines).unwrap_err();
    assert_eq!(err.stage(), CompilerStage::Lexer);
    assert_eq!(err.message(), "unidentifiable character @");
}

#[test]
fn parse_error_stops_the_pipeline() {
    let lines = vec!["int main(){ return 2;".to_string()];
    let err = compile_lines(&lines).unwrap_err();
    assert_eq!(err.stage(), CompilerStage::Parser);
    assert_eq!(err.message(), "invalid token, type should be CloseBrace");
}

#[test]
fn codegen_error_stops_the_pipeline() {
    let lines = vec!["int main(){ int a = 1; int a = 2; }".to_string()];
    let err = compile_lines(&lines).unwrap_err();
    assert_eq!(err.stage(), CompilerStage::CodeGenerator);
    assert_eq!(err.message(), "re-declaration of variable a");
}

#[test]
fn errors_describe_their_stage() {
    let lines = vec!["int main(){ return 2;".to_string()];
    let err = compile_lines(&lines).unwrap_err();
    assert_eq!(err.describe(), "PARSER Error invalid token, type should be CloseBrace");
    let lex = compile_lines(&vec!["#".to_string()]).unwrap_err();
    assert_eq!(lex.describe(), "LEXER Error unidentifiable character #");
    let gen = compile_lines(&vec!["int main(){ return x; }".to_string()]).unwrap_err();
    assert_eq!(gen.describe(), "CODEGENERATOR Error variable not declared x");
}
