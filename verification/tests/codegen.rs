use minicc::codegen::CodeGenerator;
use minicc::error::CompilerStage;
use minicc::numeral::i128_to_string;
use minicc::numeral::u128_to_string;
use minicc::parser::parse_program;
use minicc::scanner::Scanner;
use minicc::tokenizer::string_tokenizer;

fn compile_source(source: &str) -> Result<String, minicc::error::SyntaxError> {
    let tokens = string_tokenizer(source).unwrap();
    let mut scanner = Scanner::new(tokens);
    let program = parse_program(&mut scanner).unwrap();
    let mut generator = CodeGenerator::new();
    generator.generate(&program)
}

#[test]
fn return_literal_assembly_text() {
    let assembly = compile_source("int main(){ return 42; }").unwrap();
    let expected = "\n\t.globl main\nmain:\n\tpush\t%rbp\n\tmov\t%rsp, %rbp\n\tmov\t$42, %rax\n\tmov\t%rbp, %rsp\n\tpop\t%rbp\n\tret\n\n\t\n";
    assert_eq!(assembly, expected);
}

#[test]
fn redeclaration_is_codegen_error() {
    let err = compile_source("int main(){ int a = 1; int a = 2; }").unwrap_err();
    assert_eq!(err.stage(), CompilerStage::CodeGenerator);
    assert_eq!(err.message(), "re-declaration of variable a");
}

#[test]
fn use_before_declare_is_codegen_error() {
    let err = compile_source("int main(){ int a = b; }").unwrap_err();
    assert_eq!(err.stage(), CompilerStage::CodeGenerator);
    assert_eq!(err.message(), "variable not declared b");
}

#[test]
fn assignment_to_undeclared_is_codegen_error() {
    let err = compile_source("int main(){ a = 1; }").unwrap_err();
    assert_eq!(err.stage(), CompilerStage::CodeGenerator);
    assert_eq!(err.message(), "variable not declared a");
}

#[test]
fn both_operands_of_and_are_compiled() {
    // code generation walks the whole tree, so an undeclared name in the
    // right operand is reported even though the emitted code would never
    // run it
    let err = compile_source("int main(){ return 0 && (x = 1); }").unwrap_err();
    assert_eq!(err.stage(), CompilerStage::CodeGenerator);
    assert_eq!(err.message(), "variable not declared x");
}

#[test]
fn function_without_return_falls_back_to_zero() {
    let assembly = compile_source("int main(){ int a = 1; }").unwrap();
    assert!(assembly.ends_with("mov\t$0, %rax\n\tmov\t%rbp, %rsp\n\tpop\t%rbp\n\tret\n\n"));
}

#[test]
fn declared_variables_get_descending_offsets() {
    let assembly = compile_source("int main(){ int a = 1; int b = 2; return a + b; }").unwrap();
    assert!(assembly.contains("mov\t-8(%rbp), %rax"));
    assert!(assembly.contains("mov\t-16(%rbp), %rax"));
    assert!(assembly.contains("push\t%rax"));
}

#[test]
fn assignment_stores_to_the_recorded_slot() {
    let assembly = compile_source("int main(){ int a; a = 7; return a; }").unwrap();
    assert!(assembly.contains("mov\t%rax, -8(%rbp)"));
}

#[test]
fn short_circuit_labels_count_up_per_occurrence() {
    let assembly = compile_source("int main(){ return 1 && 2 || 3; }").unwrap();
    assert!(assembly.contains("_clause1"));
    assert!(assembly.contains("_end1"));
    assert!(assembly.contains("_clause2"));
    assert!(assembly.contains("_end2"));
    assert!(!assembly.contains("_clause3"));
}

#[test]
fn and_emits_jump_over_right_operand() {
    let assembly = compile_source("int main(){ return 1 && 2; }").unwrap();
    assert!(assembly.contains("cmp\t$0, %rax\n\tjne\t_clause1\n\tjmp\t_end1\n\t_clause1:"));
}

#[test]
fn or_emits_jump_over_right_operand() {
    let assembly = compile_source("int main(){ return 0 || 2; }").unwrap();
    assert!(assembly.contains("cmp\t$0, %rax\n\tje\t_clause1\n\tmov\t$1, %rax\n\tjmp\t_end1\n\t_clause1:"));
}

#[test]
fn unary_operators_emit_their_instructions() {
    let assembly = compile_source("int main(){ return -!~3; }").unwrap();
    assert!(assembly.contains("not\t%rax"));
    assert!(assembly.contains("sete\t%al"));
    assert!(assembly.contains("neg\t%rax"));
}

#[test]
fn division_uses_sign_extending_divide() {
    let assembly = compile_source("int main(){ return 6 / 3; }").unwrap();
    assert!(assembly.contains("cqo\n\tidiv\t%rbx"));
}

#[test]
fn comparison_sets_result_register() {
    // one compare, then a zero load that leaves the flags alone, then
    // one conditional-set: the result register holds exactly 0 or 1
    let assembly = compile_source("int main(){ return 1 < 2; }").unwrap();
    assert!(assembly.contains("cmp\t%rax, %rcx\n\tmov\t$0, %rax\n\tsetl\t%al"));
}

#[test]
fn not_equal_compares_the_two_operands() {
    let assembly = compile_source("int main(){ return 5 != 5; }").unwrap();
    assert!(assembly.contains("cmp\t%rax, %rcx\n\tmov\t$0, %rax\n\tsetne\t%al"));
}

#[test]
fn short_circuit_normalizes_the_right_operand() {
    let assembly = compile_source("int main(){ return 1 && 256; }").unwrap();
    assert!(assembly.contains("_clause1:\n\tmov\t$256, %rax\n\tcmp\t$0, %rax\n\tmov\t$0, %rax\n\tsetne\t%al\n\t_end1:"));
}

#[test]
fn one_generator_instance_serves_one_pass() {
    let tokens = string_tokenizer("int main(){ int a = 1; return a; }").unwrap();
    let mut scanner = Scanner::new(tokens);
    let program = parse_program(&mut scanner).unwrap();
    let mut generator = CodeGenerator::new();
    assert!(generator.generate(&program).is_ok());
    // the symbol table persists, so a second pass over the same program
    // reports the declaration as a duplicate
    let err = generator.generate(&program).unwrap_err();
    assert_eq!(err.message(), "re-declaration of variable a");
}

#[test]
fn numerals_render_in_decimal() {
    assert_eq!(u128_to_string(0), "0");
    assert_eq!(u128_to_string(12345678901234567890), "12345678901234567890");
    assert_eq!(i128_to_string(-8), "-8");
    assert_eq!(i128_to_string(0), "0");
    assert_eq!(i128_to_string(2147483647), "2147483647");
}

#[test]
fn negative_literal_via_unary_minus() {
    let assembly = compile_source("int main(){ return -9; }").unwrap();
    assert!(assembly.contains("mov\t$9, %rax\n\tneg\t%rax"));
}
