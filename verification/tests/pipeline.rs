use swindle::bytecode::byte_program;
use swindle::error::{ErrorType, SwindleError};
use swindle::parser::parse_program;
use swindle::renamer::rename_program;
use swindle::tokenizer::tokenize;
use swindle::typechecker::type_program;
use swindle::vm::VM;

fn build_vm(src: &str) -> Result<VM, SwindleError> {
    let tokens = tokenize(src)?;
    let program = parse_program(&tokens)?;
    let typed = type_program(program)?;
    let (renamed, slots) = rename_program(typed).expect("scope resolution after type checking");
    let (code, strings, nlabels, _nstrings) =
        byte_program(renamed).expect("label counter overflow");
    Ok(VM::new(code, strings, slots, nlabels))
}

fn run_ok(src: &str) -> VM {
    let mut vm = build_vm(src).expect("program should compile");
    let halted = vm.run(1_000_000).expect("program should not fault");
    assert!(halted, "program should halt within the step budget");
    vm
}

fn reject_with(src: &str, expected: ErrorType) -> SwindleError {
    match build_vm(src) {
        Ok(_) => panic!("program should have been rejected"),
        Err(e) => {
            assert!(e.error_type == expected, "rejected by the wrong stage");
            e
        }
    }
}

#[test]
fn round_trip_writeln_int() {
    let vm = run_ok("int x = 3; writeln x;");
    assert_eq!(vm.output().as_str(), "3\n");
}

#[test]
fn concat_prints_and_leaves_empty_heap() {
    let vm = run_ok("string a = \"foo\"; string b = \"bar\"; writeln a + b;");
    assert_eq!(vm.output().as_str(), "foobar\n");
    assert!(vm.heap_is_empty());
    assert_eq!(vm.stack_depth(), 0);
}

#[test]
fn terminating_loop_halts() {
    let vm = run_ok("bool done = false; while not done { done = true; };");
    assert_eq!(vm.output().as_str(), "");
}

#[test]
fn if_else_takes_the_right_arm() {
    let vm = run_ok("int x = 1; if x == 1 { writeln \"one\"; } else { writeln \"other\"; };");
    assert_eq!(vm.output().as_str(), "one\n");
}

#[test]
fn shadowing_leaves_outer_variable_alone() {
    let vm = run_ok(
        "int x = 1; if true { string x = \"inner\"; writeln x; } else { }; writeln x;",
    );
    assert_eq!(vm.output().as_str(), "inner\n1\n");
}

#[test]
fn redeclaration_in_same_scope_is_a_type_error() {
    let e = reject_with("int x = 1; int x = 2;", ErrorType::Typechecker);
    assert_eq!(e.file_posn.line, 0);
    assert_eq!(e.file_posn.column, 11);
}

#[test]
fn shadowing_in_nested_block_is_allowed() {
    run_ok("int x = 1; if true { int x = 2; writeln x; } else { };");
}

#[test]
fn break_outside_loop_is_rejected() {
    reject_with("break;", ErrorType::Typechecker);
}

#[test]
fn continue_outside_loop_is_rejected() {
    reject_with("continue;", ErrorType::Typechecker);
}

#[test]
fn statement_after_break_is_rejected() {
    reject_with("while true { break; writeln 1; };", ErrorType::Typechecker);
}

#[test]
fn break_leaves_a_loop() {
    let vm = run_ok("while true { writeln \"once\"; break; }; writeln \"after\";");
    assert_eq!(vm.output().as_str(), "once\nafter\n");
}

#[test]
fn ordering_on_booleans_is_rejected() {
    reject_with("writeln true < false;", ErrorType::Typechecker);
}

#[test]
fn ordering_on_strings_is_rejected() {
    reject_with("writeln \"a\" < \"b\";", ErrorType::Typechecker);
}

#[test]
fn equality_across_types_is_rejected() {
    reject_with("writeln 1 == true;", ErrorType::Typechecker);
}

#[test]
fn string_equality_compares_content() {
    let vm = run_ok("writeln \"a\" == \"a\"; writeln \"a\" != \"b\";");
    assert_eq!(vm.output().as_str(), "true\ntrue\n");
}

#[test]
fn block_value_is_its_last_statement() {
    let vm = run_ok("int x = 0; x = if true { 1; 2; } else { 3; }; writeln x;");
    assert_eq!(vm.output().as_str(), "2\n");
}

#[test]
fn empty_blocks_are_unit() {
    let vm = run_ok("if true { } else { }; writeln 9;");
    assert_eq!(vm.output().as_str(), "9\n");
}

#[test]
fn while_is_unit_valued() {
    let vm = run_ok("unit u = while false { }; writeln u;");
    assert_eq!(vm.output().as_str(), "()\n");
}

#[test]
fn arithmetic_has_exact_values() {
    let vm = run_ok("writeln 2 + 3 * 4; writeln 7 % 3; writeln 7 / 2; writeln -5;");
    assert_eq!(vm.output().as_str(), "14\n1\n3\n-5\n");
}

#[test]
fn additive_chain_groups_to_the_right() {
    // the additive grammar level is right-recursive, so this is 10 - (2 - 3)
    let vm = run_ok("writeln 10 - 2 - 3;");
    assert_eq!(vm.output().as_str(), "11\n");
}

#[test]
fn logic_operators_combine() {
    let vm = run_ok("writeln true and false; writeln true or false; writeln not false;");
    assert_eq!(vm.output().as_str(), "false\ntrue\ntrue\n");
}

#[test]
fn write_appends_no_newline() {
    let vm = run_ok("write \"a\"; write \"b\"; writeln \"\";");
    assert_eq!(vm.output().as_str(), "ab\n");
}

#[test]
fn division_by_zero_faults_the_machine() {
    let mut vm = build_vm("writeln 1 / 0;").expect("the program type-checks");
    assert!(vm.run(1_000_000).is_err());
}

#[test]
fn strings_built_in_a_loop_are_all_reclaimed() {
    let vm = run_ok(
        "int i = 0; string s = \"a\"; \
         while i < 10 { s = s + \"b\"; i = i + 1; }; \
         writeln s; s = \"done\";",
    );
    assert_eq!(vm.output().as_str(), "abbbbbbbbbb\n");
    assert!(vm.heap_is_empty());
    assert_eq!(vm.stack_depth(), 0);
}

#[test]
fn assignment_is_an_expression_with_a_value() {
    let vm = run_ok("int x = 0; int y = 0; y = x = 5; writeln x; writeln y;");
    assert_eq!(vm.output().as_str(), "5\n5\n");
}

#[test]
fn elif_arms_are_tried_in_order() {
    let vm = run_ok(
        "int x = 2; \
         if x == 1 { writeln \"one\"; } \
         elif x == 2 { writeln \"two\"; } \
         elif x == 3 { writeln \"three\"; } \
         else { writeln \"other\"; };",
    );
    assert_eq!(vm.output().as_str(), "two\n");
}

#[test]
fn non_unit_then_branch_without_else_is_rejected() {
    reject_with("if true { 1; };", ErrorType::Typechecker);
}

#[test]
fn condition_must_be_boolean() {
    reject_with("if 1 { } else { };", ErrorType::Typechecker);
    reject_with("while 1 { };", ErrorType::Typechecker);
}

#[test]
fn assignment_needs_matching_types() {
    reject_with("int x = 0; x = true;", ErrorType::Typechecker);
}

#[test]
fn declaration_needs_matching_types() {
    reject_with("int x = true;", ErrorType::Typechecker);
}

#[test]
fn undeclared_variable_is_rejected() {
    reject_with("writeln y;", ErrorType::Typechecker);
}

#[test]
fn string_plus_int_is_rejected() {
    reject_with("writeln \"a\" + 1;", ErrorType::Typechecker);
}

#[test]
fn missing_semicolon_is_a_parse_error() {
    reject_with("writeln 1", ErrorType::Parser);
}

#[test]
fn dangling_tokens_are_a_parse_error() {
    reject_with("writeln 1; )", ErrorType::Parser);
}

#[test]
fn unterminated_string_is_a_lex_error() {
    reject_with("writeln \"abc;", ErrorType::Tokenizer);
}

#[test]
fn oversized_integer_literal_is_a_lex_error() {
    reject_with("writeln 99999999999999999999;", ErrorType::Tokenizer);
}

#[test]
fn unexpected_character_is_a_lex_error() {
    reject_with("writeln 1 @ 2;", ErrorType::Tokenizer);
}

#[test]
fn string_escapes_reach_the_output() {
    let vm = run_ok("writeln \"a\\tb\\\\c\\\"d\";");
    assert_eq!(vm.output().as_str(), "a\tb\\c\"d\n");
}

#[test]
fn nested_loops_break_the_innermost() {
    let vm = run_ok(
        "int i = 0; \
         while i < 2 { \
             int j = 0; \
             while true { j = j + 1; break; }; \
             i = i + 1; \
         }; \
         writeln i;",
    );
    assert_eq!(vm.output().as_str(), "2\n");
}

#[test]
fn string_literals_are_deduplicated_but_still_print() {
    let vm = run_ok("writeln \"x\"; writeln \"x\"; writeln \"y\";");
    assert_eq!(vm.output().as_str(), "x\nx\ny\n");
}

#[test]
fn step_budget_reports_an_unfinished_run() {
    let mut vm = build_vm("while true { };").expect("the program type-checks");
    let halted = vm.run(1000).expect("a spinning loop is not a fault");
    assert!(!halted);
}

#[test]
fn unit_literal_can_stand_alone() {
    let vm = run_ok("unit; writeln unit;");
    assert_eq!(vm.output().as_str(), "()\n");
}

#[test]
fn smallest_integer_prints_exactly() {
    let vm = run_ok("writeln (0 - 9223372036854775807) - 1;");
    assert_eq!(vm.output().as_str(), "-9223372036854775808\n");
}
