use lox_byte::error::{RuntimeErrors, VmErrors};
use lox_byte::vm::VM;

fn run_ok(vm: &mut VM, src: &str) {
    match vm.interpret(src) {
        Ok(()) => {}
        Err(e) => panic!("interpret failed on {:?}: {:?}", src, e),
    }
}

#[test]
fn precedence_factor_binds_tighter() {
    let mut vm = VM::new();
    run_ok(&mut vm, "print 1 + 2 * 3;");
    assert_eq!(vm.output.len(), 1);
    assert_eq!(vm.output[0], "7");
}

#[test]
fn interned_strings_compare_equal() {
    let mut vm = VM::new();
    run_ok(&mut vm, "var a = \"hi\"; var b = \"hi\"; print a == b;");
    assert_eq!(vm.output, vec!["true".to_string()]);
}

#[test]
fn for_loop_sums() {
    let mut vm = VM::new();
    run_ok(
        &mut vm,
        "var n = 0; for (var i = 0; i < 5; i = i + 1) { n = n + i; } print n;",
    );
    assert_eq!(vm.output, vec!["10".to_string()]);
}

#[test]
fn if_else_takes_then_branch() {
    let mut vm = VM::new();
    run_ok(&mut vm, "var x = 1; if (x > 0) print \"pos\"; else print \"neg\";");
    assert_eq!(vm.output, vec!["pos".to_string()]);
}

#[test]
fn if_else_takes_else_branch() {
    let mut vm = VM::new();
    run_ok(&mut vm, "var x = 0; if (x > 0) print \"pos\"; else print \"neg\";");
    assert_eq!(vm.output, vec!["neg".to_string()]);
}

#[test]
fn mixed_addition_stringifies() {
    let mut vm = VM::new();
    run_ok(&mut vm, "print \"x\" + 1;");
    assert_eq!(vm.output, vec!["x1".to_string()]);
}

#[test]
fn mixed_addition_number_first() {
    let mut vm = VM::new();
    run_ok(&mut vm, "print 1 + \"x\";");
    assert_eq!(vm.output, vec!["1x".to_string()]);
}

#[test]
fn undefined_variable_then_loop_resumes() {
    let mut vm = VM::new();
    match vm.interpret("print undefined_name;") {
        Err(VmErrors::RuntimeError(RuntimeErrors::UndefinedVariable(name))) => {
            assert_eq!(name, "undefined_name");
        }
        other => panic!("expected UndefinedVariable, got {:?}", other),
    }
    // the interactive loop keeps the machine and carries on
    run_ok(&mut vm, "print 1;");
    assert_eq!(vm.output, vec!["1".to_string()]);
}

#[test]
fn statements_leave_stack_unchanged() {
    let mut vm = VM::new();
    let before = vm.stack.len();
    run_ok(
        &mut vm,
        "var a = 1; print a; { var b = 2; b = b + a; print b; } if (a > 0) print a; while (a < 3) a = a + 1;",
    );
    assert_eq!(vm.stack.len(), before);
}

#[test]
fn globals_persist_across_interprets() {
    let mut vm = VM::new();
    run_ok(&mut vm, "var a = 41;");
    run_ok(&mut vm, "print a + 1;");
    assert_eq!(vm.output, vec!["42".to_string()]);
}

#[test]
fn block_locals_shadow_and_vanish() {
    let mut vm = VM::new();
    run_ok(&mut vm, "var a = 1; { var a = 2; print a; } print a;");
    assert_eq!(vm.output, vec!["2".to_string(), "1".to_string()]);
}

#[test]
fn while_loop_counts() {
    let mut vm = VM::new();
    run_ok(&mut vm, "var i = 0; while (i < 3) { print i; i = i + 1; }");
    assert_eq!(vm.output, vec!["0".to_string(), "1".to_string(), "2".to_string()]);
}

#[test]
fn and_or_short_circuit() {
    let mut vm = VM::new();
    run_ok(&mut vm, "print true and 2; print false and 2; print nil or 3; print 4 or 5;");
    assert_eq!(
        vm.output,
        vec!["2".to_string(), "false".to_string(), "3".to_string(), "4".to_string()]
    );
}

#[test]
fn comparisons_and_negation() {
    let mut vm = VM::new();
    run_ok(
        &mut vm,
        "print 1 < 2; print 2 <= 1; print 2 > 1; print 1 >= 2; print 1 == 1; print 1 != 1; print -(3); print !nil;",
    );
    assert_eq!(
        vm.output,
        vec![
            "true".to_string(),
            "false".to_string(),
            "true".to_string(),
            "false".to_string(),
            "true".to_string(),
            "false".to_string(),
            "-3".to_string(),
            "true".to_string()
        ]
    );
}

#[test]
fn arithmetic_subtract_multiply_divide() {
    let mut vm = VM::new();
    run_ok(&mut vm, "print 10 - 4; print 6 * 7; print 9 / 2; print 1.5 + 2.25;");
    assert_eq!(
        vm.output,
        vec!["6".to_string(), "42".to_string(), "4.5".to_string(), "3.75".to_string()]
    );
}

#[test]
fn uninitialized_var_is_nil() {
    let mut vm = VM::new();
    run_ok(&mut vm, "var a; print a;");
    assert_eq!(vm.output, vec!["nil".to_string()]);
}

#[test]
fn string_concatenation_interns() {
    let mut vm = VM::new();
    run_ok(&mut vm, "var a = \"ab\" + \"cd\"; var b = \"abcd\"; print a == b;");
    assert_eq!(vm.output, vec!["true".to_string()]);
}

#[test]
fn type_error_on_bad_subtraction() {
    let mut vm = VM::new();
    match vm.interpret("print 1 - \"x\";") {
        Err(VmErrors::RuntimeError(RuntimeErrors::TypeError(kind, found))) => {
            assert_eq!(kind, "number");
            assert_eq!(found, "x");
        }
        other => panic!("expected TypeError, got {:?}", other),
    }
}

#[test]
fn invalid_addition_of_nil() {
    let mut vm = VM::new();
    match vm.interpret("print nil + 1;") {
        Err(VmErrors::RuntimeError(RuntimeErrors::InvalidAddition(a, b))) => {
            assert_eq!(a, "nil");
            assert_eq!(b, "1");
        }
        other => panic!("expected InvalidAddition, got {:?}", other),
    }
}

#[test]
fn negate_requires_number() {
    let mut vm = VM::new();
    match vm.interpret("print -\"x\";") {
        Err(VmErrors::RuntimeError(RuntimeErrors::TypeError(kind, found))) => {
            assert_eq!(kind, "number");
            assert_eq!(found, "x");
        }
        other => panic!("expected TypeError, got {:?}", other),
    }
}

#[test]
fn comments_and_newlines_are_skipped() {
    let mut vm = VM::new();
    run_ok(&mut vm, "// nothing here\nprint 1; // trailing\n\nprint 2;");
    assert_eq!(vm.output, vec!["1".to_string(), "2".to_string()]);
}

#[test]
fn string_values_print_bare() {
    let mut vm = VM::new();
    run_ok(&mut vm, "print \"hello\";");
    assert_eq!(vm.output, vec!["hello".to_string()]);
}
