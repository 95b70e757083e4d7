use lox_byte::error::{CompileErrors, VmErrors};
use lox_byte::opcode::OpCode;
use lox_byte::token::{TType, Token};
use lox_byte::value::Interns;
use lox_byte::vm::VM;

fn expect_compile_error(src: &str, want: CompileErrors) {
    let mut vm = VM::new();
    match vm.interpret(src) {
        Err(VmErrors::CompileError(e)) => assert_eq!(e, want),
        other => panic!("expected {:?}, got {:?}", want, other),
    }
}

#[test]
fn too_many_constants_at_257th() {
    // 256 distinct pooled constants fit; the 257th does not
    let mut src = String::new();
    for i in 0..257 {
        src.push_str(&format!("print {};", i));
    }
    expect_compile_error(&src, CompileErrors::TooManyConstants);
}

#[test]
fn just_enough_constants_compile() {
    let mut src = String::new();
    for i in 0..256 {
        src.push_str(&format!("print {};", i));
    }
    let mut vm = VM::new();
    assert!(vm.interpret(&src).is_ok());
    assert_eq!(vm.output.len(), 256);
    assert_eq!(vm.output[255], "255");
}

#[test]
fn too_many_locals_at_257th() {
    let mut src = String::from("{");
    for i in 0..257 {
        src.push_str(&format!("var v{} = 0;", i));
    }
    src.push('}');
    // names are locals, so the constant pool stays small
    expect_compile_error(&src, CompileErrors::TooManyLocals);
}

#[test]
fn forward_jump_too_far() {
    // a jump over more than 65535 bytes of code cannot be patched
    let mut cc = lox_byte::compiler::Compiler::new("", Interns::new());
    cc.parser.previous = Some(Token::new(TType::If, Some("if"), 1));
    cc.parser.current = Some(Token::new(TType::Eof, None, 1));
    let offset = cc.emit_jump(OpCode::JumpIfFalse);
    for _ in 0..65536 {
        cc.emit_byte(OpCode::Pop.to_byte());
    }
    cc.patch_jump(offset);
    assert!(cc.parser.had_error);
    assert_eq!(cc.parser.diagnostics[0].err, CompileErrors::TooMuchToJump);
    // one byte fewer still fits
    let mut cc = lox_byte::compiler::Compiler::new("", Interns::new());
    cc.parser.previous = Some(Token::new(TType::If, Some("if"), 1));
    cc.parser.current = Some(Token::new(TType::Eof, None, 1));
    let offset = cc.emit_jump(OpCode::JumpIfFalse);
    for _ in 0..65535 {
        cc.emit_byte(OpCode::Pop.to_byte());
    }
    cc.patch_jump(offset);
    assert!(!cc.parser.had_error);
    assert_eq!(cc.compiling_chunk.code[offset], 0xff);
    assert_eq!(cc.compiling_chunk.code[offset + 1], 0xff);
}

#[test]
fn backward_loop_too_far() {
    // a loop body of more than 65533 bytes puts its start out of reach
    let mut cc = lox_byte::compiler::Compiler::new("", Interns::new());
    cc.parser.previous = Some(Token::new(TType::While, Some("while"), 1));
    cc.parser.current = Some(Token::new(TType::Eof, None, 1));
    for _ in 0..65533 {
        cc.emit_byte(OpCode::Pop.to_byte());
    }
    cc.emit_loop(0);
    assert!(cc.parser.had_error);
    assert_eq!(cc.parser.diagnostics[0].err, CompileErrors::TooFarToLoop);
    // one byte fewer still fits
    let mut cc = lox_byte::compiler::Compiler::new("", Interns::new());
    cc.parser.previous = Some(Token::new(TType::While, Some("while"), 1));
    cc.parser.current = Some(Token::new(TType::Eof, None, 1));
    for _ in 0..65532 {
        cc.emit_byte(OpCode::Pop.to_byte());
    }
    cc.emit_loop(0);
    assert!(!cc.parser.had_error);
}

#[test]
fn local_cannot_reference_itself() {
    expect_compile_error("{ var a = a; }", CompileErrors::UninitializedLocal);
}

#[test]
fn duplicate_local_name_in_scope() {
    expect_compile_error("{ var a; var a; }", CompileErrors::DuplicateName);
}

#[test]
fn shadowing_in_inner_scope_is_allowed() {
    let mut vm = VM::new();
    assert!(vm.interpret("{ var a = 1; { var a = 2; print a; } }").is_ok());
    assert_eq!(vm.output, vec!["2".to_string()]);
}

#[test]
fn invalid_assignment_target() {
    let mut cc = lox_byte::compiler::Compiler::new("a + b = 1;", Interns::new());
    assert!(cc.compile().is_err());
    assert!(cc.parser.had_error);
    assert_eq!(cc.parser.diagnostics[0].err, CompileErrors::ParseError);
    assert_eq!(cc.parser.diagnostics[0].note, "Invalid assignment target.");
}

#[test]
fn unterminated_string_is_reported() {
    let mut cc = lox_byte::compiler::Compiler::new("print \"abc", Interns::new());
    assert!(cc.compile().is_err());
    assert_eq!(cc.parser.diagnostics[0].note, "Unterminated string.");
}

#[test]
fn unexpected_character_is_reported() {
    let mut cc = lox_byte::compiler::Compiler::new("print @;", Interns::new());
    assert!(cc.compile().is_err());
    assert_eq!(cc.parser.diagnostics[0].note, "Unexpected character.");
}

#[test]
fn one_pass_reports_several_errors() {
    let mut cc = lox_byte::compiler::Compiler::new("print @; print #;", Interns::new());
    assert!(cc.compile().is_err());
    assert!(cc.parser.diagnostics.len() >= 2);
}

#[test]
fn missing_semicolon_is_a_parse_error() {
    expect_compile_error("print 1", CompileErrors::ParseError);
}
