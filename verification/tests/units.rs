use lox_byte::chunks::Chunk;
use lox_byte::colors::TermColor;
use lox_byte::compiler::Compiler;
use lox_byte::disassembler::{DisOperand, Disassembler};
use lox_byte::error::{CompileErrors, RuntimeErrors, VmErrors};
use lox_byte::num::{num_add, num_div, num_mul, num_neg, num_order, num_parse, num_sub, num_text, NumOrder};
use lox_byte::opcode::OpCode;
use lox_byte::parser::Parser;
use lox_byte::scanner::Scanner;
use lox_byte::token::{TType, Token};
use lox_byte::value::{value_text, values_equal, Interns, Value};
use lox_byte::vm::{create_string, VM};

fn kinds(src: &str) -> Vec<TType> {
    let mut sc = Scanner::new(src);
    let mut out = Vec::new();
    loop {
        let t = sc.scan_token();
        let done = t.ttype == TType::Eof;
        out.push(t.ttype);
        if done {
            break;
        }
    }
    out
}

#[test]
fn scanner_basic_tokens() {
    assert_eq!(
        kinds("var x = 1;"),
        vec![TType::Var, TType::Identifer, TType::Equal, TType::Number, TType::SemiColon, TType::Eof]
    );
    assert_eq!(
        kinds("( ) { } , . - + / * ! != = == < <= > >="),
        vec![
            TType::LeftParen,
            TType::RightParen,
            TType::LeftBrace,
            TType::RightBrace,
            TType::Comma,
            TType::Dot,
            TType::Minus,
            TType::Plus,
            TType::Slash,
            TType::Star,
            TType::Bang,
            TType::BangEqual,
            TType::Equal,
            TType::EqualEqual,
            TType::Less,
            TType::LessEqual,
            TType::Greater,
            TType::GreaterEqual,
            TType::Eof
        ]
    );
}

#[test]
fn scanner_keywords_and_identifiers() {
    assert_eq!(
        kinds("and class else false for fun if nil or print return super this true var while"),
        vec![
            TType::And,
            TType::Class,
            TType::Else,
            TType::False,
            TType::For,
            TType::Fun,
            TType::If,
            TType::Nil,
            TType::Or,
            TType::Print,
            TType::Return,
            TType::Super,
            TType::This,
            TType::True,
            TType::Var,
            TType::While,
            TType::Eof
        ]
    );
    assert_eq!(kinds("andy fortune _x v1"), vec![
        TType::Identifer,
        TType::Identifer,
        TType::Identifer,
        TType::Identifer,
        TType::Eof
    ]);
}

#[test]
fn scanner_lexemes_and_lines() {
    let mut sc = Scanner::new("one\ntwo");
    let t1 = sc.scan_token();
    assert_eq!(t1.lexeme, Some("one"));
    assert_eq!(t1.line, 1);
    let t2 = sc.scan_token();
    assert_eq!(t2.lexeme, Some("two"));
    assert_eq!(t2.line, 2);
    assert_eq!(sc.scan_token().ttype, TType::Eof);
}

#[test]
fn scanner_number_shapes() {
    let mut sc = Scanner::new("12.5 7. 3");
    let t = sc.scan_token();
    assert_eq!((t.ttype, t.lexeme), (TType::Number, Some("12.5")));
    // a trailing dot is not part of the number
    let t = sc.scan_token();
    assert_eq!((t.ttype, t.lexeme), (TType::Number, Some("7")));
    assert_eq!(sc.scan_token().ttype, TType::Dot);
    let t = sc.scan_token();
    assert_eq!((t.ttype, t.lexeme), (TType::Number, Some("3")));
}

#[test]
fn scanner_string_spans_lines() {
    let mut sc = Scanner::new("\"a\nb\"");
    let t = sc.scan_token();
    assert_eq!(t.ttype, TType::String);
    assert_eq!(t.lexeme, Some("\"a\nb\""));
    assert_eq!(t.line, 2);
}

#[test]
fn scanner_error_tokens() {
    let mut sc = Scanner::new("@");
    assert_eq!(sc.scan_token().ttype, TType::UnexpectedCharacterError);
    let mut sc = Scanner::new("\"open");
    assert_eq!(sc.scan_token().ttype, TType::UnterminatedStringError);
}

#[test]
fn token_error_messages() {
    assert_eq!(TType::UnexpectedCharacterError.error_message(), Some("Unexpected character."));
    assert_eq!(TType::UnterminatedStringError.error_message(), Some("Unterminated string."));
    assert_eq!(TType::Plus.error_message(), None);
    let t = Token::new(TType::Plus, Some("+"), 3);
    assert_eq!((t.ttype, t.lexeme, t.line), (TType::Plus, Some("+"), 3));
}

#[test]
fn parser_cursor_moves() {
    let mut p = Parser::new("print 1;");
    assert!(!p.check(TType::Print));
    p.advance();
    assert!(p.check(TType::Print));
    assert!(p.match_token(TType::Print));
    assert!(p.check(TType::Number));
    p.consume(TType::Number, "Expect a number");
    assert!(p.check(TType::SemiColon));
    assert!(!p.had_error);
}

#[test]
fn chunk_lines_compress_and_recover() {
    let mut c = Chunk::new();
    c.write(1, 10);
    c.write(2, 10);
    c.write(3, 11);
    c.write(4, 10);
    c.write(5, 10);
    // one entry per run of equal lines
    assert_eq!(c.lines, vec![(0, 10), (2, 11), (3, 10)]);
    assert_eq!(c.line_at(0), 10);
    assert_eq!(c.line_at(1), 10);
    assert_eq!(c.line_at(2), 11);
    assert_eq!(c.line_at(3), 10);
    assert_eq!(c.line_at(4), 10);
}

#[test]
fn chunk_constant_pool_limit() {
    let mut c = Chunk::new();
    for i in 0..256 {
        assert_eq!(c.add(Value::Number(i as u64)), Ok(i as u8));
    }
    assert_eq!(c.add(Value::Nil), Err(CompileErrors::TooManyConstants));
    assert_eq!(c.constants.len(), 256);
}

#[test]
fn opcode_bytes_roundtrip() {
    let ops = vec![
        OpCode::Constant,
        OpCode::Addition,
        OpCode::Subtract,
        OpCode::Multiply,
        OpCode::Divide,
        OpCode::Not,
        OpCode::Negate,
        OpCode::Print,
        OpCode::Jump,
        OpCode::JumpIfFalse,
        OpCode::Loop,
        OpCode::True,
        OpCode::Pop,
        OpCode::GetLocal,
        OpCode::SetLocal,
        OpCode::GetGlobal,
        OpCode::DefineGlobal,
        OpCode::SetGlobal,
        OpCode::Equal,
        OpCode::False,
        OpCode::Greater,
        OpCode::Less,
        OpCode::Nil,
        OpCode::Return,
    ];
    for op in ops {
        assert_eq!(OpCode::from_byte(op.to_byte()), Ok(op));
    }
    assert!(OpCode::from_byte(24).is_err());
    assert_eq!(OpCode::Print.name(), "Op_Print");
}

#[test]
fn value_equality_follows_ieee_and_interning() {
    let one = 1.0f64.to_bits();
    let nan = f64::NAN.to_bits();
    let pz = 0.0f64.to_bits();
    let nz = (-0.0f64).to_bits();
    assert!(values_equal(Value::Number(one), Value::Number(one)));
    assert!(!values_equal(Value::Number(nan), Value::Number(nan)));
    assert!(values_equal(Value::Number(pz), Value::Number(nz)));
    assert!(values_equal(Value::String(2), Value::String(2)));
    assert!(!values_equal(Value::String(1), Value::String(2)));
    assert!(values_equal(Value::Nil, Value::Nil));
    assert!(!values_equal(Value::Bool(true), Value::Bool(false)));
    assert!(!values_equal(Value::Nil, Value::Bool(false)));
}

#[test]
fn negate_numbers_only() {
    let mut t = Interns::new();
    let i = t.intern("word");
    let three = 3.0f64.to_bits();
    assert_eq!(
        Value::Number(three).negate(&t),
        Ok(Value::Number((-3.0f64).to_bits()))
    );
    match Value::String(i).negate(&t) {
        Err(VmErrors::RuntimeError(RuntimeErrors::TypeError(kind, found))) => {
            assert_eq!(kind, "number");
            assert_eq!(found, "word");
        }
        other => panic!("expected TypeError, got {:?}", other),
    }
}

#[test]
fn falsiness() {
    assert!(Value::Nil.is_falsy());
    assert!(Value::Bool(false).is_falsy());
    assert!(!Value::Bool(true).is_falsy());
    assert!(!Value::Number(0.0f64.to_bits()).is_falsy());
    assert!(!Value::String(0).is_falsy());
}

#[test]
fn interning_gives_one_index_per_text() {
    let mut t = Interns::new();
    let a = t.intern("hi");
    let b = t.intern("ho");
    let c = t.intern("hi");
    assert_eq!(a, c);
    assert_ne!(a, b);
    assert_eq!(t.get(a).as_str(), "hi");
    assert_eq!(t.get(b).as_str(), "ho");
}

#[test]
fn create_string_interns_into_the_vm() {
    let mut vm = VM::new();
    let a = create_string(&mut vm, "word");
    let b = create_string(&mut vm, "word");
    assert_eq!(a, b);
}

#[test]
fn number_operations_match_hardware_doubles() {
    let b = |x: f64| x.to_bits();
    assert_eq!(num_add(b(2.0), b(3.0)), b(5.0));
    assert_eq!(num_sub(b(2.0), b(3.0)), b(-1.0));
    assert_eq!(num_mul(b(1.5), b(4.0)), b(6.0));
    assert_eq!(num_div(b(9.0), b(2.0)), b(4.5));
    assert_eq!(num_neg(b(3.0)), b(-3.0));
    assert!(matches!(num_order(b(1.0), b(2.0)), NumOrder::Less));
    assert!(matches!(num_order(b(2.0), b(1.0)), NumOrder::Greater));
    assert!(matches!(num_order(b(2.0), b(2.0)), NumOrder::Equal));
    assert!(matches!(num_order(f64::NAN.to_bits(), b(1.0)), NumOrder::Unordered));
    assert_eq!(num_parse("1.5"), Some(b(1.5)));
    assert_eq!(num_parse("42"), Some(b(42.0)));
    assert_eq!(num_parse("not a number"), None);
    assert_eq!(num_text(b(7.0)), "7");
    assert_eq!(num_text(b(4.5)), "4.5");
}

#[test]
fn value_rendering() {
    let mut t = Interns::new();
    let i = t.intern("word");
    assert_eq!(value_text(Value::String(i), &t), "word");
    assert_eq!(value_text(Value::Bool(true), &t), "true");
    assert_eq!(value_text(Value::Bool(false), &t), "false");
    assert_eq!(value_text(Value::Nil, &t), "nil");
    assert_eq!(value_text(Value::Number(3.0f64.to_bits()), &t), "3");
}

#[test]
fn patch_jump_writes_big_endian_displacement() {
    let mut cc = Compiler::new("", Interns::new());
    cc.parser.previous = Some(Token::new(TType::If, Some("if"), 1));
    let offset = cc.emit_jump(OpCode::JumpIfFalse);
    assert_eq!(offset, 1);
    for _ in 0..300 {
        cc.emit_byte(OpCode::Pop.to_byte());
    }
    cc.patch_jump(offset);
    let jump = cc.compiling_chunk.code.len() - offset - 2;
    assert_eq!(jump, 300);
    assert_eq!(cc.compiling_chunk.code[offset], (300 / 256) as u8);
    assert_eq!(cc.compiling_chunk.code[offset + 1], (300 % 256) as u8);
    assert!(!cc.parser.had_error);
}

#[test]
fn emit_loop_writes_back_displacement() {
    let mut cc = Compiler::new("", Interns::new());
    cc.parser.previous = Some(Token::new(TType::While, Some("while"), 1));
    cc.emit_byte(OpCode::Nil.to_byte());
    cc.emit_loop(0);
    let code = &cc.compiling_chunk.code;
    assert_eq!(code[1], OpCode::Loop.to_byte());
    // displacement counts from past the operand bytes back to offset 0
    assert_eq!((code[2] as usize) * 256 + code[3] as usize, 4);
}

#[test]
fn disassemble_lists_one_entry_per_instruction() {
    let mut vm = VM::new();
    assert!(vm.interpret("print 1;").is_ok());
    let lines = vm.chunks.disassemble();
    let offsets: Vec<usize> = lines.iter().map(|l| l.offset).collect();
    assert_eq!(offsets, vec![0, 2, 3]);
    assert_eq!(lines[0].op, Some(OpCode::Constant));
    assert!(matches!(lines[0].operand, DisOperand::Constant(0, Value::Number(_))));
    assert_eq!(lines[1].op, Some(OpCode::Print));
    assert_eq!(lines[2].op, Some(OpCode::Return));
    assert_eq!(lines[0].line, 1);
}

#[test]
fn disassemble_jumping_code_stays_aligned() {
    let mut vm = VM::new();
    assert!(vm.interpret("if (true) print 1; else print 2;").is_ok());
    let lines = vm.chunks.disassemble();
    // every entry starts where the previous one ended
    let mut expected = 0usize;
    for l in &lines {
        assert_eq!(l.offset, expected);
        let width = match l.op {
            Some(OpCode::Constant)
            | Some(OpCode::GetLocal)
            | Some(OpCode::SetLocal)
            | Some(OpCode::GetGlobal)
            | Some(OpCode::DefineGlobal)
            | Some(OpCode::SetGlobal) => 2,
            Some(OpCode::Jump) | Some(OpCode::JumpIfFalse) | Some(OpCode::Loop) => 3,
            _ => 1,
        };
        expected += width;
    }
    assert_eq!(expected, vm.chunks.code.len());
}

#[test]
fn compile_error_messages() {
    assert_eq!(
        CompileErrors::TooManyConstants.message(),
        "Too many constants in one chunk. Chunk overloaded."
    );
    assert_eq!(CompileErrors::DuplicateName.message(), "Already a variable in scope with this name.");
}

#[test]
fn terminal_colour_codes() {
    assert_eq!(TermColor::NoColor.code(), "\x1b[0m");
    assert_eq!(TermColor::Red.code(), "\x1b[0;31m");
    assert_eq!(TermColor::LightCyan.code(), "\x1b[1;36m");
}
