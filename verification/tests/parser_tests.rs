use dasm::lexer::{Lexer, Sym, Token};
use dasm::parser::{Instr, Operand, Parser};

fn parse_source(source: &str) -> Result<Vec<Instr>, dasm::error::Error> {
    let mut lexer = Lexer::new(source.to_string());
    let tokens = lexer.tokenize().unwrap();
    let mut parser = Parser::new(tokens);
    parser.parse()
}

#[test]
fn test_simple_parse() {
    let source = r#"
            section .data

            main:
            mov rax, 1
            mov bx, ax
            ret
        "#
    .to_string();
    let mut lexer = Lexer::new(source);
    let tokens = lexer.tokenize().unwrap();

    let mut parser = Parser::new(tokens);
    let instrs = parser.parse().unwrap();

    assert_eq!(
        instrs,
        vec![
            Instr::Label("main".to_string()),
            Instr::Mov(Operand::Register("rax".to_string()), Operand::Integer(1),),
            Instr::Mov(
                Operand::Register("bx".to_string()),
                Operand::Register("ax".to_string())
            ),
            Instr::Ret
        ]
    );
}

#[test]
fn test_label_only() {
    let instrs = parse_source("main:").unwrap();
    assert_eq!(instrs, vec![Instr::Label("main".to_string())]);
}

#[test]
fn test_end_to_end_instruction_list() {
    let instrs = parse_source("main:\nmov rax, 1\nret").unwrap();
    assert_eq!(
        instrs,
        vec![
            Instr::Label("main".to_string()),
            Instr::Mov(Operand::Register("rax".to_string()), Operand::Integer(1)),
            Instr::Ret,
        ]
    );
}

#[test]
fn test_bare_identifier_is_not_an_error() {
    // The identifier and its lookahead token are both dropped silently.
    assert_eq!(parse_source("foo\nret").unwrap(), vec![]);
    assert_eq!(
        parse_source("foo bar\nret").unwrap(),
        vec![Instr::Ret]
    );
}

#[test]
fn test_mov_non_register_first_operand_is_error() {
    let err = parse_source("mov 1, rax").unwrap_err();
    assert_eq!(err.0, "failed to parse binary op, unexpected integer 1");
}

#[test]
fn test_mov_missing_comma_is_error() {
    let err = parse_source("mov rax rbx").unwrap_err();
    assert_eq!(err.0, "failed to parse binary op, unexpected register rbx");
}

#[test]
fn test_mov_truncated_is_error() {
    let err = parse_source("mov rax,").unwrap_err();
    assert_eq!(err.0, "failed to parse binary op, unexpected end of input");
}

#[test]
fn test_jmp_operand_forms() {
    let instrs = parse_source("jmp main\njmp rax\njmp 5").unwrap();
    assert_eq!(
        instrs,
        vec![
            Instr::Jmp(Operand::Label("main".to_string())),
            Instr::Jmp(Operand::Register("rax".to_string())),
            Instr::Jmp(Operand::Integer(5)),
        ]
    );
}

#[test]
fn test_jmp_missing_operand_is_error() {
    let err = parse_source("jmp").unwrap_err();
    assert_eq!(err.0, "failed to parse unary op");
}

#[test]
fn test_add_and_syscall() {
    let instrs = parse_source("add rax, rbx\nadd rbx, 2\nsyscall").unwrap();
    assert_eq!(
        instrs,
        vec![
            Instr::Add(
                Operand::Register("rax".to_string()),
                Operand::Register("rbx".to_string())
            ),
            Instr::Add(Operand::Register("rbx".to_string()), Operand::Integer(2)),
            Instr::Syscall,
        ]
    );
}

#[test]
fn test_invalid_mnemonic_is_error() {
    // The lexer only produces known mnemonics, so hand the parser one directly.
    let mut parser = Parser::new(vec![Token::Instruction("foo".to_string())]);
    let err = parser.parse().unwrap_err();
    assert_eq!(err.0, "invalid instruction foo");
}

#[test]
fn test_invalid_leading_token_is_error() {
    let err = parse_source("42").unwrap_err();
    assert_eq!(err.0, "invalid token integer 42");

    let err = parse_source(", ret").unwrap_err();
    assert_eq!(err.0, "invalid token ','");

    let mut parser = Parser::new(vec![Token::Register("rax".to_string())]);
    let err = parser.parse().unwrap_err();
    assert_eq!(err.0, "invalid token register rax");

    let mut parser = Parser::new(vec![Token::Symbol(Sym::Colon)]);
    let err = parser.parse().unwrap_err();
    assert_eq!(err.0, "invalid token ':'");
}

#[test]
fn test_encode_mov_and_syscall() {
    let mov = Instr::Mov(Operand::Register("rax".to_string()), Operand::Integer(1));
    assert_eq!(mov.encode(), vec![0xb8, 0x01, 0x00, 0x00, 0x00]);
    assert_eq!(Instr::Syscall.encode(), vec![0x0f, 0x05]);
}

#[test]
fn test_encode_register_table() {
    let cases: Vec<(&str, u8)> = vec![
        ("rax", 0xb8),
        ("rcx", 0xb9),
        ("rdx", 0xba),
        ("rbx", 0xbb),
        ("rsp", 0xbc),
        ("rbp", 0xbd),
        ("rsi", 0xbe),
        ("rdi", 0xbf),
        // names outside the table fall back to offset zero
        ("r8", 0xb8),
        ("ax", 0xb8),
    ];
    for (name, opcode) in cases {
        let mov = Instr::Mov(Operand::Register(name.to_string()), Operand::Integer(7));
        assert_eq!(mov.encode(), vec![opcode, 0x07, 0x00, 0x00, 0x00]);
    }
}

#[test]
fn test_encode_negative_immediate() {
    let mov = Instr::Mov(Operand::Register("rax".to_string()), Operand::Integer(-1));
    assert_eq!(mov.encode(), vec![0xb8, 0xff, 0xff, 0xff, 0xff]);
    let mov = Instr::Mov(
        Operand::Register("rax".to_string()),
        Operand::Integer(i32::MIN),
    );
    assert_eq!(mov.encode(), vec![0xb8, 0x00, 0x00, 0x00, 0x80]);
}

#[test]
fn test_encode_unsupported_forms_yield_no_bytes() {
    assert_eq!(Instr::Ret.encode(), Vec::<u8>::new());
    assert_eq!(Instr::Nop.encode(), Vec::<u8>::new());
    assert_eq!(Instr::Label("main".to_string()).encode(), Vec::<u8>::new());
    assert_eq!(
        Instr::Jmp(Operand::Label("main".to_string())).encode(),
        Vec::<u8>::new()
    );
    assert_eq!(
        Instr::Add(Operand::Register("rax".to_string()), Operand::Integer(1)).encode(),
        Vec::<u8>::new()
    );
    assert_eq!(
        Instr::Mov(
            Operand::Register("bx".to_string()),
            Operand::Register("ax".to_string())
        )
        .encode(),
        Vec::<u8>::new()
    );
}
