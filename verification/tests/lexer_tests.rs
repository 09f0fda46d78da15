use dasm::lexer::{Lexer, Sym, Token};

#[test]
fn test_simple_tokenize() {
    let source = r#"
            section .data

            main:
            mov rax, 1
            mov bx, ax
        "#
    .to_string();
    let mut lexer = Lexer::new(source);
    let tokens = lexer.tokenize().unwrap();

    assert_eq!(tokens.len(), 12);
    assert_eq!(
        tokens,
        vec![
            Token::Ident("section".to_string()),
            Token::Ident(".data".to_string()),
            Token::Ident("main".to_string()),
            Token::Symbol(Sym::Colon),
            Token::Instruction("mov".to_string()),
            Token::Register("rax".to_string()),
            Token::Symbol(Sym::Comma),
            Token::Int(1),
            Token::Instruction("mov".to_string()),
            Token::Register("bx".to_string()),
            Token::Symbol(Sym::Comma),
            Token::Register("ax".to_string())
        ]
    );
}

#[test]
fn test_tokenize_mov_line() {
    let mut lexer = Lexer::new("mov rax, 1".to_string());
    let tokens = lexer.tokenize().unwrap();
    assert_eq!(
        tokens,
        vec![
            Token::Instruction("mov".to_string()),
            Token::Register("rax".to_string()),
            Token::Symbol(Sym::Comma),
            Token::Int(1),
        ]
    );
}

#[test]
fn test_comment_line_contributes_no_tokens() {
    let mut with_comment = Lexer::new("mov rax, 1\n; set up the exit code\nret".to_string());
    let mut without_comment = Lexer::new("mov rax, 1\nret".to_string());
    assert_eq!(
        with_comment.tokenize().unwrap(),
        without_comment.tokenize().unwrap()
    );

    let mut only_comment = Lexer::new("; nothing but a comment\n".to_string());
    assert_eq!(only_comment.tokenize().unwrap(), vec![]);
}

#[test]
fn test_integer_literal_bounds() {
    let mut in_range = Lexer::new("2147483647".to_string());
    assert_eq!(in_range.tokenize().unwrap(), vec![Token::Int(2147483647)]);

    let mut out_of_range = Lexer::new("2147483648".to_string());
    assert!(out_of_range.tokenize().is_err());

    let mut far_out_of_range = Lexer::new("mov rax, 99999999999".to_string());
    assert!(far_out_of_range.tokenize().is_err());
}

#[test]
fn test_unrecognized_punctuation_is_discarded() {
    let mut lexer = Lexer::new("mov @ rax".to_string());
    let tokens = lexer.tokenize().unwrap();
    assert_eq!(
        tokens,
        vec![
            Token::Instruction("mov".to_string()),
            Token::Register("rax".to_string()),
        ]
    );
}

#[test]
fn test_identifier_classification() {
    let mut lexer = Lexer::new("add jmp ret syscall rbx rdi ax bx start_.label".to_string());
    let tokens = lexer.tokenize().unwrap();
    assert_eq!(
        tokens,
        vec![
            Token::Instruction("add".to_string()),
            Token::Instruction("jmp".to_string()),
            Token::Instruction("ret".to_string()),
            Token::Instruction("syscall".to_string()),
            Token::Register("rbx".to_string()),
            Token::Register("rdi".to_string()),
            Token::Register("ax".to_string()),
            Token::Register("bx".to_string()),
            Token::Ident("start_.label".to_string()),
        ]
    );
}

#[test]
fn test_comment_without_newline_runs_to_end() {
    let mut lexer = Lexer::new("ret ; trailing comment".to_string());
    let tokens = lexer.tokenize().unwrap();
    assert_eq!(tokens, vec![Token::Instruction("ret".to_string())]);
}
