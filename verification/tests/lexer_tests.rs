use asmfront::lexer::token::TokenKind;
use asmfront::lexer::Lexer;

#[test]
fn tokenises_example_source() {
    let tokens = Lexer::tokenise("outer:\n.res >inner .byte\n").unwrap();
    let expected: Vec<(TokenKind, &str)> = vec![
        (TokenKind::Identifier, "outer"),
        (TokenKind::Punctuation, ":"),
        (TokenKind::Punctuation, "\n"),
        (TokenKind::Directive, ".res"),
        (TokenKind::Punctuation, ">"),
        (TokenKind::Identifier, "inner"),
        (TokenKind::Directive, ".byte"),
        (TokenKind::Punctuation, "\n"),
        (TokenKind::Eof, ""),
    ];
    assert_eq!(tokens.len(), expected.len());
    for (tok, (kind, lexeme)) in tokens.iter().zip(expected.iter()) {
        assert_eq!(tok.kind, *kind);
        assert_eq!(tok.lexeme, *lexeme);
    }
}

#[test]
fn line_numbers_count_newlines() {
    let tokens = Lexer::tokenise("nop\n\nmov r0\n").unwrap();
    assert_eq!(tokens[0].lexeme, "nop");
    assert_eq!(tokens[0].line, 1);
    // the two newline tokens
    assert_eq!(tokens[1].line, 1);
    assert_eq!(tokens[2].line, 2);
    assert_eq!(tokens[3].lexeme, "mov");
    assert_eq!(tokens[3].line, 3);
    assert_eq!(tokens[4].lexeme, "r0");
    assert_eq!(tokens[4].line, 3);
    // the terminal end-of-input token carries the final line
    assert_eq!(tokens.last().unwrap().kind, TokenKind::Eof);
    assert_eq!(tokens.last().unwrap().line, 4);
}

#[test]
fn classifies_word_tokens_by_table_priority() {
    let tokens = Lexer::tokenise("mov r0 lr1 sp p2 eq somename\n").unwrap();
    assert_eq!(tokens[0].kind, TokenKind::Instruction);
    assert_eq!(tokens[1].kind, TokenKind::Register);
    assert_eq!(tokens[2].kind, TokenKind::LongRegister);
    assert_eq!(tokens[3].kind, TokenKind::SystemRegister);
    assert_eq!(tokens[4].kind, TokenKind::Port);
    assert_eq!(tokens[5].kind, TokenKind::ConditionCode);
    assert_eq!(tokens[6].kind, TokenKind::Identifier);
}

#[test]
fn comments_run_to_end_of_line() {
    let tokens = Lexer::tokenise("nop ; this ; is ignored\nret\n").unwrap();
    let words: Vec<String> = tokens
        .iter()
        .filter(|t| t.kind == TokenKind::Instruction)
        .map(|t| t.lexeme.clone())
        .collect();
    assert_eq!(words, vec!["nop".to_string(), "ret".to_string()]);
}

#[test]
fn number_lexemes_are_normalized_with_a_radix() {
    let tokens = Lexer::tokenise("#42 #x-1F #b101 #o17\n").unwrap();
    assert_eq!(tokens[0].lexeme, "#d42");
    assert_eq!(tokens[1].lexeme, "#x-1F");
    assert_eq!(tokens[2].lexeme, "#b101");
    assert_eq!(tokens[3].lexeme, "#o17");
    for t in &tokens[0..4] {
        assert_eq!(t.kind, TokenKind::Number);
    }
}

#[test]
fn lone_hash_fails_with_the_default_radix_inserted() {
    let err = Lexer::tokenise("#").unwrap_err();
    assert_eq!(
        err.desc(),
        "*** LEXER ERROR [LINE 1]: Invalid number literal found: #d"
    );
}

#[test]
fn number_with_sign_but_no_digits_is_rejected() {
    let err = Lexer::tokenise("#x-").unwrap_err();
    assert_eq!(
        err.desc(),
        "*** LEXER ERROR [LINE 1]: Invalid number literal found: #x-"
    );
}

#[test]
fn unknown_macro_name_is_rejected() {
    let err = Lexer::tokenise("!nosuch\n").unwrap_err();
    assert_eq!(err.desc(), "*** LEXER ERROR [LINE 1]: Invalid macro found: !nosuch");
}

#[test]
fn unknown_directive_name_is_rejected() {
    let err = Lexer::tokenise("\n.nosuch\n").unwrap_err();
    assert_eq!(err.desc(), "*** LEXER ERROR [LINE 2]: Invalid directive found: .nosuch");
}

#[test]
fn unknown_symbol_is_rejected() {
    let err = Lexer::tokenise("nop @\n").unwrap_err();
    assert_eq!(err.desc(), "*** LEXER ERROR [LINE 1]: Unknown character found: @");
}

#[test]
fn string_literals_keep_their_quotes() {
    let tokens = Lexer::tokenise("\"hello world\"\n").unwrap();
    assert_eq!(tokens[0].kind, TokenKind::String);
    assert_eq!(tokens[0].lexeme, "\"hello world\"");
}

#[test]
fn unterminated_string_is_rejected() {
    let err = Lexer::tokenise("\"open").unwrap_err();
    assert_eq!(err.desc(), "*** LEXER ERROR [LINE 1]: Unterminated string found");
}

#[test]
fn control_character_in_string_is_rejected() {
    let err = Lexer::tokenise("\"a\tb\"").unwrap_err();
    assert_eq!(
        err.desc(),
        "*** LEXER ERROR [LINE 1]: Invalid character in a string found: \t"
    );
}

#[test]
fn empty_source_yields_only_eof() {
    let tokens = Lexer::tokenise("").unwrap();
    assert_eq!(tokens.len(), 1);
    assert_eq!(tokens[0].kind, TokenKind::Eof);
    assert_eq!(tokens[0].line, 1);
}
