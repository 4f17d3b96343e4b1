use asmfront::lexer::token::{Token, TokenKind};
use asmfront::lexer::Lexer;
use asmfront::parser::parse_result::ParserResult;
use asmfront::parser::Parser;
use asmfront::sema::ast::assignment::AssignmentValue;
use asmfront::sema::ast::data_type::DataType;
use asmfront::sema::ast::file::File;
use asmfront::sema::ast::helpers::{num_lit_to_int, str_lit_to_str};
use asmfront::sema::ast::instruction_arg::InstructionArg;
use asmfront::sema::ast::macro_arg::MacroArg;
use asmfront::sema::ast::statement::Statement;
use asmfront::sema::label_expander::expand_labels;
use asmfront::sema::validate::file_buildable;

fn build(src: &str) -> File {
    let tokens = Lexer::tokenise(src).unwrap();
    match Parser::parse(&tokens) {
        ParserResult::Matched(root) => {
            assert!(file_buildable(&root));
            File::from(&root)
        },
        ParserResult::NotPresent => panic!("grammar did not apply"),
        ParserResult::Failed(e) => panic!("{}", e.desc()),
    }
}

fn number_token(lexeme: &str) -> Token {
    Token { kind: TokenKind::Number, lexeme: lexeme.to_string(), line: 1 }
}

#[test]
fn radix_decoding_is_mathematically_correct() {
    assert_eq!(num_lit_to_int(&number_token("#b101")), 5);
    assert_eq!(num_lit_to_int(&number_token("#x-1F")), -31);
    assert_eq!(num_lit_to_int(&number_token("#d42")), 42);
    assert_eq!(num_lit_to_int(&number_token("#o17")), 15);
    assert_eq!(num_lit_to_int(&number_token("#xfF")), 255);
    assert_eq!(num_lit_to_int(&number_token("#d-2147483648")), i32::MIN);
    assert_eq!(num_lit_to_int(&number_token("#d2147483647")), i32::MAX);
    assert_eq!(num_lit_to_int(&number_token("#d0")), 0);
}

#[test]
fn string_decoding_strips_quotes() {
    let t = Token { kind: TokenKind::String, lexeme: "\"ab c\"".to_string(), line: 1 };
    assert_eq!(str_lit_to_str(&t), vec!['a', 'b', ' ', 'c']);
}

#[test]
fn out_of_range_number_is_not_buildable() {
    let tokens = Lexer::tokenise("mov #xFFFFFFFF\n").unwrap();
    match Parser::parse(&tokens) {
        ParserResult::Matched(root) => assert!(!file_buildable(&root)),
        _ => panic!("expected a parse"),
    }
}

#[test]
fn res_directive_builds_types_and_values() {
    let file = build(".res buf .arr #3 .bytes #2 { #1 \"hi\" } * #4\n");
    assert_eq!(file.statements.len(), 1);
    match &file.statements[0] {
        Statement::ResDirective(res) => {
            assert_eq!(res.label.label, "buf");
            assert_eq!(res.label.prefix_count, 0);
            assert_eq!(res.line, 1);
            match &res.data_type {
                DataType::Arr(count, inner) => {
                    assert_eq!(*count, 3);
                    match **inner {
                        DataType::Bytes(size) => assert_eq!(size, 2),
                        _ => panic!("expected a bytes element type"),
                    }
                },
                _ => panic!("expected an array type"),
            }
            let assignment = res.assignment.as_ref().unwrap();
            assert_eq!(assignment.repetition, 4);
            assert_eq!(assignment.values.len(), 2);
            match &assignment.values[0] {
                AssignmentValue::Number(v) => assert_eq!(*v, 1),
                _ => panic!("expected a number value"),
            }
            match &assignment.values[1] {
                AssignmentValue::String(s) => assert_eq!(s, &vec!['h', 'i']),
                _ => panic!("expected a string value"),
            }
        },
        _ => panic!("expected a reservation"),
    }
}

#[test]
fn repetition_without_number_is_zero_and_absent_is_one() {
    let file = build(".res a .byte { #1 } *\n.res b .byte { #1 }\n");
    match &file.statements[0] {
        Statement::ResDirective(res) => {
            assert_eq!(res.assignment.as_ref().unwrap().repetition, 0)
        },
        _ => panic!("expected a reservation"),
    }
    match &file.statements[1] {
        Statement::ResDirective(res) => {
            assert_eq!(res.assignment.as_ref().unwrap().repetition, 1)
        },
        _ => panic!("expected a reservation"),
    }
}

#[test]
fn negative_repetition_wraps_as_unsigned() {
    let file = build(".res a .byte { } * #-1\n");
    match &file.statements[0] {
        Statement::ResDirective(res) => {
            assert_eq!(res.assignment.as_ref().unwrap().repetition, 4294967295)
        },
        _ => panic!("expected a reservation"),
    }
}

#[test]
fn example_end_to_end_resolution() {
    let mut file = build("outer:\n.res >inner .byte\n");
    expand_labels(&mut file).unwrap();
    match &file.statements[0] {
        Statement::LabelDirective(l) => {
            assert_eq!(l.label.resolved.as_deref(), Some("outer"));
        },
        _ => panic!("expected a label directive"),
    }
    match &file.statements[1] {
        Statement::ResDirective(r) => {
            assert_eq!(r.label.resolved.as_deref(), Some("outer>inner"));
        },
        _ => panic!("expected a reservation"),
    }
}

#[test]
fn scope_stack_pops_back_to_the_prefix_depth() {
    let mut file = build("a:\n>b:\n>>c:\n>deep:\nflat:\n.res >x .byte\n");
    expand_labels(&mut file).unwrap();
    let resolved: Vec<String> = file
        .statements
        .iter()
        .map(|s| match s {
            Statement::LabelDirective(l) => l.label.resolved.clone().unwrap(),
            Statement::ResDirective(r) => r.label.resolved.clone().unwrap(),
            _ => panic!("unexpected statement"),
        })
        .collect();
    assert_eq!(
        resolved,
        vec![
            "a".to_string(),
            "a>b".to_string(),
            "a>b>c".to_string(),
            "a>deep".to_string(),
            "flat".to_string(),
            "flat>x".to_string(),
        ]
    );
}

#[test]
fn prefix_deeper_than_nesting_is_rejected_at_that_line() {
    let mut file = build("a:\n.res >>b .byte\n");
    let err = expand_labels(&mut file).unwrap_err();
    assert_eq!(err.desc(), "*** SEMA ERROR [LINE 2]: Auto nesting too deep.");
    // the file is left untouched: nothing is partially resolved
    match &file.statements[0] {
        Statement::LabelDirective(l) => assert!(l.label.resolved.is_none()),
        _ => panic!("expected a label directive"),
    }
}

#[test]
fn import_and_export_resolve_both_sides() {
    let mut file = build("m:\n.import >local (lib>ext)\n.export $>s>local2 (lib>ext2)\n");
    expand_labels(&mut file).unwrap();
    match &file.statements[1] {
        Statement::ImportDirective(d) => {
            assert_eq!(d.label_intern.resolved.as_deref(), Some("m>local"));
            assert_eq!(d.label_extern.resolved.as_deref(), Some("lib>ext"));
        },
        _ => panic!("expected an import"),
    }
    match &file.statements[2] {
        Statement::ExportDirective(d) => {
            assert_eq!(d.label_intern.resolved.as_deref(), Some("m>s>local2"));
            assert_eq!(d.label_extern.resolved.as_deref(), Some("lib>ext2"));
        },
        _ => panic!("expected an export"),
    }
}

#[test]
fn macro_label_arguments_resolve_like_accesses() {
    let mut file = build("m:\n!dw $>s1>target r3 #7\n");
    expand_labels(&mut file).unwrap();
    match &file.statements[1] {
        Statement::Macro(mac) => {
            assert_eq!(mac.mnemonic, "!dw");
            assert_eq!(mac.line, 2);
            match &mac.args[0] {
                MacroArg::Label(l) => {
                    assert_eq!(l.resolved.as_deref(), Some("m>s1>target"));
                },
                _ => panic!("expected a label argument"),
            }
            match &mac.args[1] {
                MacroArg::Register(r) => assert_eq!(r, "r3"),
                _ => panic!("expected a register argument"),
            }
            match &mac.args[2] {
                MacroArg::Number(n) => assert_eq!(*n, 7),
                _ => panic!("expected a number argument"),
            }
        },
        _ => panic!("expected a macro"),
    }
}

#[test]
fn macro_label_argument_too_deep_is_rejected() {
    let mut file = build("!dw $>x\n");
    let err = expand_labels(&mut file).unwrap_err();
    assert_eq!(err.desc(), "*** SEMA ERROR [LINE 1]: Auto nesting too deep.");
}

#[test]
fn instructions_pass_through_unchanged() {
    let mut file = build("mov:ne r0 #-3 \"s\"\n");
    expand_labels(&mut file).unwrap();
    match &file.statements[0] {
        Statement::Instruction(i) => {
            assert_eq!(i.mnemonic, "mov");
            assert_eq!(i.condition.as_deref(), Some("ne"));
            assert_eq!(i.args.len(), 3);
            match &i.args[1] {
                InstructionArg::Number(v) => assert_eq!(*v, -3),
                _ => panic!("expected a number operand"),
            }
        },
        _ => panic!("expected an instruction"),
    }
}

#[test]
fn first_failing_statement_wins() {
    let mut file = build("a:\n.res >>b .byte\n.res >>>c .byte\n");
    let err = expand_labels(&mut file).unwrap_err();
    assert_eq!(err.desc(), "*** SEMA ERROR [LINE 2]: Auto nesting too deep.");
}

#[test]
fn start_directive_is_not_modelled_by_the_builders() {
    let tokens = Lexer::tokenise(".start :\n").unwrap();
    match Parser::parse(&tokens) {
        ParserResult::Matched(root) => assert!(!file_buildable(&root)),
        _ => panic!("expected a parse"),
    }
}
