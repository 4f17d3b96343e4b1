use asmfront::lexer::Lexer;
use asmfront::parser::cst::{CstNode, CstNodeKind};
use asmfront::parser::parse_result::ParserResult;
use asmfront::parser::Parser;

fn parse_source(src: &str) -> ParserResult<CstNode, asmfront::parser::parser_error::ParserError> {
    let tokens = Lexer::tokenise(src).unwrap();
    Parser::parse(&tokens)
}

fn parsed(src: &str) -> CstNode {
    match parse_source(src) {
        ParserResult::Matched(node) => node,
        ParserResult::NotPresent => panic!("grammar did not apply"),
        ParserResult::Failed(e) => panic!("{}", e.desc()),
    }
}

fn failed(src: &str) -> String {
    match parse_source(src) {
        ParserResult::Failed(e) => e.desc(),
        _ => panic!("expected a syntax error"),
    }
}

#[test]
fn example_source_parses_into_two_statements() {
    let root = parsed("outer:\n.res >inner .byte\n");
    assert_eq!(root.kind, CstNodeKind::File);
    let statements = root.child(0);
    assert_eq!(statements.kind, CstNodeKind::Statements);
    assert_eq!(statements.children.len(), 2);
    assert_eq!(statements.child(0).child(0).kind, CstNodeKind::LabelDirective);
    assert_eq!(statements.child(1).child(0).kind, CstNodeKind::ResDirective);
}

#[test]
fn parsing_twice_yields_identical_trees() {
    let tokens = Lexer::tokenise("outer:\nmov r0 #5\n.res x .bytes #2 { #1 \"ab\" } * #3\n")
        .unwrap();
    let first = Parser::parse(&tokens);
    let second = Parser::parse(&tokens);
    match (first, second) {
        (ParserResult::Matched(a), ParserResult::Matched(b)) => {
            assert_eq!(format!("{:?}", a), format!("{:?}", b));
        },
        _ => panic!("expected both parses to match"),
    }
}

#[test]
fn instruction_with_condition_code_and_arguments() {
    let root = parsed("mov:eq r0 #5 \"s\" lr0 sp p1\n");
    let stmt = root.child(0).child(0).child(0);
    assert_eq!(stmt.kind, CstNodeKind::Instruction);
    assert_eq!(stmt.children.len(), 3);
    assert_eq!(stmt.child(1).kind, CstNodeKind::ConditionCode);
    let args = stmt.child(2);
    assert_eq!(args.kind, CstNodeKind::InstructionArguments);
    assert_eq!(args.children.len(), 6);
}

#[test]
fn macro_with_label_access_argument() {
    let root = parsed("!dw $a>b>c r0\n");
    let stmt = root.child(0).child(0).child(0);
    assert_eq!(stmt.kind, CstNodeKind::Macro);
    let args = stmt.child(1);
    assert_eq!(args.kind, CstNodeKind::MacroArguments);
    assert_eq!(args.children.len(), 2);
    assert_eq!(args.child(0).child(0).kind, CstNodeKind::LabelAccess);
}

#[test]
fn nested_assignment_values_parse() {
    let root = parsed(".res buf .arr #2 .bytes #4 { { #1 #2 } * #0 \"xy\" }\n");
    let res = root.child(0).child(0).child(0);
    assert_eq!(res.kind, CstNodeKind::ResDirective);
    assert_eq!(res.children.len(), 4);
    let assignment = res.child(3);
    assert_eq!(assignment.kind, CstNodeKind::Assignment);
    let values = assignment.child(1);
    assert_eq!(values.kind, CstNodeKind::AssignmentValues);
    assert_eq!(values.children.len(), 2);
    assert_eq!(values.child(0).child(0).kind, CstNodeKind::Assignment);
}

#[test]
fn start_import_export_parse() {
    let root = parsed(".start :\n.import local (m>ext)\n.export $local (m>ext)\n");
    let statements = root.child(0);
    assert_eq!(statements.children.len(), 3);
    assert_eq!(statements.child(0).child(0).kind, CstNodeKind::StartDirective);
    assert_eq!(statements.child(1).child(0).kind, CstNodeKind::ImportDirective);
    assert_eq!(statements.child(2).child(0).kind, CstNodeKind::ExportDirective);
}

#[test]
fn missing_newline_after_statement_is_reported() {
    let desc = failed("nop outer\n");
    assert_eq!(
        desc,
        "*** PARSER ERROR [LINE 1]: Expected a new line after a statement, not Identifier \"outer\"; instruction statement unterminated."
    );
}

#[test]
fn res_without_type_is_a_hard_failure() {
    let desc = failed(".res name\n");
    assert!(desc.contains("Expected type in .res directive."), "{}", desc);
}

#[test]
fn auto_scope_prefix_without_identifier_fails() {
    let desc = failed(".res > .byte\n");
    assert!(
        desc.contains("Expected identifier after auto scope prefix (>)."),
        "{}",
        desc
    );
}

#[test]
fn label_access_without_identifier_fails() {
    let desc = failed(".export $ (x)\n");
    assert!(desc.contains("Expected identifier after $ (label access)."), "{}", desc);
}

#[test]
fn trailing_garbage_fails_at_end_of_file() {
    let desc = failed("}\n");
    assert!(desc.contains("Expected end of file"), "{}", desc);
}

#[test]
fn statement_without_trailing_newline_before_eof_is_accepted() {
    let root = parsed("nop");
    assert_eq!(root.child(0).children.len(), 1);
}
