//! The parser: recursive descent over the token sequence with ordered
//! alternatives, producing a concrete syntax tree. Every rule is proved to
//! return exactly what the corresponding specification function in
//! [`grammar`] says, so the tree, the failure and the positions after each
//! rule are a mathematical function of the token sequence.

pub mod cst;
pub mod grammar;
pub mod parse_result;
pub mod parser_error;

use crate::lexer::token::{Token, TokenKind, TokenV};
use crate::parser::cst::{CstNode, CstNodeKind, CstV};
use crate::parser::grammar::{PListResultV, PListStep, PResultV, PStep};
use crate::parser::parse_result::ParserResult;
use crate::parser::parser_error::ParserError;
use crate::text::str_eq;
use vstd::prelude::*;

verus! {

/// The executable outcome agrees with the model's outcome.
pub open spec fn obeys(r: ParserResult<CstNode, ParserError>, step: PStep) -> bool {
    match (r, step.result) {
        (ParserResult::Matched(node), PResultV::Matched(nv)) => node@ == nv,
        (ParserResult::NotPresent, PResultV::NotPresent) => true,
        (ParserResult::Failed(e), PResultV::Failed(ev)) => e@ == ev,
        _ => false,
    }
}

/// The executable children of a starred rule agree with the model's.
pub open spec fn obeys_list(r: Result<Vec<CstNode>, ParserError>, step: PListStep) -> bool {
    match (r, step.result) {
        (Ok(ch), PListResultV::Matched(cv)) => ch.deep_view() == cv,
        (Err(e), PListResultV::Failed(ev)) => e@ == ev,
        _ => false,
    }
}

proof fn lemma_cst_push_view(pre: Vec<CstNode>, post: Vec<CstNode>, n: CstNode)
    requires
        post@ == pre@.push(n),
    ensures
        post.deep_view() == pre.deep_view().push(n@),
{
    let lhs = post.deep_view();
    let rhs = pre.deep_view().push(n@);
    assert(pre.deep_view().len() == pre@.len());
    assert forall|k: int| 0 <= k < lhs.len() implies lhs[k] == rhs[k] by {
        assert(lhs[k] == post@[k].deep_view());
        if k < pre@.len() {
            assert(post@[k] == pre@[k]);
            assert(pre.deep_view()[k] == pre@[k].deep_view());
        } else {
            assert(post@[k] == n);
        }
    }
    assert(lhs =~= rhs);
}

proof fn lemma_tokens_dv(tokens: &Vec<Token>, i: int)
    requires
        0 <= i < tokens@.len(),
    ensures
        tokens.deep_view().len() == tokens@.len(),
        tokens.deep_view()[i] == tokens@[i]@,
{
}

fn kind_name(k: TokenKind) -> (r: String)
    ensures
        r@ == grammar::token_kind_name(k),
{
    match k {
        TokenKind::Instruction => "Instruction".to_owned(),
        TokenKind::Macro => "Macro".to_owned(),
        TokenKind::Directive => "Directive".to_owned(),
        TokenKind::Register => "Register".to_owned(),
        TokenKind::LongRegister => "LongRegister".to_owned(),
        TokenKind::Port => "Port".to_owned(),
        TokenKind::SystemRegister => "SystemRegister".to_owned(),
        TokenKind::ConditionCode => "ConditionCode".to_owned(),
        TokenKind::Identifier => "Identifier".to_owned(),
        TokenKind::Number => "Number".to_owned(),
        TokenKind::String => "String".to_owned(),
        TokenKind::Punctuation => "Punctuation".to_owned(),
        TokenKind::Eof => "Eof".to_owned(),
    }
}

pub struct Parser {
    index: usize,
    line: u32,
}

impl Parser {
    /// Parses a whole token sequence into a concrete syntax tree, starting
    /// on line 1. The outcome is exactly what the grammar model says of the
    /// tokens, so parsing the same tokens twice yields identical trees.
    pub fn parse(tokens: &Vec<Token>) -> (r: ParserResult<CstNode, ParserError>)
        ensures
            obeys(r, grammar::spec_parse(tokens.deep_view())),
    {
        let mut parser = Parser { index: 0, line: 1 };
        parser.parse_file(tokens)
    }

    fn pop_token_if_kind(&mut self, tokens: &Vec<Token>, kind: TokenKind) -> (r: Option<Token>)
        requires
            old(self).index <= tokens@.len(),
        ensures
            final(self).index <= tokens@.len(),
            final(self).index >= old(self).index,
            ({
                let t = tokens.deep_view();
                let i = old(self).index as int;
                match r {
                    Some(tok) => grammar::can_pop_kind(t, i, kind) && tok@ == t[i]
                        && final(self).index == i + 1 && final(self).line as nat == t[i].line,
                    None => !grammar::can_pop_kind(t, i, kind) && *final(self) == *old(self),
                }
            }),
    {
        if self.index >= tokens.len() {
            return None;
        }
        proof {
            lemma_tokens_dv(tokens, self.index as int);
        }
        let token = &tokens[self.index];
        if token.kind == kind {
            self.line = token.line;
            self.index += 1;
            Some(Token::new(kind, token.lexeme.clone(), self.line))
        } else {
            None
        }
    }

    fn pop_token_if_lexeme(&mut self, tokens: &Vec<Token>, lexeme: &str) -> (r: Option<Token>)
        requires
            old(self).index <= tokens@.len(),
        ensures
            final(self).index <= tokens@.len(),
            final(self).index >= old(self).index,
            ({
                let t = tokens.deep_view();
                let i = old(self).index as int;
                match r {
                    Some(tok) => grammar::can_pop_lex(t, i, lexeme@) && tok@ == t[i]
                        && final(self).index == i + 1 && final(self).line as nat == t[i].line,
                    None => !grammar::can_pop_lex(t, i, lexeme@) && *final(self) == *old(self),
                }
            }),
    {
        if self.index >= tokens.len() {
            return None;
        }
        proof {
            lemma_tokens_dv(tokens, self.index as int);
        }
        let token = &tokens[self.index];
        if str_eq(token.lexeme.as_str(), lexeme) {
            self.line = token.line;
            self.index += 1;
            Some(Token::new(token.kind, token.lexeme.clone(), self.line))
        } else {
            None
        }
    }

    /// AutoScopePrefix := '>'*   (always matches)
    #[verifier::loop_isolation(false)]
    fn parse_auto_scope_prefix(&mut self, tokens: &Vec<Token>) -> (r: ParserResult<
        CstNode,
        ParserError,
    >)
        requires
            old(self).index <= tokens@.len(),
        ensures
            final(self).index <= tokens@.len(),
            final(self).index >= old(self).index,
            ({
                let step = grammar::auto_scope_prefix(
                    tokens.deep_view(),
                    old(self).index as int,
                    old(self).line as nat,
                );
                &&& final(self).index as int == step.index
                &&& final(self).line as nat == step.line
                &&& obeys(r, step)
            }),
    {
        let ghost t = tokens.deep_view();
        let ghost i0 = self.index as int;
        let ghost l0 = self.line as nat;
        proof {
            grammar::lemma_lex_run_end(t, i0, ">"@);
        }
        let mut children: Vec<CstNode> = Vec::new();
        let tokens_c = tokens.len();
        while self.index < tokens_c && str_eq(tokens[self.index].lexeme.as_str(), ">")
            invariant
                i0 <= self.index <= t.len(),
                grammar::lex_run_end(t, i0, ">"@) == grammar::lex_run_end(
                    t,
                    self.index as int,
                    ">"@,
                ),
                self.line as nat == grammar::run_line(t, i0, self.index as int, l0),
                children.deep_view() =~= Seq::new(
                    (self.index - i0) as nat,
                    |k: int| cst::term_v(t[i0 + k]),
                ),
            decreases t.len() - self.index,
        {
            proof {
                lemma_tokens_dv(tokens, self.index as int);
            }
            let tk = &tokens[self.index];
            self.line = tk.line;
            let tok = Token::new(tk.kind, tk.lexeme.clone(), tk.line);
            let node = CstNode::terminal(tok);
            let ghost pre = children;
            let ghost node0 = node;
            children.push(node);
            self.index += 1;
            proof {
                lemma_cst_push_view(pre, children, node0);
                assert(children.deep_view() =~= Seq::new(
                    (self.index - i0) as nat,
                    |k: int| cst::term_v(t[i0 + k]),
                ));
            }
        }
        proof {
            assert(self.index as int == grammar::asp_end(t, i0));
            assert(children.deep_view() =~= grammar::asp_node(t, i0).children);
        }
        ParserResult::Matched(CstNode::nonterminal(CstNodeKind::AutoScopePrefix, children))
    }

    /// LabelDefinition := AutoScopePrefix Identifier
    fn parse_label_definition(&mut self, tokens: &Vec<Token>) -> (r: ParserResult<
        CstNode,
        ParserError,
    >)
        requires
            old(self).index <= tokens@.len(),
        ensures
            final(self).index <= tokens@.len(),
            final(self).index >= old(self).index,
            ({
                let step = grammar::label_definition(
                    tokens.deep_view(),
                    old(self).index as int,
                    old(self).line as nat,
                );
                &&& final(self).index as int == step.index
                &&& final(self).line as nat == step.line
                &&& obeys(r, step)
            }),
            r is Matched ==> final(self).index > old(self).index,
            r is NotPresent ==> *final(self) == *old(self),
    {
        let ghost t = tokens.deep_view();
        let ghost i0 = self.index as int;
        let start_index = self.index;
        let mut children: Vec<CstNode> = Vec::new();
        let asp = match self.parse_auto_scope_prefix(tokens) {
            ParserResult::Matched(node) => node,
            _ => {
                proof {
                    assert(false);
                }
                return ParserResult::NotPresent;
            },
        };
        if let Some(token) = self.pop_token_if_kind(tokens, TokenKind::Identifier) {
            let term = CstNode::terminal(token);
            let ghost asp0 = asp;
            let ghost term0 = term;
            let ghost pre0 = children;
            children.push(asp);
            let ghost pre1 = children;
            children.push(term);
            proof {
                lemma_cst_push_view(pre0, pre1, asp0);
                lemma_cst_push_view(pre1, children, term0);
                assert(children.deep_view() =~= seq![asp0@, term0@]);
            }
            ParserResult::Matched(CstNode::nonterminal(CstNodeKind::LabelDefinition, children))
        } else {
            if self.index == start_index {
                return ParserResult::NotPresent;
            }
            ParserResult::Failed(
                ParserError::new("Expected identifier after auto scope prefix (>).", self.line),
            )
        }
    }

    /// Scope := Identifier '>'   (the identifier is consumed only when the
    /// token after it is `>`)
    fn parse_scope(&mut self, tokens: &Vec<Token>) -> (r: ParserResult<CstNode, ParserError>)
        requires
            old(self).index <= tokens@.len(),
        ensures
            final(self).index <= tokens@.len(),
            final(self).index >= old(self).index,
            ({
                let step = grammar::scope(
                    tokens.deep_view(),
                    old(self).index as int,
                    old(self).line as nat,
                );
                &&& final(self).index as int == step.index
                &&& final(self).line as nat == step.line
                &&& obeys(r, step)
            }),
            r is Matched ==> final(self).index > old(self).index,
            r is NotPresent ==> *final(self) == *old(self),
    {
        let ghost t = tokens.deep_view();
        let ghost i0 = self.index as int;
        let mut children: Vec<CstNode> = Vec::new();
        let tokens_c = tokens.len();
        let has_gt = tokens_c > 0 && self.index < tokens_c - 1 && str_eq(
            tokens[self.index + 1].lexeme.as_str(),
            ">",
        );
        proof {
            if tokens_c > 0 && self.index < tokens_c - 1 {
                lemma_tokens_dv(tokens, self.index as int + 1);
            }
        }
        if !has_gt {
            return ParserResult::NotPresent;
        }
        if let Some(token) = self.pop_token_if_kind(tokens, TokenKind::Identifier) {
            let ident = CstNode::terminal(token);
            if let Some(token2) = self.pop_token_if_lexeme(tokens, ">") {
                let gt = CstNode::terminal(token2);
                let ghost ident0 = ident;
                let ghost gt0 = gt;
                let ghost pre0 = children;
                children.push(ident);
                let ghost pre1 = children;
                children.push(gt);
                proof {
                    lemma_cst_push_view(pre0, pre1, ident0);
                    lemma_cst_push_view(pre1, children, gt0);
                    assert(children.deep_view() =~= seq![
                        cst::term_v(t[i0]),
                        cst::term_v(t[i0 + 1]),
                    ]);
                }
                ParserResult::Matched(CstNode::nonterminal(CstNodeKind::Scope, children))
            } else {
                proof {
                    assert(false);
                }
                ParserResult::Failed(ParserError::new("Expected an identifier before >.", self.line))
            }
        } else {
            ParserResult::Failed(ParserError::new("Expected an identifier before >.", self.line))
        }
    }

    /// Scope*, collected in order.
    fn parse_scopes_items(&mut self, tokens: &Vec<Token>) -> (r: Result<Vec<CstNode>, ParserError>)
        requires
            old(self).index <= tokens@.len(),
        ensures
            final(self).index <= tokens@.len(),
            final(self).index >= old(self).index,
            ({
                let step = grammar::scopes_items(
                    tokens.deep_view(),
                    old(self).index as int,
                    old(self).line as nat,
                );
                &&& final(self).index as int == step.index
                &&& final(self).line as nat == step.line
                &&& obeys_list(r, step)
            }),
        decreases tokens@.len() - self.index,
    {
        let ghost t = tokens.deep_view();
        let ghost i0 = self.index as int;
        let ghost l0 = self.line as nat;
        let scope_node = self.parse_scope(tokens);
        match scope_node {
            ParserResult::NotPresent => {
                let ch: Vec<CstNode> = Vec::new();
                proof {
                    assert(ch.deep_view() =~= Seq::<CstV>::empty());
                }
                Ok(ch)
            },
            ParserResult::Failed(e) => Err(e),
            ParserResult::Matched(node) => {
                let rest = self.parse_scopes_items(tokens);
                match rest {
                    Ok(mut ch_rest) => {
                        let ghost rest_seq = ch_rest@;
                        let ghost rest_dv = ch_rest.deep_view();
                        let ghost node0 = node;
                        let mut children: Vec<CstNode> = Vec::new();
                        children.push(node);
                        children.append(&mut ch_rest);
                        proof {
                            assert(children@ =~= seq![node0] + rest_seq);
                            lemma_cst_cons_view(children, node0, rest_seq, rest_dv);
                        }
                        Ok(children)
                    },
                    Err(e) => Err(e),
                }
            },
        }
    }

    /// Scopes := Scope*
    fn parse_scopes(&mut self, tokens: &Vec<Token>) -> (r: ParserResult<CstNode, ParserError>)
        requires
            old(self).index <= tokens@.len(),
        ensures
            final(self).index <= tokens@.len(),
            final(self).index >= old(self).index,
            ({
                let step = grammar::scopes(
                    tokens.deep_view(),
                    old(self).index as int,
                    old(self).line as nat,
                );
                &&& final(self).index as int == step.index
                &&& final(self).line as nat == step.line
                &&& obeys(r, step)
            }),
    {
        match self.parse_scopes_items(tokens) {
            Ok(children) => ParserResult::Matched(
                CstNode::nonterminal(CstNodeKind::Scopes, children),
            ),
            Err(e) => ParserResult::Failed(e),
        }
    }

    /// LabelAccess := '$' AutoScopePrefix Scopes Identifier
    fn parse_label_access(&mut self, tokens: &Vec<Token>) -> (r: ParserResult<CstNode, ParserError>)
        requires
            old(self).index <= tokens@.len(),
        ensures
            final(self).index <= tokens@.len(),
            final(self).index >= old(self).index,
            ({
                let step = grammar::label_access(
                    tokens.deep_view(),
                    old(self).index as int,
                    old(self).line as nat,
                );
                &&& final(self).index as int == step.index
                &&& final(self).line as nat == step.line
                &&& obeys(r, step)
            }),
            r is Matched ==> final(self).index > old(self).index,
            r is NotPresent ==> *final(self) == *old(self),
    {
        let ghost t = tokens.deep_view();
        let ghost i0 = self.index as int;
        let mut children: Vec<CstNode> = Vec::new();
        let dollar = match self.pop_token_if_lexeme(tokens, "$") {
            Some(token) => CstNode::terminal(token),
            None => {
                return ParserResult::NotPresent;
            },
        };
        let asp = match self.parse_auto_scope_prefix(tokens) {
            ParserResult::Matched(node) => node,
            _ => {
                proof {
                    assert(false);
                }
                return ParserResult::NotPresent;
            },
        };
        let sc = match self.parse_scopes(tokens) {
            ParserResult::Matched(node) => node,
            ParserResult::Failed(e) => {
                return ParserResult::Failed(e);
            },
            ParserResult::NotPresent => {
                proof {
                    assert(false);
                }
                return ParserResult::NotPresent;
            },
        };
        if let Some(token) = self.pop_token_if_kind(tokens, TokenKind::Identifier) {
            let ident = CstNode::terminal(token);
            let ghost dollar0 = dollar;
            let ghost asp0 = asp;
            let ghost sc0 = sc;
            let ghost ident0 = ident;
            let ghost pre0 = children;
            children.push(dollar);
            let ghost pre1 = children;
            children.push(asp);
            let ghost pre2 = children;
            children.push(sc);
            let ghost pre3 = children;
            children.push(ident);
            proof {
                lemma_cst_push_view(pre0, pre1, dollar0);
                lemma_cst_push_view(pre1, pre2, asp0);
                lemma_cst_push_view(pre2, pre3, sc0);
                lemma_cst_push_view(pre3, children, ident0);
                assert(children.deep_view() =~= seq![dollar0@, asp0@, sc0@, ident0@]);
            }
            ParserResult::Matched(CstNode::nonterminal(CstNodeKind::LabelAccess, children))
        } else {
            ParserResult::Failed(
                ParserError::new("Expected identifier after $ (label access).", self.line),
            )
        }
    }

    /// LabelExternal := '(' Scopes Identifier ')'
    fn parse_label_external(&mut self, tokens: &Vec<Token>) -> (r: ParserResult<
        CstNode,
        ParserError,
    >)
        requires
            old(self).index <= tokens@.len(),
        ensures
            final(self).index <= tokens@.len(),
            final(self).index >= old(self).index,
            ({
                let step = grammar::label_external(
                    tokens.deep_view(),
                    old(self).index as int,
                    old(self).line as nat,
                );
                &&& final(self).index as int == step.index
                &&& final(self).line as nat == step.line
                &&& obeys(r, step)
            }),
            r is Matched ==> final(self).index > old(self).index,
            r is NotPresent ==> *final(self) == *old(self),
    {
        let ghost t = tokens.deep_view();
        let ghost i0 = self.index as int;
        let mut children: Vec<CstNode> = Vec::new();
        let open_paren = match self.pop_token_if_lexeme(tokens, "(") {
            Some(token) => CstNode::terminal(token),
            None => {
                return ParserResult::NotPresent;
            },
        };
        let sc = match self.parse_scopes(tokens) {
            ParserResult::Matched(node) => node,
            ParserResult::Failed(e) => {
                return ParserResult::Failed(e);
            },
            ParserResult::NotPresent => {
                proof {
                    assert(false);
                }
                return ParserResult::NotPresent;
            },
        };
        let ident = match self.pop_token_if_kind(tokens, TokenKind::Identifier) {
            Some(token) => CstNode::terminal(token),
            None => {
                return ParserResult::Failed(
                    ParserError::new("Expected identifier in an external label expression.", self.line),
                );
            },
        };
        if let Some(token) = self.pop_token_if_lexeme(tokens, ")") {
            let close_paren = CstNode::terminal(token);
            let ghost a0 = open_paren;
            let ghost b0 = sc;
            let ghost c0 = ident;
            let ghost d0 = close_paren;
            let ghost pre0 = children;
            children.push(open_paren);
            let ghost pre1 = children;
            children.push(sc);
            let ghost pre2 = children;
            children.push(ident);
            let ghost pre3 = children;
            children.push(close_paren);
            proof {
                lemma_cst_push_view(pre0, pre1, a0);
                lemma_cst_push_view(pre1, pre2, b0);
                lemma_cst_push_view(pre2, pre3, c0);
                lemma_cst_push_view(pre3, children, d0);
                assert(children.deep_view() =~= seq![a0@, b0@, c0@, d0@]);
            }
            ParserResult::Matched(CstNode::nonterminal(CstNodeKind::LabelExternal, children))
        } else {
            ParserResult::Failed(
                ParserError::new("Expected ) after an external label expression.", self.line),
            )
        }
    }

    /// ByteDirective := '.byte'
    fn parse_byte_directive(&mut self, tokens: &Vec<Token>) -> (r: ParserResult<
        CstNode,
        ParserError,
    >)
        requires
            old(self).index <= tokens@.len(),
        ensures
            final(self).index <= tokens@.len(),
            final(self).index >= old(self).index,
            ({
                let step = grammar::byte_directive(
                    tokens.deep_view(),
                    old(self).index as int,
                    old(self).line as nat,
                );
                &&& final(self).index as int == step.index
                &&& final(self).line as nat == step.line
                &&& obeys(r, step)
            }),
            r is Matched ==> final(self).index > old(self).index,
            r is NotPresent ==> *final(self) == *old(self),
    {
        let ghost t = tokens.deep_view();
        let ghost i0 = self.index as int;
        let mut children: Vec<CstNode> = Vec::new();
        if let Some(token) = self.pop_token_if_lexeme(tokens, ".byte") {
            let term = CstNode::terminal(token);
            let ghost term0 = term;
            let ghost pre0 = children;
            children.push(term);
            proof {
                lemma_cst_push_view(pre0, children, term0);
                assert(children.deep_view() =~= seq![term0@]);
            }
            ParserResult::Matched(CstNode::nonterminal(CstNodeKind::ByteDirective, children))
        } else {
            ParserResult::NotPresent
        }
    }

    /// BytesDirective := '.bytes' Number
    fn parse_bytes_directive(&mut self, tokens: &Vec<Token>) -> (r: ParserResult<
        CstNode,
        ParserError,
    >)
        requires
            old(self).index <= tokens@.len(),
        ensures
            final(self).index <= tokens@.len(),
            final(self).index >= old(self).index,
            ({
                let step = grammar::bytes_directive(
                    tokens.deep_view(),
                    old(self).index as int,
                    old(self).line as nat,
                );
                &&& final(self).index as int == step.index
                &&& final(self).line as nat == step.line
                &&& obeys(r, step)
            }),
            r is Matched ==> final(self).index > old(self).index,
            r is NotPresent ==> *final(self) == *old(self),
    {
        let ghost t = tokens.deep_view();
        let ghost i0 = self.index as int;
        let mut children: Vec<CstNode> = Vec::new();
        let dir = match self.pop_token_if_lexeme(tokens, ".bytes") {
            Some(token) => CstNode::terminal(token),
            None => {
                return ParserResult::NotPresent;
            },
        };
        if let Some(token) = self.pop_token_if_kind(tokens, TokenKind::Number) {
            let num = CstNode::terminal(token);
            let ghost dir0 = dir;
            let ghost num0 = num;
            let ghost pre0 = children;
            children.push(dir);
            let ghost pre1 = children;
            children.push(num);
            proof {
                lemma_cst_push_view(pre0, pre1, dir0);
                lemma_cst_push_view(pre1, children, num0);
                assert(children.deep_view() =~= seq![dir0@, num0@]);
            }
            ParserResult::Matched(CstNode::nonterminal(CstNodeKind::BytesDirective, children))
        } else {
            ParserResult::Failed(
                ParserError::new(
                    "Expected a number (element size) after a .bytes directive",
                    self.line,
                ),
            )
        }
    }

    /// ArrDirective := '.arr' Number TypeDirective
    fn parse_arr_directive(&mut self, tokens: &Vec<Token>) -> (r: ParserResult<
        CstNode,
        ParserError,
    >)
        requires
            old(self).index <= tokens@.len(),
        ensures
            final(self).index <= tokens@.len(),
            final(self).index >= old(self).index,
            ({
                let step = grammar::arr_directive(
                    tokens.deep_view(),
                    old(self).index as int,
                    old(self).line as nat,
                );
                &&& final(self).index as int == step.index
                &&& final(self).line as nat == step.line
                &&& obeys(r, step)
            }),
            r is Matched ==> final(self).index > old(self).index,
            r is NotPresent ==> *final(self) == *old(self),
        decreases tokens@.len() - self.index, 0int,
    {
        let ghost t = tokens.deep_view();
        let ghost i0 = self.index as int;
        let mut children: Vec<CstNode> = Vec::new();
        let dir = match self.pop_token_if_lexeme(tokens, ".arr") {
            Some(token) => CstNode::terminal(token),
            None => {
                return ParserResult::NotPresent;
            },
        };
        let num = match self.pop_token_if_kind(tokens, TokenKind::Number) {
            Some(token) => CstNode::terminal(token),
            None => {
                return ParserResult::Failed(
                    ParserError::new(
                        "Expected a number (array size) after an .arr directive",
                        self.line,
                    ),
                );
            },
        };
        match self.parse_type_directive(tokens) {
            ParserResult::Matched(td) => {
                let ghost dir0 = dir;
                let ghost num0 = num;
                let ghost td0 = td;
                let ghost pre0 = children;
                children.push(dir);
                let ghost pre1 = children;
                children.push(num);
                let ghost pre2 = children;
                children.push(td);
                proof {
                    lemma_cst_push_view(pre0, pre1, dir0);
                    lemma_cst_push_view(pre1, pre2, num0);
                    lemma_cst_push_view(pre2, children, td0);
                    assert(children.deep_view() =~= seq![dir0@, num0@, td0@]);
                }
                ParserResult::Matched(CstNode::nonterminal(CstNodeKind::ArrDirective, children))
            },
            ParserResult::NotPresent => ParserResult::Failed(
                ParserError::new("Expected type in .arr directive.", self.line),
            ),
            ParserResult::Failed(e) => ParserResult::Failed(e),
        }
    }

    /// TypeDirective := ByteDirective | BytesDirective | ArrDirective
    fn parse_type_directive(&mut self, tokens: &Vec<Token>) -> (r: ParserResult<
        CstNode,
        ParserError,
    >)
        requires
            old(self).index <= tokens@.len(),
        ensures
            final(self).index <= tokens@.len(),
            final(self).index >= old(self).index,
            ({
                let step = grammar::type_directive(
                    tokens.deep_view(),
                    old(self).index as int,
                    old(self).line as nat,
                );
                &&& final(self).index as int == step.index
                &&& final(self).line as nat == step.line
                &&& obeys(r, step)
            }),
            r is Matched ==> final(self).index > old(self).index,
            r is NotPresent ==> *final(self) == *old(self),
        decreases tokens@.len() - self.index, 1int,
    {
        let ghost t = tokens.deep_view();
        let ghost i0 = self.index as int;
        let b = self.parse_byte_directive(tokens);
        let child = match b {
            ParserResult::Matched(node) => node,
            ParserResult::Failed(e) => {
                proof {
                    assert(false);
                }
                return ParserResult::Failed(e);
            },
            ParserResult::NotPresent => {
                let bs = self.parse_bytes_directive(tokens);
                match bs {
                    ParserResult::Matched(node) => node,
                    ParserResult::Failed(e) => {
                        return ParserResult::Failed(e);
                    },
                    ParserResult::NotPresent => {
                        let a = self.parse_arr_directive(tokens);
                        match a {
                            ParserResult::Matched(node) => node,
                            ParserResult::Failed(e) => {
                                return ParserResult::Failed(e);
                            },
                            ParserResult::NotPresent => {
                                return ParserResult::NotPresent;
                            },
                        }
                    },
                }
            },
        };
        let ghost child0 = child;
        let mut children: Vec<CstNode> = Vec::new();
        children.push(child);
        proof {
            assert(children.deep_view() =~= seq![child0@]);
            assert(children.deep_view()[0] == child0@);
        }
        ParserResult::Matched(CstNode::nonterminal(CstNodeKind::TypeDirective, children))
    }

    /// AssignmentRepetition := '*' Number?
    fn parse_assignment_repetition(&mut self, tokens: &Vec<Token>) -> (r: ParserResult<
        CstNode,
        ParserError,
    >)
        requires
            old(self).index <= tokens@.len(),
        ensures
            final(self).index <= tokens@.len(),
            final(self).index >= old(self).index,
            ({
                let step = grammar::assignment_repetition(
                    tokens.deep_view(),
                    old(self).index as int,
                    old(self).line as nat,
                );
                &&& final(self).index as int == step.index
                &&& final(self).line as nat == step.line
                &&& obeys(r, step)
            }),
            r is Matched ==> final(self).index > old(self).index,
            r is NotPresent ==> *final(self) == *old(self),
    {
        let ghost t = tokens.deep_view();
        let ghost i0 = self.index as int;
        let mut children: Vec<CstNode> = Vec::new();
        let star = match self.pop_token_if_lexeme(tokens, "*") {
            Some(token) => CstNode::terminal(token),
            None => {
                return ParserResult::NotPresent;
            },
        };
        let ghost star0 = star;
        let ghost pre0 = children;
        children.push(star);
        proof {
            lemma_cst_push_view(pre0, children, star0);
        }
        if let Some(token) = self.pop_token_if_kind(tokens, TokenKind::Number) {
            let num = CstNode::terminal(token);
            let ghost num0 = num;
            let ghost pre1 = children;
            children.push(num);
            proof {
                lemma_cst_push_view(pre1, children, num0);
                assert(children.deep_view() =~= seq![star0@, num0@]);
            }
        } else {
            proof {
                assert(children.deep_view() =~= seq![star0@]);
            }
        }
        ParserResult::Matched(CstNode::nonterminal(CstNodeKind::AssignmentRepetition, children))
    }

    /// Assignment := '{' AssignmentValue* '}' AssignmentRepetition?
    fn parse_assignment(&mut self, tokens: &Vec<Token>) -> (r: ParserResult<CstNode, ParserError>)
        requires
            old(self).index <= tokens@.len(),
        ensures
            final(self).index <= tokens@.len(),
            final(self).index >= old(self).index,
            ({
                let step = grammar::assignment(
                    tokens.deep_view(),
                    old(self).index as int,
                    old(self).line as nat,
                );
                &&& final(self).index as int == step.index
                &&& final(self).line as nat == step.line
                &&& obeys(r, step)
            }),
            r is Matched ==> final(self).index > old(self).index,
            r is NotPresent ==> *final(self) == *old(self),
        decreases tokens@.len() - self.index, 0int,
    {
        let ghost t = tokens.deep_view();
        let ghost i0 = self.index as int;
        let mut children: Vec<CstNode> = Vec::new();
        let open_brace = match self.pop_token_if_lexeme(tokens, "{") {
            Some(token) => CstNode::terminal(token),
            None => {
                return ParserResult::NotPresent;
            },
        };
        let values = match self.parse_assignment_values(tokens) {
            Ok(items) => CstNode::nonterminal(CstNodeKind::AssignmentValues, items),
            Err(e) => {
                return ParserResult::Failed(e);
            },
        };
        let close_brace = match self.pop_token_if_lexeme(tokens, "}") {
            Some(token) => CstNode::terminal(token),
            None => {
                return ParserResult::Failed(
                    ParserError::new("Assignment list must be terminated with }.", self.line),
                );
            },
        };
        let ghost a0 = open_brace;
        let ghost b0 = values;
        let ghost c0 = close_brace;
        let ghost pre0 = children;
        children.push(open_brace);
        let ghost pre1 = children;
        children.push(values);
        let ghost pre2 = children;
        children.push(close_brace);
        proof {
            lemma_cst_push_view(pre0, pre1, a0);
            lemma_cst_push_view(pre1, pre2, b0);
            lemma_cst_push_view(pre2, children, c0);
        }
        match self.parse_assignment_repetition(tokens) {
            ParserResult::Matched(rep) => {
                let ghost rep0 = rep;
                let ghost pre3 = children;
                children.push(rep);
                proof {
                    lemma_cst_push_view(pre3, children, rep0);
                    assert(children.deep_view() =~= seq![a0@, b0@, c0@, rep0@]);
                }
                ParserResult::Matched(CstNode::nonterminal(CstNodeKind::Assignment, children))
            },
            ParserResult::NotPresent => {
                proof {
                    assert(children.deep_view() =~= seq![a0@, b0@, c0@]);
                }
                ParserResult::Matched(CstNode::nonterminal(CstNodeKind::Assignment, children))
            },
            ParserResult::Failed(e) => ParserResult::Failed(e),
        }
    }

    /// AssignmentValue := Assignment | Number | String
    fn parse_assignment_value(&mut self, tokens: &Vec<Token>) -> (r: ParserResult<
        CstNode,
        ParserError,
    >)
        requires
            old(self).index <= tokens@.len(),
        ensures
            final(self).index <= tokens@.len(),
            final(self).index >= old(self).index,
            ({
                let step = grammar::assignment_value(
                    tokens.deep_view(),
                    old(self).index as int,
                    old(self).line as nat,
                );
                &&& final(self).index as int == step.index
                &&& final(self).line as nat == step.line
                &&& obeys(r, step)
            }),
            r is Matched ==> final(self).index > old(self).index,
            r is NotPresent ==> *final(self) == *old(self),
        decreases tokens@.len() - self.index, 1int,
    {
        let ghost t = tokens.deep_view();
        let ghost i0 = self.index as int;
        let mut children: Vec<CstNode> = Vec::new();
        match self.parse_assignment(tokens) {
            ParserResult::Matched(node) => {
                let ghost node0 = node;
                children.push(node);
                proof {
                    assert(children.deep_view() =~= seq![node0@]);
                    assert(children.deep_view()[0] == node0@);
                }
                return ParserResult::Matched(
                    CstNode::nonterminal(CstNodeKind::AssignmentValue, children),
                );
            },
            ParserResult::Failed(e) => {
                return ParserResult::Failed(e);
            },
            ParserResult::NotPresent => {},
        }
        let term = if let Some(token) = self.pop_token_if_kind(tokens, TokenKind::Number) {
            CstNode::terminal(token)
        } else if let Some(token) = self.pop_token_if_kind(tokens, TokenKind::String) {
            CstNode::terminal(token)
        } else {
            return ParserResult::NotPresent;
        };
        let ghost term0 = term;
        children.push(term);
        proof {
            assert(children.deep_view() =~= seq![term0@]);
            assert(children.deep_view()[0] == term0@);
        }
        ParserResult::Matched(CstNode::nonterminal(CstNodeKind::AssignmentValue, children))
    }

    /// AssignmentValue*, collected in order.
    fn parse_assignment_values(&mut self, tokens: &Vec<Token>) -> (r: Result<
        Vec<CstNode>,
        ParserError,
    >)
        requires
            old(self).index <= tokens@.len(),
        ensures
            final(self).index <= tokens@.len(),
            final(self).index >= old(self).index,
            ({
                let step = grammar::assignment_values(
                    tokens.deep_view(),
                    old(self).index as int,
                    old(self).line as nat,
                );
                &&& final(self).index as int == step.index
                &&& final(self).line as nat == step.line
                &&& obeys_list(r, step)
            }),
        decreases tokens@.len() - self.index, 2int,
    {
        let ghost t = tokens.deep_view();
        let ghost i0 = self.index as int;
        let value_node = self.parse_assignment_value(tokens);
        match value_node {
            ParserResult::NotPresent => {
                let ch: Vec<CstNode> = Vec::new();
                proof {
                    assert(ch.deep_view() =~= Seq::<CstV>::empty());
                }
                Ok(ch)
            },
            ParserResult::Failed(e) => Err(e),
            ParserResult::Matched(node) => {
                let rest = self.parse_assignment_values(tokens);
                match rest {
                    Ok(mut ch_rest) => {
                        let ghost rest_seq = ch_rest@;
                        let ghost rest_dv = ch_rest.deep_view();
                        let ghost node0 = node;
                        let mut children: Vec<CstNode> = Vec::new();
                        children.push(node);
                        children.append(&mut ch_rest);
                        proof {
                            assert(children@ =~= seq![node0] + rest_seq);
                            lemma_cst_cons_view(children, node0, rest_seq, rest_dv);
                        }
                        Ok(children)
                    },
                    Err(e) => Err(e),
                }
            },
        }
    }

    /// ResDirective := '.res' LabelDefinition TypeDirective Assignment?
    fn parse_res_directive(&mut self, tokens: &Vec<Token>) -> (r: ParserResult<
        CstNode,
        ParserError,
    >)
        requires
            old(self).index <= tokens@.len(),
        ensures
            final(self).index <= tokens@.len(),
            final(self).index >= old(self).index,
            ({
                let step = grammar::res_directive(
                    tokens.deep_view(),
                    old(self).index as int,
                    old(self).line as nat,
                );
                &&& final(self).index as int == step.index
                &&& final(self).line as nat == step.line
                &&& obeys(r, step)
            }),
            r is Matched ==> final(self).index > old(self).index,
            r is NotPresent ==> *final(self) == *old(self),
    {
        let ghost t = tokens.deep_view();
        let ghost i0 = self.index as int;
        let mut children: Vec<CstNode> = Vec::new();
        let dir = match self.pop_token_if_lexeme(tokens, ".res") {
            Some(token) => CstNode::terminal(token),
            None => {
                return ParserResult::NotPresent;
            },
        };
        let ld = match self.parse_label_definition(tokens) {
            ParserResult::Matched(node) => node,
            ParserResult::NotPresent => {
                return ParserResult::Failed(
                    ParserError::new("Expected label definition after .res directive", self.line),
                );
            },
            ParserResult::Failed(e) => {
                return ParserResult::Failed(e);
            },
        };
        let td = match self.parse_type_directive(tokens) {
            ParserResult::Matched(node) => node,
            ParserResult::NotPresent => {
                return ParserResult::Failed(
                    ParserError::new("Expected type in .res directive.", self.line),
                );
            },
            ParserResult::Failed(e) => {
                return ParserResult::Failed(e);
            },
        };
        let ghost dir0 = dir;
        let ghost ld0 = ld;
        let ghost td0 = td;
        let ghost pre0 = children;
        children.push(dir);
        let ghost pre1 = children;
        children.push(ld);
        let ghost pre2 = children;
        children.push(td);
        proof {
            lemma_cst_push_view(pre0, pre1, dir0);
            lemma_cst_push_view(pre1, pre2, ld0);
            lemma_cst_push_view(pre2, children, td0);
        }
        match self.parse_assignment(tokens) {
            ParserResult::Matched(asg) => {
                let ghost asg0 = asg;
                let ghost pre3 = children;
                children.push(asg);
                proof {
                    lemma_cst_push_view(pre3, children, asg0);
                    assert(children.deep_view() =~= seq![dir0@, ld0@, td0@, asg0@]);
                }
                ParserResult::Matched(CstNode::nonterminal(CstNodeKind::ResDirective, children))
            },
            ParserResult::NotPresent => {
                proof {
                    assert(children.deep_view() =~= seq![dir0@, ld0@, td0@]);
                }
                ParserResult::Matched(CstNode::nonterminal(CstNodeKind::ResDirective, children))
            },
            ParserResult::Failed(e) => ParserResult::Failed(e),
        }
    }

    /// StartDirective := '.start' ':'
    fn parse_start_directive(&mut self, tokens: &Vec<Token>) -> (r: ParserResult<
        CstNode,
        ParserError,
    >)
        requires
            old(self).index <= tokens@.len(),
        ensures
            final(self).index <= tokens@.len(),
            final(self).index >= old(self).index,
            ({
                let step = grammar::start_directive(
                    tokens.deep_view(),
                    old(self).index as int,
                    old(self).line as nat,
                );
                &&& final(self).index as int == step.index
                &&& final(self).line as nat == step.line
                &&& obeys(r, step)
            }),
            r is Matched ==> final(self).index > old(self).index,
            r is NotPresent ==> *final(self) == *old(self),
    {
        let ghost t = tokens.deep_view();
        let ghost i0 = self.index as int;
        let mut children: Vec<CstNode> = Vec::new();
        let dir = match self.pop_token_if_lexeme(tokens, ".start") {
            Some(token) => CstNode::terminal(token),
            None => {
                return ParserResult::NotPresent;
            },
        };
        if let Some(token) = self.pop_token_if_lexeme(tokens, ":") {
            let colon = CstNode::terminal(token);
            let ghost dir0 = dir;
            let ghost colon0 = colon;
            let ghost pre0 = children;
            children.push(dir);
            let ghost pre1 = children;
            children.push(colon);
            proof {
                lemma_cst_push_view(pre0, pre1, dir0);
                lemma_cst_push_view(pre1, children, colon0);
                assert(children.deep_view() =~= seq![dir0@, colon0@]);
            }
            ParserResult::Matched(CstNode::nonterminal(CstNodeKind::StartDirective, children))
        } else {
            ParserResult::Failed(
                ParserError::new("Expected : after a .start directive.", self.line),
            )
        }
    }

    /// ImportDirective := '.import' LabelDefinition LabelExternal
    fn parse_import_directive(&mut self, tokens: &Vec<Token>) -> (r: ParserResult<
        CstNode,
        ParserError,
    >)
        requires
            old(self).index <= tokens@.len(),
        ensures
            final(self).index <= tokens@.len(),
            final(self).index >= old(self).index,
            ({
                let step = grammar::import_directive(
                    tokens.deep_view(),
                    old(self).index as int,
                    old(self).line as nat,
                );
                &&& final(self).index as int == step.index
                &&& final(self).line as nat == step.line
                &&& obeys(r, step)
            }),
            r is Matched ==> final(self).index > old(self).index,
            r is NotPresent ==> *final(self) == *old(self),
    {
        let ghost t = tokens.deep_view();
        let ghost i0 = self.index as int;
        let mut children: Vec<CstNode> = Vec::new();
        let dir = match self.pop_token_if_lexeme(tokens, ".import") {
            Some(token) => CstNode::terminal(token),
            None => {
                return ParserResult::NotPresent;
            },
        };
        let ld = match self.parse_label_definition(tokens) {
            ParserResult::Matched(node) => node,
            ParserResult::NotPresent => {
                return ParserResult::Failed(
                    ParserError::new(
                        "Expected label definition after .import directive",
                        self.line,
                    ),
                );
            },
            ParserResult::Failed(e) => {
                return ParserResult::Failed(e);
            },
        };
        let le = match self.parse_label_external(tokens) {
            ParserResult::Matched(node) => node,
            ParserResult::NotPresent => {
                return ParserResult::Failed(
                    ParserError::new("Expected external label in .import directive", self.line),
                );
            },
            ParserResult::Failed(e) => {
                return ParserResult::Failed(e);
            },
        };
        let ghost dir0 = dir;
        let ghost ld0 = ld;
        let ghost le0 = le;
        let ghost pre0 = children;
        children.push(dir);
        let ghost pre1 = children;
        children.push(ld);
        let ghost pre2 = children;
        children.push(le);
        proof {
            lemma_cst_push_view(pre0, pre1, dir0);
            lemma_cst_push_view(pre1, pre2, ld0);
            lemma_cst_push_view(pre2, children, le0);
            assert(children.deep_view() =~= seq![dir0@, ld0@, le0@]);
        }
        ParserResult::Matched(CstNode::nonterminal(CstNodeKind::ImportDirective, children))
    }

    /// ExportDirective := '.export' LabelAccess LabelExternal
    fn parse_export_directive(&mut self, tokens: &Vec<Token>) -> (r: ParserResult<
        CstNode,
        ParserError,
    >)
        requires
            old(self).index <= tokens@.len(),
        ensures
            final(self).index <= tokens@.len(),
            final(self).index >= old(self).index,
            ({
                let step = grammar::export_directive(
                    tokens.deep_view(),
                    old(self).index as int,
                    old(self).line as nat,
                );
                &&& final(self).index as int == step.index
                &&& final(self).line as nat == step.line
                &&& obeys(r, step)
            }),
            r is Matched ==> final(self).index > old(self).index,
            r is NotPresent ==> *final(self) == *old(self),
    {
        let ghost t = tokens.deep_view();
        let ghost i0 = self.index as int;
        let mut children: Vec<CstNode> = Vec::new();
        let dir = match self.pop_token_if_lexeme(tokens, ".export") {
            Some(token) => CstNode::terminal(token),
            None => {
                return ParserResult::NotPresent;
            },
        };
        let la = match self.parse_label_access(tokens) {
            ParserResult::Matched(node) => node,
            ParserResult::NotPresent => {
                return ParserResult::Failed(
                    ParserError::new("Expected label access after .export directive", self.line),
                );
            },
            ParserResult::Failed(e) => {
                return ParserResult::Failed(e);
            },
        };
        let le = match self.parse_label_external(tokens) {
            ParserResult::Matched(node) => node,
            ParserResult::NotPresent => {
                return ParserResult::Failed(
                    ParserError::new("Expected external label in .export directive", self.line),
                );
            },
            ParserResult::Failed(e) => {
                return ParserResult::Failed(e);
            },
        };
        let ghost dir0 = dir;
        let ghost la0 = la;
        let ghost le0 = le;
        let ghost pre0 = children;
        children.push(dir);
        let ghost pre1 = children;
        children.push(la);
        let ghost pre2 = children;
        children.push(le);
        proof {
            lemma_cst_push_view(pre0, pre1, dir0);
            lemma_cst_push_view(pre1, pre2, la0);
            lemma_cst_push_view(pre2, children, le0);
            assert(children.deep_view() =~= seq![dir0@, la0@, le0@]);
        }
        ParserResult::Matched(CstNode::nonterminal(CstNodeKind::ExportDirective, children))
    }

    /// LabelDirective := LabelDefinition ':'
    fn parse_label_directive(&mut self, tokens: &Vec<Token>) -> (r: ParserResult<
        CstNode,
        ParserError,
    >)
        requires
            old(self).index <= tokens@.len(),
        ensures
            final(self).index <= tokens@.len(),
            final(self).index >= old(self).index,
            ({
                let step = grammar::label_directive(
                    tokens.deep_view(),
                    old(self).index as int,
                    old(self).line as nat,
                );
                &&& final(self).index as int == step.index
                &&& final(self).line as nat == step.line
                &&& obeys(r, step)
            }),
            r is Matched ==> final(self).index > old(self).index,
            r is NotPresent ==> *final(self) == *old(self),
    {
        let ghost t = tokens.deep_view();
        let ghost i0 = self.index as int;
        let mut children: Vec<CstNode> = Vec::new();
        let ld = match self.parse_label_definition(tokens) {
            ParserResult::Matched(node) => node,
            ParserResult::NotPresent => {
                return ParserResult::NotPresent;
            },
            ParserResult::Failed(e) => {
                return ParserResult::Failed(e);
            },
        };
        if let Some(token) = self.pop_token_if_lexeme(tokens, ":") {
            let colon = CstNode::terminal(token);
            let ghost ld0 = ld;
            let ghost colon0 = colon;
            let ghost pre0 = children;
            children.push(ld);
            let ghost pre1 = children;
            children.push(colon);
            proof {
                lemma_cst_push_view(pre0, pre1, ld0);
                lemma_cst_push_view(pre1, children, colon0);
                assert(children.deep_view() =~= seq![ld0@, colon0@]);
            }
            ParserResult::Matched(CstNode::nonterminal(CstNodeKind::LabelDirective, children))
        } else {
            ParserResult::Failed(ParserError::new("Expected : after a label directive.", self.line))
        }
    }

    /// (':' ConditionCode)?
    fn parse_condition_code(&mut self, tokens: &Vec<Token>) -> (r: ParserResult<
        CstNode,
        ParserError,
    >)
        requires
            old(self).index <= tokens@.len(),
        ensures
            final(self).index <= tokens@.len(),
            final(self).index >= old(self).index,
            ({
                let step = grammar::condition_code(
                    tokens.deep_view(),
                    old(self).index as int,
                    old(self).line as nat,
                );
                &&& final(self).index as int == step.index
                &&& final(self).line as nat == step.line
                &&& obeys(r, step)
            }),
            r is Matched ==> final(self).index > old(self).index,
            r is NotPresent ==> *final(self) == *old(self),
    {
        let ghost t = tokens.deep_view();
        let ghost i0 = self.index as int;
        let mut children: Vec<CstNode> = Vec::new();
        let colon = match self.pop_token_if_lexeme(tokens, ":") {
            Some(token) => CstNode::terminal(token),
            None => {
                return ParserResult::NotPresent;
            },
        };
        if let Some(token) = self.pop_token_if_kind(tokens, TokenKind::ConditionCode) {
            let cc = CstNode::terminal(token);
            let ghost colon0 = colon;
            let ghost cc0 = cc;
            let ghost pre0 = children;
            children.push(colon);
            let ghost pre1 = children;
            children.push(cc);
            proof {
                lemma_cst_push_view(pre0, pre1, colon0);
                lemma_cst_push_view(pre1, children, cc0);
                assert(children.deep_view() =~= seq![colon0@, cc0@]);
            }
            ParserResult::Matched(CstNode::nonterminal(CstNodeKind::ConditionCode, children))
        } else {
            ParserResult::Failed(
                ParserError::new("Expected condition code after : in an instruction.", self.line),
            )
        }
    }

    /// InstructionArgument := Register | SystemRegister | Port | Number | String | LongRegister
    fn parse_instruction_argument(&mut self, tokens: &Vec<Token>) -> (r: ParserResult<
        CstNode,
        ParserError,
    >)
        requires
            old(self).index <= tokens@.len(),
        ensures
            final(self).index <= tokens@.len(),
            final(self).index >= old(self).index,
            ({
                let step = grammar::instruction_argument(
                    tokens.deep_view(),
                    old(self).index as int,
                    old(self).line as nat,
                );
                &&& final(self).index as int == step.index
                &&& final(self).line as nat == step.line
                &&& obeys(r, step)
            }),
            r is Matched ==> final(self).index > old(self).index,
            r is NotPresent ==> *final(self) == *old(self),
    {
        let ghost t = tokens.deep_view();
        let ghost i0 = self.index as int;
        let mut children: Vec<CstNode> = Vec::new();
        let term = if let Some(token) = self.pop_token_if_kind(tokens, TokenKind::Register) {
            CstNode::terminal(token)
        } else if let Some(token) = self.pop_token_if_kind(tokens, TokenKind::SystemRegister) {
            CstNode::terminal(token)
        } else if let Some(token) = self.pop_token_if_kind(tokens, TokenKind::Port) {
            CstNode::terminal(token)
        } else if let Some(token) = self.pop_token_if_kind(tokens, TokenKind::Number) {
            CstNode::terminal(token)
        } else if let Some(token) = self.pop_token_if_kind(tokens, TokenKind::String) {
            CstNode::terminal(token)
        } else if let Some(token) = self.pop_token_if_kind(tokens, TokenKind::LongRegister) {
            CstNode::terminal(token)
        } else {
            return ParserResult::NotPresent;
        };
        let ghost term0 = term;
        children.push(term);
        proof {
            assert(children.deep_view() =~= seq![term0@]);
            assert(children.deep_view()[0] == term0@);
        }
        ParserResult::Matched(CstNode::nonterminal(CstNodeKind::InstructionArgument, children))
    }

    /// InstructionArgument*, collected in order.
    fn parse_instruction_arguments(&mut self, tokens: &Vec<Token>) -> (r: Result<
        Vec<CstNode>,
        ParserError,
    >)
        requires
            old(self).index <= tokens@.len(),
        ensures
            final(self).index <= tokens@.len(),
            final(self).index >= old(self).index,
            ({
                let step = grammar::instruction_args_items(
                    tokens.deep_view(),
                    old(self).index as int,
                    old(self).line as nat,
                );
                &&& final(self).index as int == step.index
                &&& final(self).line as nat == step.line
                &&& obeys_list(r, step)
            }),
        decreases tokens@.len() - self.index,
    {
        let ghost t = tokens.deep_view();
        let ghost i0 = self.index as int;
        let arg = self.parse_instruction_argument(tokens);
        match arg {
            ParserResult::NotPresent => {
                let ch: Vec<CstNode> = Vec::new();
                proof {
                    assert(ch.deep_view() =~= Seq::<CstV>::empty());
                }
                Ok(ch)
            },
            ParserResult::Failed(e) => Err(e),
            ParserResult::Matched(node) => {
                let rest = self.parse_instruction_arguments(tokens);
                match rest {
                    Ok(mut ch_rest) => {
                        let ghost rest_seq = ch_rest@;
                        let ghost rest_dv = ch_rest.deep_view();
                        let ghost node0 = node;
                        let mut children: Vec<CstNode> = Vec::new();
                        children.push(node);
                        children.append(&mut ch_rest);
                        proof {
                            assert(children@ =~= seq![node0] + rest_seq);
                            lemma_cst_cons_view(children, node0, rest_seq, rest_dv);
                        }
                        Ok(children)
                    },
                    Err(e) => Err(e),
                }
            },
        }
    }

    /// Instruction := InstructionToken (':' ConditionCode)? InstructionArgument*
    fn parse_instruction(&mut self, tokens: &Vec<Token>) -> (r: ParserResult<CstNode, ParserError>)
        requires
            old(self).index <= tokens@.len(),
        ensures
            final(self).index <= tokens@.len(),
            final(self).index >= old(self).index,
            ({
                let step = grammar::instruction(
                    tokens.deep_view(),
                    old(self).index as int,
                    old(self).line as nat,
                );
                &&& final(self).index as int == step.index
                &&& final(self).line as nat == step.line
                &&& obeys(r, step)
            }),
            r is Matched ==> final(self).index > old(self).index,
            r is NotPresent ==> *final(self) == *old(self),
    {
        let ghost t = tokens.deep_view();
        let ghost i0 = self.index as int;
        let mut children: Vec<CstNode> = Vec::new();
        let mnemonic = match self.pop_token_if_kind(tokens, TokenKind::Instruction) {
            Some(token) => CstNode::terminal(token),
            None => {
                return ParserResult::NotPresent;
            },
        };
        let ghost mn0 = mnemonic;
        let ghost pre0 = children;
        children.push(mnemonic);
        proof {
            lemma_cst_push_view(pre0, children, mn0);
        }
        let mut had_cc = false;
        let ghost mut cc_view = mn0@;
        match self.parse_condition_code(tokens) {
            ParserResult::Matched(cc) => {
                had_cc = true;
                proof {
                    cc_view = cc@;
                }
                let ghost pre1 = children;
                let ghost cc0 = cc;
                children.push(cc);
                proof {
                    lemma_cst_push_view(pre1, children, cc0);
                }
            },
            ParserResult::NotPresent => {},
            ParserResult::Failed(e) => {
                return ParserResult::Failed(e);
            },
        }
        match self.parse_instruction_arguments(tokens) {
            Ok(items) => {
                let args = CstNode::nonterminal(CstNodeKind::InstructionArguments, items);
                let ghost args0 = args;
                let ghost pre2 = children;
                children.push(args);
                proof {
                    lemma_cst_push_view(pre2, children, args0);
                    if had_cc {
                        assert(children.deep_view() =~= seq![mn0@, cc_view, args0@]);
                    } else {
                        assert(children.deep_view() =~= seq![mn0@, args0@]);
                    }
                }
                ParserResult::Matched(CstNode::nonterminal(CstNodeKind::Instruction, children))
            },
            Err(e) => ParserResult::Failed(e),
        }
    }

    /// MacroArgument := LabelAccess | Register | Number | LongRegister
    fn parse_macro_argument(&mut self, tokens: &Vec<Token>) -> (r: ParserResult<
        CstNode,
        ParserError,
    >)
        requires
            old(self).index <= tokens@.len(),
        ensures
            final(self).index <= tokens@.len(),
            final(self).index >= old(self).index,
            ({
                let step = grammar::macro_argument(
                    tokens.deep_view(),
                    old(self).index as int,
                    old(self).line as nat,
                );
                &&& final(self).index as int == step.index
                &&& final(self).line as nat == step.line
                &&& obeys(r, step)
            }),
            r is Matched ==> final(self).index > old(self).index,
            r is NotPresent ==> *final(self) == *old(self),
    {
        let ghost t = tokens.deep_view();
        let ghost i0 = self.index as int;
        let mut children: Vec<CstNode> = Vec::new();
        match self.parse_label_access(tokens) {
            ParserResult::Matched(node) => {
                let ghost node0 = node;
                children.push(node);
                proof {
                    assert(children.deep_view() =~= seq![node0@]);
                    assert(children.deep_view()[0] == node0@);
                }
                return ParserResult::Matched(
                    CstNode::nonterminal(CstNodeKind::MacroArgument, children),
                );
            },
            ParserResult::Failed(e) => {
                return ParserResult::Failed(e);
            },
            ParserResult::NotPresent => {},
        }
        let term = if let Some(token) = self.pop_token_if_kind(tokens, TokenKind::Register) {
            CstNode::terminal(token)
        } else if let Some(token) = self.pop_token_if_kind(tokens, TokenKind::Number) {
            CstNode::terminal(token)
        } else if let Some(token) = self.pop_token_if_kind(tokens, TokenKind::LongRegister) {
            CstNode::terminal(token)
        } else {
            return ParserResult::NotPresent;
        };
        let ghost term0 = term;
        children.push(term);
        proof {
            assert(children.deep_view() =~= seq![term0@]);
            assert(children.deep_view()[0] == term0@);
        }
        ParserResult::Matched(CstNode::nonterminal(CstNodeKind::MacroArgument, children))
    }

    /// MacroArgument*, collected in order.
    fn parse_macro_arguments(&mut self, tokens: &Vec<Token>) -> (r: Result<
        Vec<CstNode>,
        ParserError,
    >)
        requires
            old(self).index <= tokens@.len(),
        ensures
            final(self).index <= tokens@.len(),
            final(self).index >= old(self).index,
            ({
                let step = grammar::macro_args_items(
                    tokens.deep_view(),
                    old(self).index as int,
                    old(self).line as nat,
                );
                &&& final(self).index as int == step.index
                &&& final(self).line as nat == step.line
                &&& obeys_list(r, step)
            }),
        decreases tokens@.len() - self.index,
    {
        let ghost t = tokens.deep_view();
        let ghost i0 = self.index as int;
        let arg = self.parse_macro_argument(tokens);
        match arg {
            ParserResult::NotPresent => {
                let ch: Vec<CstNode> = Vec::new();
                proof {
                    assert(ch.deep_view() =~= Seq::<CstV>::empty());
                }
                Ok(ch)
            },
            ParserResult::Failed(e) => Err(e),
            ParserResult::Matched(node) => {
                let rest = self.parse_macro_arguments(tokens);
                match rest {
                    Ok(mut ch_rest) => {
                        let ghost rest_seq = ch_rest@;
                        let ghost rest_dv = ch_rest.deep_view();
                        let ghost node0 = node;
                        let mut children: Vec<CstNode> = Vec::new();
                        children.push(node);
                        children.append(&mut ch_rest);
                        proof {
                            assert(children@ =~= seq![node0] + rest_seq);
                            lemma_cst_cons_view(children, node0, rest_seq, rest_dv);
                        }
                        Ok(children)
                    },
                    Err(e) => Err(e),
                }
            },
        }
    }

    /// Macro := MacroToken (':' ConditionCode)? MacroArgument*
    fn parse_macro(&mut self, tokens: &Vec<Token>) -> (r: ParserResult<CstNode, ParserError>)
        requires
            old(self).index <= tokens@.len(),
        ensures
            final(self).index <= tokens@.len(),
            final(self).index >= old(self).index,
            ({
                let step = grammar::macro_call(
                    tokens.deep_view(),
                    old(self).index as int,
                    old(self).line as nat,
                );
                &&& final(self).index as int == step.index
                &&& final(self).line as nat == step.line
                &&& obeys(r, step)
            }),
            r is Matched ==> final(self).index > old(self).index,
            r is NotPresent ==> *final(self) == *old(self),
    {
        let ghost t = tokens.deep_view();
        let ghost i0 = self.index as int;
        let mut children: Vec<CstNode> = Vec::new();
        let mnemonic = match self.pop_token_if_kind(tokens, TokenKind::Macro) {
            Some(token) => CstNode::terminal(token),
            None => {
                return ParserResult::NotPresent;
            },
        };
        let ghost mn0 = mnemonic;
        let ghost pre0 = children;
        children.push(mnemonic);
        proof {
            lemma_cst_push_view(pre0, children, mn0);
        }
        let mut had_cc = false;
        let ghost mut cc_view = mn0@;
        match self.parse_condition_code(tokens) {
            ParserResult::Matched(cc) => {
                had_cc = true;
                proof {
                    cc_view = cc@;
                }
                let ghost pre1 = children;
                let ghost cc0 = cc;
                children.push(cc);
                proof {
                    lemma_cst_push_view(pre1, children, cc0);
                }
            },
            ParserResult::NotPresent => {},
            ParserResult::Failed(e) => {
                return ParserResult::Failed(e);
            },
        }
        match self.parse_macro_arguments(tokens) {
            Ok(items) => {
                let args = CstNode::nonterminal(CstNodeKind::MacroArguments, items);
                let ghost args0 = args;
                let ghost pre2 = children;
                children.push(args);
                proof {
                    lemma_cst_push_view(pre2, children, args0);
                    if had_cc {
                        assert(children.deep_view() =~= seq![mn0@, cc_view, args0@]);
                    } else {
                        assert(children.deep_view() =~= seq![mn0@, args0@]);
                    }
                }
                ParserResult::Matched(CstNode::nonterminal(CstNodeKind::Macro, children))
            },
            Err(e) => ParserResult::Failed(e),
        }
    }

    /// Statement := '\n'* body ('\n' | Eof)
    #[verifier::loop_isolation(false)]
    fn parse_statement(&mut self, tokens: &Vec<Token>) -> (r: ParserResult<CstNode, ParserError>)
        requires
            old(self).index <= tokens@.len(),
        ensures
            final(self).index <= tokens@.len(),
            final(self).index >= old(self).index,
            ({
                let step = grammar::statement(
                    tokens.deep_view(),
                    old(self).index as int,
                    old(self).line as nat,
                );
                &&& final(self).index as int == step.index
                &&& final(self).line as nat == step.line
                &&& obeys(r, step)
            }),
            r is Matched ==> final(self).index > old(self).index,
    {
        let ghost t = tokens.deep_view();
        let ghost i0 = self.index as int;
        let ghost l0 = self.line as nat;
        proof {
            grammar::lemma_lex_run_end(t, i0, "\n"@);
        }
        let tokens_c = tokens.len();
        while self.index < tokens_c && str_eq(tokens[self.index].lexeme.as_str(), "\n")
            invariant
                i0 <= self.index <= t.len(),
                grammar::lex_run_end(t, i0, "\n"@) == grammar::lex_run_end(
                    t,
                    self.index as int,
                    "\n"@,
                ),
                self.line as nat == grammar::run_line(t, i0, self.index as int, l0),
            decreases t.len() - self.index,
        {
            proof {
                lemma_tokens_dv(tokens, self.index as int);
            }
            self.line = tokens[self.index].line;
            self.index += 1;
        }
        proof {
            assert(self.index as int == grammar::lex_run_end(t, i0, "\n"@));
        }
        let mut body = self.parse_res_directive(tokens);
        if matches!(body, ParserResult::NotPresent) {
            body = self.parse_start_directive(tokens);
        }
        if matches!(body, ParserResult::NotPresent) {
            body = self.parse_import_directive(tokens);
        }
        if matches!(body, ParserResult::NotPresent) {
            body = self.parse_export_directive(tokens);
        }
        if matches!(body, ParserResult::NotPresent) {
            body = self.parse_label_directive(tokens);
        }
        if matches!(body, ParserResult::NotPresent) {
            body = self.parse_instruction(tokens);
        }
        if matches!(body, ParserResult::NotPresent) {
            body = self.parse_macro(tokens);
        }
        match body {
            ParserResult::NotPresent => ParserResult::NotPresent,
            ParserResult::Failed(e) => ParserResult::Failed(e),
            ParserResult::Matched(node) => {
                let desc = node.kind_desc();
                let ghost child = node@;
                let ghost node0 = node;
                let mut children: Vec<CstNode> = Vec::new();
                children.push(node);
                proof {
                    assert(children.deep_view() =~= seq![child]);
                    assert(children.deep_view()[0] == child);
                }
                if self.pop_token_if_lexeme(tokens, "\n").is_some() {
                    return ParserResult::Matched(
                        CstNode::nonterminal(CstNodeKind::Statement, children),
                    );
                }
                if self.index < tokens_c {
                    proof {
                        lemma_tokens_dv(tokens, self.index as int);
                    }
                    let tk = &tokens[self.index];
                    if tk.kind != TokenKind::Eof {
                        let mut msg = "Expected a new line after a statement, not ".to_owned();
                        let name = kind_name(tk.kind);
                        msg.append(name.as_str());
                        msg.append(" \"");
                        msg.append(tk.lexeme.as_str());
                        msg.append("\"; ");
                        msg.append(desc.as_str());
                        msg.append(" unterminated.");
                        proof {
                            assert(msg@ =~= grammar::statement_error_msg(
                                t[self.index as int],
                                child.kind,
                            ));
                        }
                        return ParserResult::Failed(ParserError::new(msg.as_str(), self.line));
                    }
                }
                ParserResult::Matched(CstNode::nonterminal(CstNodeKind::Statement, children))
            },
        }
    }

    /// Statement*, collected in order.
    fn parse_statements_items(&mut self, tokens: &Vec<Token>) -> (r: Result<
        Vec<CstNode>,
        ParserError,
    >)
        requires
            old(self).index <= tokens@.len(),
        ensures
            final(self).index <= tokens@.len(),
            final(self).index >= old(self).index,
            ({
                let step = grammar::statements_items(
                    tokens.deep_view(),
                    old(self).index as int,
                    old(self).line as nat,
                );
                &&& final(self).index as int == step.index
                &&& final(self).line as nat == step.line
                &&& obeys_list(r, step)
            }),
        decreases tokens@.len() - self.index,
    {
        let ghost t = tokens.deep_view();
        let ghost i0 = self.index as int;
        let statement_node = self.parse_statement(tokens);
        match statement_node {
            ParserResult::NotPresent => {
                let ch: Vec<CstNode> = Vec::new();
                proof {
                    assert(ch.deep_view() =~= Seq::<CstV>::empty());
                }
                Ok(ch)
            },
            ParserResult::Failed(e) => Err(e),
            ParserResult::Matched(node) => {
                let rest = self.parse_statements_items(tokens);
                match rest {
                    Ok(mut ch_rest) => {
                        let ghost rest_seq = ch_rest@;
                        let ghost rest_dv = ch_rest.deep_view();
                        let ghost node0 = node;
                        let mut children: Vec<CstNode> = Vec::new();
                        children.push(node);
                        children.append(&mut ch_rest);
                        proof {
                            assert(children@ =~= seq![node0] + rest_seq);
                            lemma_cst_cons_view(children, node0, rest_seq, rest_dv);
                        }
                        Ok(children)
                    },
                    Err(e) => Err(e),
                }
            },
        }
    }

    /// Statements := Statement*
    fn parse_statements(&mut self, tokens: &Vec<Token>) -> (r: ParserResult<CstNode, ParserError>)
        requires
            old(self).index <= tokens@.len(),
        ensures
            final(self).index <= tokens@.len(),
            final(self).index >= old(self).index,
            ({
                let step = grammar::statements_items(
                    tokens.deep_view(),
                    old(self).index as int,
                    old(self).line as nat,
                );
                &&& final(self).index as int == step.index
                &&& final(self).line as nat == step.line
                &&& match (r, step.result) {
                    (ParserResult::Matched(node), PListResultV::Matched(ch)) => node@ == (CstV {
                        kind: CstNodeKind::Statements,
                        children: ch,
                        terminal: None,
                    }),
                    (ParserResult::Failed(e), PListResultV::Failed(ev)) => e@ == ev,
                    _ => false,
                }
            }),
    {
        match self.parse_statements_items(tokens) {
            Ok(children) => ParserResult::Matched(
                CstNode::nonterminal(CstNodeKind::Statements, children),
            ),
            Err(e) => ParserResult::Failed(e),
        }
    }

    /// File := Statements Eof
    fn parse_file(&mut self, tokens: &Vec<Token>) -> (r: ParserResult<CstNode, ParserError>)
        requires
            old(self).index <= tokens@.len(),
        ensures
            final(self).index <= tokens@.len(),
            ({
                let step = grammar::file(
                    tokens.deep_view(),
                    old(self).index as int,
                    old(self).line as nat,
                );
                &&& obeys(r, step)
            }),
    {
        let ghost t = tokens.deep_view();
        let ghost i0 = self.index as int;
        let mut children: Vec<CstNode> = Vec::new();
        let statements_node = match self.parse_statements(tokens) {
            ParserResult::Matched(node) => node,
            ParserResult::Failed(e) => {
                return ParserResult::Failed(e);
            },
            ParserResult::NotPresent => {
                proof {
                    assert(false);
                }
                return ParserResult::NotPresent;
            },
        };
        let ghost sn0 = statements_node;
        children.push(statements_node);
        proof {
            assert(children.deep_view() =~= seq![sn0@]);
            assert(children.deep_view()[0] == sn0@);
        }
        if self.pop_token_if_kind(tokens, TokenKind::Eof).is_some() {
            ParserResult::Matched(CstNode::nonterminal(CstNodeKind::File, children))
        } else {
            ParserResult::Failed(ParserError::new("Expected end of file", self.line))
        }
    }
}

proof fn lemma_cst_cons_view(joined: Vec<CstNode>, n: CstNode, rest: Seq<CstNode>, rest_dv: Seq<CstV>)
    requires
        joined@ == seq![n] + rest,
        rest_dv.len() == rest.len(),
        forall|k: int| 0 <= k < rest.len() ==> rest_dv[k] == #[trigger] rest[k].deep_view(),
    ensures
        joined.deep_view() == seq![n@] + rest_dv,
{
    let lhs = joined.deep_view();
    let rhs = seq![n@] + rest_dv;
    assert forall|k: int| 0 <= k < lhs.len() implies lhs[k] == rhs[k] by {
        assert(lhs[k] == joined@[k].deep_view());
        if k == 0 {
            assert(joined@[k] == n);
        } else {
            assert(joined@[k] == rest[k - 1]);
        }
    }
    assert(lhs =~= rhs);
}

} // verus!
