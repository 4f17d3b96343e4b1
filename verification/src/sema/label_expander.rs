//! The label scope resolver: a single forward pass over the statement list
//! that computes each label's fully-qualified name from the stack of open
//! scopes, and grows or shrinks that stack at every colon-terminated label
//! statement. The first auto-scope prefix that is deeper than the open
//! nesting aborts the pass; the file is then left untouched.

use crate::sema::ast::assignment::{Assignment, AssignmentValue, AssignmentValueV};
use crate::sema::ast::data_type::DataType;
use crate::sema::ast::export_directive::ExportDirective;
use crate::sema::ast::file::{File, FileV};
use crate::sema::ast::import_directive::ImportDirective;
use crate::sema::ast::instruction::Instruction;
use crate::sema::ast::instruction_arg::InstructionArg;
use crate::sema::ast::label_directive::LabelDirective;
use crate::sema::ast::macro_arg::MacroArg;
use crate::sema::ast::macro_call::Macro;
use crate::sema::ast::res_directive::ResDirective;
use crate::sema::ast::statement::Statement;
use crate::sema::ast::labels::{LabelAccess, LabelDefinition, LabelExternal};
use crate::sema::sema_error::SemaError;
use crate::sema::ast::labels::{LabelAccessV, LabelDefinitionV, LabelExternalV};
use crate::sema::ast::macro_call::MacroV;
use crate::sema::ast::macro_arg::MacroArgV;
use crate::sema::ast::statement::StatementV;
use crate::sema::sema_error::SemaErrorV;
use vstd::prelude::*;

verus! {

broadcast use vstd::std_specs::vec::axiom_vec_decreases_to_view, vstd::seq::axiom_seq_index_decreases;

// ---------------------------------------------------------------------------
// The model of name resolution
// ---------------------------------------------------------------------------
/// The scope names joined in order, each followed by the scope separator.
pub open spec fn join_scopes(parts: Seq<Seq<char>>) -> Seq<char>
    decreases parts.len(),
{
    if parts.len() == 0 {
        Seq::empty()
    } else {
        parts[0] + ">"@ + join_scopes(parts.drop_first())
    }
}

/// The fully-qualified name of a label: the innermost `prefix_count` open
/// scopes, then the explicit scope qualifiers, then the bare name.
pub open spec fn resolved_name(
    stack: Seq<Seq<char>>,
    prefix_count: nat,
    scopes: Seq<Seq<char>>,
    label: Seq<char>,
) -> Seq<char> {
    join_scopes(stack.subrange(0, prefix_count as int)) + join_scopes(scopes) + label
}

/// The error raised by an auto-scope prefix deeper than the open nesting.
pub open spec fn too_deep(line: nat) -> SemaErrorV {
    SemaErrorV { desc: "Auto nesting too deep."@, line }
}

pub open spec fn resolve_definition(stack: Seq<Seq<char>>, d: LabelDefinitionV) -> LabelDefinitionV {
    LabelDefinitionV {
        prefix_count: d.prefix_count,
        label: d.label,
        resolved: Some(resolved_name(stack, d.prefix_count, Seq::empty(), d.label)),
    }
}

pub open spec fn resolve_access(stack: Seq<Seq<char>>, a: LabelAccessV) -> LabelAccessV {
    LabelAccessV {
        prefix_count: a.prefix_count,
        scopes: a.scopes,
        label: a.label,
        resolved: Some(resolved_name(stack, a.prefix_count, a.scopes, a.label)),
    }
}

pub open spec fn resolve_external(e: LabelExternalV) -> LabelExternalV {
    LabelExternalV {
        scopes: e.scopes,
        label: e.label,
        resolved: Some(join_scopes(e.scopes) + e.label),
    }
}

pub open spec fn resolve_macro_arg(stack: Seq<Seq<char>>, arg: MacroArgV) -> MacroArgV {
    match arg {
        MacroArgV::Label(la) => MacroArgV::Label(resolve_access(stack, la)),
        _ => arg,
    }
}

pub open spec fn macro_arg_bad(stack: Seq<Seq<char>>, arg: MacroArgV) -> bool {
    match arg {
        MacroArgV::Label(la) => la.prefix_count > stack.len(),
        _ => false,
    }
}

/// A statement whose auto-scope prefix is deeper than the open nesting.
pub open spec fn stmt_bad(stmt: StatementV, stack: Seq<Seq<char>>) -> bool {
    match stmt {
        StatementV::ImportDirective(d) => d.label_intern.prefix_count > stack.len(),
        StatementV::ExportDirective(d) => d.label_intern.prefix_count > stack.len(),
        StatementV::ResDirective(d) => d.label.prefix_count > stack.len(),
        StatementV::LabelDirective(d) => d.label.prefix_count > stack.len(),
        StatementV::Instruction(_) => false,
        StatementV::Macro(m) => exists|k: int|
            0 <= k < m.args.len() && macro_arg_bad(stack, #[trigger] m.args[k]),
    }
}

/// The source line carried by a statement, for error reporting.
pub open spec fn stmt_line(stmt: StatementV) -> nat {
    match stmt {
        StatementV::ImportDirective(d) => d.line,
        StatementV::ExportDirective(d) => d.line,
        StatementV::ResDirective(d) => d.line,
        StatementV::LabelDirective(d) => d.line,
        StatementV::Instruction(_) => 0,
        StatementV::Macro(m) => m.line,
    }
}

/// The scope stack after a label directive: popped back to depth
/// `prefix_count`, then the label's own name pushed.
pub open spec fn label_directive_stack(
    stack: Seq<Seq<char>>,
    prefix_count: nat,
    label: Seq<char>,
) -> Seq<Seq<char>> {
    stack.subrange(0, prefix_count as int).push(label)
}

/// The scope stack after one statement: only a label directive changes it.
pub open spec fn step_stack(stmt: StatementV, stack: Seq<Seq<char>>) -> Seq<Seq<char>> {
    match stmt {
        StatementV::LabelDirective(d) => if d.label.prefix_count <= stack.len() {
            label_directive_stack(stack, d.label.prefix_count, d.label.label)
        } else {
            stack
        },
        _ => stack,
    }
}

/// The statement with every label-bearing part resolved against the stack.
pub open spec fn resolve_statement(stmt: StatementV, stack: Seq<Seq<char>>) -> StatementV {
    match stmt {
        StatementV::ImportDirective(d) => StatementV::ImportDirective(
            crate::sema::ast::import_directive::ImportDirectiveV {
                label_intern: resolve_definition(stack, d.label_intern),
                label_extern: resolve_external(d.label_extern),
                line: d.line,
            },
        ),
        StatementV::ExportDirective(d) => StatementV::ExportDirective(
            crate::sema::ast::export_directive::ExportDirectiveV {
                label_intern: resolve_access(stack, d.label_intern),
                label_extern: resolve_external(d.label_extern),
                line: d.line,
            },
        ),
        StatementV::ResDirective(d) => StatementV::ResDirective(
            crate::sema::ast::res_directive::ResDirectiveV {
                label: resolve_definition(stack, d.label),
                data_type: d.data_type,
                assignment: d.assignment,
                line: d.line,
            },
        ),
        StatementV::LabelDirective(d) => StatementV::LabelDirective(
            crate::sema::ast::label_directive::LabelDirectiveV {
                label: resolve_definition(stack, d.label),
                line: d.line,
            },
        ),
        StatementV::Instruction(i) => StatementV::Instruction(i),
        StatementV::Macro(m) => StatementV::Macro(
            MacroV {
                mnemonic: m.mnemonic,
                condition: m.condition,
                args: Seq::new(
                    m.args.len(),
                    |k: int|
                        if 0 <= k < m.args.len() {
                            resolve_macro_arg(stack, m.args[k])
                        } else {
                            arbitrary()
                        },
                ),
                line: m.line,
            },
        ),
    }
}

/// One resolver step: the resolved statement (or the error) and the scope
/// stack afterwards (unchanged on error).
pub open spec fn expand_statement(stmt: StatementV, stack: Seq<Seq<char>>) -> (
    Result<StatementV, SemaErrorV>,
    Seq<Seq<char>>,
) {
    if stmt_bad(stmt, stack) {
        (Err(too_deep(stmt_line(stmt))), stack)
    } else {
        (Ok(resolve_statement(stmt, stack)), step_stack(stmt, stack))
    }
}

/// The whole pass over a statement list, carrying the scope stack.
pub open spec fn expand_statements(stmts: Seq<StatementV>, stack: Seq<Seq<char>>) -> Result<
    Seq<StatementV>,
    SemaErrorV,
>
    decreases stmts.len(),
{
    if stmts.len() == 0 {
        Ok(Seq::empty())
    } else {
        let step = expand_statement(stmts[0], stack);
        match step.0 {
            Err(e) => Err(e),
            Ok(s2) => match expand_statements(stmts.drop_first(), step.1) {
                Ok(rest) => Ok(seq![s2] + rest),
                Err(e) => Err(e),
            },
        }
    }
}

/// The whole-file contract: the pass starts with an empty scope stack.
pub open spec fn spec_expand_labels(f: FileV) -> Result<FileV, SemaErrorV> {
    match expand_statements(f.statements, Seq::empty()) {
        Ok(ss) => Ok(FileV { statements: ss }),
        Err(e) => Err(e),
    }
}

// ---------------------------------------------------------------------------
// Laws of the resolver
// ---------------------------------------------------------------------------
/// Law: after processing a label directive with `prefix_count = p` (within
/// the open depth), the scope stack has exactly `p + 1` entries, the last
/// being that label's bare identifier and the first `p` unchanged.
pub proof fn lemma_scope_stack_monotonic(stack: Seq<Seq<char>>, p: nat, label: Seq<char>)
    requires
        p <= stack.len(),
    ensures
        label_directive_stack(stack, p, label).len() == p + 1,
        label_directive_stack(stack, p, label).last() == label,
        forall|j: int| 0 <= j < p ==> label_directive_stack(stack, p, label)[j] == stack[j],
{
}

/// The scope stack in force before statement `k`, starting from `stack`:
/// the accumulated effect of the label directives before it.
pub open spec fn stack_from(stmts: Seq<StatementV>, stack: Seq<Seq<char>>, k: int) -> Seq<Seq<char>>
    decreases k,
{
    if k <= 0 {
        stack
    } else {
        step_stack(stmts[k - 1], stack_from(stmts, stack, k - 1))
    }
}

proof fn lemma_stack_from_drop(stmts: Seq<StatementV>, stack: Seq<Seq<char>>, j: int)
    requires
        stmts.len() >= 1,
        0 <= j,
        j + 1 <= stmts.len(),
    ensures
        stack_from(stmts.drop_first(), step_stack(stmts[0], stack), j) == stack_from(
            stmts,
            stack,
            j + 1,
        ),
    decreases j,
{
    if j == 0 {
        assert(stack_from(stmts.drop_first(), step_stack(stmts[0], stack), 0) == step_stack(
            stmts[0],
            stack,
        ));
        assert(stack_from(stmts, stack, 1) == step_stack(stmts[0], stack_from(stmts, stack, 0)));
    } else {
        lemma_stack_from_drop(stmts, stack, j - 1);
        assert(stmts.drop_first()[j - 1] == stmts[j]);
        assert(stack_from(stmts, stack, j + 1) == step_stack(
            stmts[j],
            stack_from(stmts, stack, j),
        ));
        assert(stack_from(stmts.drop_first(), step_stack(stmts[0], stack), j) == step_stack(
            stmts.drop_first()[j - 1],
            stack_from(stmts.drop_first(), step_stack(stmts[0], stack), j - 1),
        ));
    }
}

proof fn lemma_expand_statements_err(stmts: Seq<StatementV>, stack: Seq<Seq<char>>, k: int)
    requires
        0 <= k < stmts.len(),
        forall|j: int| 0 <= j < k ==> !stmt_bad(stmts[j], stack_from(stmts, stack, j)),
        stmt_bad(stmts[k], stack_from(stmts, stack, k)),
    ensures
        expand_statements(stmts, stack) == Err::<Seq<StatementV>, SemaErrorV>(
            too_deep(stmt_line(stmts[k])),
        ),
    decreases k,
{
    if k == 0 {
    } else {
        assert(!stmt_bad(stmts[0], stack));
        let stack2 = step_stack(stmts[0], stack);
        assert forall|j: int| 0 <= j < k - 1 implies !stmt_bad(
            stmts.drop_first()[j],
            stack_from(stmts.drop_first(), stack2, j),
        ) by {
            lemma_stack_from_drop(stmts, stack, j);
            assert(stmts.drop_first()[j] == stmts[j + 1]);
        }
        lemma_stack_from_drop(stmts, stack, k - 1);
        assert(stmts.drop_first()[k - 1] == stmts[k]);
        lemma_expand_statements_err(stmts.drop_first(), stack2, k - 1);
    }
}

proof fn lemma_expand_statements_ok(stmts: Seq<StatementV>, stack: Seq<Seq<char>>)
    requires
        forall|j: int| 0 <= j < stmts.len() ==> !stmt_bad(stmts[j], stack_from(stmts, stack, j)),
    ensures
        expand_statements(stmts, stack) is Ok,
    decreases stmts.len(),
{
    if stmts.len() > 0 {
        assert(!stmt_bad(stmts[0], stack));
        let stack2 = step_stack(stmts[0], stack);
        assert forall|j: int| 0 <= j < stmts.len() - 1 implies !stmt_bad(
            stmts.drop_first()[j],
            stack_from(stmts.drop_first(), stack2, j),
        ) by {
            lemma_stack_from_drop(stmts, stack, j);
            assert(stmts.drop_first()[j] == stmts[j + 1]);
        }
        lemma_expand_statements_ok(stmts.drop_first(), stack2);
    }
}

/// Law: when some statement's auto-scope prefix exceeds the open-scope
/// depth at its point (and it is the first such statement), resolution
/// fails with the nesting error at exactly that statement's line.
pub proof fn lemma_prefix_overflow_rejected(f: FileV, k: int)
    requires
        0 <= k < f.statements.len(),
        forall|j: int|
            0 <= j < k ==> !stmt_bad(f.statements[j], stack_from(f.statements, Seq::empty(), j)),
        stmt_bad(f.statements[k], stack_from(f.statements, Seq::empty(), k)),
    ensures
        spec_expand_labels(f) == Err::<FileV, SemaErrorV>(too_deep(stmt_line(f.statements[k]))),
{
    lemma_expand_statements_err(f.statements, Seq::empty(), k);
}

/// Law: when no statement's auto-scope prefix exceeds the open-scope depth
/// at its point, resolution succeeds.
pub proof fn lemma_no_overflow_accepted(f: FileV)
    requires
        forall|j: int|
            0 <= j < f.statements.len() ==> !stmt_bad(
                f.statements[j],
                stack_from(f.statements, Seq::empty(), j),
            ),
    ensures
        spec_expand_labels(f) is Ok,
{
    lemma_expand_statements_ok(f.statements, Seq::empty());
}

// ---------------------------------------------------------------------------
// The executable resolver
// ---------------------------------------------------------------------------
proof fn lemma_join_scopes_push(parts: Seq<Seq<char>>, x: Seq<char>)
    ensures
        join_scopes(parts.push(x)) == join_scopes(parts) + x + ">"@,
    decreases parts.len(),
{
    if parts.len() == 0 {
        assert(parts.push(x).drop_first() =~= Seq::<Seq<char>>::empty());
        assert(parts.push(x)[0] == x);
        assert(join_scopes(parts.push(x)) == x + ">"@ + join_scopes(Seq::<Seq<char>>::empty()));
        assert(join_scopes(Seq::<Seq<char>>::empty()) =~= Seq::<char>::empty());
        assert(x + ">"@ + Seq::<char>::empty() =~= Seq::<char>::empty() + x + ">"@);
        assert(join_scopes(parts) =~= Seq::<char>::empty());
        assert(join_scopes(parts.push(x)) =~= join_scopes(parts) + x + ">"@);
    } else {
        lemma_join_scopes_push(parts.drop_first(), x);
        assert(parts.push(x).drop_first() =~= parts.drop_first().push(x));
        assert(parts.push(x)[0] == parts[0]);
        assert(join_scopes(parts.push(x)) == parts[0] + ">"@ + join_scopes(
            parts.drop_first().push(x),
        ));
        assert(join_scopes(parts.drop_first().push(x)) == join_scopes(parts.drop_first()) + x
            + ">"@);
        assert(parts[0] + ">"@ + (join_scopes(parts.drop_first()) + x + ">"@) =~= (parts[0] + ">"@
            + join_scopes(parts.drop_first())) + x + ">"@);
        assert(join_scopes(parts.push(x)) =~= join_scopes(parts) + x + ">"@);
    }
}

proof fn lemma_string_vec_dv(v: Vec<String>, i: int)
    requires
        0 <= i < v@.len(),
    ensures
        v.deep_view().len() == v@.len(),
        v.deep_view()[i] == v@[i]@,
{
}

/// Builds one fully-qualified name: the innermost `prefix_count` open
/// scopes, the explicit qualifiers, then the bare name, each scope part
/// followed by the separator.
#[verifier::loop_isolation(false)]
fn build_resolved(stack: &Vec<String>, prefix_count: u32, scopes: &Vec<String>, label: &String) -> (r:
    String)
    requires
        prefix_count as nat <= stack@.len(),
    ensures
        r@ == resolved_name(stack.deep_view(), prefix_count as nat, scopes.deep_view(), label@),
    decreases stack@.len(),
{
    let ghost sdv = stack.deep_view();
    let ghost scdv = scopes.deep_view();
    let mut s = String::new();
    let mut i: usize = 0;
    proof {
        assert(sdv.subrange(0, 0) =~= Seq::<Seq<char>>::empty());
    }
    while i < prefix_count as usize
        invariant
            i <= prefix_count,
            s@ == join_scopes(sdv.subrange(0, i as int)),
        decreases prefix_count - i,
    {
        proof {
            lemma_string_vec_dv(*stack, i as int);
        }
        s.append(stack[i].as_str());
        s.append(">");
        proof {
            assert(sdv.subrange(0, i + 1) =~= sdv.subrange(0, i as int).push(sdv[i as int]));
            lemma_join_scopes_push(sdv.subrange(0, i as int), sdv[i as int]);
            assert(s@ =~= join_scopes(sdv.subrange(0, i + 1)));
        }
        i += 1;
    }
    let ghost pre = join_scopes(sdv.subrange(0, prefix_count as int));
    let mut j: usize = 0;
    proof {
        assert(scdv.subrange(0, 0) =~= Seq::<Seq<char>>::empty());
        assert(s@ =~= pre + join_scopes(scdv.subrange(0, 0)));
    }
    while j < scopes.len()
        invariant
            j <= scopes@.len(),
            s@ == pre + join_scopes(scdv.subrange(0, j as int)),
        decreases scopes@.len() - j,
    {
        proof {
            lemma_string_vec_dv(*scopes, j as int);
        }
        s.append(scopes[j].as_str());
        s.append(">");
        proof {
            assert(scdv.subrange(0, j + 1) =~= scdv.subrange(0, j as int).push(scdv[j as int]));
            lemma_join_scopes_push(scdv.subrange(0, j as int), scdv[j as int]);
            assert(s@ =~= pre + join_scopes(scdv.subrange(0, j + 1)));
        }
        j += 1;
    }
    s.append(label.as_str());
    proof {
        assert(scdv.subrange(0, scdv.len() as int) =~= scdv);
        assert(s@ =~= resolved_name(sdv, prefix_count as nat, scdv, label@));
    }
    s
}

/// The name of an external label: its explicit qualifiers then the bare
/// name (no open scopes are consulted).
fn build_external_name(scopes: &Vec<String>, label: &String) -> (r: String)
    ensures
        r@ == join_scopes(scopes.deep_view()) + label@,
{
    let empty_stack: Vec<String> = Vec::new();
    let r = build_resolved(&empty_stack, 0, scopes, label);
    proof {
        assert(empty_stack.deep_view().subrange(0, 0) =~= Seq::<Seq<char>>::empty());
        assert(r@ =~= join_scopes(scopes.deep_view()) + label@);
    }
    r
}

#[verifier::loop_isolation(false)]
fn copy_strings(v: &Vec<String>) -> (r: Vec<String>)
    ensures
        r.deep_view() == v.deep_view(),
        r@.len() == v@.len(),
{
    let mut out: Vec<String> = Vec::new();
    let n = v.len();
    let mut i: usize = 0;
    while i < n
        invariant
            i <= n,
            out@.len() == i,
            forall|k: int| 0 <= k < i ==> #[trigger] out@[k]@ == v@[k]@,
        decreases n - i,
    {
        out.push(v[i].clone());
        i += 1;
    }
    proof {
        assert(out.deep_view() =~= v.deep_view());
    }
    out
}

#[verifier::loop_isolation(false)]
fn copy_chars(v: &Vec<char>) -> (r: Vec<char>)
    ensures
        r@ == v@,
{
    let mut out: Vec<char> = Vec::new();
    let n = v.len();
    let mut i: usize = 0;
    while i < n
        invariant
            i <= n,
            out@ =~= v@.subrange(0, i as int),
        decreases n - i,
    {
        out.push(v[i]);
        i += 1;
        proof {
            assert(out@ =~= v@.subrange(0, i as int));
        }
    }
    proof {
        assert(out@ =~= v@);
    }
    out
}

fn copy_option_string(v: &Option<String>) -> (r: Option<String>)
    ensures
        (match (v, r) {
            (Some(a), Some(b)) => a@ == b@,
            (None, None) => true,
            _ => false,
        }),
{
    match v {
        Some(s) => Some(s.clone()),
        None => None,
    }
}

fn copy_data_type(dt: &DataType) -> (r: DataType)
    ensures
        r@ == dt@,
    decreases dt,
{
    match dt {
        DataType::Byte => DataType::Byte,
        DataType::Bytes(n) => DataType::Bytes(*n),
        DataType::Arr(n, inner) => DataType::Arr(*n, Box::new(copy_data_type(inner))),
    }
}

#[verifier::loop_isolation(false)]
fn copy_assignment(a: &Assignment) -> (r: Assignment)
    ensures
        r@ == a@,
    decreases crate::sema::ast::assignment::asg_view(*a),
{
    let mut values: Vec<AssignmentValue> = Vec::new();
    let n = a.values.len();
    let mut i: usize = 0;
    while i < n
        invariant
            i <= n,
            n == a.values@.len(),
            values@.len() == i,
            forall|k: int|
                0 <= k < i ==> crate::sema::ast::assignment::av_view(#[trigger] values@[k])
                    == crate::sema::ast::assignment::av_view(a.values@[k]),
        decreases n - i,
    {
        proof {
            let s0 = crate::sema::ast::assignment::av_seq_view(a.values@);
            assert(crate::sema::ast::assignment::asg_view(*a).values == s0);
            assert(s0[i as int] == crate::sema::ast::assignment::av_view(a.values@[i as int]));
            assert(decreases_to!(s0 => s0[i as int]));
            assert(decreases_to!(crate::sema::ast::assignment::asg_view(*a) => crate::sema::ast::assignment::asg_view(*a).values));
        }
        let v = copy_assignment_value(&a.values[i]);
        values.push(v);
        i += 1;
    }
    let r = Assignment { values, repetition: a.repetition };
    proof {
        assert(r@.values =~= a@.values);
    }
    r
}

fn copy_assignment_value(v: &AssignmentValue) -> (r: AssignmentValue)
    ensures
        crate::sema::ast::assignment::av_view(r) == crate::sema::ast::assignment::av_view(*v),
    decreases crate::sema::ast::assignment::av_view(*v),
{
    match v {
        AssignmentValue::Number(n) => AssignmentValue::Number(*n),
        AssignmentValue::String(s) => AssignmentValue::String(copy_chars(s)),
        AssignmentValue::Assignment(a) => {
            proof {
                assert(crate::sema::ast::assignment::av_view(*v)
                    == AssignmentValueV::Assignment(crate::sema::ast::assignment::asg_view(*a)));
                assert(decreases_to!(crate::sema::ast::assignment::av_view(*v) => crate::sema::ast::assignment::av_view(*v)->Assignment_0));
            }
            AssignmentValue::Assignment(copy_assignment(a))
        },
    }
}

fn copy_instruction_arg(arg: &InstructionArg) -> (r: InstructionArg)
    ensures
        r@ == arg@,
{
    match arg {
        InstructionArg::Register(s) => InstructionArg::Register(s.clone()),
        InstructionArg::SystemRegister(s) => InstructionArg::SystemRegister(s.clone()),
        InstructionArg::Port(s) => InstructionArg::Port(s.clone()),
        InstructionArg::Number(n) => InstructionArg::Number(*n),
        InstructionArg::String(s) => InstructionArg::String(copy_chars(s)),
        InstructionArg::LongRegister(s) => InstructionArg::LongRegister(s.clone()),
    }
}

#[verifier::loop_isolation(false)]
fn copy_instruction(ins: &Instruction) -> (r: Instruction)
    ensures
        r@ == ins@,
{
    let mut args: Vec<InstructionArg> = Vec::new();
    let n = ins.args.len();
    let mut i: usize = 0;
    while i < n
        invariant
            i <= n,
            n == ins.args@.len(),
            args@.len() == i,
            forall|k: int| 0 <= k < i ==> (#[trigger] args@[k])@ == ins.args@[k]@,
        decreases n - i,
    {
        let a = copy_instruction_arg(&ins.args[i]);
        args.push(a);
        i += 1;
    }
    let r = Instruction {
        mnemonic: ins.mnemonic.clone(),
        condition: copy_option_string(&ins.condition),
        args,
    };
    proof {
        assert(r@.args =~= ins@.args);
    }
    r
}

fn expand_import_directive(node: &ImportDirective, stack: &Vec<String>) -> (r: Result<
    ImportDirective,
    SemaError,
>)
    ensures
        (match r {
            Ok(d) => node@.label_intern.prefix_count <= stack.deep_view().len() && d@
                == (crate::sema::ast::import_directive::ImportDirectiveV {
                label_intern: resolve_definition(stack.deep_view(), node@.label_intern),
                label_extern: resolve_external(node@.label_extern),
                line: node@.line,
            }),
            Err(e) => node@.label_intern.prefix_count > stack.deep_view().len() && e@ == too_deep(
                node@.line,
            ),
        }),
{
    if node.label_intern.prefix_count as usize > stack.len() {
        return Err(SemaError::new("Auto nesting too deep.", node.line));
    }
    let empty_scopes: Vec<String> = Vec::new();
    let name = build_resolved(stack, node.label_intern.prefix_count, &empty_scopes, &node.label_intern.label);
    proof {
        assert(empty_scopes.deep_view() =~= Seq::<Seq<char>>::empty());
    }
    let ext_name = build_external_name(&node.label_extern.scopes, &node.label_extern.label);
    Ok(
        ImportDirective {
            label_intern: LabelDefinition {
                prefix_count: node.label_intern.prefix_count,
                label: node.label_intern.label.clone(),
                resolved: Some(name),
            },
            label_extern: LabelExternal {
                scopes: copy_strings(&node.label_extern.scopes),
                label: node.label_extern.label.clone(),
                resolved: Some(ext_name),
            },
            line: node.line,
        },
    )
}

fn expand_export_directive(node: &ExportDirective, stack: &Vec<String>) -> (r: Result<
    ExportDirective,
    SemaError,
>)
    ensures
        (match r {
            Ok(d) => node@.label_intern.prefix_count <= stack.deep_view().len() && d@
                == (crate::sema::ast::export_directive::ExportDirectiveV {
                label_intern: resolve_access(stack.deep_view(), node@.label_intern),
                label_extern: resolve_external(node@.label_extern),
                line: node@.line,
            }),
            Err(e) => node@.label_intern.prefix_count > stack.deep_view().len() && e@ == too_deep(
                node@.line,
            ),
        }),
{
    if node.label_intern.prefix_count as usize > stack.len() {
        return Err(SemaError::new("Auto nesting too deep.", node.line));
    }
    let name = build_resolved(
        stack,
        node.label_intern.prefix_count,
        &node.label_intern.scopes,
        &node.label_intern.label,
    );
    let ext_name = build_external_name(&node.label_extern.scopes, &node.label_extern.label);
    Ok(
        ExportDirective {
            label_intern: LabelAccess {
                prefix_count: node.label_intern.prefix_count,
                scopes: copy_strings(&node.label_intern.scopes),
                label: node.label_intern.label.clone(),
                resolved: Some(name),
            },
            label_extern: LabelExternal {
                scopes: copy_strings(&node.label_extern.scopes),
                label: node.label_extern.label.clone(),
                resolved: Some(ext_name),
            },
            line: node.line,
        },
    )
}

fn expand_res_directive(node: &ResDirective, stack: &Vec<String>) -> (r: Result<
    ResDirective,
    SemaError,
>)
    ensures
        (match r {
            Ok(d) => node@.label.prefix_count <= stack.deep_view().len() && d@
                == (crate::sema::ast::res_directive::ResDirectiveV {
                label: resolve_definition(stack.deep_view(), node@.label),
                data_type: node@.data_type,
                assignment: node@.assignment,
                line: node@.line,
            }),
            Err(e) => node@.label.prefix_count > stack.deep_view().len() && e@ == too_deep(
                node@.line,
            ),
        }),
{
    if node.label.prefix_count as usize > stack.len() {
        return Err(SemaError::new("Auto nesting too deep.", node.line));
    }
    let empty_scopes: Vec<String> = Vec::new();
    let name = build_resolved(stack, node.label.prefix_count, &empty_scopes, &node.label.label);
    proof {
        assert(empty_scopes.deep_view() =~= Seq::<Seq<char>>::empty());
    }
    let assignment = match &node.assignment {
        Some(a) => Some(copy_assignment(a)),
        None => None,
    };
    Ok(
        ResDirective {
            label: LabelDefinition {
                prefix_count: node.label.prefix_count,
                label: node.label.label.clone(),
                resolved: Some(name),
            },
            data_type: copy_data_type(&node.data_type),
            assignment,
            line: node.line,
        },
    )
}

fn expand_label_directive(node: &LabelDirective, stack: &mut Vec<String>) -> (r: Result<
    LabelDirective,
    SemaError,
>)
    ensures
        (match r {
            Ok(d) => node@.label.prefix_count <= old(stack).deep_view().len() && d@
                == (crate::sema::ast::label_directive::LabelDirectiveV {
                label: resolve_definition(old(stack).deep_view(), node@.label),
                line: node@.line,
            }) && final(stack).deep_view() == label_directive_stack(
                old(stack).deep_view(),
                node@.label.prefix_count,
                node@.label.label,
            ),
            Err(e) => node@.label.prefix_count > old(stack).deep_view().len() && e@ == too_deep(
                node@.line,
            ) && *final(stack) == *old(stack),
        }),
{
    let ghost sdv = stack.deep_view();
    if node.label.prefix_count as usize > stack.len() {
        return Err(SemaError::new("Auto nesting too deep.", node.line));
    }
    let empty_scopes: Vec<String> = Vec::new();
    let name = build_resolved(stack, node.label.prefix_count, &empty_scopes, &node.label.label);
    proof {
        assert(empty_scopes.deep_view() =~= Seq::<Seq<char>>::empty());
    }
    let target = node.label.prefix_count as usize;
    while stack.len() > target
        invariant
            target <= stack@.len() <= sdv.len(),
            stack.deep_view() == sdv.subrange(0, stack@.len() as int),
        decreases stack@.len(),
    {
        let ghost before = stack.deep_view();
        stack.pop();
        proof {
            assert(stack.deep_view() =~= before.drop_last());
            assert(before.drop_last() =~= sdv.subrange(0, stack@.len() as int));
        }
    }
    let ghost trimmed = stack.deep_view();
    let ghost pre_push = *stack;
    stack.push(node.label.label.clone());
    proof {
        assert(stack.deep_view() =~= trimmed.push(node@.label.label));
        assert(stack.deep_view() =~= label_directive_stack(
            sdv,
            node@.label.prefix_count,
            node@.label.label,
        ));
    }
    Ok(
        LabelDirective {
            label: LabelDefinition {
                prefix_count: node.label.prefix_count,
                label: node.label.label.clone(),
                resolved: Some(name),
            },
            line: node.line,
        },
    )
}

#[verifier::loop_isolation(false)]
fn expand_macro(node: &Macro, stack: &Vec<String>) -> (r: Result<Macro, SemaError>)
    ensures
        (match r {
            Ok(m) => (forall|k: int|
                0 <= k < node@.args.len() ==> !macro_arg_bad(
                    stack.deep_view(),
                    #[trigger] node@.args[k],
                )) && m@ == (MacroV {
                mnemonic: node@.mnemonic,
                condition: node@.condition,
                args: Seq::new(
                    node@.args.len(),
                    |k: int|
                        if 0 <= k < node@.args.len() {
                            resolve_macro_arg(stack.deep_view(), node@.args[k])
                        } else {
                            arbitrary()
                        },
                ),
                line: node@.line,
            }),
            Err(e) => (exists|k: int|
                0 <= k < node@.args.len() && macro_arg_bad(
                    stack.deep_view(),
                    #[trigger] node@.args[k],
                )) && e@ == too_deep(node@.line),
        }),
{
    let mut args: Vec<MacroArg> = Vec::new();
    let n = node.args.len();
    let mut i: usize = 0;
    while i < n
        invariant
            i <= n,
            n == node.args@.len(),
            args@.len() == i,
            forall|k: int|
                0 <= k < i ==> !macro_arg_bad(stack.deep_view(), #[trigger] node@.args[k]),
            forall|k: int|
                0 <= k < i ==> (#[trigger] args@[k])@ == resolve_macro_arg(
                    stack.deep_view(),
                    node@.args[k],
                ),
        decreases n - i,
    {
        match &node.args[i] {
            MacroArg::Label(label) => {
                if label.prefix_count as usize > stack.len() {
                    proof {
                        assert(stack.deep_view().len() == stack@.len());
                        assert(node@.args[i as int] == node.args@[i as int]@);
                        assert(macro_arg_bad(stack.deep_view(), node@.args[i as int]));
                    }
                    return Err(SemaError::new("Auto nesting too deep.", node.line));
                }
                let name = build_resolved(stack, label.prefix_count, &label.scopes, &label.label);
                args.push(
                    MacroArg::Label(
                        LabelAccess {
                            prefix_count: label.prefix_count,
                            scopes: copy_strings(&label.scopes),
                            label: label.label.clone(),
                            resolved: Some(name),
                        },
                    ),
                );
            },
            MacroArg::Register(s) => {
                args.push(MacroArg::Register(s.clone()));
            },
            MacroArg::Number(num) => {
                args.push(MacroArg::Number(*num));
            },
            MacroArg::LongRegister(s) => {
                args.push(MacroArg::LongRegister(s.clone()));
            },
        }
        i += 1;
    }
    let r = Macro {
        mnemonic: node.mnemonic.clone(),
        condition: copy_option_string(&node.condition),
        args,
        line: node.line,
    };
    proof {
        assert(r@.args =~= Seq::new(
            node@.args.len(),
            |k: int|
                if 0 <= k < node@.args.len() {
                    resolve_macro_arg(stack.deep_view(), node@.args[k])
                } else {
                    arbitrary()
                },
        ));
    }
    Ok(r)
}

/// Appends already-resolved statements in front of the rest of the pass.
pub open spec fn stmts_app(done: Seq<StatementV>, rest: Result<Seq<StatementV>, SemaErrorV>) -> Result<
    Seq<StatementV>,
    SemaErrorV,
> {
    match rest {
        Ok(ss) => Ok(done + ss),
        Err(e) => Err(e),
    }
}

proof fn lemma_stmts_app_push(
    done: Seq<StatementV>,
    s2: StatementV,
    rest: Result<Seq<StatementV>, SemaErrorV>,
)
    ensures
        stmts_app(
            done,
            match rest {
                Ok(ss) => Ok(seq![s2] + ss),
                Err(e) => Err(e),
            },
        ) == stmts_app(done.push(s2), rest),
{
    match rest {
        Ok(ss) => {
            assert(done + (seq![s2] + ss) =~= done.push(s2) + ss);
        },
        Err(_) => {},
    }
}

proof fn lemma_stmt_push_view(pre: Vec<Statement>, post: Vec<Statement>, st: Statement)
    requires
        post@ == pre@.push(st),
    ensures
        post.deep_view() == pre.deep_view().push(st@),
{
    let lhs = post.deep_view();
    let rhs = pre.deep_view().push(st@);
    assert(pre.deep_view().len() == pre@.len());
    assert forall|k: int| 0 <= k < lhs.len() implies lhs[k] == rhs[k] by {
        assert(lhs[k] == post@[k].deep_view());
        if k < pre@.len() {
            assert(post@[k] == pre@[k]);
            assert(pre.deep_view()[k] == pre@[k].deep_view());
        } else {
            assert(post@[k] == st);
        }
    }
    assert(lhs =~= rhs);
}

/// The label scope resolver: one forward pass over the statements with an
/// initially empty scope stack. On success every label-bearing part of the
/// file carries its fully-qualified name; on the first out-of-range
/// auto-scope prefix the pass fails with that statement's line and leaves
/// the file untouched.
#[verifier::loop_isolation(false)]
pub fn expand_labels(file: &mut File) -> (r: Result<(), SemaError>)
    ensures
        (match (r, spec_expand_labels(old(file)@)) {
            (Ok(()), Ok(fv)) => final(file)@ == fv,
            (Err(e), Err(ev)) => e@ == ev && *final(file) == *old(file),
            _ => false,
        }),
{
    let ghost stmts_v = old(file)@.statements;
    let mut stack: Vec<String> = Vec::new();
    let mut out: Vec<Statement> = Vec::new();
    let n = file.statements.len();
    let mut k: usize = 0;
    proof {
        assert(stack.deep_view() =~= Seq::<Seq<char>>::empty());
        assert(out.deep_view() =~= Seq::<StatementV>::empty());
        assert(stmts_v.subrange(0, n as int) =~= stmts_v);
        match expand_statements(stmts_v, Seq::empty()) {
            Ok(ss) => {
                assert(out.deep_view() + ss =~= ss);
            },
            Err(_) => {},
        }
    }
    while k < n
        invariant
            k <= n,
            *file == *old(file),
            n == file.statements@.len(),
            out@.len() == k,
            expand_statements(stmts_v, Seq::empty()) == stmts_app(
                out.deep_view(),
                expand_statements(stmts_v.subrange(k as int, n as int), stack.deep_view()),
            ),
        decreases n - k,
    {
        let ghost suffix = stmts_v.subrange(k as int, n as int);
        let ghost cur_stack = stack.deep_view();
        proof {
            assert(suffix[0] == stmts_v[k as int]);
            assert(stmts_v[k as int] == file.statements@[k as int]@);
            assert(suffix.drop_first() =~= stmts_v.subrange(k as int + 1, n as int));
        }
        let ghost pre_out = out;
        let stmt = &file.statements[k];
        match stmt {
            Statement::ImportDirective(d) => {
                match expand_import_directive(d, &stack) {
                    Ok(nd) => {
                        let st = Statement::ImportDirective(nd);
                        let ghost st0 = st;
                        out.push(st);
                        proof {
                            lemma_stmt_push_view(pre_out, out, st0);
                            lemma_stmts_app_push(
                                pre_out.deep_view(),
                                st0@,
                                expand_statements(suffix.drop_first(), cur_stack),
                            );
                        }
                    },
                    Err(e) => {
                        return Err(e);
                    },
                }
            },
            Statement::ExportDirective(d) => {
                match expand_export_directive(d, &stack) {
                    Ok(nd) => {
                        let st = Statement::ExportDirective(nd);
                        let ghost st0 = st;
                        out.push(st);
                        proof {
                            lemma_stmt_push_view(pre_out, out, st0);
                            lemma_stmts_app_push(
                                pre_out.deep_view(),
                                st0@,
                                expand_statements(suffix.drop_first(), cur_stack),
                            );
                        }
                    },
                    Err(e) => {
                        return Err(e);
                    },
                }
            },
            Statement::ResDirective(d) => {
                match expand_res_directive(d, &stack) {
                    Ok(nd) => {
                        let st = Statement::ResDirective(nd);
                        let ghost st0 = st;
                        out.push(st);
                        proof {
                            lemma_stmt_push_view(pre_out, out, st0);
                            lemma_stmts_app_push(
                                pre_out.deep_view(),
                                st0@,
                                expand_statements(suffix.drop_first(), cur_stack),
                            );
                        }
                    },
                    Err(e) => {
                        return Err(e);
                    },
                }
            },
            Statement::LabelDirective(d) => {
                match expand_label_directive(d, &mut stack) {
                    Ok(nd) => {
                        let st = Statement::LabelDirective(nd);
                        let ghost st0 = st;
                        out.push(st);
                        proof {
                            lemma_stmt_push_view(pre_out, out, st0);
                            lemma_stmts_app_push(
                                pre_out.deep_view(),
                                st0@,
                                expand_statements(suffix.drop_first(), stack.deep_view()),
                            );
                        }
                    },
                    Err(e) => {
                        return Err(e);
                    },
                }
            },
            Statement::Instruction(ins) => {
                let st = Statement::Instruction(copy_instruction(ins));
                let ghost st0 = st;
                out.push(st);
                proof {
                    lemma_stmt_push_view(pre_out, out, st0);
                    lemma_stmts_app_push(
                        pre_out.deep_view(),
                        st0@,
                        expand_statements(suffix.drop_first(), cur_stack),
                    );
                }
            },
            Statement::Macro(m) => {
                match expand_macro(m, &stack) {
                    Ok(nd) => {
                        let st = Statement::Macro(nd);
                        let ghost st0 = st;
                        out.push(st);
                        proof {
                            lemma_stmt_push_view(pre_out, out, st0);
                            lemma_stmts_app_push(
                                pre_out.deep_view(),
                                st0@,
                                expand_statements(suffix.drop_first(), cur_stack),
                            );
                        }
                    },
                    Err(e) => {
                        return Err(e);
                    },
                }
            },
        }
        k += 1;
    }
    proof {
        assert(stmts_v.subrange(n as int, n as int) =~= Seq::<StatementV>::empty());
        match expand_statements(stmts_v, Seq::empty()) {
            Ok(ss) => {
                assert(out.deep_view() + Seq::<StatementV>::empty() =~= out.deep_view());
            },
            Err(_) => {},
        }
    }
    file.statements = out;
    Ok(())
}

} // verus!
