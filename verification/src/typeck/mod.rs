//! Stage 3: type checker.
//!
//! Checks enforced here (the grammar cannot enforce these):
//!   1. Every declaration: intent/assumption/proof share the same identifier.
//!   2. Every verify_decl target references the intent in the same triple.
//!   3. old() does not appear in preconditions, invariants, or refined-type
//!      parameter predicates.
//!   4. Assumption blocks repeat no section but their strings, repeat no
//!      field of a validated_by, and keep every confidence in [0.0, 1.0].
//!   5. The program has at least one declaration.
//!
//! Sub-modules handle ACS, contextual types, temporal state, and decidability.

use vstd::prelude::*;
use crate::errors::{CompilerError, type_outcome, first_of};
use crate::fir::{Declaration, ExprNode, Param, PredicateNode, Program, TypeNode, VerifyDecl, VerifyStatement};
use crate::text::{join3, join5};
use crate::fir::ComparisonOp;
use crate::typeck::contextual::{
    context_error, declaration_contexts, env_consistent, expr_tags, has_clash,
    lemma_consistent_contexts_accepted, lemma_cross_context_comparison_rejected,
};
use crate::typeck::assumptions::{
    assumption_error, check_assumption, confidence_in_range, lemma_accepted_assumption, section_fields,
};
use crate::fir::ValidatedByField;
use crate::typeck::temporal::{
    declaration_states, lemma_consistent_states_accepted, lemma_mixed_states_rejected, temporal_error,
};

pub mod acs;
pub mod assumptions;
pub mod contextual;
pub mod temporal;
pub mod decidability;
pub mod congruence;

verus! {

// ── what it means for a node to mention old() ────────────────────────────────

/// `e` mentions `old(..)` somewhere inside it.
pub open spec fn expr_has_old(e: ExprNode) -> bool
    decreases e,
{
    match e {
        ExprNode::OldValue(_) => true,
        ExprNode::BinOp { left, right, .. } => expr_has_old(*left) || expr_has_old(*right),
        ExprNode::FunctionCall { args, .. } => exprs_have_old(args@),
        _ => false,
    }
}

/// Some expression of `s` mentions `old(..)`.
pub open spec fn exprs_have_old(s: Seq<ExprNode>) -> bool
    decreases s,
{
    if s.len() == 0 {
        false
    } else {
        expr_has_old(s[0]) || exprs_have_old(s.drop_first())
    }
}

/// `p` mentions `old(..)` in one of its comparisons.
pub open spec fn predicate_has_old(p: PredicateNode) -> bool
    decreases p,
{
    match p {
        PredicateNode::Comparison { left, right, .. } => expr_has_old(left) || expr_has_old(right),
        PredicateNode::Or(a, b) => predicate_has_old(*a) || predicate_has_old(*b),
        PredicateNode::And(a, b) => predicate_has_old(*a) || predicate_has_old(*b),
        PredicateNode::Not(q) => predicate_has_old(*q),
        PredicateNode::Forall { body, .. } => predicate_has_old(*body),
        PredicateNode::Exists { body, .. } => predicate_has_old(*body),
    }
}

/// `s` mentions `old(..)` in an assertion, an assignment, or a nested statement.
pub open spec fn statement_has_old(s: VerifyStatement) -> bool
    decreases s,
{
    match s {
        VerifyStatement::Assert(p) => predicate_has_old(p),
        VerifyStatement::Atomic(stmts) => statements_have_old(stmts@),
        VerifyStatement::Assign { expr, .. } => expr_has_old(expr),
    }
}

pub open spec fn statements_have_old(s: Seq<VerifyStatement>) -> bool
    decreases s,
{
    if s.len() == 0 {
        false
    } else {
        statement_has_old(s[0]) || statements_have_old(s.drop_first())
    }
}

/// old() is seen wherever it occurs in an expression: `old(x)` itself
/// mentions old(); an identifier, a number or a string does not; an operation
/// mentions old() exactly when one of its two sides does.
pub proof fn lemma_old_in_expressions(x: String, n: crate::fir::Number, l: ExprNode, op: crate::fir::BinOpKind, r: ExprNode)
    ensures
        expr_has_old(ExprNode::OldValue(x)),
        !expr_has_old(ExprNode::Identifier(x)),
        !expr_has_old(ExprNode::StringLit(x)),
        !expr_has_old(ExprNode::Number(n)),
        expr_has_old(ExprNode::BinOp { left: Box::new(l), op, right: Box::new(r) }) <==> (expr_has_old(l) || expr_has_old(r)),
{
}

/// A call mentions old() exactly when one of its arguments does.
pub proof fn lemma_old_in_call(name: String, args: Vec<ExprNode>)
    ensures
        expr_has_old(ExprNode::FunctionCall { name, args }) <==> exists|k: int| 0 <= k < args@.len() && expr_has_old(#[trigger] args@[k]),
{
    lemma_old_in_some_expression(args@);
}

proof fn lemma_old_in_some_expression(s: Seq<ExprNode>)
    ensures
        exprs_have_old(s) <==> exists|k: int| 0 <= k < s.len() && expr_has_old(#[trigger] s[k]),
    decreases s.len(),
{
    if s.len() > 0 {
        lemma_old_in_some_expression(s.drop_first());
        if exprs_have_old(s.drop_first()) {
            let k = choose|k: int| 0 <= k < s.drop_first().len() && expr_has_old(#[trigger] s.drop_first()[k]);
            assert(expr_has_old(s[k + 1]));
        }
        if exists|k: int| 0 <= k < s.len() && expr_has_old(#[trigger] s[k]) {
            let k = choose|k: int| 0 <= k < s.len() && expr_has_old(#[trigger] s[k]);
            if k > 0 {
                assert(expr_has_old(s.drop_first()[k - 1]));
            }
        }
    }
}

/// old() is seen wherever it occurs in a predicate: a comparison mentions
/// old() exactly when one of its sides does, `a AND b` and `a OR b` exactly
/// when `a` or `b` does, and `NOT a` and a quantifier exactly when their body does.
pub proof fn lemma_old_in_predicates(a: PredicateNode, b: PredicateNode, l: ExprNode, op: ComparisonOp, r: ExprNode, var: String, ty: TypeNode)
    ensures
        predicate_has_old(PredicateNode::Comparison { left: l, op, right: r }) <==> (expr_has_old(l) || expr_has_old(r)),
        predicate_has_old(PredicateNode::And(Box::new(a), Box::new(b))) <==> (predicate_has_old(a) || predicate_has_old(b)),
        predicate_has_old(PredicateNode::Or(Box::new(a), Box::new(b))) <==> (predicate_has_old(a) || predicate_has_old(b)),
        predicate_has_old(PredicateNode::Not(Box::new(a))) <==> predicate_has_old(a),
        predicate_has_old(PredicateNode::Forall { var, ty: Box::new(ty), body: Box::new(a) }) <==> predicate_has_old(a),
        predicate_has_old(PredicateNode::Exists { var, ty: Box::new(ty), body: Box::new(a) }) <==> predicate_has_old(a),
{
}

// ── AST walks ────────────────────────────────────────────────────────────────

#[verifier::loop_isolation(false)]
pub fn expr_contains_old(expr: &ExprNode) -> (r: bool)
    ensures
        r == expr_has_old(*expr),
    decreases expr,
{
    match expr {
        ExprNode::OldValue(_) => true,
        ExprNode::BinOp { left, right, .. } => expr_contains_old(left) || expr_contains_old(right),
        ExprNode::FunctionCall { args, .. } => {
            let mut i: usize = 0;
            assert(args@.skip(0) =~= args@);
            while i < args.len()
                invariant
                    i <= args@.len(),
                    exprs_have_old(args@) == exprs_have_old(args@.skip(i as int)),
                decreases args.len() - i,
            {
                assert(args@.skip(i as int).drop_first() =~= args@.skip(i + 1));
                if expr_contains_old(&args[i]) {
                    return true;
                }
                i += 1;
            }
            false
        },
        _ => false,
    }
}

pub fn predicate_contains_old(pred: &PredicateNode) -> (r: bool)
    ensures
        r == predicate_has_old(*pred),
    decreases pred,
{
    match pred {
        PredicateNode::Comparison { left, right, .. } => expr_contains_old(left)
            || expr_contains_old(right),
        PredicateNode::Or(a, b) => predicate_contains_old(a) || predicate_contains_old(b),
        PredicateNode::And(a, b) => predicate_contains_old(a) || predicate_contains_old(b),
        PredicateNode::Not(p) => predicate_contains_old(p),
        PredicateNode::Forall { body, .. } => predicate_contains_old(body),
        PredicateNode::Exists { body, .. } => predicate_contains_old(body),
    }
}

#[verifier::loop_isolation(false)]
pub fn verify_statement_contains_old(stmt: &VerifyStatement) -> (r: bool)
    ensures
        r == statement_has_old(*stmt),
    decreases stmt,
{
    match stmt {
        VerifyStatement::Assert(pred) => predicate_contains_old(pred),
        VerifyStatement::Atomic(stmts) => {
            let mut i: usize = 0;
            assert(stmts@.skip(0) =~= stmts@);
            while i < stmts.len()
                invariant
                    i <= stmts@.len(),
                    statements_have_old(stmts@) == statements_have_old(stmts@.skip(i as int)),
                decreases stmts.len() - i,
            {
                assert(stmts@.skip(i as int).drop_first() =~= stmts@.skip(i + 1));
                if verify_statement_contains_old(&stmts[i]) {
                    return true;
                }
                i += 1;
            }
            false
        },
        VerifyStatement::Assign { expr, .. } => expr_contains_old(expr),
    }
}

// ── declaration rules ────────────────────────────────────────────────────────

/// Some predicate of `ps` mentions `old(..)`.
pub open spec fn predicates_have_old(ps: Seq<PredicateNode>) -> bool {
    exists|i: int| 0 <= i < ps.len() && predicate_has_old(#[trigger] ps[i])
}

/// The target of the first verify block of `vds` that does not name `intent`.
pub open spec fn first_foreign_target(vds: Seq<VerifyDecl>, intent: Seq<char>) -> Option<Seq<char>>
    decreases vds.len(),
{
    if vds.len() == 0 {
        None
    } else if vds[0].target@ != intent {
        Some(vds[0].target@)
    } else {
        first_foreign_target(vds.drop_first(), intent)
    }
}

/// The name of the first parameter of `ps` whose refined-type predicate mentions `old(..)`.
pub open spec fn first_refined_old(ps: Seq<Param>) -> Option<Seq<char>>
    decreases ps.len(),
{
    if ps.len() == 0 {
        None
    } else {
        match ps[0].ty {
            TypeNode::Refined { predicate, .. } if predicate_has_old(*predicate) => Some(ps[0].name@),
            _ => first_refined_old(ps.drop_first()),
        }
    }
}

/// The diagnostic for the first rule that `d` breaks, in the order the rules are checked:
/// intent/assumption names, intent/proof names, verify targets, old() in a
/// precondition, old() in an invariant, old() in a refined-type parameter, and
/// then the rules of the assumption block (see `assumptions`).
pub open spec fn declaration_rule_error(d: Declaration) -> Option<Seq<char>> {
    let name = d.intent.name@;
    if name != d.assumption.name@ {
        Some("declaration name mismatch: intent '"@ + name + "' vs assumption '"@ + d.assumption.name@ + "'"@)
    } else if name != d.proof.name@ {
        Some("declaration name mismatch: intent '"@ + name + "' vs proof '"@ + d.proof.name@ + "'"@)
    } else if first_foreign_target(d.proof.verify_decls@, name) is Some {
        Some("verify '"@ + first_foreign_target(d.proof.verify_decls@, name).unwrap() + "' does not reference intent '"@ + name + "'"@)
    } else if predicates_have_old(d.intent.preconditions@) {
        Some("old() is not valid inside a precondition"@)
    } else if predicates_have_old(d.intent.invariants@) {
        Some("old() is not valid inside an invariant"@)
    } else if first_refined_old(d.intent.inputs@ + d.intent.outputs@) is Some {
        Some("old() is not valid in the refined-type predicate of parameter '"@
            + first_refined_old(d.intent.inputs@ + d.intent.outputs@).unwrap() + "'"@)
    } else {
        assumption_error(d.assumption)
    }
}

/// The diagnostic of the first declaration that breaks a rule, if any.
pub open spec fn rules_error(ds: Seq<Declaration>) -> Option<Seq<char>>
    decreases ds.len(),
{
    if ds.len() == 0 {
        None
    } else {
        first_of(declaration_rule_error(ds[0]), rules_error(ds.drop_first()))
    }
}

/// The diagnostic for a program without any declaration.
pub open spec fn no_declaration_message() -> Seq<char> {
    "the program has no declaration: at least one intent, assumption and proof triple is required"@
}

/// What the type checker reports for `p`: a program needs a declaration;
/// then the declaration rules over all declarations, then contextual types,
/// then temporal types.
pub open spec fn check_error(p: Program) -> Option<Seq<char>> {
    if p.declarations@.len() == 0 {
        Some(no_declaration_message())
    } else {
        first_of(
            rules_error(p.declarations@),
            first_of(context_error(p.declarations@), temporal_error(p.declarations@)),
        )
    }
}

fn any_predicate_contains_old(preds: &Vec<PredicateNode>) -> (r: bool)
    ensures
        r == predicates_have_old(preds@),
{
    let mut i: usize = 0;
    while i < preds.len()
        invariant
            i <= preds@.len(),
            forall|k: int| 0 <= k < i ==> !predicate_has_old(#[trigger] preds@[k]),
        decreases preds.len() - i,
    {
        if predicate_contains_old(&preds[i]) {
            return true;
        }
        i += 1;
    }
    false
}

fn foreign_target(vds: &Vec<VerifyDecl>, intent: &String) -> (r: Option<usize>)
    ensures
        match r {
            Some(i) => i < vds@.len() && first_foreign_target(vds@, intent@) == Some(vds@[i as int].target@),
            None => first_foreign_target(vds@, intent@) is None,
        },
{
    let mut i: usize = 0;
    assert(vds@.skip(0) =~= vds@);
    while i < vds.len()
        invariant
            i <= vds@.len(),
            first_foreign_target(vds@, intent@) == first_foreign_target(vds@.skip(i as int), intent@),
        decreases vds.len() - i,
    {
        assert(vds@.skip(i as int).drop_first() =~= vds@.skip(i + 1));
        if !(vds[i].target == *intent) {
            return Some(i);
        }
        i += 1;
    }
    None
}

fn refined_old_in(params: &Vec<Param>) -> (r: Option<usize>)
    ensures
        match r {
            Some(i) => i < params@.len() && first_refined_old(params@) == Some(params@[i as int].name@),
            None => first_refined_old(params@) is None,
        },
{
    let mut i: usize = 0;
    assert(params@.skip(0) =~= params@);
    while i < params.len()
        invariant
            i <= params@.len(),
            first_refined_old(params@) == first_refined_old(params@.skip(i as int)),
        decreases params.len() - i,
    {
        assert(params@.skip(i as int).drop_first() =~= params@.skip(i + 1));
        if let TypeNode::Refined { predicate, .. } = &params[i].ty {
            if predicate_contains_old(predicate) {
                return Some(i);
            }
        }
        i += 1;
    }
    None
}

proof fn lemma_first_refined_old_concat(a: Seq<Param>, b: Seq<Param>)
    ensures
        first_refined_old(a + b) == first_of(first_refined_old(a), first_refined_old(b)),
    decreases a.len(),
{
    if a.len() > 0 {
        lemma_first_refined_old_concat(a.drop_first(), b);
        assert((a + b).drop_first() =~= a.drop_first() + b);
    }
}

/// Checks the rules of one declaration.
pub fn check_declaration(decl: &Declaration) -> (r: Result<(), CompilerError>)
    ensures
        type_outcome(r, declaration_rule_error(*decl)),
{
    let name = &decl.intent.name;
    // Rule 1: all three blocks must share the same identifier.
    if !(*name == decl.assumption.name) {
        return Err(CompilerError::TypeCheckError(join5(
            "declaration name mismatch: intent '",
            name.as_str(),
            "' vs assumption '",
            decl.assumption.name.as_str(),
            "'",
        )));
    }
    if !(*name == decl.proof.name) {
        return Err(CompilerError::TypeCheckError(join5(
            "declaration name mismatch: intent '",
            name.as_str(),
            "' vs proof '",
            decl.proof.name.as_str(),
            "'",
        )));
    }
    // Rule 2: every verify_decl target must reference the intent in this triple.
    if let Some(i) = foreign_target(&decl.proof.verify_decls, name) {
        return Err(CompilerError::TypeCheckError(join5(
            "verify '",
            decl.proof.verify_decls[i].target.as_str(),
            "' does not reference intent '",
            name.as_str(),
            "'",
        )));
    }
    // Rule 3: old() is not valid in preconditions.
    if any_predicate_contains_old(&decl.intent.preconditions) {
        return Err(CompilerError::TypeCheckError(String::from_str("old() is not valid inside a precondition")));
    }
    // Rule 3: old() is not valid in invariants.
    if any_predicate_contains_old(&decl.intent.invariants) {
        return Err(CompilerError::TypeCheckError(String::from_str("old() is not valid inside an invariant")));
    }
    // Rule 3: old() is not valid in refined-type parameter predicates.
    proof {
        lemma_first_refined_old_concat(decl.intent.inputs@, decl.intent.outputs@);
    }
    if let Some(i) = refined_old_in(&decl.intent.inputs) {
        return Err(CompilerError::TypeCheckError(join3(
            "old() is not valid in the refined-type predicate of parameter '",
            decl.intent.inputs[i].name.as_str(),
            "'",
        )));
    }
    if let Some(i) = refined_old_in(&decl.intent.outputs) {
        return Err(CompilerError::TypeCheckError(join3(
            "old() is not valid in the refined-type predicate of parameter '",
            decl.intent.outputs[i].name.as_str(),
            "'",
        )));
    }
    check_assumption(&decl.assumption)
}

/// Runs the type checker on `program`: the declaration rules for every
/// declaration in order, then the contextual and the temporal checks.
pub fn check(program: &Program) -> (r: Result<(), CompilerError>)
    ensures
        type_outcome(r, check_error(*program)),
{
    let decls = &program.declarations;
    if decls.len() == 0 {
        return Err(CompilerError::TypeCheckError(String::from_str(
            "the program has no declaration: at least one intent, assumption and proof triple is required",
        )));
    }
    let mut i: usize = 0;
    assert(decls@.skip(0) =~= decls@);
    while i < decls.len()
        invariant
            decls == &program.declarations,
            decls@.len() > 0,
            i <= decls@.len(),
            rules_error(decls@) == rules_error(decls@.skip(i as int)),
        decreases decls.len() - i,
    {
        assert(decls@.skip(i as int).drop_first() =~= decls@.skip(i + 1));
        match check_declaration(&decls[i]) {
            Err(e) => {
                return Err(e);
            },
            Ok(()) => {},
        }
        i += 1;
    }
    match contextual::check(program) {
        Err(e) => {
            return Err(e);
        },
        Ok(()) => {},
    }
    temporal::check(program)
}

// ── laws ─────────────────────────────────────────────────────────────────────

proof fn lemma_rules_error_none(ds: Seq<Declaration>, i: int)
    requires
        rules_error(ds) is None,
        0 <= i < ds.len(),
    ensures
        declaration_rule_error(ds[i]) is None,
    decreases i,
{
    if i > 0 {
        lemma_rules_error_none(ds.drop_first(), i - 1);
    }
}

proof fn lemma_no_foreign_target(vds: Seq<VerifyDecl>, intent: Seq<char>, k: int)
    requires
        first_foreign_target(vds, intent) is None,
        0 <= k < vds.len(),
    ensures
        vds[k].target@ == intent,
    decreases k,
{
    if k > 0 {
        lemma_no_foreign_target(vds.drop_first(), intent, k - 1);
    }
}

/// The refined-type predicate of `param`, if it has one, does not mention old().
pub open spec fn refinement_free_of_old(param: Param) -> bool {
    match param.ty {
        TypeNode::Refined { predicate, .. } => !predicate_has_old(*predicate),
        _ => true,
    }
}

proof fn lemma_no_refined_old(ps: Seq<Param>, k: int)
    requires
        first_refined_old(ps) is None,
        0 <= k < ps.len(),
    ensures
        refinement_free_of_old(ps[k]),
    decreases k,
{
    if k > 0 {
        lemma_no_refined_old(ps.drop_first(), k - 1);
    }
}

/// A program that the type checker accepts is consistent in every
/// declaration: its intent, assumption and proof share one name, each of its
/// verify blocks targets that intent, and old() appears in none of its
/// preconditions, invariants or refined-type parameter predicates.
pub proof fn lemma_accepted_declaration_rules(p: Program, i: int)
    requires
        check_error(p) is None,
        0 <= i < p.declarations@.len(),
    ensures
        p.declarations@[i].intent.name@ == p.declarations@[i].assumption.name@,
        p.declarations@[i].intent.name@ == p.declarations@[i].proof.name@,
        forall|k: int| 0 <= k < p.declarations@[i].proof.verify_decls@.len()
            ==> #[trigger] p.declarations@[i].proof.verify_decls@[k].target@ == p.declarations@[i].intent.name@,
        forall|k: int| 0 <= k < p.declarations@[i].intent.preconditions@.len()
            ==> !predicate_has_old(#[trigger] p.declarations@[i].intent.preconditions@[k]),
        forall|k: int| 0 <= k < p.declarations@[i].intent.invariants@.len()
            ==> !predicate_has_old(#[trigger] p.declarations@[i].intent.invariants@[k]),
        forall|k: int| 0 <= k < (p.declarations@[i].intent.inputs@ + p.declarations@[i].intent.outputs@).len()
            ==> refinement_free_of_old(#[trigger] (p.declarations@[i].intent.inputs@ + p.declarations@[i].intent.outputs@)[k]),
        assumption_error(p.declarations@[i].assumption) is None,
{
    let d = p.declarations@[i];
    lemma_rules_error_none(p.declarations@, i);
    assert forall|k: int| 0 <= k < d.proof.verify_decls@.len()
        implies #[trigger] d.proof.verify_decls@[k].target@ == d.intent.name@ by {
        lemma_no_foreign_target(d.proof.verify_decls@, d.intent.name@, k);
    }
    assert forall|k: int| 0 <= k < (d.intent.inputs@ + d.intent.outputs@).len()
        implies refinement_free_of_old(#[trigger] (d.intent.inputs@ + d.intent.outputs@)[k]) by {
        lemma_no_refined_old(d.intent.inputs@ + d.intent.outputs@, k);
    }
}

/// A declaration whose precondition mentions old() makes the program be rejected.
pub proof fn lemma_old_in_precondition_rejected(p: Program, i: int, k: int)
    requires
        0 <= i < p.declarations@.len(),
        0 <= k < p.declarations@[i].intent.preconditions@.len(),
        predicate_has_old(p.declarations@[i].intent.preconditions@[k]),
    ensures
        check_error(p) is Some,
{
    if check_error(p) is None {
        lemma_accepted_declaration_rules(p, i);
    }
}

/// Cross-context arithmetic is a type error: a program with a comparison that
/// uses one base type in two contexts (in a precondition, postcondition or
/// invariant) is rejected.
pub proof fn lemma_cross_context_program_rejected(p: Program, i: int, left: ExprNode, op: ComparisonOp, right: ExprNode)
    requires
        0 <= i < p.declarations@.len(),
        p.declarations@[i].intent.preconditions@.contains(PredicateNode::Comparison { left, op, right })
            || p.declarations@[i].intent.postconditions@.contains(PredicateNode::Comparison { left, op, right })
            || p.declarations@[i].intent.invariants@.contains(PredicateNode::Comparison { left, op, right }),
        has_clash(
            expr_tags(left, declaration_contexts(p.declarations@[i])) + expr_tags(right, declaration_contexts(p.declarations@[i])),
        ),
    ensures
        check_error(p) is Some,
{
    lemma_cross_context_comparison_rejected(p.declarations@, i, left, op, right);
}

/// Cross-context arithmetic in a verify block is a type error too: a program
/// with an assertion that uses one base type in two contexts is rejected.
pub proof fn lemma_cross_context_assertion_program_rejected(
    p: Program,
    i: int,
    v: int,
    k: int,
    left: ExprNode,
    op: ComparisonOp,
    right: ExprNode,
)
    requires
        0 <= i < p.declarations@.len(),
        0 <= v < p.declarations@[i].proof.verify_decls@.len(),
        0 <= k < p.declarations@[i].proof.verify_decls@[v].statements@.len(),
        p.declarations@[i].proof.verify_decls@[v].statements@[k] == VerifyStatement::Assert(PredicateNode::Comparison { left, op, right }),
        has_clash(
            expr_tags(left, declaration_contexts(p.declarations@[i])) + expr_tags(right, declaration_contexts(p.declarations@[i])),
        ),
    ensures
        check_error(p) is Some,
{
    crate::typeck::contextual::lemma_cross_context_assertion_rejected(p.declarations@, i, v, k, left, op, right);
}

/// Using `Stale<T>` where `Fresh<T, d>` is required (or `Expiring<T, d>` as
/// `Fresh<T, d>`) in one comparison is a type error.
pub proof fn lemma_mixed_states_program_rejected(p: Program, i: int, left: ExprNode, op: ComparisonOp, right: ExprNode)
    requires
        0 <= i < p.declarations@.len(),
        p.declarations@[i].intent.preconditions@.contains(PredicateNode::Comparison { left, op, right })
            || p.declarations@[i].intent.postconditions@.contains(PredicateNode::Comparison { left, op, right })
            || p.declarations@[i].intent.invariants@.contains(PredicateNode::Comparison { left, op, right }),
        has_clash(
            expr_tags(left, declaration_states(p.declarations@[i])) + expr_tags(right, declaration_states(p.declarations@[i])),
        ),
    ensures
        check_error(p) is Some,
{
    lemma_mixed_states_rejected(p.declarations@, i, left, op, right);
}

/// The type checker accepts a program whose declarations follow the
/// declaration rules and in which no declaration uses one base type in two
/// contexts or in two temporal states.
pub proof fn lemma_consistent_program_accepted(p: Program)
    requires
        p.declarations@.len() > 0,
        rules_error(p.declarations@) is None,
        forall|i: int| 0 <= i < p.declarations@.len() ==> env_consistent(#[trigger] declaration_contexts(p.declarations@[i])),
        forall|i: int| 0 <= i < p.declarations@.len() ==> env_consistent(#[trigger] declaration_states(p.declarations@[i])),
    ensures
        check_error(p) is None,
{
    lemma_consistent_contexts_accepted(p.declarations@);
    lemma_consistent_states_accepted(p.declarations@);
}

/// A program needs at least one declaration: one without any is rejected.
pub proof fn lemma_program_without_declaration_rejected(p: Program)
    requires
        p.declarations@.len() == 0,
    ensures
        check_error(p) == Some(no_declaration_message()),
{
}

/// A confidence outside `[0.0, 1.0]` in any `validated_by` of any assumption
/// block makes the program be rejected (`confidence: 1.999`, for one).
pub proof fn lemma_out_of_range_confidence_rejected(p: Program, i: int, k: int, j: int)
    requires
        0 <= i < p.declarations@.len(),
        0 <= k < p.declarations@[i].assumption.sections@.len(),
        0 <= j < section_fields(p.declarations@[i].assumption.sections@[k]).len(),
        section_fields(p.declarations@[i].assumption.sections@[k])[j] matches ValidatedByField::Confidence(c)
            && !confidence_in_range(c@),
    ensures
        check_error(p) is Some,
{
    if check_error(p) is None {
        lemma_accepted_declaration_rules(p, i);
        lemma_accepted_assumption(p.declarations@[i].assumption);
    }
}

} // verus!
