//! The type checker judges a program by its model alone: two programs with
//! the same view get the same diagnostic. Each lemma here says so of one of
//! the specification functions that the verdict is built from.

use vstd::prelude::*;
use crate::fir::{
    IntentNode, AssumptionNode, AssumptionSection, Declaration, ExprNode, Param, PredicateNode, Program,
    TemporalType, TypeNode, ValidatedByField, VerifyDecl, VerifyStatement,
};
use crate::fir::model::{expr_views, stmt_views, views};
use crate::typeck::{
    check_error, declaration_rule_error, expr_has_old, exprs_have_old, first_foreign_target,
    first_refined_old, predicate_has_old, predicates_have_old, rules_error,
};
use crate::typeck::assumptions::{
    assumption_error, field_kind, first_bad_confidence, first_bad_confidence_field,
    first_field_repeat, first_repeated_field, first_repeated_section, repeats_field,
    repeats_section, section_fields, section_kind,
};
use crate::typeck::contextual::{
    BindingView, TagKind, context_bindings, context_error, declaration_context_error,
    declaration_tag_error, expr_tags, exprs_tags, predicate_error, predicates_error,
    statement_error, statements_error, verify_decls_error,
};
use crate::typeck::acs::{
    AcsInputs, contextual_bases, edge_cases, has_string, inputs_of, intent_edge_cases, is_linked,
    last_confidence, last_confidence_field, last_method, last_method_field, old_count,
    refined_count, string_count,
};
use crate::typeck::temporal::{
    declaration_temporal_error, state_name, temporal_bindings, temporal_error, type_head,
};

verus! {

/// `a` and `b` have the same length and, item by item, the same views.
pub open spec fn same_views<T: View>(a: Seq<T>, b: Seq<T>) -> bool {
    a.len() == b.len() && forall|i: int| 0 <= i < a.len() ==> #[trigger] a[i]@ == b[i]@
}

pub proof fn lemma_same_views<T: View>(a: Seq<T>, b: Seq<T>)
    requires
        views(a) == views(b),
    ensures
        same_views(a, b),
{
    assert(views(a).len() == a.len());
    assert(views(b).len() == b.len());
    assert forall|i: int| 0 <= i < a.len() implies #[trigger] a[i]@ == b[i]@ by {
        assert(views(a)[i] == a[i]@);
        assert(views(b)[i] == b[i]@);
    }
}

proof fn lemma_same_views_tail<T: View>(a: Seq<T>, b: Seq<T>)
    requires
        same_views(a, b),
        a.len() > 0,
    ensures
        same_views(a.drop_first(), b.drop_first()),
        same_views(a.drop_last(), b.drop_last()),
        a[0]@ == b[0]@,
        a.last()@ == b.last()@,
{
    assert(a[0]@ == b[0]@);
    assert(a[a.len() - 1]@ == b[b.len() - 1]@);
    assert forall|i: int| 0 <= i < a.len() - 1 implies #[trigger] a.drop_first()[i]@ == b.drop_first()[i]@ by {
        assert(a[i + 1]@ == b[i + 1]@);
    }
    assert forall|i: int| 0 <= i < a.len() - 1 implies #[trigger] a.drop_last()[i]@ == b.drop_last()[i]@ by {
        assert(a[i]@ == b[i]@);
    }
}

proof fn lemma_same_views_concat<T: View>(a1: Seq<T>, b1: Seq<T>, a2: Seq<T>, b2: Seq<T>)
    requires
        same_views(a1, a2),
        same_views(b1, b2),
    ensures
        same_views(a1 + b1, a2 + b2),
{
    assert forall|i: int| 0 <= i < a1.len() + b1.len() implies #[trigger] (a1 + b1)[i]@ == (a2 + b2)[i]@ by {
        if i < a1.len() {
            assert(a1[i]@ == a2[i]@);
        } else {
            assert(b1[i - a1.len()]@ == b2[i - a1.len()]@);
        }
    }
}

proof fn lemma_expr_views(s: Seq<ExprNode>)
    ensures
        expr_views(s).len() == s.len(),
        forall|i: int| 0 <= i < s.len() ==> #[trigger] expr_views(s)[i] == s[i]@,
    decreases s.len(),
{
    if s.len() > 0 {
        lemma_expr_views(s.drop_last());
        assert(expr_views(s) == expr_views(s.drop_last()).push(s.last()@));
    } else {
        assert(expr_views(s) == Seq::<crate::fir::model::ExprM>::empty());
    }
}

proof fn lemma_stmt_views(s: Seq<VerifyStatement>)
    ensures
        stmt_views(s).len() == s.len(),
        forall|i: int| 0 <= i < s.len() ==> #[trigger] stmt_views(s)[i] == s[i]@,
    decreases s.len(),
{
    if s.len() > 0 {
        lemma_stmt_views(s.drop_last());
        assert(stmt_views(s) == stmt_views(s.drop_last()).push(s.last()@));
    } else {
        assert(stmt_views(s) == Seq::<crate::fir::model::StmtM>::empty());
    }
}

proof fn lemma_expr_views_same(a: Seq<ExprNode>, b: Seq<ExprNode>)
    requires
        expr_views(a) == expr_views(b),
    ensures
        same_views(a, b),
{
    lemma_expr_views(a);
    lemma_expr_views(b);
    assert forall|i: int| 0 <= i < a.len() implies #[trigger] a[i]@ == b[i]@ by {
        assert(expr_views(a)[i] == a[i]@);
        assert(expr_views(b)[i] == b[i]@);
    }
}

proof fn lemma_stmt_views_same(a: Seq<VerifyStatement>, b: Seq<VerifyStatement>)
    requires
        stmt_views(a) == stmt_views(b),
    ensures
        same_views(a, b),
{
    lemma_stmt_views(a);
    lemma_stmt_views(b);
    assert forall|i: int| 0 <= i < a.len() implies #[trigger] a[i]@ == b[i]@ by {
        assert(stmt_views(a)[i] == a[i]@);
        assert(stmt_views(b)[i] == b[i]@);
    }
}

// ── expressions, predicates, statements ──────────────────────────────────────

/// Expressions with the same view mention old() alike and carry the same tags.
pub proof fn lemma_expr_by_view(e1: ExprNode, e2: ExprNode, env: Seq<BindingView>)
    requires
        e1@ == e2@,
    ensures
        expr_has_old(e1) == expr_has_old(e2),
        expr_tags(e1, env) == expr_tags(e2, env),
    decreases e1,
{
    match e1 {
        ExprNode::BinOp { left: l1, right: r1, .. } => match e2 {
            ExprNode::BinOp { left: l2, right: r2, .. } => {
                lemma_expr_by_view(*l1, *l2, env);
                lemma_expr_by_view(*r1, *r2, env);
            },
            _ => {},
        },
        ExprNode::FunctionCall { args: a1, .. } => match e2 {
            ExprNode::FunctionCall { args: a2, .. } => {
                lemma_expr_views_same(a1@, a2@);
                lemma_exprs_by_view(a1@, a2@, env);
            },
            _ => {},
        },
        _ => {},
    }
}

pub proof fn lemma_exprs_by_view(s1: Seq<ExprNode>, s2: Seq<ExprNode>, env: Seq<BindingView>)
    requires
        same_views(s1, s2),
    ensures
        exprs_have_old(s1) == exprs_have_old(s2),
        exprs_tags(s1, env) == exprs_tags(s2, env),
    decreases s1,
{
    if s1.len() > 0 {
        lemma_same_views_tail(s1, s2);
        lemma_expr_by_view(s1[0], s2[0], env);
        lemma_exprs_by_view(s1.drop_first(), s2.drop_first(), env);
    }
}

/// Predicates with the same view mention old() alike and break the same tag rule.
pub proof fn lemma_predicate_by_view(p1: PredicateNode, p2: PredicateNode, env: Seq<BindingView>, kind: TagKind)
    requires
        p1@ == p2@,
    ensures
        predicate_has_old(p1) == predicate_has_old(p2),
        predicate_error(p1, env, kind) == predicate_error(p2, env, kind),
    decreases p1,
{
    match p1 {
        PredicateNode::Comparison { left: l1, right: r1, .. } => match p2 {
            PredicateNode::Comparison { left: l2, right: r2, .. } => {
                lemma_expr_by_view(l1, l2, env);
                lemma_expr_by_view(r1, r2, env);
            },
            _ => {},
        },
        PredicateNode::Or(a1, b1) => match p2 {
            PredicateNode::Or(a2, b2) => {
                lemma_predicate_by_view(*a1, *a2, env, kind);
                lemma_predicate_by_view(*b1, *b2, env, kind);
            },
            _ => {},
        },
        PredicateNode::And(a1, b1) => match p2 {
            PredicateNode::And(a2, b2) => {
                lemma_predicate_by_view(*a1, *a2, env, kind);
                lemma_predicate_by_view(*b1, *b2, env, kind);
            },
            _ => {},
        },
        PredicateNode::Not(a1) => match p2 {
            PredicateNode::Not(a2) => {
                lemma_predicate_by_view(*a1, *a2, env, kind);
            },
            _ => {},
        },
        PredicateNode::Forall { body: b1, .. } => match p2 {
            PredicateNode::Forall { body: b2, .. } => {
                lemma_predicate_by_view(*b1, *b2, env, kind);
            },
            _ => {},
        },
        PredicateNode::Exists { body: b1, .. } => match p2 {
            PredicateNode::Exists { body: b2, .. } => {
                lemma_predicate_by_view(*b1, *b2, env, kind);
            },
            _ => {},
        },
    }
}

pub proof fn lemma_predicates_by_view(s1: Seq<PredicateNode>, s2: Seq<PredicateNode>, env: Seq<BindingView>, kind: TagKind)
    requires
        same_views(s1, s2),
    ensures
        predicates_have_old(s1) == predicates_have_old(s2),
        predicates_error(s1, env, kind) == predicates_error(s2, env, kind),
    decreases s1.len(),
{
    assert forall|i: int| 0 <= i < s1.len() implies predicate_has_old(#[trigger] s1[i]) == predicate_has_old(s2[i]) by {
        assert(s1[i]@ == s2[i]@);
        lemma_predicate_by_view(s1[i], s2[i], env, kind);
    }
    if predicates_have_old(s1) {
        let i = choose|i: int| 0 <= i < s1.len() && predicate_has_old(#[trigger] s1[i]);
        assert(predicate_has_old(s2[i]));
    }
    if predicates_have_old(s2) {
        let i = choose|i: int| 0 <= i < s2.len() && predicate_has_old(#[trigger] s2[i]);
        assert(predicate_has_old(s1[i]));
    }
    if s1.len() > 0 {
        lemma_same_views_tail(s1, s2);
        lemma_predicate_by_view(s1[0], s2[0], env, kind);
        lemma_predicates_by_view(s1.drop_first(), s2.drop_first(), env, kind);
    }
}

pub proof fn lemma_statement_by_view(s1: VerifyStatement, s2: VerifyStatement, env: Seq<BindingView>, kind: TagKind)
    requires
        s1@ == s2@,
    ensures
        statement_error(s1, env, kind) == statement_error(s2, env, kind),
    decreases s1,
{
    match s1 {
        VerifyStatement::Assert(p1) => match s2 {
            VerifyStatement::Assert(p2) => {
                lemma_predicate_by_view(p1, p2, env, kind);
            },
            _ => {},
        },
        VerifyStatement::Atomic(a1) => match s2 {
            VerifyStatement::Atomic(a2) => {
                lemma_stmt_views_same(a1@, a2@);
                lemma_statements_by_view(a1@, a2@, env, kind);
            },
            _ => {},
        },
        VerifyStatement::Assign { expr: x1, .. } => match s2 {
            VerifyStatement::Assign { expr: x2, .. } => {
                lemma_expr_by_view(x1, x2, env);
            },
            _ => {},
        },
    }
}

pub proof fn lemma_statements_by_view(s1: Seq<VerifyStatement>, s2: Seq<VerifyStatement>, env: Seq<BindingView>, kind: TagKind)
    requires
        same_views(s1, s2),
    ensures
        statements_error(s1, env, kind) == statements_error(s2, env, kind),
    decreases s1,
{
    if s1.len() > 0 {
        lemma_same_views_tail(s1, s2);
        lemma_statement_by_view(s1[0], s2[0], env, kind);
        lemma_statements_by_view(s1.drop_first(), s2.drop_first(), env, kind);
    }
}

pub proof fn lemma_verify_decls_by_view(s1: Seq<VerifyDecl>, s2: Seq<VerifyDecl>, env: Seq<BindingView>, kind: TagKind, intent: Seq<char>)
    requires
        same_views(s1, s2),
    ensures
        verify_decls_error(s1, env, kind) == verify_decls_error(s2, env, kind),
        first_foreign_target(s1, intent) == first_foreign_target(s2, intent),
    decreases s1.len(),
{
    if s1.len() > 0 {
        lemma_same_views_tail(s1, s2);
        lemma_same_views(s1[0].statements@, s2[0].statements@);
        lemma_statements_by_view(s1[0].statements@, s2[0].statements@, env, kind);
        lemma_verify_decls_by_view(s1.drop_first(), s2.drop_first(), env, kind, intent);
    }
}

// ── parameters and their types ───────────────────────────────────────────────

pub proof fn lemma_type_head_by_view(t1: TypeNode, t2: TypeNode)
    requires
        t1@ == t2@,
    ensures
        type_head(t1) == type_head(t2),
        t1 is Temporal <==> t2 is Temporal,
        t1 is Temporal ==> state_name(t1->Temporal_0) == state_name(t2->Temporal_0),
    decreases t1,
{
    match t1 {
        TypeNode::Temporal(a) => match t2 {
            TypeNode::Temporal(b) => match a {
                TemporalType::Fresh { inner: i1, .. } => match b {
                    TemporalType::Fresh { inner: i2, .. } => lemma_type_head_by_view(*i1, *i2),
                    _ => {},
                },
                TemporalType::Expiring { inner: i1, .. } => match b {
                    TemporalType::Expiring { inner: i2, .. } => lemma_type_head_by_view(*i1, *i2),
                    _ => {},
                },
                TemporalType::Stale(i1) => match b {
                    TemporalType::Stale(i2) => lemma_type_head_by_view(*i1, *i2),
                    _ => {},
                },
            },
            _ => {},
        },
        _ => {},
    }
}

/// Parameter lists with the same views make the same bindings and have the
/// same first refined-type predicate that mentions old().
pub proof fn lemma_params_by_view(s1: Seq<Param>, s2: Seq<Param>)
    requires
        same_views(s1, s2),
    ensures
        context_bindings(s1) == context_bindings(s2),
        temporal_bindings(s1) == temporal_bindings(s2),
        first_refined_old(s1) == first_refined_old(s2),
    decreases s1.len(),
{
    if s1.len() > 0 {
        lemma_same_views_tail(s1, s2);
        lemma_params_by_view(s1.drop_last(), s2.drop_last());
        lemma_params_by_view(s1.drop_first(), s2.drop_first());
        let (a, b) = (s1.last(), s2.last());
        lemma_type_head_by_view(a.ty, b.ty);
        let (f, g) = (s1[0], s2[0]);
        match (f.ty, g.ty) {
            (TypeNode::Refined { predicate: p1, .. }, TypeNode::Refined { predicate: p2, .. }) => {
                lemma_predicate_by_view(*p1, *p2, Seq::empty(), TagKind::Context);
            },
            _ => {},
        }
    }
}

// ── assumption blocks ────────────────────────────────────────────────────────

proof fn lemma_section_by_view(a: AssumptionSection, b: AssumptionSection)
    requires
        a@ == b@,
    ensures
        section_kind(a) == section_kind(b),
        same_views(section_fields(a), section_fields(b)),
{
    match (a, b) {
        (AssumptionSection::ValidatedBy(x), AssumptionSection::ValidatedBy(y)) => {
            lemma_same_views(x.fields@, y.fields@);
        },
        _ => {},
    }
}

proof fn lemma_fields_by_view(f1: Seq<ValidatedByField>, f2: Seq<ValidatedByField>, j: int)
    requires
        same_views(f1, f2),
    ensures
        first_repeated_field(f1, j) == first_repeated_field(f2, j),
        first_bad_confidence_field(f1, j) == first_bad_confidence_field(f2, j),
        forall|i: int| 0 <= i < f1.len() ==> field_kind(#[trigger] f1[i]) == field_kind(f2[i]),
        first_repeated_field(f1, j) matches Some(i) ==> 0 <= i < f1.len(),
    decreases f1.len() - j,
{
    assert forall|i: int| 0 <= i < f1.len() implies field_kind(#[trigger] f1[i]) == field_kind(f2[i]) by {
        assert(f1[i]@ == f2[i]@);
    }
    if 0 <= j < f1.len() {
        assert(f1[j]@ == f2[j]@);
        if repeats_field(f1, j) {
            let i = choose|i: int| 0 <= i < j && field_kind(#[trigger] f1[i]) == field_kind(f1[j]);
            assert(field_kind(f2[i]) == field_kind(f2[j]));
        }
        if repeats_field(f2, j) {
            let i = choose|i: int| 0 <= i < j && field_kind(#[trigger] f2[i]) == field_kind(f2[j]);
            assert(field_kind(f1[i]) == field_kind(f1[j]));
        }
        lemma_fields_by_view(f1, f2, j + 1);
    }
}

proof fn lemma_sections_by_view(s1: Seq<AssumptionSection>, s2: Seq<AssumptionSection>, k: int)
    requires
        same_views(s1, s2),
    ensures
        first_repeated_section(s1, k) == first_repeated_section(s2, k),
        first_field_repeat(s1, k) == first_field_repeat(s2, k),
        first_bad_confidence(s1, k) == first_bad_confidence(s2, k),
        forall|i: int| 0 <= i < s1.len() ==> section_kind(#[trigger] s1[i]) == section_kind(s2[i]),
        first_repeated_section(s1, k) matches Some(j) ==> 0 <= j < s1.len(),
        first_field_repeat(s1, k) matches Some((a, b)) ==> 0 <= a < s1.len() && first_repeated_field(section_fields(s1[a]), 0) == Some(b),
    decreases s1.len() - k,
{
    assert forall|i: int| 0 <= i < s1.len() implies section_kind(#[trigger] s1[i]) == section_kind(s2[i]) by {
        assert(s1[i]@ == s2[i]@);
        lemma_section_by_view(s1[i], s2[i]);
    }
    if 0 <= k < s1.len() {
        assert(s1[k]@ == s2[k]@);
        lemma_section_by_view(s1[k], s2[k]);
        lemma_fields_by_view(section_fields(s1[k]), section_fields(s2[k]), 0);
        if repeats_section(s1, k) {
            let i = choose|i: int| 0 <= i < k && section_kind(#[trigger] s1[i]) == section_kind(s1[k]);
            assert(section_kind(s2[i]) == section_kind(s2[k]));
        }
        if repeats_section(s2, k) {
            let i = choose|i: int| 0 <= i < k && section_kind(#[trigger] s2[i]) == section_kind(s2[k]);
            assert(section_kind(s1[i]) == section_kind(s1[k]));
        }
        lemma_sections_by_view(s1, s2, k + 1);
    }
}

/// Assumption blocks with the same view break the same rule.
pub proof fn lemma_assumption_by_view(a1: AssumptionNode, a2: AssumptionNode)
    requires
        a1@ == a2@,
    ensures
        assumption_error(a1) == assumption_error(a2),
{
    let (s1, s2) = (a1.sections@, a2.sections@);
    lemma_same_views(s1, s2);
    lemma_sections_by_view(s1, s2, 0);
    match first_repeated_section(s1, 0) {
        Some(j) => {
            assert(s1[j]@ == s2[j]@);
            assert(section_kind(s1[j]) == section_kind(s2[j]));
        },
        None => match first_field_repeat(s1, 0) {
            Some((k, j)) => {
                assert(s1[k]@ == s2[k]@);
                lemma_section_by_view(s1[k], s2[k]);
                lemma_fields_by_view(section_fields(s1[k]), section_fields(s2[k]), 0);
                assert(field_kind(section_fields(s1[k])[j]) == field_kind(section_fields(s2[k])[j]));
            },
            None => {},
        },
    }
}

// ── declarations and programs ────────────────────────────────────────────────

/// Declarations with the same view break the same rule, mix the same contexts
/// and mix the same temporal states.
pub proof fn lemma_declaration_by_view(d1: Declaration, d2: Declaration)
    requires
        d1@ == d2@,
    ensures
        declaration_rule_error(d1) == declaration_rule_error(d2),
        declaration_context_error(d1) == declaration_context_error(d2),
        declaration_temporal_error(d1) == declaration_temporal_error(d2),
{
    let (i1, i2) = (d1.intent, d2.intent);
    lemma_same_views(i1.inputs@, i2.inputs@);
    lemma_same_views(i1.outputs@, i2.outputs@);
    lemma_same_views(i1.preconditions@, i2.preconditions@);
    lemma_same_views(i1.postconditions@, i2.postconditions@);
    lemma_same_views(i1.invariants@, i2.invariants@);
    lemma_same_views(d1.proof.verify_decls@, d2.proof.verify_decls@);
    lemma_same_views_concat(i1.inputs@, i1.outputs@, i2.inputs@, i2.outputs@);
    let ps1 = i1.inputs@ + i1.outputs@;
    let ps2 = i2.inputs@ + i2.outputs@;
    lemma_params_by_view(ps1, ps2);
    lemma_assumption_by_view(d1.assumption, d2.assumption);
    let name = i1.name@;
    lemma_predicates_by_view(i1.preconditions@, i2.preconditions@, Seq::empty(), TagKind::Context);
    lemma_predicates_by_view(i1.invariants@, i2.invariants@, Seq::empty(), TagKind::Context);
    lemma_verify_decls_by_view(d1.proof.verify_decls@, d2.proof.verify_decls@, Seq::empty(), TagKind::Context, name);
    let envs = seq![context_bindings(ps1), temporal_bindings(ps1)];
    let kinds = seq![TagKind::Context, TagKind::Temporal];
    assert forall|k: int| 0 <= k < 2 implies #[trigger] declaration_tag_error(d1, envs[k], kinds[k])
        == declaration_tag_error(d2, envs[k], kinds[k]) by {
        lemma_predicates_by_view(i1.preconditions@, i2.preconditions@, envs[k], kinds[k]);
        lemma_predicates_by_view(i1.postconditions@, i2.postconditions@, envs[k], kinds[k]);
        lemma_predicates_by_view(i1.invariants@, i2.invariants@, envs[k], kinds[k]);
        lemma_verify_decls_by_view(d1.proof.verify_decls@, d2.proof.verify_decls@, envs[k], kinds[k], name);
    }
    assert(declaration_tag_error(d1, envs[0], kinds[0]) == declaration_tag_error(d2, envs[0], kinds[0]));
    assert(declaration_tag_error(d1, envs[1], kinds[1]) == declaration_tag_error(d2, envs[1], kinds[1]));
}

pub proof fn lemma_declarations_by_view(s1: Seq<Declaration>, s2: Seq<Declaration>)
    requires
        same_views(s1, s2),
    ensures
        rules_error(s1) == rules_error(s2),
        context_error(s1) == context_error(s2),
        temporal_error(s1) == temporal_error(s2),
    decreases s1.len(),
{
    if s1.len() > 0 {
        lemma_same_views_tail(s1, s2);
        lemma_declaration_by_view(s1[0], s2[0]);
        lemma_declarations_by_view(s1.drop_first(), s2.drop_first());
    }
}

/// The type checker's verdict depends on a program only through its view:
/// two programs with the same model get the same diagnostic, or none.
pub proof fn lemma_check_error_by_view(p: Program, q: Program)
    requires
        p@ == q@,
    ensures
        check_error(p) == check_error(q),
{
    lemma_same_views(p.declarations@, q.declarations@);
    lemma_declarations_by_view(p.declarations@, q.declarations@);
}

// ── what the coverage score is computed from ─────────────────────────────────

/// The text of an optional literal.
pub open spec fn text_of(o: Option<String>) -> Option<Seq<char>> {
    match o {
        Some(t) => Some(t@),
        None => None,
    }
}

/// `x` and `y` hold the same inputs of the coverage score: the same edge case
/// count and, block by block, the same weighting (confidence literals by their text).
pub open spec fn same_inputs(x: AcsInputs, y: AcsInputs) -> bool {
    &&& x.edge_cases == y.edge_cases
    &&& x.weightings@.len() == y.weightings@.len()
    &&& forall|i: int| 0 <= i < x.weightings@.len() ==> {
        let (a, b) = (#[trigger] x.weightings@[i], y.weightings@[i]);
        &&& a.linked == b.linked
        &&& a.method == b.method
        &&& text_of(a.confidence) == text_of(b.confidence)
        &&& a.strings == b.strings
    }
}

proof fn lemma_counts_by_view(s1: Seq<Param>, s2: Seq<Param>)
    requires
        same_views(s1, s2),
    ensures
        refined_count(s1) == refined_count(s2),
        contextual_bases(s1) == contextual_bases(s2),
    decreases s1.len(),
{
    if s1.len() > 0 {
        lemma_same_views_tail(s1, s2);
        lemma_counts_by_view(s1.drop_last(), s2.drop_last());
    }
}

proof fn lemma_old_count_by_view(s1: Seq<PredicateNode>, s2: Seq<PredicateNode>)
    requires
        same_views(s1, s2),
    ensures
        old_count(s1) == old_count(s2),
    decreases s1.len(),
{
    if s1.len() > 0 {
        lemma_same_views_tail(s1, s2);
        lemma_predicate_by_view(s1.last(), s2.last(), Seq::empty(), TagKind::Context);
        lemma_old_count_by_view(s1.drop_last(), s2.drop_last());
    }
}

proof fn lemma_intent_edge_cases_by_view(i1: IntentNode, i2: IntentNode)
    requires
        i1@ == i2@,
    ensures
        intent_edge_cases(i1) == intent_edge_cases(i2),
{
    lemma_same_views(i1.inputs@, i2.inputs@);
    lemma_same_views(i1.outputs@, i2.outputs@);
    lemma_same_views(i1.postconditions@, i2.postconditions@);
    lemma_same_views(i1.preconditions@, i2.preconditions@);
    lemma_same_views(i1.never@, i2.never@);
    lemma_same_views_concat(i1.inputs@, i1.outputs@, i2.inputs@, i2.outputs@);
    lemma_counts_by_view(i1.inputs@ + i1.outputs@, i2.inputs@ + i2.outputs@);
    lemma_counts_by_view(i1.inputs@, i2.inputs@);
    lemma_old_count_by_view(i1.postconditions@, i2.postconditions@);
}

proof fn lemma_edge_cases_by_view(s1: Seq<Declaration>, s2: Seq<Declaration>)
    requires
        same_views(s1, s2),
    ensures
        edge_cases(s1) == edge_cases(s2),
    decreases s1.len(),
{
    if s1.len() > 0 {
        lemma_same_views_tail(s1, s2);
        lemma_intent_edge_cases_by_view(s1.last().intent, s2.last().intent);
        lemma_edge_cases_by_view(s1.drop_last(), s2.drop_last());
    }
}

proof fn lemma_last_fields_by_view(f1: Seq<ValidatedByField>, f2: Seq<ValidatedByField>)
    requires
        same_views(f1, f2),
    ensures
        last_method_field(f1) == last_method_field(f2),
        text_of(last_confidence_field(f1)) == text_of(last_confidence_field(f2)),
    decreases f1.len(),
{
    if f1.len() > 0 {
        lemma_same_views_tail(f1, f2);
        lemma_last_fields_by_view(f1.drop_last(), f2.drop_last());
    }
}

proof fn lemma_weighting_by_view(s1: Seq<AssumptionSection>, s2: Seq<AssumptionSection>)
    requires
        same_views(s1, s2),
    ensures
        is_linked(s1) == is_linked(s2),
        last_method(s1) == last_method(s2),
        text_of(last_confidence(s1)) == text_of(last_confidence(s2)),
        string_count(s1) == string_count(s2),
        forall|t: Seq<char>| has_string(s1, t) == has_string(s2, t),
    decreases s1.len(),
{
    assert forall|i: int| 0 <= i < s1.len() implies (#[trigger] s1[i] matches AssumptionSection::ContextSource(refs) && refs@.len() > 0)
        == (s2[i] matches AssumptionSection::ContextSource(refs) && refs@.len() > 0) by {
        assert(s1[i]@ == s2[i]@);
        match (s1[i], s2[i]) {
            (AssumptionSection::ContextSource(a), AssumptionSection::ContextSource(b)) => {
                assert(views(a@).len() == a@.len());
                assert(views(b@).len() == b@.len());
            },
            _ => {},
        }
    }
    assert forall|t: Seq<char>| has_string(s1, t) == has_string(s2, t) by {
        assert forall|i: int| 0 <= i < s1.len() implies (#[trigger] s1[i] matches AssumptionSection::StringAssumption(u) && u@ == t)
            == (s2[i] matches AssumptionSection::StringAssumption(u) && u@ == t) by {
            assert(s1[i]@ == s2[i]@);
        }
        if has_string(s1, t) {
            let i = choose|i: int| 0 <= i < s1.len() && (#[trigger] s1[i] matches AssumptionSection::StringAssumption(u) && u@ == t);
            assert(s2[i] matches AssumptionSection::StringAssumption(u) && u@ == t);
        }
        if has_string(s2, t) {
            let i = choose|i: int| 0 <= i < s2.len() && (#[trigger] s2[i] matches AssumptionSection::StringAssumption(u) && u@ == t);
            assert(s1[i] matches AssumptionSection::StringAssumption(u) && u@ == t);
        }
    }
    if is_linked(s1) {
        let i = choose|i: int| 0 <= i < s1.len() && (#[trigger] s1[i] matches AssumptionSection::ContextSource(refs) && refs@.len() > 0);
        assert(s2[i] matches AssumptionSection::ContextSource(refs) && refs@.len() > 0);
    }
    if is_linked(s2) {
        let i = choose|i: int| 0 <= i < s2.len() && (#[trigger] s2[i] matches AssumptionSection::ContextSource(refs) && refs@.len() > 0);
        assert(s1[i] matches AssumptionSection::ContextSource(refs) && refs@.len() > 0);
    }
    if s1.len() > 0 {
        lemma_same_views_tail(s1, s2);
        lemma_weighting_by_view(s1.drop_last(), s2.drop_last());
        lemma_section_by_view(s1.last(), s2.last());
        match (s1.last(), s2.last()) {
            (AssumptionSection::ValidatedBy(a), AssumptionSection::ValidatedBy(b)) => {
                lemma_last_fields_by_view(a.fields@, b.fields@);
            },
            _ => {},
        }
    }
}

/// What the coverage score is computed from depends on a program only
/// through its view: the inputs extracted from two programs with the same
/// model are the same.
pub proof fn lemma_inputs_by_view(x: AcsInputs, y: AcsInputs, p: Program, q: Program)
    requires
        inputs_of(x, p),
        inputs_of(y, q),
        p@ == q@,
    ensures
        same_inputs(x, y),
{
    let (d1, d2) = (p.declarations@, q.declarations@);
    lemma_same_views(d1, d2);
    lemma_edge_cases_by_view(d1, d2);
    assert forall|i: int| 0 <= i < x.weightings@.len() implies {
        let (a, b) = (#[trigger] x.weightings@[i], y.weightings@[i]);
        &&& a.linked == b.linked
        &&& a.method == b.method
        &&& text_of(a.confidence) == text_of(b.confidence)
        &&& a.strings == b.strings
    } by {
        assert(d1[i]@ == d2[i]@);
        lemma_same_views(d1[i].assumption.sections@, d2[i].assumption.sections@);
        lemma_weighting_by_view(d1[i].assumption.sections@, d2[i].assumption.sections@);
    }
}

} // verus!
