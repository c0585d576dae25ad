//! Temporal type checking.
//!
//! Tracks the three temporal states `Fresh`, `Expiring` and `Stale`. Using
//! `Stale<T>` where `Fresh<T, d>` is required is a type error, and
//! `Expiring<T, d>` cannot be silently passed as `Fresh<T, d>`: two parameters
//! whose temporal types wrap the same base type in different states cannot
//! appear together in the same predicate comparison or verify-block
//! expression. Durations play no part (two `Fresh` values of different
//! durations agree).

use vstd::prelude::*;
use crate::errors::{CompilerError, type_outcome, first_of};
use crate::fir::{Declaration, Param, Program, TemporalType, TypeNode};
use crate::fir::{ComparisonOp, ExprNode, PredicateNode};
use crate::typeck::contextual::{
    Binding, BindingView, TagKind, check_declaration_tags, declaration_tag_error, env_view,
    env_consistent, expr_tags, has_clash, in_env, lemma_consistent_declaration_accepted,
    lemma_expr_tags_from, lemma_first_clash_exists, lemma_predicates_error_some,
    lemma_tags_from_concat, predicate_error, predicates_error,
};

verus! {

/// The identifier that heads a type: the base type, looking through temporal wrappers.
pub open spec fn type_head(t: TypeNode) -> Seq<char>
    decreases t,
{
    match t {
        TypeNode::Base(s) => s@,
        TypeNode::Refined { base, .. } => base@,
        TypeNode::Dependent { base, .. } => base@,
        TypeNode::Contextual { base, .. } => base@,
        TypeNode::Temporal(tt) => match tt {
            TemporalType::Fresh { inner, .. } => type_head(*inner),
            TemporalType::Expiring { inner, .. } => type_head(*inner),
            TemporalType::Stale(inner) => type_head(*inner),
        },
    }
}

/// The name of a temporal state.
pub open spec fn state_name(t: TemporalType) -> Seq<char> {
    match t {
        TemporalType::Fresh { .. } => "Fresh"@,
        TemporalType::Expiring { .. } => "Expiring"@,
        TemporalType::Stale(_) => "Stale"@,
    }
}

/// The three temporal states are told apart: two temporal types get the same
/// state name exactly when they are in the same state (`Fresh`, `Expiring`
/// or `Stale`), whatever they wrap and for however long.
pub proof fn lemma_states_told_apart(a: TemporalType, b: TemporalType)
    ensures
        state_name(a) == state_name(b) <==> ((a is Fresh && b is Fresh) || (a is Expiring && b is Expiring) || (a is Stale && b is Stale)),
{
    reveal_strlit("Fresh");
    reveal_strlit("Expiring");
    reveal_strlit("Stale");
    let (x, y) = (state_name(a), state_name(b));
    if x.len() == y.len() && x.len() > 0 {
        assert(x[0] == state_name(a)[0]);
        assert(y[0] == state_name(b)[0]);
    }
}

/// The bindings that the temporal parameters among `params` make, in order:
/// the parameter's name, the base type its temporal type wraps, and its state.
pub open spec fn temporal_bindings(params: Seq<Param>) -> Seq<BindingView>
    decreases params.len(),
{
    if params.len() == 0 {
        Seq::empty()
    } else {
        let rest = temporal_bindings(params.drop_last());
        match params.last().ty {
            TypeNode::Temporal(t) => rest.push(
                (params.last().name@, type_head(params.last().ty), state_name(t)),
            ),
            _ => rest,
        }
    }
}

/// A temporal parameter binds its name to the base type its temporal type
/// wraps (looking through nested wrappers) with its state as the tag; a
/// parameter of any other type binds nothing.
pub proof fn lemma_temporal_binding_of_param(ps: Seq<Param>, p: Param, t: TypeNode, d: crate::fir::Duration)
    ensures
        p.ty matches TypeNode::Temporal(tt) ==> temporal_bindings(ps.push(p))
            == temporal_bindings(ps).push((p.name@, type_head(p.ty), state_name(tt))),
        !(p.ty is Temporal) ==> temporal_bindings(ps.push(p)) == temporal_bindings(ps),
        type_head(TypeNode::Temporal(TemporalType::Fresh { inner: Box::new(t), duration: d })) == type_head(t),
        type_head(TypeNode::Temporal(TemporalType::Expiring { inner: Box::new(t), duration: d })) == type_head(t),
        type_head(TypeNode::Temporal(TemporalType::Stale(Box::new(t)))) == type_head(t),
{
    assert(ps.push(p).drop_last() =~= ps);
}

pub open spec fn declaration_temporal_error(d: Declaration) -> Option<Seq<char>> {
    declaration_tag_error(d, temporal_bindings(d.intent.inputs@ + d.intent.outputs@), TagKind::Temporal)
}

/// The diagnostic of the first declaration that mixes temporal states, if any.
pub open spec fn temporal_error(ds: Seq<Declaration>) -> Option<Seq<char>>
    decreases ds.len(),
{
    if ds.len() == 0 {
        None
    } else {
        first_of(declaration_temporal_error(ds[0]), temporal_error(ds.drop_first()))
    }
}

/// The base type that `ty` wraps.
pub fn type_head_name(ty: &TypeNode) -> (r: String)
    ensures
        r@ == type_head(*ty),
    decreases ty,
{
    match ty {
        TypeNode::Base(s) => s.clone(),
        TypeNode::Refined { base, .. } => base.clone(),
        TypeNode::Dependent { base, .. } => base.clone(),
        TypeNode::Contextual { base, .. } => base.clone(),
        TypeNode::Temporal(tt) => match tt {
            TemporalType::Fresh { inner, .. } => type_head_name(inner),
            TemporalType::Expiring { inner, .. } => type_head_name(inner),
            TemporalType::Stale(inner) => type_head_name(inner),
        },
    }
}

fn state_label(t: &TemporalType) -> (r: String)
    ensures
        r@ == state_name(*t),
{
    match t {
        TemporalType::Fresh { .. } => String::from_str("Fresh"),
        TemporalType::Expiring { .. } => String::from_str("Expiring"),
        TemporalType::Stale(_) => String::from_str("Stale"),
    }
}

fn add_temporal_bindings(params: &Vec<Param>, env: &mut Vec<Binding>)
    ensures
        env_view(final(env)@) == env_view(old(env)@) + temporal_bindings(params@),
{
    let mut i: usize = 0;
    while i < params.len()
        invariant
            i <= params@.len(),
            env_view(env@) == env_view(old(env)@) + temporal_bindings(params@.take(i as int)),
        decreases params.len() - i,
    {
        assert(params@.take(i + 1).drop_last() =~= params@.take(i as int));
        let p = &params[i];
        if let TypeNode::Temporal(t) = &p.ty {
            let ghost before = env@;
            let base = type_head_name(&p.ty);
            let tag = state_label(t);
            env.push(Binding { name: p.name.clone(), base, tag });
            assert(env_view(env@) =~= env_view(before).push(
                (p.name@, type_head(p.ty), state_name(*t)),
            ));
        }
        i += 1;
    }
    assert(params@.take(params@.len() as int) =~= params@);
}

proof fn lemma_temporal_bindings_concat(a: Seq<Param>, b: Seq<Param>)
    ensures
        temporal_bindings(a + b) =~= temporal_bindings(a) + temporal_bindings(b),
    decreases b.len(),
{
    if b.len() > 0 {
        lemma_temporal_bindings_concat(a, b.drop_last());
        assert((a + b).drop_last() =~= a + b.drop_last());
    }
}

/// Rejects mixed temporal states of one base type in every declaration of `program`.
pub fn check(program: &Program) -> (r: Result<(), CompilerError>)
    ensures
        type_outcome(r, temporal_error(program.declarations@)),
{
    let decls = &program.declarations;
    let mut i: usize = 0;
    assert(decls@.skip(0) =~= decls@);
    while i < decls.len()
        invariant
            decls == &program.declarations,
            i <= decls@.len(),
            temporal_error(decls@) == temporal_error(decls@.skip(i as int)),
        decreases decls.len() - i,
    {
        assert(decls@.skip(i as int).drop_first() =~= decls@.skip(i + 1));
        let decl = &decls[i];
        let mut env: Vec<Binding> = Vec::new();
        add_temporal_bindings(&decl.intent.inputs, &mut env);
        add_temporal_bindings(&decl.intent.outputs, &mut env);
        proof {
            lemma_temporal_bindings_concat(decl.intent.inputs@, decl.intent.outputs@);
        }
        match check_declaration_tags(decl, &env, TagKind::Temporal) {
            Err(e) => {
                return Err(e);
            },
            Ok(()) => {},
        }
        i += 1;
    }
    Ok(())
}

// ── laws ─────────────────────────────────────────────────────────────────────

/// The bindings that the parameters of `d` make for the temporal check.
pub open spec fn declaration_states(d: Declaration) -> Seq<BindingView> {
    temporal_bindings(d.intent.inputs@ + d.intent.outputs@)
}

proof fn lemma_temporal_error_some(ds: Seq<Declaration>, i: int)
    requires
        0 <= i < ds.len(),
        declaration_temporal_error(ds[i]) is Some,
    ensures
        temporal_error(ds) is Some,
    decreases i,
{
    if i > 0 {
        lemma_temporal_error_some(ds.drop_first(), i - 1);
    }
}

/// A comparison that uses one base type in two temporal states (Stale where
/// Fresh is required, or Expiring passed as Fresh), in a precondition,
/// postcondition or invariant of any declaration, makes the temporal check
/// reject the program.
pub proof fn lemma_mixed_states_rejected(
    ds: Seq<Declaration>,
    i: int,
    left: ExprNode,
    op: ComparisonOp,
    right: ExprNode,
)
    requires
        0 <= i < ds.len(),
        ds[i].intent.preconditions@.contains(PredicateNode::Comparison { left, op, right })
            || ds[i].intent.postconditions@.contains(PredicateNode::Comparison { left, op, right })
            || ds[i].intent.invariants@.contains(PredicateNode::Comparison { left, op, right }),
        has_clash(expr_tags(left, declaration_states(ds[i])) + expr_tags(right, declaration_states(ds[i]))),
    ensures
        temporal_error(ds) is Some,
{
    let d = ds[i];
    let env = declaration_states(d);
    let pred = PredicateNode::Comparison { left, op, right };
    let g = expr_tags(left, env) + expr_tags(right, env);
    lemma_first_clash_exists(g, 0);
    lemma_expr_tags_from(left, env);
    lemma_expr_tags_from(right, env);
    lemma_tags_from_concat(expr_tags(left, env), expr_tags(right, env), env);
    if d.intent.preconditions@.contains(pred) {
        let k = choose|k: int| 0 <= k < d.intent.preconditions@.len() && d.intent.preconditions@[k] == pred;
        lemma_predicates_error_some(d.intent.preconditions@, env, TagKind::Temporal, k);
    } else if d.intent.postconditions@.contains(pred) {
        let k = choose|k: int| 0 <= k < d.intent.postconditions@.len() && d.intent.postconditions@[k] == pred;
        lemma_predicates_error_some(d.intent.postconditions@, env, TagKind::Temporal, k);
    } else {
        let k = choose|k: int| 0 <= k < d.intent.invariants@.len() && d.intent.invariants@[k] == pred;
        lemma_predicates_error_some(d.intent.invariants@, env, TagKind::Temporal, k);
    }
    lemma_temporal_error_some(ds, i);
}

/// A program in which no declaration has two temporal parameters over one
/// base type in different states passes the temporal check (durations play
/// no part: `Fresh<T, 24h>` and `Fresh<T, 48h>` agree).
pub proof fn lemma_consistent_states_accepted(ds: Seq<Declaration>)
    requires
        forall|i: int| 0 <= i < ds.len() ==> env_consistent(#[trigger] declaration_states(ds[i])),
    ensures
        temporal_error(ds) is None,
    decreases ds.len(),
{
    if ds.len() > 0 {
        lemma_consistent_declaration_accepted(ds[0], declaration_states(ds[0]), TagKind::Temporal);
        assert(forall|i: int| 0 <= i < ds.drop_first().len() ==> env_consistent(#[trigger] declaration_states(ds.drop_first()[i])));
        lemma_consistent_states_accepted(ds.drop_first());
    }
}

} // verus!
