//! Contextual type checking.
//!
//! Rejects cross-context arithmetic: two parameters with the same base type
//! but different context tags cannot appear together in the same predicate
//! comparison or verify-block expression. The target of an assignment
//! (`=`, `+=`, `-=`) belongs to the expression it is assigned. No implicit cast exists between
//! contexts; the error is a hard type error.
//!
//! Scope: checks preconditions, postconditions, invariants, and verify-block
//! statements for each declaration.
//!
//! Only top-level parameter names are resolved. Qualified identifiers
//! (`sender.balance`) are resolved by their first segment (`sender`).
//!
//! The walkers here are shared with the temporal check, which tags parameters
//! with a temporal state instead of a context.

use vstd::prelude::*;
use crate::errors::{CompilerError, type_outcome, first_of};
use crate::fir::{Declaration, ExprNode, Param, PredicateNode, Program, TypeNode, VerifyDecl, VerifyStatement};
use crate::text::{join5, join7};

verus! {

/// A parameter name bound to the base type it has and the tag (context or
/// temporal state) that the type gives it.
pub struct Binding {
    pub name: String,
    pub base: String,
    pub tag: String,
}

/// A binding as the specification sees it: (name, base, tag).
pub type BindingView = (Seq<char>, Seq<char>, Seq<char>);

/// A (base, tag) pair as the specification sees it.
pub type TagView = (Seq<char>, Seq<char>);

pub open spec fn env_view(env: Seq<Binding>) -> Seq<BindingView> {
    env.map_values(|b: Binding| (b.name@, b.base@, b.tag@))
}

pub open spec fn pairs_view(pairs: Seq<(String, String)>) -> Seq<TagView> {
    pairs.map_values(|p: (String, String)| (p.0@, p.1@))
}

/// Which kind of tag a check compares; it decides the wording of the error.
#[derive(Debug, Clone, Copy, PartialEq, Eq)]
pub enum TagKind {
    Context,
    Temporal,
}

// ── specification ────────────────────────────────────────────────────────────

/// The part of a qualified name before its first `.` (all of it when it has none).
pub open spec fn first_segment(s: Seq<char>) -> Seq<char>
    decreases s.len(),
{
    if s.len() == 0 {
        s
    } else if s[0] == '.' {
        Seq::empty()
    } else {
        seq![s[0]] + first_segment(s.drop_first())
    }
}

/// The binding that `key` resolves to: the last one made for that name.
pub open spec fn env_lookup(env: Seq<BindingView>, key: Seq<char>) -> Option<BindingView>
    decreases env.len(),
{
    if env.len() == 0 {
        None
    } else if env.last().0 == key {
        Some(env.last())
    } else {
        env_lookup(env.drop_last(), key)
    }
}

/// The bindings that the contextual parameters among `params` make, in order.
pub open spec fn context_bindings(params: Seq<Param>) -> Seq<BindingView>
    decreases params.len(),
{
    if params.len() == 0 {
        Seq::empty()
    } else {
        let rest = context_bindings(params.drop_last());
        match params.last().ty {
            TypeNode::Contextual { base, context } => rest.push((params.last().name@, base@, context@)),
            _ => rest,
        }
    }
}

/// The (base, tag) pairs of the bound identifiers that `e` mentions, left to right.
pub open spec fn expr_tags(e: ExprNode, env: Seq<BindingView>) -> Seq<TagView>
    decreases e,
{
    match e {
        ExprNode::Identifier(name) => name_tags(name@, env),
        ExprNode::OldValue(name) => name_tags(name@, env),
        ExprNode::BinOp { left, right, .. } => expr_tags(*left, env) + expr_tags(*right, env),
        ExprNode::FunctionCall { args, .. } => exprs_tags(args@, env),
        _ => Seq::empty(),
    }
}

pub open spec fn name_tags(name: Seq<char>, env: Seq<BindingView>) -> Seq<TagView> {
    match env_lookup(env, first_segment(name)) {
        Some(b) => seq![(b.1, b.2)],
        None => Seq::empty(),
    }
}

pub open spec fn exprs_tags(s: Seq<ExprNode>, env: Seq<BindingView>) -> Seq<TagView>
    decreases s,
{
    if s.len() == 0 {
        Seq::empty()
    } else {
        expr_tags(s[0], env) + exprs_tags(s.drop_first(), env)
    }
}

/// Entries `i` and `j` share a base type and differ in tag.
pub open spec fn clash(g: Seq<TagView>, i: int, j: int) -> bool {
    g[i].0 == g[j].0 && g[i].1 != g[j].1
}

/// The first `j` from `j` on that clashes with entry `i`.
pub open spec fn clash_partner(g: Seq<TagView>, i: int, j: int) -> Option<int>
    decreases g.len() - j,
{
    if j < 0 || j >= g.len() {
        None
    } else if clash(g, i, j) {
        Some(j)
    } else {
        clash_partner(g, i, j + 1)
    }
}

/// The first clashing pair `(i, j)`, `i < j`, in lexicographic order, with `i` from `i` on.
pub open spec fn first_clash(g: Seq<TagView>, i: int) -> Option<(int, int)>
    decreases g.len() - i,
{
    if i < 0 || i >= g.len() {
        None
    } else {
        match clash_partner(g, i, i + 1) {
            Some(j) => Some((i, j)),
            None => first_clash(g, i + 1),
        }
    }
}

/// The diagnostic for base type `base` seen with tags `t1` and `t2`.
pub open spec fn clash_message(kind: TagKind, base: Seq<char>, t1: Seq<char>, t2: Seq<char>) -> Seq<char> {
    match kind {
        TagKind::Context => "cross-context arithmetic: type '"@ + base + "' is used in context '"@
            + t1 + "' and context '"@ + t2 + "' within the same expression"@,
        TagKind::Temporal => "temporal state conflict: type '"@ + base + "' is used as "@ + t1
            + " and "@ + t2 + " within the same expression"@,
    }
}

/// The diagnostic owed for one expression whose tags are `g`, if any.
pub open spec fn group_error(g: Seq<TagView>, kind: TagKind) -> Option<Seq<char>> {
    match first_clash(g, 0) {
        Some((i, j)) => Some(clash_message(kind, g[i].0, g[i].1, g[j].1)),
        None => None,
    }
}

pub open spec fn predicate_error(p: PredicateNode, env: Seq<BindingView>, kind: TagKind) -> Option<Seq<char>>
    decreases p,
{
    match p {
        PredicateNode::Comparison { left, right, .. } => group_error(
            expr_tags(left, env) + expr_tags(right, env),
            kind,
        ),
        PredicateNode::And(a, b) => first_of(predicate_error(*a, env, kind), predicate_error(*b, env, kind)),
        PredicateNode::Or(a, b) => first_of(predicate_error(*a, env, kind), predicate_error(*b, env, kind)),
        PredicateNode::Not(q) => predicate_error(*q, env, kind),
        PredicateNode::Forall { body, .. } => predicate_error(*body, env, kind),
        PredicateNode::Exists { body, .. } => predicate_error(*body, env, kind),
    }
}

pub open spec fn predicates_error(s: Seq<PredicateNode>, env: Seq<BindingView>, kind: TagKind) -> Option<Seq<char>>
    decreases s.len(),
{
    if s.len() == 0 {
        None
    } else {
        first_of(predicate_error(s[0], env, kind), predicates_error(s.drop_first(), env, kind))
    }
}

pub open spec fn statement_error(s: VerifyStatement, env: Seq<BindingView>, kind: TagKind) -> Option<Seq<char>>
    decreases s,
{
    match s {
        VerifyStatement::Assert(p) => predicate_error(p, env, kind),
        VerifyStatement::Atomic(stmts) => statements_error(stmts@, env, kind),
        VerifyStatement::Assign { target, expr, .. } => group_error(name_tags(target@, env) + expr_tags(expr, env), kind),
    }
}

pub open spec fn statements_error(s: Seq<VerifyStatement>, env: Seq<BindingView>, kind: TagKind) -> Option<Seq<char>>
    decreases s,
{
    if s.len() == 0 {
        None
    } else {
        first_of(statement_error(s[0], env, kind), statements_error(s.drop_first(), env, kind))
    }
}

pub open spec fn verify_decls_error(s: Seq<VerifyDecl>, env: Seq<BindingView>, kind: TagKind) -> Option<Seq<char>>
    decreases s.len(),
{
    if s.len() == 0 {
        None
    } else {
        first_of(statements_error(s[0].statements@, env, kind), verify_decls_error(s.drop_first(), env, kind))
    }
}

/// The diagnostic owed for one declaration, given the bindings its parameters make.
pub open spec fn declaration_tag_error(d: Declaration, env: Seq<BindingView>, kind: TagKind) -> Option<Seq<char>> {
    if env.len() == 0 {
        None
    } else {
        first_of(
            predicates_error(d.intent.preconditions@, env, kind),
            first_of(
                predicates_error(d.intent.postconditions@, env, kind),
                first_of(
                    predicates_error(d.intent.invariants@, env, kind),
                    verify_decls_error(d.proof.verify_decls@, env, kind),
                ),
            ),
        )
    }
}

pub open spec fn declaration_context_error(d: Declaration) -> Option<Seq<char>> {
    declaration_tag_error(d, context_bindings(d.intent.inputs@ + d.intent.outputs@), TagKind::Context)
}

/// The diagnostic of the first declaration that mixes contexts, if any.
pub open spec fn context_error(ds: Seq<Declaration>) -> Option<Seq<char>>
    decreases ds.len(),
{
    if ds.len() == 0 {
        None
    } else {
        first_of(declaration_context_error(ds[0]), context_error(ds.drop_first()))
    }
}

// ── lemmas ───────────────────────────────────────────────────────────────────

proof fn lemma_first_segment_prefix(s: Seq<char>, i: int)
    requires
        0 <= i <= s.len(),
        forall|k: int| 0 <= k < i ==> s[k] != '.',
        i == s.len() || s[i] == '.',
    ensures
        first_segment(s) =~= s.take(i),
    decreases s.len(),
{
    if s.len() > 0 && i > 0 {
        lemma_first_segment_prefix(s.drop_first(), i - 1);
    }
}

/// A name resolves by the part before its first `.` (`sender.balance` by
/// `sender`), to the binding made last for that part.
pub proof fn lemma_name_resolution(env: Seq<BindingView>, b: BindingView, n: Seq<char>, m: Seq<char>)
    requires
        forall|k: int| 0 <= k < n.len() ==> n[k] != '.',
    ensures
        first_segment(n) == n,
        first_segment(n + seq!['.'] + m) == n,
        env_lookup(env.push(b), b.0) == Some(b),
        env_lookup(env.push(b), n) == if b.0 == n { Some(b) } else { env_lookup(env, n) },
{
    lemma_first_segment_prefix(n, n.len() as int);
    assert(n.take(n.len() as int) =~= n);
    let t = n + seq!['.'] + m;
    assert forall|k: int| 0 <= k < n.len() implies t[k] != '.' by {
        assert(t[k] == n[k]);
    }
    lemma_first_segment_prefix(t, n.len() as int);
    assert(t.take(n.len() as int) =~= n);
    assert(env.push(b).drop_last() =~= env);
}

/// A contextual parameter `x : B<C>` binds `x` to base type `B` with tag `C`;
/// a parameter of any other type binds nothing.
pub proof fn lemma_context_binding_of_param(ps: Seq<Param>, p: Param)
    ensures
        p.ty matches TypeNode::Contextual { base, context } ==> context_bindings(ps.push(p))
            == context_bindings(ps).push((p.name@, base@, context@)),
        !(p.ty is Contextual) ==> context_bindings(ps.push(p)) == context_bindings(ps),
{
    assert(ps.push(p).drop_last() =~= ps);
}

// ── environment ──────────────────────────────────────────────────────────────

/// Binds each contextual parameter among `params` to its base type and context.
fn add_context_bindings(params: &Vec<Param>, env: &mut Vec<Binding>)
    ensures
        env_view(final(env)@) == env_view(old(env)@) + context_bindings(params@),
{
    let mut i: usize = 0;
    while i < params.len()
        invariant
            i <= params@.len(),
            env_view(env@) == env_view(old(env)@) + context_bindings(params@.take(i as int)),
        decreases params.len() - i,
    {
        assert(params@.take(i + 1).drop_last() =~= params@.take(i as int));
        let p = &params[i];
        if let TypeNode::Contextual { base, context } = &p.ty {
            let ghost before = env@;
            env.push(Binding { name: p.name.clone(), base: base.clone(), tag: context.clone() });
            assert(env_view(env@) =~= env_view(before).push((p.name@, base@, context@)));
        }
        i += 1;
    }
    assert(params@.take(params@.len() as int) =~= params@);
}

/// Index of the binding that `key` resolves to (the last one made for it).
pub fn lookup(env: &Vec<Binding>, key: &String) -> (r: Option<usize>)
    ensures
        match r {
            Some(i) => i < env@.len() && env_lookup(env_view(env@), key@) == Some(env_view(env@)[i as int]),
            None => env_lookup(env_view(env@), key@) is None,
        },
{
    let mut i = env.len();
    let ghost ev = env_view(env@);
    assert(ev.take(i as int) =~= ev);
    while i > 0
        invariant
            i <= env@.len(),
            ev == env_view(env@),
            env_lookup(ev, key@) == env_lookup(ev.take(i as int), key@),
        decreases i,
    {
        assert(ev.take(i as int).drop_last() =~= ev.take(i - 1));
        if env[i - 1].name == *key {
            return Some(i - 1);
        }
        i -= 1;
    }
    None
}

/// The part of `name` before its first `.`.
pub fn first_name_segment(name: &String) -> (r: String)
    ensures
        r@ == first_segment(name@),
{
    let s = name.as_str();
    let n = s.unicode_len();
    let mut i: usize = 0;
    while i < n && s.get_char(i) != '.'
        invariant
            i <= n,
            n == s@.len(),
            s@ == name@,
            forall|k: int| 0 <= k < i ==> s@[k] != '.',
        decreases n - i,
    {
        i += 1;
    }
    proof {
        lemma_first_segment_prefix(name@, i as int);
    }
    String::from_str(s.substring_char(0, i))
}

// ── expression walker ────────────────────────────────────────────────────────

/// Appends to `out` the (base, tag) pairs of the bound identifiers in `expr`.
#[verifier::loop_isolation(false)]
pub fn collect_ctx(expr: &ExprNode, env: &Vec<Binding>, out: &mut Vec<(String, String)>)
    ensures
        pairs_view(final(out)@) == pairs_view(old(out)@) + expr_tags(*expr, env_view(env@)),
    decreases expr,
{
    match expr {
        ExprNode::Identifier(name) | ExprNode::OldValue(name) => {
            let key = first_name_segment(name);
            match lookup(env, &key) {
                Some(i) => {
                    out.push((env[i].base.clone(), env[i].tag.clone()));
                },
                None => {},
            }
        },
        ExprNode::BinOp { left, right, .. } => {
            collect_ctx(left, env, out);
            collect_ctx(right, env, out);
        },
        ExprNode::FunctionCall { args, .. } => {
            let mut i: usize = 0;
            let ghost start = out@;
            while i < args.len()
                invariant
                    i <= args@.len(),
                    pairs_view(out@) == pairs_view(start) + exprs_tags_prefix(args@, i as int, env_view(env@)),
                decreases args.len() - i,
            {
                collect_ctx(&args[i], env, out);
                proof { lemma_exprs_tags_prefix_step(args@, i as int, env_view(env@)); }
                i += 1;
            }
            proof { lemma_exprs_tags_prefix_all(args@, env_view(env@)); }
        },
        _ => {},
    }
}

/// The pairs of the first `i` expressions of `s`.
pub open spec fn exprs_tags_prefix(s: Seq<ExprNode>, i: int, env: Seq<BindingView>) -> Seq<TagView>
    decreases i,
{
    if i <= 0 {
        Seq::empty()
    } else {
        exprs_tags_prefix(s, i - 1, env) + expr_tags(s[i - 1], env)
    }
}

proof fn lemma_exprs_tags_prefix_step(s: Seq<ExprNode>, i: int, env: Seq<BindingView>)
    requires
        0 <= i < s.len(),
    ensures
        exprs_tags_prefix(s, i + 1, env) == exprs_tags_prefix(s, i, env) + expr_tags(s[i], env),
{
}

proof fn lemma_exprs_tags_split(s: Seq<ExprNode>, i: int, env: Seq<BindingView>)
    requires
        0 <= i <= s.len(),
    ensures
        exprs_tags(s, env) =~= exprs_tags_prefix(s, i, env) + exprs_tags(s.skip(i), env),
    decreases i,
{
    if i > 0 {
        lemma_exprs_tags_split(s, i - 1, env);
        let t = s.skip(i - 1);
        assert(t.drop_first() =~= s.skip(i));
    } else {
        assert(s.skip(0) =~= s);
    }
}

proof fn lemma_exprs_tags_prefix_all(s: Seq<ExprNode>, env: Seq<BindingView>)
    ensures
        exprs_tags(s, env) =~= exprs_tags_prefix(s, s.len() as int, env),
{
    lemma_exprs_tags_split(s, s.len() as int, env);
}

// ── conflict detector ────────────────────────────────────────────────────────

/// The first clashing pair of `pairs`, in lexicographic order of (i, j).
pub fn find_clash(pairs: &Vec<(String, String)>) -> (r: Option<(usize, usize)>)
    ensures
        match r {
            Some((i, j)) => i < j < pairs@.len() && first_clash(pairs_view(pairs@), 0) == Some((i as int, j as int)),
            None => first_clash(pairs_view(pairs@), 0) is None,
        },
{
    let n = pairs.len();
    let mut i: usize = 0;
    while i < n
        invariant
            n == pairs@.len(),
            i <= n,
            first_clash(pairs_view(pairs@), 0) == first_clash(pairs_view(pairs@), i as int),
        decreases n - i,
    {
        let mut j: usize = i + 1;
        while j < n
            invariant
                n == pairs@.len(),
                i < n,
                i + 1 <= j <= n,
                clash_partner(pairs_view(pairs@), i as int, i + 1) == clash_partner(pairs_view(pairs@), i as int, j as int),
                first_clash(pairs_view(pairs@), 0) == first_clash(pairs_view(pairs@), i as int),
            decreases n - j,
        {
            if pairs[i].0 == pairs[j].0 && !(pairs[i].1 == pairs[j].1) {
                return Some((i, j));
            }
            j += 1;
        }
        i += 1;
    }
    None
}

/// The error owed for one group of tags, worded for `kind`.
pub fn check_tag_conflicts(pairs: &Vec<(String, String)>, kind: TagKind) -> (r: Result<(), CompilerError>)
    ensures
        type_outcome(r, group_error(pairs_view(pairs@), kind)),
{
    match find_clash(pairs) {
        None => Ok(()),
        Some((i, j)) => {
            let msg = match kind {
                TagKind::Context => join7(
                    "cross-context arithmetic: type '",
                    pairs[i].0.as_str(),
                    "' is used in context '",
                    pairs[i].1.as_str(),
                    "' and context '",
                    pairs[j].1.as_str(),
                    "' within the same expression",
                ),
                TagKind::Temporal => join7(
                    "temporal state conflict: type '",
                    pairs[i].0.as_str(),
                    "' is used as ",
                    pairs[i].1.as_str(),
                    " and ",
                    pairs[j].1.as_str(),
                    " within the same expression",
                ),
            };
            Err(CompilerError::TypeCheckError(msg))
        },
    }
}

/// Rejects a group of (base, context) pairs in which one base type appears
/// under two different contexts.
pub fn check_ctx_conflicts(pairs: &Vec<(String, String)>) -> (r: Result<(), CompilerError>)
    ensures
        type_outcome(r, group_error(pairs_view(pairs@), TagKind::Context)),
        r is Err <==> exists|i: int, j: int| 0 <= i < j < pairs@.len() && clash(pairs_view(pairs@), i, j),
{
    proof { lemma_first_clash_exists(pairs_view(pairs@), 0); }
    check_tag_conflicts(pairs, TagKind::Context)
}

proof fn lemma_clash_partner_exists(g: Seq<TagView>, i: int, j: int)
    requires
        0 <= i < g.len(),
        0 <= j,
    ensures
        clash_partner(g, i, j) is Some <==> exists|k: int| j <= k < g.len() && clash(g, i, k),
        clash_partner(g, i, j) matches Some(k) ==> j <= k < g.len() && clash(g, i, k),
    decreases g.len() - j,
{
    if j < g.len() {
        lemma_clash_partner_exists(g, i, j + 1);
    }
}

/// A clashing pair exists from row `i` on exactly when `first_clash` finds one.
pub proof fn lemma_first_clash_exists(g: Seq<TagView>, i: int)
    requires
        0 <= i,
    ensures
        first_clash(g, i) is Some <==> exists|a: int, b: int| i <= a < b < g.len() && clash(g, a, b),
        first_clash(g, i) matches Some((a, b)) ==> i <= a < b < g.len() && clash(g, a, b),
    decreases g.len() - i,
{
    if i < g.len() {
        lemma_clash_partner_exists(g, i, i + 1);
        lemma_first_clash_exists(g, i + 1);
        if clash_partner(g, i, i + 1) is None {
            assert(forall|a: int, b: int| i <= a < b < g.len() && clash(g, a, b) ==> i + 1 <= a);
        }
    }
}

/// Some two entries of `g`, wherever they stand, share a base type and differ in tag.
pub open spec fn mixes_tags(g: Seq<TagView>) -> bool {
    exists|x: TagView, y: TagView| #[trigger] g.contains(x) && #[trigger] g.contains(y) && x.0 == y.0 && x.1 != y.1
}

proof fn lemma_clash_iff_mixes(g: Seq<TagView>)
    ensures
        first_clash(g, 0) is Some <==> mixes_tags(g),
{
    lemma_first_clash_exists(g, 0);
    if first_clash(g, 0) is Some {
        let (a, b) = first_clash(g, 0).unwrap();
        assert(g.contains(g[a]) && g.contains(g[b]));
    }
    if mixes_tags(g) {
        let (x, y) = choose|x: TagView, y: TagView| #[trigger] g.contains(x) && #[trigger] g.contains(y) && x.0 == y.0 && x.1 != y.1;
        let a = choose|a: int| 0 <= a < g.len() && g[a] == x;
        let b = choose|b: int| 0 <= b < g.len() && g[b] == y;
        if a < b {
            assert(clash(g, a, b));
        } else {
            assert(clash(g, b, a));
        }
    }
}

/// The order of the (base, tag) pairs does not matter: a reordering of a
/// group is accepted exactly when the group is.
pub proof fn lemma_clash_independent_of_order(g: Seq<TagView>, q: Seq<TagView>, kind: TagKind)
    requires
        g.to_multiset() =~= q.to_multiset(),
    ensures
        group_error(g, kind) is None <==> group_error(q, kind) is None,
{
    g.to_multiset_ensures();
    q.to_multiset_ensures();
    lemma_clash_iff_mixes(g);
    lemma_clash_iff_mixes(q);
    assert forall|x: TagView| g.contains(x) <==> q.contains(x) by {
        assert(g.to_multiset().count(x) == q.to_multiset().count(x));
    }
    if mixes_tags(g) {
        let (x, y) = choose|x: TagView, y: TagView| #[trigger] g.contains(x) && #[trigger] g.contains(y) && x.0 == y.0 && x.1 != y.1;
        assert(q.contains(x) && q.contains(y));
    }
    if mixes_tags(q) {
        let (x, y) = choose|x: TagView, y: TagView| #[trigger] q.contains(x) && #[trigger] q.contains(y) && x.0 == y.0 && x.1 != y.1;
        assert(g.contains(x) && g.contains(y));
    }
}

/// Cross-context arithmetic in an assignment is rejected: when the target of
/// `=`, `+=` or `-=` and the value assigned use one base type in two tags,
/// the statement is an error.
pub proof fn lemma_mixed_assignment_rejected(
    target: String,
    op: crate::fir::AssignOp,
    expr: ExprNode,
    env: Seq<BindingView>,
    kind: TagKind,
)
    requires
        has_clash(name_tags(target@, env) + expr_tags(expr, env)),
    ensures
        statement_error(VerifyStatement::Assign { target, op, expr }, env, kind) is Some,
{
    lemma_first_clash_exists(name_tags(target@, env) + expr_tags(expr, env), 0);
}

/// A verify-block assertion is checked as its predicate is: `assert p` is an
/// error exactly when `p` is one, with the same diagnostic.
pub proof fn lemma_assertion_checked_as_predicate(p: PredicateNode, env: Seq<BindingView>, kind: TagKind)
    ensures
        statement_error(VerifyStatement::Assert(p), env, kind) == predicate_error(p, env, kind),
{
}

/// Cross-context arithmetic in an assertion is rejected: `assert l op r`,
/// where `l` and `r` use one base type with two tags, is an error.
pub proof fn lemma_mixed_assertion_rejected(
    left: ExprNode,
    op: crate::fir::ComparisonOp,
    right: ExprNode,
    env: Seq<BindingView>,
    kind: TagKind,
)
    requires
        has_clash(expr_tags(left, env) + expr_tags(right, env)),
    ensures
        statement_error(VerifyStatement::Assert(PredicateNode::Comparison { left, op, right }), env, kind) is Some,
{
    lemma_first_clash_exists(expr_tags(left, env) + expr_tags(right, env), 0);
}

/// The tag rule looks at each comparison and assignment on its own and into
/// every part of a predicate: a comparison, or an assignment with its target,
/// is an error exactly when two of the values it uses share a base type with
/// different tags; `NOT`, `FORALL` and `EXISTS` are errors exactly when their
/// body is, with the same diagnostic.
pub proof fn lemma_tag_rule_in_predicates(
    a: PredicateNode,
    l: ExprNode,
    op: crate::fir::ComparisonOp,
    r: ExprNode,
    target: String,
    aop: crate::fir::AssignOp,
    var: String,
    ty: TypeNode,
    env: Seq<BindingView>,
    kind: TagKind,
)
    ensures
        predicate_error(PredicateNode::Comparison { left: l, op, right: r }, env, kind) is Some
            <==> mixes_tags(expr_tags(l, env) + expr_tags(r, env)),
        statement_error(VerifyStatement::Assign { target, op: aop, expr: r }, env, kind) is Some
            <==> mixes_tags(name_tags(target@, env) + expr_tags(r, env)),
        predicate_error(PredicateNode::Not(Box::new(a)), env, kind) == predicate_error(a, env, kind),
        predicate_error(PredicateNode::Forall { var, ty: Box::new(ty), body: Box::new(a) }, env, kind)
            == predicate_error(a, env, kind),
        predicate_error(PredicateNode::Exists { var, ty: Box::new(ty), body: Box::new(a) }, env, kind)
            == predicate_error(a, env, kind),
{
    lemma_clash_iff_mixes(expr_tags(l, env) + expr_tags(r, env));
    lemma_clash_iff_mixes(name_tags(target@, env) + expr_tags(r, env));
}

proof fn lemma_statements_error_none(s: Seq<VerifyStatement>, env: Seq<BindingView>, kind: TagKind)
    ensures
        statements_error(s, env, kind) is None <==> forall|k: int| 0 <= k < s.len() ==> (#[trigger] statement_error(s[k], env, kind)) is None,
    decreases s.len(),
{
    if s.len() > 0 {
        lemma_statements_error_none(s.drop_first(), env, kind);
        if statements_error(s, env, kind) is None {
            assert forall|k: int| 0 <= k < s.len() implies (#[trigger] statement_error(s[k], env, kind)) is None by {
                if k > 0 {
                    assert(s[k] == s.drop_first()[k - 1]);
                }
            }
        }
        if forall|k: int| 0 <= k < s.len() ==> (#[trigger] statement_error(s[k], env, kind)) is None {
            assert(statement_error(s[0], env, kind) is None);
            assert forall|k: int| 0 <= k < s.drop_first().len() implies (#[trigger] statement_error(s.drop_first()[k], env, kind)) is None by {
                assert(s.drop_first()[k] == s[k + 1]);
            }
        }
    }
}

/// An `atomic` block is checked statement by statement: it is an error
/// exactly when one of its statements is.
pub proof fn lemma_atomic_checked_statement_by_statement(v: Vec<VerifyStatement>, env: Seq<BindingView>, kind: TagKind)
    ensures
        statement_error(VerifyStatement::Atomic(v), env, kind) is None
            <==> forall|k: int| 0 <= k < v@.len() ==> (#[trigger] statement_error(v@[k], env, kind)) is None,
{
    lemma_statements_error_none(v@, env, kind);
}

proof fn lemma_statements_error_some(s: Seq<VerifyStatement>, env: Seq<BindingView>, kind: TagKind, k: int)
    requires
        0 <= k < s.len(),
        statement_error(s[k], env, kind) is Some,
    ensures
        statements_error(s, env, kind) is Some,
    decreases k,
{
    if k > 0 {
        lemma_statements_error_some(s.drop_first(), env, kind, k - 1);
    }
}

proof fn lemma_verify_decls_error_some(s: Seq<VerifyDecl>, env: Seq<BindingView>, kind: TagKind, v: int)
    requires
        0 <= v < s.len(),
        statements_error(s[v].statements@, env, kind) is Some,
    ensures
        verify_decls_error(s, env, kind) is Some,
    decreases v,
{
    if v > 0 {
        lemma_verify_decls_error_some(s.drop_first(), env, kind, v - 1);
    }
}

/// An assertion in a verify block that uses one base type in two contexts
/// makes the contextual check reject the program.
pub proof fn lemma_cross_context_assertion_rejected(
    ds: Seq<Declaration>,
    i: int,
    v: int,
    k: int,
    left: ExprNode,
    op: crate::fir::ComparisonOp,
    right: ExprNode,
)
    requires
        0 <= i < ds.len(),
        0 <= v < ds[i].proof.verify_decls@.len(),
        0 <= k < ds[i].proof.verify_decls@[v].statements@.len(),
        ds[i].proof.verify_decls@[v].statements@[k] == VerifyStatement::Assert(PredicateNode::Comparison { left, op, right }),
        has_clash(expr_tags(left, declaration_contexts(ds[i])) + expr_tags(right, declaration_contexts(ds[i]))),
    ensures
        context_error(ds) is Some,
{
    let d = ds[i];
    let env = declaration_contexts(d);
    lemma_first_clash_exists(expr_tags(left, env) + expr_tags(right, env), 0);
    lemma_expr_tags_from(left, env);
    lemma_expr_tags_from(right, env);
    lemma_tags_from_concat(expr_tags(left, env), expr_tags(right, env), env);
    lemma_mixed_assertion_rejected(left, op, right, env, TagKind::Context);
    lemma_statements_error_some(d.proof.verify_decls@[v].statements@, env, TagKind::Context, k);
    lemma_verify_decls_error_some(d.proof.verify_decls@, env, TagKind::Context, v);
    lemma_context_error_some(ds, i);
}

// ── predicate / statement walkers ────────────────────────────────────────────

pub fn check_predicate(pred: &PredicateNode, env: &Vec<Binding>, kind: TagKind) -> (r: Result<(), CompilerError>)
    ensures
        type_outcome(r, predicate_error(*pred, env_view(env@), kind)),
    decreases pred,
{
    match pred {
        PredicateNode::Comparison { left, right, .. } => {
            let mut pairs: Vec<(String, String)> = Vec::new();
            collect_ctx(left, env, &mut pairs);
            collect_ctx(right, env, &mut pairs);
            check_tag_conflicts(&pairs, kind)
        },
        PredicateNode::And(a, b) | PredicateNode::Or(a, b) => {
            // Each branch is checked on its own; `a > 0 AND b > 0` is fine.
            match check_predicate(a, env, kind) {
                Err(e) => Err(e),
                Ok(()) => check_predicate(b, env, kind),
            }
        },
        PredicateNode::Not(p) => check_predicate(p, env, kind),
        PredicateNode::Forall { body, .. } | PredicateNode::Exists { body, .. } => check_predicate(
            body,
            env,
            kind,
        ),
    }
}

/// Checks the predicates of `preds` in order and stops at the first error.
pub fn check_predicates(preds: &Vec<PredicateNode>, env: &Vec<Binding>, kind: TagKind) -> (r: Result<(), CompilerError>)
    ensures
        type_outcome(r, predicates_error(preds@, env_view(env@), kind)),
{
    let mut i: usize = 0;
    assert(preds@.skip(0) =~= preds@);
    while i < preds.len()
        invariant
            i <= preds@.len(),
            predicates_error(preds@, env_view(env@), kind) == predicates_error(preds@.skip(i as int), env_view(env@), kind),
        decreases preds.len() - i,
    {
        assert(preds@.skip(i as int).drop_first() =~= preds@.skip(i + 1));
        match check_predicate(&preds[i], env, kind) {
            Err(e) => {
                return Err(e);
            },
            Ok(()) => {},
        }
        i += 1;
    }
    Ok(())
}

#[verifier::loop_isolation(false)]
pub fn check_verify_stmt(stmt: &VerifyStatement, env: &Vec<Binding>, kind: TagKind) -> (r: Result<(), CompilerError>)
    ensures
        type_outcome(r, statement_error(*stmt, env_view(env@), kind)),
    decreases stmt,
{
    match stmt {
        VerifyStatement::Assert(pred) => check_predicate(pred, env, kind),
        VerifyStatement::Atomic(stmts) => {
            let mut i: usize = 0;
            assert(stmts@.skip(0) =~= stmts@);
            while i < stmts.len()
                invariant
                    i <= stmts@.len(),
                    statements_error(stmts@, env_view(env@), kind) == statements_error(stmts@.skip(i as int), env_view(env@), kind),
                decreases stmts.len() - i,
            {
                assert(stmts@.skip(i as int).drop_first() =~= stmts@.skip(i + 1));
                match check_verify_stmt(&stmts[i], env, kind) {
                    Err(e) => {
                        return Err(e);
                    },
                    Ok(()) => {},
                }
                i += 1;
            }
            Ok(())
        },
        VerifyStatement::Assign { target, expr, .. } => {
            // the target takes part in the arithmetic of `+=` and `-=`, and
            // receives the value of `=`: it belongs to the same group
            let mut pairs: Vec<(String, String)> = Vec::new();
            let key = first_name_segment(target);
            match lookup(env, &key) {
                Some(i) => {
                    pairs.push((env[i].base.clone(), env[i].tag.clone()));
                },
                None => {},
            }
            assert(pairs_view(pairs@) =~= name_tags(target@, env_view(env@)));
            collect_ctx(expr, env, &mut pairs);
            check_tag_conflicts(&pairs, kind)
        },
    }
}

/// Checks every statement of every verify block of `decls`, in order.
pub fn check_verify_decls(decls: &Vec<VerifyDecl>, env: &Vec<Binding>, kind: TagKind) -> (r: Result<(), CompilerError>)
    ensures
        type_outcome(r, verify_decls_error(decls@, env_view(env@), kind)),
{
    let mut i: usize = 0;
    assert(decls@.skip(0) =~= decls@);
    while i < decls.len()
        invariant
            i <= decls@.len(),
            verify_decls_error(decls@, env_view(env@), kind) == verify_decls_error(decls@.skip(i as int), env_view(env@), kind),
        decreases decls.len() - i,
    {
        assert(decls@.skip(i as int).drop_first() =~= decls@.skip(i + 1));
        let stmts = &decls[i].statements;
        let mut k: usize = 0;
        assert(stmts@.skip(0) =~= stmts@);
        while k < stmts.len()
            invariant
                i < decls@.len(),
                stmts == &decls@[i as int].statements,
                k <= stmts@.len(),
                verify_decls_error(decls@, env_view(env@), kind) == verify_decls_error(decls@.skip(i as int), env_view(env@), kind),
                statements_error(stmts@, env_view(env@), kind) == statements_error(stmts@.skip(k as int), env_view(env@), kind),
            decreases stmts.len() - k,
        {
            assert(stmts@.skip(k as int).drop_first() =~= stmts@.skip(k + 1));
            match check_verify_stmt(&stmts[k], env, kind) {
                Err(e) => {
                    return Err(e);
                },
                Ok(()) => {},
            }
            k += 1;
        }
        i += 1;
    }
    Ok(())
}

/// Checks one declaration against the bindings that its parameters make.
pub fn check_declaration_tags(decl: &Declaration, env: &Vec<Binding>, kind: TagKind) -> (r: Result<(), CompilerError>)
    ensures
        type_outcome(r, declaration_tag_error(*decl, env_view(env@), kind)),
{
    // Nothing to check if no tagged parameters are present.
    if env.len() == 0 {
        return Ok(());
    }
    match check_predicates(&decl.intent.preconditions, env, kind) {
        Err(e) => {
            return Err(e);
        },
        Ok(()) => {},
    }
    match check_predicates(&decl.intent.postconditions, env, kind) {
        Err(e) => {
            return Err(e);
        },
        Ok(()) => {},
    }
    match check_predicates(&decl.intent.invariants, env, kind) {
        Err(e) => {
            return Err(e);
        },
        Ok(()) => {},
    }
    check_verify_decls(&decl.proof.verify_decls, env, kind)
}

proof fn lemma_context_bindings_concat(a: Seq<Param>, b: Seq<Param>)
    ensures
        context_bindings(a + b) =~= context_bindings(a) + context_bindings(b),
    decreases b.len(),
{
    if b.len() > 0 {
        lemma_context_bindings_concat(a, b.drop_last());
        assert((a + b).drop_last() =~= a + b.drop_last());
    }
}

/// Rejects cross-context arithmetic in every declaration of `program`.
pub fn check(program: &Program) -> (r: Result<(), CompilerError>)
    ensures
        type_outcome(r, context_error(program.declarations@)),
{
    let decls = &program.declarations;
    let mut i: usize = 0;
    assert(decls@.skip(0) =~= decls@);
    while i < decls.len()
        invariant
            i <= decls@.len(),
            decls == &program.declarations,
            context_error(decls@) == context_error(decls@.skip(i as int)),
        decreases decls.len() - i,
    {
        assert(decls@.skip(i as int).drop_first() =~= decls@.skip(i + 1));
        let decl = &decls[i];
        let mut env: Vec<Binding> = Vec::new();
        add_context_bindings(&decl.intent.inputs, &mut env);
        add_context_bindings(&decl.intent.outputs, &mut env);
        proof {
            lemma_context_bindings_concat(decl.intent.inputs@, decl.intent.outputs@);
            assert(context_error(decls@.skip(i as int)) == first_of(
                declaration_context_error(decls@[i as int]),
                context_error(decls@.skip(i + 1)),
            ));
        }
        match check_declaration_tags(decl, &env, TagKind::Context) {
            Err(e) => {
                return Err(e);
            },
            Ok(()) => {},
        }
        i += 1;
    }
    Ok(())
}

// ── laws ─────────────────────────────────────────────────────────────────────

/// No base type is bound to two different tags.
pub open spec fn env_consistent(env: Seq<BindingView>) -> bool {
    forall|a: int, b: int|
        0 <= a < env.len() && 0 <= b < env.len() && #[trigger] env[a].1 == #[trigger] env[b].1
            ==> env[a].2 == env[b].2
}

/// `t` is the (base, tag) pair of some binding of `env`.
pub open spec fn in_env(t: TagView, env: Seq<BindingView>) -> bool {
    exists|k: int| 0 <= k < env.len() && t == (#[trigger] env[k].1, env[k].2)
}

/// Every pair of `g` comes from a binding of `env`.
pub open spec fn tags_from(g: Seq<TagView>, env: Seq<BindingView>) -> bool {
    forall|i: int| 0 <= i < g.len() ==> in_env(#[trigger] g[i], env)
}

/// Some two entries of `g` clash.
pub open spec fn has_clash(g: Seq<TagView>) -> bool {
    exists|a: int, b: int| 0 <= a < b < g.len() && clash(g, a, b)
}

proof fn lemma_env_lookup_in_env(env: Seq<BindingView>, key: Seq<char>)
    ensures
        env_lookup(env, key) matches Some(b) ==> in_env((b.1, b.2), env),
    decreases env.len(),
{
    if env.len() > 0 {
        lemma_env_lookup_in_env(env.drop_last(), key);
        if env.last().0 != key {
            if let Some(b) = env_lookup(env.drop_last(), key) {
                let k = choose|k: int| 0 <= k < env.drop_last().len() && (b.1, b.2) == (#[trigger] env.drop_last()[k].1, env.drop_last()[k].2);
            }
        }
    }
}

pub proof fn lemma_tags_from_concat(a: Seq<TagView>, b: Seq<TagView>, env: Seq<BindingView>)
    requires
        tags_from(a, env),
        tags_from(b, env),
    ensures
        tags_from(a + b, env),
{
    assert(forall|i: int| 0 <= i < (a + b).len() ==> in_env(#[trigger] (a + b)[i], env));
}

pub proof fn lemma_expr_tags_from(e: ExprNode, env: Seq<BindingView>)
    ensures
        tags_from(expr_tags(e, env), env),
    decreases e,
{
    match e {
        ExprNode::Identifier(name) => {
            lemma_env_lookup_in_env(env, first_segment(name@));
        },
        ExprNode::OldValue(name) => {
            lemma_env_lookup_in_env(env, first_segment(name@));
        },
        ExprNode::BinOp { left, right, .. } => {
            lemma_expr_tags_from(*left, env);
            lemma_expr_tags_from(*right, env);
            lemma_tags_from_concat(expr_tags(*left, env), expr_tags(*right, env), env);
        },
        ExprNode::FunctionCall { args, .. } => {
            lemma_exprs_tags_from(args@, env);
        },
        _ => {},
    }
}

proof fn lemma_exprs_tags_from(s: Seq<ExprNode>, env: Seq<BindingView>)
    ensures
        tags_from(exprs_tags(s, env), env),
    decreases s,
{
    if s.len() > 0 {
        lemma_expr_tags_from(s[0], env);
        lemma_exprs_tags_from(s.drop_first(), env);
        lemma_tags_from_concat(expr_tags(s[0], env), exprs_tags(s.drop_first(), env), env);
    }
}

proof fn lemma_consistent_group(g: Seq<TagView>, env: Seq<BindingView>, kind: TagKind)
    requires
        env_consistent(env),
        tags_from(g, env),
    ensures
        group_error(g, kind) is None,
{
    lemma_first_clash_exists(g, 0);
    if first_clash(g, 0) is Some {
        let (a, b) = first_clash(g, 0).unwrap();
        let ka = choose|k: int| 0 <= k < env.len() && g[a] == (#[trigger] env[k].1, env[k].2);
        let kb = choose|k: int| 0 <= k < env.len() && g[b] == (#[trigger] env[k].1, env[k].2);
    }
}

proof fn lemma_consistent_predicate(p: PredicateNode, env: Seq<BindingView>, kind: TagKind)
    requires
        env_consistent(env),
    ensures
        predicate_error(p, env, kind) is None,
    decreases p,
{
    match p {
        PredicateNode::Comparison { left, right, .. } => {
            lemma_expr_tags_from(left, env);
            lemma_expr_tags_from(right, env);
            lemma_tags_from_concat(expr_tags(left, env), expr_tags(right, env), env);
            lemma_consistent_group(expr_tags(left, env) + expr_tags(right, env), env, kind);
        },
        PredicateNode::And(a, b) => {
            lemma_consistent_predicate(*a, env, kind);
            lemma_consistent_predicate(*b, env, kind);
        },
        PredicateNode::Or(a, b) => {
            lemma_consistent_predicate(*a, env, kind);
            lemma_consistent_predicate(*b, env, kind);
        },
        PredicateNode::Not(q) => {
            lemma_consistent_predicate(*q, env, kind);
        },
        PredicateNode::Forall { body, .. } => {
            lemma_consistent_predicate(*body, env, kind);
        },
        PredicateNode::Exists { body, .. } => {
            lemma_consistent_predicate(*body, env, kind);
        },
    }
}

proof fn lemma_consistent_predicates(s: Seq<PredicateNode>, env: Seq<BindingView>, kind: TagKind)
    requires
        env_consistent(env),
    ensures
        predicates_error(s, env, kind) is None,
    decreases s.len(),
{
    if s.len() > 0 {
        lemma_consistent_predicate(s[0], env, kind);
        lemma_consistent_predicates(s.drop_first(), env, kind);
    }
}

proof fn lemma_consistent_statement(st: VerifyStatement, env: Seq<BindingView>, kind: TagKind)
    requires
        env_consistent(env),
    ensures
        statement_error(st, env, kind) is None,
    decreases st,
{
    match st {
        VerifyStatement::Assert(p) => {
            lemma_consistent_predicate(p, env, kind);
        },
        VerifyStatement::Atomic(stmts) => {
            lemma_consistent_statements(stmts@, env, kind);
        },
        VerifyStatement::Assign { target, expr, .. } => {
            lemma_env_lookup_in_env(env, first_segment(target@));
            lemma_expr_tags_from(expr, env);
            lemma_tags_from_concat(name_tags(target@, env), expr_tags(expr, env), env);
            lemma_consistent_group(name_tags(target@, env) + expr_tags(expr, env), env, kind);
        },
    }
}

proof fn lemma_consistent_statements(s: Seq<VerifyStatement>, env: Seq<BindingView>, kind: TagKind)
    requires
        env_consistent(env),
    ensures
        statements_error(s, env, kind) is None,
    decreases s,
{
    if s.len() > 0 {
        lemma_consistent_statement(s[0], env, kind);
        lemma_consistent_statements(s.drop_first(), env, kind);
    }
}

proof fn lemma_consistent_verify_decls(s: Seq<VerifyDecl>, env: Seq<BindingView>, kind: TagKind)
    requires
        env_consistent(env),
    ensures
        verify_decls_error(s, env, kind) is None,
    decreases s.len(),
{
    if s.len() > 0 {
        lemma_consistent_statements(s[0].statements@, env, kind);
        lemma_consistent_verify_decls(s.drop_first(), env, kind);
    }
}

/// Only a genuine mix of tags is reported: when no base type is bound to two
/// different tags (contexts, or temporal states) among a declaration's
/// parameters, no expression of that declaration is rejected.
pub proof fn lemma_consistent_declaration_accepted(d: Declaration, env: Seq<BindingView>, kind: TagKind)
    requires
        env_consistent(env),
    ensures
        declaration_tag_error(d, env, kind) is None,
{
    lemma_consistent_predicates(d.intent.preconditions@, env, kind);
    lemma_consistent_predicates(d.intent.postconditions@, env, kind);
    lemma_consistent_predicates(d.intent.invariants@, env, kind);
    lemma_consistent_verify_decls(d.proof.verify_decls@, env, kind);
}

/// The two sides of AND and OR are checked on their own: a conjunction or
/// disjunction is rejected exactly when one of its sides is.
pub proof fn lemma_branches_checked_separately(a: PredicateNode, b: PredicateNode, env: Seq<BindingView>, kind: TagKind)
    ensures
        predicate_error(PredicateNode::And(Box::new(a), Box::new(b)), env, kind) is None
            <==> (predicate_error(a, env, kind) is None && predicate_error(b, env, kind) is None),
        predicate_error(PredicateNode::Or(Box::new(a), Box::new(b)), env, kind) is None
            <==> (predicate_error(a, env, kind) is None && predicate_error(b, env, kind) is None),
{
}

pub proof fn lemma_predicates_error_some(s: Seq<PredicateNode>, env: Seq<BindingView>, kind: TagKind, k: int)
    requires
        0 <= k < s.len(),
        predicate_error(s[k], env, kind) is Some,
    ensures
        predicates_error(s, env, kind) is Some,
    decreases k,
{
    if k > 0 {
        lemma_predicates_error_some(s.drop_first(), env, kind, k - 1);
    }
}

proof fn lemma_context_error_some(ds: Seq<Declaration>, i: int)
    requires
        0 <= i < ds.len(),
        declaration_context_error(ds[i]) is Some,
    ensures
        context_error(ds) is Some,
    decreases i,
{
    if i > 0 {
        lemma_context_error_some(ds.drop_first(), i - 1);
    }
}

/// The bindings that the parameters of `d` make for the contextual check.
pub open spec fn declaration_contexts(d: Declaration) -> Seq<BindingView> {
    context_bindings(d.intent.inputs@ + d.intent.outputs@)
}

/// A comparison that uses one base type in two different contexts, in a
/// precondition, postcondition or invariant of any declaration, makes the
/// contextual check reject the program.
pub proof fn lemma_cross_context_comparison_rejected(
    ds: Seq<Declaration>,
    i: int,
    left: ExprNode,
    op: crate::fir::ComparisonOp,
    right: ExprNode,
)
    requires
        0 <= i < ds.len(),
        ds[i].intent.preconditions@.contains(PredicateNode::Comparison { left, op, right })
            || ds[i].intent.postconditions@.contains(PredicateNode::Comparison { left, op, right })
            || ds[i].intent.invariants@.contains(PredicateNode::Comparison { left, op, right }),
        has_clash(expr_tags(left, declaration_contexts(ds[i])) + expr_tags(right, declaration_contexts(ds[i]))),
    ensures
        context_error(ds) is Some,
{
    let d = ds[i];
    let env = declaration_contexts(d);
    let pred = PredicateNode::Comparison { left, op, right };
    let g = expr_tags(left, env) + expr_tags(right, env);
    lemma_first_clash_exists(g, 0);
    // the clashing pairs come from the bindings, so there are some
    lemma_expr_tags_from(left, env);
    lemma_expr_tags_from(right, env);
    lemma_tags_from_concat(expr_tags(left, env), expr_tags(right, env), env);
    if d.intent.preconditions@.contains(pred) {
        let k = choose|k: int| 0 <= k < d.intent.preconditions@.len() && d.intent.preconditions@[k] == pred;
        lemma_predicates_error_some(d.intent.preconditions@, env, TagKind::Context, k);
    } else if d.intent.postconditions@.contains(pred) {
        let k = choose|k: int| 0 <= k < d.intent.postconditions@.len() && d.intent.postconditions@[k] == pred;
        lemma_predicates_error_some(d.intent.postconditions@, env, TagKind::Context, k);
    } else {
        let k = choose|k: int| 0 <= k < d.intent.invariants@.len() && d.intent.invariants@[k] == pred;
        lemma_predicates_error_some(d.intent.invariants@, env, TagKind::Context, k);
    }
    lemma_context_error_some(ds, i);
}

/// A program in which no declaration binds one base type to two contexts
/// passes the contextual check.
pub proof fn lemma_consistent_contexts_accepted(ds: Seq<Declaration>)
    requires
        forall|i: int| 0 <= i < ds.len() ==> env_consistent(#[trigger] declaration_contexts(ds[i])),
    ensures
        context_error(ds) is None,
    decreases ds.len(),
{
    if ds.len() > 0 {
        lemma_consistent_declaration_accepted(ds[0], declaration_contexts(ds[0]), TagKind::Context);
        assert(forall|i: int| 0 <= i < ds.drop_first().len() ==> env_consistent(#[trigger] declaration_contexts(ds.drop_first()[i])));
        lemma_consistent_contexts_accepted(ds.drop_first());
    }
}

} // verus!
