//! Assumption Coverage Score (ACS): the integer part.
//!
//! Formula: ACS = Σᵢ [ W(aᵢ) · |map(aᵢ) ∩ E| ] / |E|
//!
//! Edge case extraction rules:
//!   1. Boundary rule: refined-type params and precondition lines, 2 each
//!   2. Forbidden behavior: each never identifier, 1
//!   3. Old-value delta: each postcondition referencing old(), 3
//!   4. Context disjointness: each pair of contextual input params with the
//!      same base type, 1
//!
//! Effective weight W(aᵢ) of an assumption string:
//!   linked (the assumption block has a non-empty context_source):
//!     W = method_weight × confidence × 1.15, capped at 1.0
//!   unlinked: W = 0.10
//! The n-th string of a block contributes W/n (novelty decay). A string that
//! repeats an earlier one of its block word for word is the same assumption
//! and counts once (deduplication).
//!
//! Method weights: formal_audit = 1.00, document_review = 0.80,
//! peer_review = 0.60, interview = 0.35; with no method, 0.10. Confidence is
//! 1.0 when the block gives none.
//!
//! This module extracts everything the score is computed from: the edge case
//! count |E| and, for each assumption block, whether it is linked, its method,
//! its confidence literal and the number of its strings. The floating-point
//! arithmetic over these values happens where floating point is available.

use vstd::prelude::*;
use crate::fir::{
    AssumptionNode, AssumptionSection, Declaration, IntentNode, Param, PredicateNode, Program,
    TypeNode, ValidatedByField, ValidationMethod,
};
use crate::errors::CompilerError;
use crate::typeck::{predicate_has_old, predicate_contains_old};

verus! {

// ── edge cases ───────────────────────────────────────────────────────────────

/// Number of parameters of `ps` with a refined type.
pub open spec fn refined_count(ps: Seq<Param>) -> nat
    decreases ps.len(),
{
    if ps.len() == 0 {
        0
    } else {
        refined_count(ps.drop_last()) + if ps.last().ty is Refined { 1nat } else { 0nat }
    }
}

/// Number of predicates of `ps` that mention old().
pub open spec fn old_count(ps: Seq<PredicateNode>) -> nat
    decreases ps.len(),
{
    if ps.len() == 0 {
        0
    } else {
        old_count(ps.drop_last()) + if predicate_has_old(ps.last()) { 1nat } else { 0nat }
    }
}

/// The base types of the contextual parameters of `ps`, in order.
pub open spec fn contextual_bases(ps: Seq<Param>) -> Seq<Seq<char>>
    decreases ps.len(),
{
    if ps.len() == 0 {
        Seq::empty()
    } else {
        let rest = contextual_bases(ps.drop_last());
        match ps.last().ty {
            TypeNode::Contextual { base, .. } => rest.push(base@),
            _ => rest,
        }
    }
}

/// Number of entries of `s` equal to `x`.
pub open spec fn occurrences(s: Seq<Seq<char>>, x: Seq<char>) -> nat
    decreases s.len(),
{
    if s.len() == 0 {
        0
    } else {
        occurrences(s.drop_last(), x) + if s.last() == x { 1nat } else { 0nat }
    }
}

/// Number of index pairs i < j with s[i] == s[j].
pub open spec fn equal_pairs(s: Seq<Seq<char>>) -> nat
    decreases s.len(),
{
    if s.len() == 0 {
        0
    } else {
        occurrences(s.drop_first(), s[0]) + equal_pairs(s.drop_first())
    }
}

/// The edge cases that one intent block contributes.
pub open spec fn intent_edge_cases(i: IntentNode) -> nat {
    2 * refined_count(i.inputs@ + i.outputs@) + 2 * i.preconditions@.len() + i.never@.len() + 3
        * old_count(i.postconditions@) + equal_pairs(contextual_bases(i.inputs@))
}

/// |E|: the edge cases of all declarations.
pub open spec fn edge_cases(ds: Seq<Declaration>) -> nat
    decreases ds.len(),
{
    if ds.len() == 0 {
        0
    } else {
        edge_cases(ds.drop_last()) + intent_edge_cases(ds.last().intent)
    }
}

/// `n` as a machine count, if it fits.
pub open spec fn fitting(n: nat) -> Option<usize> {
    if n <= usize::MAX {
        Some(n as usize)
    } else {
        None
    }
}

fn count_refined(ps: &Vec<Param>) -> (r: usize)
    ensures
        r == refined_count(ps@),
{
    let mut count: usize = 0;
    let mut i: usize = 0;
    while i < ps.len()
        invariant
            i <= ps@.len(),
            count == refined_count(ps@.take(i as int)),
            count <= i,
        decreases ps.len() - i,
    {
        assert(ps@.take(i + 1).drop_last() =~= ps@.take(i as int));
        if let TypeNode::Refined { .. } = &ps[i].ty {
            count += 1;
        }
        i += 1;
    }
    assert(ps@.take(ps@.len() as int) =~= ps@);
    count
}

fn count_old(ps: &Vec<PredicateNode>) -> (r: usize)
    ensures
        r == old_count(ps@),
{
    let mut count: usize = 0;
    let mut i: usize = 0;
    while i < ps.len()
        invariant
            i <= ps@.len(),
            count == old_count(ps@.take(i as int)),
            count <= i,
        decreases ps.len() - i,
    {
        assert(ps@.take(i + 1).drop_last() =~= ps@.take(i as int));
        if predicate_contains_old(&ps[i]) {
            count += 1;
        }
        i += 1;
    }
    assert(ps@.take(ps@.len() as int) =~= ps@);
    count
}

fn collect_contextual_bases(ps: &Vec<Param>) -> (r: Vec<String>)
    ensures
        r@.map_values(|s: String| s@) == contextual_bases(ps@),
{
    let mut out: Vec<String> = Vec::new();
    let mut i: usize = 0;
    while i < ps.len()
        invariant
            i <= ps@.len(),
            out@.map_values(|s: String| s@) == contextual_bases(ps@.take(i as int)),
        decreases ps.len() - i,
    {
        assert(ps@.take(i + 1).drop_last() =~= ps@.take(i as int));
        if let TypeNode::Contextual { base, .. } = &ps[i].ty {
            out.push(base.clone());
        }
        i += 1;
    }
    assert(ps@.take(ps@.len() as int) =~= ps@);
    out
}

proof fn lemma_occurrences_bound(s: Seq<Seq<char>>, x: Seq<char>)
    ensures
        occurrences(s, x) <= s.len(),
    decreases s.len(),
{
    if s.len() > 0 {
        lemma_occurrences_bound(s.drop_last(), x);
    }
}

/// Number of pairs i < j of `bases` that name the same base type, if it fits.
fn count_equal_pairs(bases: &Vec<String>) -> (r: Option<usize>)
    ensures
        r == fitting(equal_pairs(bases@.map_values(|s: String| s@))),
{
    let ghost s = bases@.map_values(|s: String| s@);
    let n = bases.len();
    let mut count: usize = 0;
    let mut i: usize = 0;
    assert(s.skip(0) =~= s);
    while i < n
        invariant
            n == bases@.len(),
            s == bases@.map_values(|s: String| s@),
            i <= n,
            count + equal_pairs(s.skip(i as int)) == equal_pairs(s),
        decreases n - i,
    {
        assert(s.skip(i as int).drop_first() =~= s.skip(i + 1));
        let mut inner: usize = 0;
        let mut j: usize = i + 1;
        while j < n
            invariant
                n == bases@.len(),
                s == bases@.map_values(|s: String| s@),
                i < j <= n,
                inner == occurrences(s.subrange(i + 1, j as int), s[i as int]),
                inner <= j - i - 1,
            decreases n - j,
        {
            assert(s.subrange(i + 1, j + 1).drop_last() =~= s.subrange(i + 1, j as int));
            if bases[i] == bases[j] {
                inner += 1;
            }
            j += 1;
        }
        match count.checked_add(inner) {
            Some(c) => {
                count = c;
            },
            None => {
                return None;
            },
        }
        i += 1;
    }
    Some(count)
}

/// Adds two counts, if the sum fits.
fn add_counts(a: Option<usize>, b: Option<usize>, Ghost(x): Ghost<nat>, Ghost(y): Ghost<nat>) -> (r: Option<usize>)
    requires
        a == fitting(x),
        b == fitting(y),
    ensures
        r == fitting(x + y),
{
    match (a, b) {
        (Some(x), Some(y)) => x.checked_add(y),
        _ => None,
    }
}

/// Multiplies a count by a small factor, if the product fits.
fn scale_count(k: usize, a: usize) -> (r: Option<usize>)
    ensures
        r == fitting((k * a) as nat),
{
    k.checked_mul(a)
}

/// The edge cases of one intent block, if the count fits.
pub fn intent_edge_case_count(intent: &IntentNode) -> (r: Option<usize>)
    ensures
        r == fitting(intent_edge_cases(*intent)),
{
    // Rule 1a: boundary, each refined-type input/output parameter gives 2 edge cases.
    let refined_in = count_refined(&intent.inputs);
    let refined_out = count_refined(&intent.outputs);
    proof { lemma_refined_count_concat(intent.inputs@, intent.outputs@); }
    let refined = add_counts(
        Some(refined_in),
        Some(refined_out),
        Ghost(refined_count(intent.inputs@)),
        Ghost(refined_count(intent.outputs@)),
    );
    let boundary_params = match refined {
        Some(n) => scale_count(2, n),
        None => None,
    };
    // Rule 1b: boundary, each precondition line gives 2 edge cases.
    let boundary_pre = scale_count(2, intent.preconditions.len());
    // Rule 2: forbidden behavior, each never identifier gives 1 edge case.
    let forbidden = Some(intent.never.len());
    // Rule 3: old-value delta, each postcondition referencing old() gives 3 edge cases.
    let delta = scale_count(3, count_old(&intent.postconditions));
    // Rule 4: context disjointness, each pair of contextual input params with
    // the same base type gives 1 edge case.
    let bases = collect_contextual_bases(&intent.inputs);
    let disjoint = count_equal_pairs(&bases);
    let ghost r1 = refined_count(intent.inputs@ + intent.outputs@);
    let ghost e1 = 2 * r1;
    let ghost e2 = (2 * intent.preconditions@.len()) as nat;
    let ghost e3 = intent.never@.len();
    let ghost e4 = 3 * old_count(intent.postconditions@);
    let ghost e5 = equal_pairs(contextual_bases(intent.inputs@));
    proof {
    }
    let a = add_counts(boundary_params, boundary_pre, Ghost(e1), Ghost(e2));
    let b = add_counts(a, forbidden, Ghost(e1 + e2), Ghost(e3));
    let c = add_counts(b, delta, Ghost(e1 + e2 + e3), Ghost(e4));
    add_counts(c, disjoint, Ghost(e1 + e2 + e3 + e4), Ghost(e5))
}

proof fn lemma_refined_count_concat(a: Seq<Param>, b: Seq<Param>)
    ensures
        refined_count(a + b) == refined_count(a) + refined_count(b),
    decreases b.len(),
{
    if b.len() > 0 {
        lemma_refined_count_concat(a, b.drop_last());
        assert((a + b).drop_last() =~= a + b.drop_last());
    }
}

/// |E|, the number of edge cases over all declarations of `program`, if it fits
/// in a machine word (`None` only when it does not).
pub fn edge_case_count(program: &Program) -> (r: Option<usize>)
    ensures
        r == fitting(edge_cases(program.declarations@)),
{
    let decls = &program.declarations;
    let mut count: usize = 0;
    let mut i: usize = 0;
    while i < decls.len()
        invariant
            decls == &program.declarations,
            i <= decls@.len(),
            count == edge_cases(decls@.take(i as int)),
        decreases decls.len() - i,
    {
        assert(decls@.take(i + 1).drop_last() =~= decls@.take(i as int));
        match intent_edge_case_count(&decls[i].intent) {
            Some(k) => match count.checked_add(k) {
                Some(c) => {
                    count = c;
                },
                None => {
                    proof { lemma_edge_cases_prefix_bound(decls@, i + 1); }
                    return None;
                },
            },
            None => {
                proof { lemma_edge_cases_prefix_bound(decls@, i + 1); }
                return None;
            },
        }
        i += 1;
    }
    assert(decls@.take(decls@.len() as int) =~= decls@);
    Some(count)
}

/// Edge cases only accumulate: a prefix of the declarations has at most as many.
pub proof fn lemma_edge_cases_prefix_bound(ds: Seq<Declaration>, k: int)
    requires
        0 <= k <= ds.len(),
    ensures
        edge_cases(ds.take(k)) <= edge_cases(ds),
    decreases ds.len(),
{
    if k < ds.len() {
        assert(ds.drop_last().take(k) =~= ds.take(k));
        lemma_edge_cases_prefix_bound(ds.drop_last(), k);
    } else {
        assert(ds.take(k) =~= ds);
    }
}

// ── the edge case count in closed form ───────────────────────────────────────

/// `p` and `q` are both contextual parameters over the same base type.
pub open spec fn same_base(p: Param, q: Param) -> bool {
    match (p.ty, q.ty) {
        (TypeNode::Contextual { base: a, .. }, TypeNode::Contextual { base: b, .. }) => a@ == b@,
        _ => false,
    }
}

/// The index pairs i < j of `ps` whose parameters are contextual over the same base type.
pub open spec fn same_base_pairs(ps: Seq<Param>) -> Set<(int, int)> {
    Set::new(|ij: (int, int)| 0 <= ij.0 < ij.1 < ps.len() && same_base(ps[ij.0], ps[ij.1]))
}

spec fn pairs_below(ps: Seq<Param>, n: int) -> Set<(int, int)> {
    Set::new(|ij: (int, int)| 0 <= ij.0 < ij.1 < n && same_base(ps[ij.0], ps[ij.1]))
}

spec fn partners_below(ps: Seq<Param>, k: int, j: int) -> Set<(int, int)> {
    Set::new(|ij: (int, int)| 0 <= ij.0 < k && ij.1 == j && same_base(ps[ij.0], ps[j]))
}

proof fn lemma_refined_count_filter(ps: Seq<Param>)
    ensures
        refined_count(ps) == ps.filter(|p: Param| p.ty is Refined).len(),
    decreases ps.len(),
{
    reveal(Seq::filter);
    if ps.len() > 0 {
        lemma_refined_count_filter(ps.drop_last());
    }
}

proof fn lemma_old_count_filter(ps: Seq<PredicateNode>)
    ensures
        old_count(ps) == ps.filter(|q: PredicateNode| predicate_has_old(q)).len(),
    decreases ps.len(),
{
    reveal(Seq::filter);
    if ps.len() > 0 {
        lemma_old_count_filter(ps.drop_last());
    }
}

proof fn lemma_occurrences_front(s: Seq<Seq<char>>, x: Seq<char>)
    requires
        s.len() > 0,
    ensures
        occurrences(s, x) == occurrences(s.drop_first(), x) + if s[0] == x { 1nat } else { 0nat },
    decreases s.len(),
{
    if s.len() > 1 {
        lemma_occurrences_front(s.drop_last(), x);
        assert(s.drop_last().drop_first() =~= s.drop_first().drop_last());
    } else {
        assert(s.drop_first() =~= Seq::<Seq<char>>::empty());
        assert(s.drop_last() =~= Seq::<Seq<char>>::empty());
    }
}

proof fn lemma_equal_pairs_push(s: Seq<Seq<char>>, x: Seq<char>)
    ensures
        equal_pairs(s.push(x)) == equal_pairs(s) + occurrences(s, x),
    decreases s.len(),
{
    let t = s.push(x);
    if s.len() == 0 {
        assert(t.drop_first() =~= Seq::<Seq<char>>::empty());
        assert(equal_pairs(t) == occurrences(t.drop_first(), t[0]) + equal_pairs(t.drop_first()));
    } else {
        assert(equal_pairs(t) == occurrences(t.drop_first(), t[0]) + equal_pairs(t.drop_first()));
        assert(equal_pairs(s) == occurrences(s.drop_first(), s[0]) + equal_pairs(s.drop_first()));
        assert(t.drop_first() =~= s.drop_first().push(x));
        assert(t.drop_first().drop_last() =~= s.drop_first());
        assert(t[0] == s[0]);
        assert(occurrences(t.drop_first(), s[0]) == occurrences(s.drop_first(), s[0]) + if x == s[0] { 1nat } else { 0nat });
        lemma_equal_pairs_push(s.drop_first(), x);
        lemma_occurrences_front(s, x);
    }
}

proof fn lemma_partners_count(ps: Seq<Param>, k: int, j: int)
    requires
        0 <= k <= j < ps.len(),
        ps[j].ty is Contextual,
    ensures
        partners_below(ps, k, j).finite(),
        partners_below(ps, k, j).len() == occurrences(
            contextual_bases(ps.take(k)),
            ps[j].ty->Contextual_base@,
        ),
    decreases k,
{
    let s = partners_below(ps, k, j);
    if k == 0 {
        assert(s =~= Set::<(int, int)>::empty());
        assert(ps.take(0) =~= Seq::<Param>::empty());
    } else {
        lemma_partners_count(ps, k - 1, j);
        let prev = partners_below(ps, k - 1, j);
        assert(ps.take(k).drop_last() =~= ps.take(k - 1));
        assert(ps.take(k).last() == ps[k - 1]);
        let bases = contextual_bases(ps.take(k - 1));
        match ps[k - 1].ty {
            TypeNode::Contextual { base, .. } => {
                assert(contextual_bases(ps.take(k)) == bases.push(base@));
                assert(bases.push(base@).drop_last() =~= bases);
            },
            _ => {
                assert(contextual_bases(ps.take(k)) == bases);
            },
        }
        if same_base(ps[k - 1], ps[j]) {
            assert(s =~= prev.insert((k - 1, j)));
            assert(!prev.contains((k - 1, j)));
        } else {
            assert(s =~= prev);
        }
    }
}

proof fn lemma_pairs_count(ps: Seq<Param>, n: int)
    requires
        0 <= n <= ps.len(),
    ensures
        pairs_below(ps, n).finite(),
        pairs_below(ps, n).len() == equal_pairs(contextual_bases(ps.take(n))),
    decreases n,
{
    let s = pairs_below(ps, n);
    if n == 0 {
        assert(s =~= Set::<(int, int)>::empty());
        assert(ps.take(0) =~= Seq::<Param>::empty());
    } else {
        lemma_pairs_count(ps, n - 1);
        let prev = pairs_below(ps, n - 1);
        let bases = contextual_bases(ps.take(n - 1));
        assert(ps.take(n).drop_last() =~= ps.take(n - 1));
        match ps[n - 1].ty {
            TypeNode::Contextual { base, .. } => {
                lemma_partners_count(ps, n - 1, n - 1);
                let new = partners_below(ps, n - 1, n - 1);
                assert(s =~= prev + new);
                assert(prev.disjoint(new));
                vstd::set_lib::lemma_set_disjoint_lens(prev, new);
                lemma_equal_pairs_push(bases, base@);
            },
            _ => {
                assert(s =~= prev);
            },
        }
    }
}

/// The edge cases of an intent block counted rule by rule: two for each
/// parameter (input or output) of refined type, two for each precondition, one
/// for each `never` item, three for each postcondition that mentions old(),
/// and one for each pair of contextual inputs over the same base type.
pub open spec fn edge_cases_by_rule(i: IntentNode) -> nat {
    2 * (i.inputs@ + i.outputs@).filter(|p: Param| p.ty is Refined).len() + 2 * i.preconditions@.len()
        + i.never@.len() + 3 * i.postconditions@.filter(|q: PredicateNode| predicate_has_old(q)).len()
        + same_base_pairs(i.inputs@).len()
}

/// The edge cases of an intent block are those its rules give, counted as
/// `edge_cases_by_rule` says (and the same-base pairs are finitely many).
pub proof fn lemma_intent_edge_cases_closed_form(i: IntentNode)
    ensures
        intent_edge_cases(i) == edge_cases_by_rule(i),
        same_base_pairs(i.inputs@).finite(),
{
    lemma_refined_count_filter(i.inputs@ + i.outputs@);
    lemma_old_count_filter(i.postconditions@);
    lemma_pairs_count(i.inputs@, i.inputs@.len() as int);
    assert(i.inputs@.take(i.inputs@.len() as int) =~= i.inputs@);
    assert(pairs_below(i.inputs@, i.inputs@.len() as int) =~= same_base_pairs(i.inputs@));
}

/// Σ of `edge_cases_by_rule` over the intent blocks of `ds`.
pub open spec fn edge_cases_by_rules(ds: Seq<Declaration>) -> nat
    decreases ds.len(),
{
    if ds.len() == 0 {
        0
    } else {
        edge_cases_by_rules(ds.drop_last()) + edge_cases_by_rule(ds.last().intent)
    }
}

/// |E| in closed form: the edge cases of a program are the sum, over its
/// declarations, of what the rules give for each intent block.
pub proof fn lemma_edge_cases_closed_form(ds: Seq<Declaration>)
    ensures
        edge_cases(ds) == edge_cases_by_rules(ds),
    decreases ds.len(),
{
    if ds.len() > 0 {
        lemma_edge_cases_closed_form(ds.drop_last());
        lemma_intent_edge_cases_closed_form(ds.last().intent);
    }
}

// ── assumption weighting ─────────────────────────────────────────────────────

/// What the weight of one assumption block is computed from.
#[derive(Debug, Clone, PartialEq, Eq)]
pub struct AssumptionWeighting {
    /// The block has a `context_source` section with at least one reference.
    pub linked: bool,
    /// The last `method` given in its `validated_by` sections, if any.
    pub method: Option<ValidationMethod>,
    /// The last `confidence` literal given in its `validated_by` sections, if any.
    pub confidence: Option<String>,
    /// Number of distinct assumption strings in the block.
    pub strings: usize,
}

/// The block has a non-empty `context_source` section.
pub open spec fn is_linked(secs: Seq<AssumptionSection>) -> bool {
    exists|i: int| 0 <= i < secs.len() && (#[trigger] secs[i] matches AssumptionSection::ContextSource(refs) && refs@.len() > 0)
}

/// Some assumption string of `secs` has the text `t`.
pub open spec fn has_string(secs: Seq<AssumptionSection>, t: Seq<char>) -> bool {
    exists|i: int| 0 <= i < secs.len() && (#[trigger] secs[i] matches AssumptionSection::StringAssumption(u) && u@ == t)
}

/// Number of distinct assumption strings among `secs`: a string that repeats
/// an earlier one word for word counts once (deduplication).
pub open spec fn string_count(secs: Seq<AssumptionSection>) -> nat
    decreases secs.len(),
{
    if secs.len() == 0 {
        0
    } else {
        string_count(secs.drop_last()) + match secs.last() {
            AssumptionSection::StringAssumption(t) if !has_string(secs.drop_last(), t@) => 1nat,
            _ => 0nat,
        }
    }
}

/// Repeating an assumption string word for word adds nothing: the block
/// counts as many strings as before.
pub proof fn lemma_repeated_string_not_counted(secs: Seq<AssumptionSection>, t: String)
    requires
        has_string(secs, t@),
    ensures
        string_count(secs.push(AssumptionSection::StringAssumption(t))) == string_count(secs),
{
    assert(secs.push(AssumptionSection::StringAssumption(t)).drop_last() =~= secs);
}

/// Whether a section before `i` is the assumption string `t`.
fn string_seen(secs: &Vec<AssumptionSection>, i: usize, t: &String) -> (r: bool)
    requires
        i <= secs@.len(),
    ensures
        r == has_string(secs@.take(i as int), t@),
{
    let mut k: usize = 0;
    while k < i
        invariant
            i <= secs@.len(),
            k <= i,
            forall|j: int| 0 <= j < k ==> !(#[trigger] secs@[j] matches AssumptionSection::StringAssumption(u) && u@ == t@),
        decreases i - k,
    {
        if let AssumptionSection::StringAssumption(u) = &secs[k] {
            if *u == *t {
                assert(secs@.take(i as int)[k as int] == secs@[k as int]);
                return true;
            }
        }
        k += 1;
    }
    assert forall|j: int| 0 <= j < i implies !(#[trigger] secs@.take(i as int)[j] matches AssumptionSection::StringAssumption(u) && u@ == t@) by {
        assert(secs@.take(i as int)[j] == secs@[j]);
    }
    false
}

/// The last method among `fs`.
pub open spec fn last_method_field(fs: Seq<ValidatedByField>) -> Option<ValidationMethod>
    decreases fs.len(),
{
    if fs.len() == 0 {
        None
    } else {
        match fs.last() {
            ValidatedByField::Method(m) => Some(m),
            _ => last_method_field(fs.drop_last()),
        }
    }
}

/// The last confidence literal among `fs`.
pub open spec fn last_confidence_field(fs: Seq<ValidatedByField>) -> Option<String>
    decreases fs.len(),
{
    if fs.len() == 0 {
        None
    } else {
        match fs.last() {
            ValidatedByField::Confidence(c) => Some(c),
            _ => last_confidence_field(fs.drop_last()),
        }
    }
}

/// The last method given in any `validated_by` section of `secs`.
pub open spec fn last_method(secs: Seq<AssumptionSection>) -> Option<ValidationMethod>
    decreases secs.len(),
{
    if secs.len() == 0 {
        None
    } else {
        match secs.last() {
            AssumptionSection::ValidatedBy(vb) if last_method_field(vb.fields@) is Some => last_method_field(vb.fields@),
            _ => last_method(secs.drop_last()),
        }
    }
}

/// The last confidence literal given in any `validated_by` section of `secs`.
pub open spec fn last_confidence(secs: Seq<AssumptionSection>) -> Option<String>
    decreases secs.len(),
{
    if secs.len() == 0 {
        None
    } else {
        match secs.last() {
            AssumptionSection::ValidatedBy(vb) if last_confidence_field(vb.fields@) is Some => last_confidence_field(vb.fields@),
            _ => last_confidence(secs.drop_last()),
        }
    }
}

/// A later `method` or `confidence` overrides an earlier one: the value given
/// last is the one the weight is computed from, and a field of another kind
/// after it changes nothing.
pub proof fn lemma_last_given_wins(fs: Seq<ValidatedByField>, m: ValidationMethod, c: String, f: ValidatedByField)
    ensures
        last_method_field(fs.push(ValidatedByField::Method(m))) == Some(m),
        last_confidence_field(fs.push(ValidatedByField::Confidence(c))) == Some(c),
        !(f is Method) ==> last_method_field(fs.push(f)) == last_method_field(fs),
        !(f is Confidence) ==> last_confidence_field(fs.push(f)) == last_confidence_field(fs),
{
    assert(fs.push(f).drop_last() =~= fs);
}

/// The base weight of a validation method, in hundredths.
pub open spec fn method_weight(m: ValidationMethod) -> u32 {
    match m {
        ValidationMethod::FormalAudit => 100,
        ValidationMethod::DocumentReview => 80,
        ValidationMethod::PeerReview => 60,
        ValidationMethod::Interview => 35,
    }
}

/// The base weight of `method`, in hundredths: formal_audit 1.00,
/// document_review 0.80, peer_review 0.60, interview 0.35.
pub fn method_base_weight(method: &ValidationMethod) -> (r: u32)
    ensures
        r == method_weight(*method),
{
    match method {
        ValidationMethod::FormalAudit => 100,
        ValidationMethod::DocumentReview => 80,
        ValidationMethod::PeerReview => 60,
        ValidationMethod::Interview => 35,
    }
}

/// The method and the confidence literal that `assumption` was validated
/// with: for each, the last one given in its `validated_by` sections.
pub fn extract_method_and_confidence(assumption: &AssumptionNode) -> (r: (Option<ValidationMethod>, Option<String>))
    ensures
        r.0 == last_method(assumption.sections@),
        r.1 == last_confidence(assumption.sections@),
{
    let secs = &assumption.sections;
    let mut method: Option<ValidationMethod> = None;
    let mut confidence: Option<String> = None;
    let mut i: usize = 0;
    while i < secs.len()
        invariant
            secs == &assumption.sections,
            i <= secs@.len(),
            method == last_method(secs@.take(i as int)),
            confidence == last_confidence(secs@.take(i as int)),
        decreases secs.len() - i,
    {
        assert(secs@.take(i + 1).drop_last() =~= secs@.take(i as int));
        if let AssumptionSection::ValidatedBy(vb) = &secs[i] {
            let fields = &vb.fields;
            let ghost m0 = method;
            let ghost c0 = confidence;
            let mut k: usize = 0;
            while k < fields.len()
                invariant
                    k <= fields@.len(),
                    method == (match last_method_field(fields@.take(k as int)) {
                        Some(m) => Some(m),
                        None => m0,
                    }),
                    confidence == (match last_confidence_field(fields@.take(k as int)) {
                        Some(c) => Some(c),
                        None => c0,
                    }),
                decreases fields.len() - k,
            {
                assert(fields@.take(k + 1).drop_last() =~= fields@.take(k as int));
                match &fields[k] {
                    ValidatedByField::Method(m) => {
                        method = Some(*m);
                    },
                    ValidatedByField::Confidence(c) => {
                        confidence = Some(c.clone());
                    },
                    _ => {},
                }
                k += 1;
            }
            assert(fields@.take(fields@.len() as int) =~= fields@);
        }
        i += 1;
    }
    assert(secs@.take(secs@.len() as int) =~= secs@);
    (method, confidence)
}

/// Everything the weight of `assumption` is computed from.
pub fn assumption_weighting(assumption: &AssumptionNode) -> (r: AssumptionWeighting)
    ensures
        r.linked == is_linked(assumption.sections@),
        r.method == last_method(assumption.sections@),
        r.confidence == last_confidence(assumption.sections@),
        r.strings == string_count(assumption.sections@),
{
    let secs = &assumption.sections;
    let mut linked = false;
    let mut strings: usize = 0;
    let mut i: usize = 0;
    while i < secs.len()
        invariant
            secs == &assumption.sections,
            i <= secs@.len(),
            linked == is_linked(secs@.take(i as int)),
            strings == string_count(secs@.take(i as int)),
            strings <= i,
        decreases secs.len() - i,
    {
        assert(secs@.take(i + 1).drop_last() =~= secs@.take(i as int));
        assert(secs@.take(i + 1).last() == secs@[i as int]);
        match &secs[i] {
            AssumptionSection::ContextSource(refs) => {
                if refs.len() > 0 {
                    linked = true;
                }
            },
            AssumptionSection::StringAssumption(t) => {
                if !string_seen(secs, i, t) {
                    strings += 1;
                }
            },
            _ => {},
        }
        proof {
            assert(forall|k: int| 0 <= k < i + 1 ==> #[trigger] secs@.take(i + 1)[k] == secs@[k]);
            assert(forall|k: int| 0 <= k < i ==> #[trigger] secs@.take(i as int)[k] == secs@[k]);
        }
        i += 1;
    }
    assert(secs@.take(secs@.len() as int) =~= secs@);
    let (method, confidence) = extract_method_and_confidence(assumption);
    AssumptionWeighting { linked, method, confidence, strings }
}

/// The weighting of every assumption block of `program`, in order.
pub fn weightings(program: &Program) -> (r: Vec<AssumptionWeighting>)
    ensures
        r@.len() == program.declarations@.len(),
        forall|i: int| 0 <= i < r@.len() ==> {
            let a = #[trigger] program.declarations@[i].assumption;
            &&& r@[i].linked == is_linked(a.sections@)
            &&& r@[i].method == last_method(a.sections@)
            &&& r@[i].confidence == last_confidence(a.sections@)
            &&& r@[i].strings == string_count(a.sections@)
        },
{
    let decls = &program.declarations;
    let mut out: Vec<AssumptionWeighting> = Vec::new();
    let mut i: usize = 0;
    while i < decls.len()
        invariant
            decls == &program.declarations,
            i <= decls@.len(),
            out@.len() == i,
            forall|k: int| 0 <= k < i ==> {
                let a = #[trigger] decls@[k].assumption;
                &&& out@[k].linked == is_linked(a.sections@)
                &&& out@[k].method == last_method(a.sections@)
                &&& out@[k].confidence == last_confidence(a.sections@)
                &&& out@[k].strings == string_count(a.sections@)
            },
        decreases decls.len() - i,
    {
        out.push(assumption_weighting(&decls[i].assumption));
        i += 1;
    }
    out
}

/// Everything the assumption coverage score of a program is computed from.
#[derive(Debug, Clone, PartialEq, Eq)]
pub struct AcsInputs {
    /// |E|, when it fits in a machine word.
    pub edge_cases: Option<usize>,
    /// One entry per declaration, in order.
    pub weightings: Vec<AssumptionWeighting>,
}

/// `r` holds the edge case count of `program` and the weighting of each of
/// its assumption blocks, in order.
pub open spec fn inputs_of(r: AcsInputs, program: Program) -> bool {
    &&& r.edge_cases == fitting(edge_cases(program.declarations@))
    &&& r.weightings@.len() == program.declarations@.len()
    &&& forall|i: int| 0 <= i < r.weightings@.len() ==> {
        let a = #[trigger] program.declarations@[i].assumption;
        &&& r.weightings@[i].linked == is_linked(a.sections@)
        &&& r.weightings@[i].method == last_method(a.sections@)
        &&& r.weightings@[i].confidence == last_confidence(a.sections@)
        &&& r.weightings@[i].strings == string_count(a.sections@)
    }
}

/// The edge case count and the weighting of every assumption block of `program`.
pub fn acs_inputs(program: &Program) -> (r: AcsInputs)
    ensures
        inputs_of(r, *program),
{
    AcsInputs { edge_cases: edge_case_count(program), weightings: weightings(program) }
}

/// Edge cases of declarations pool: the edge cases of two lists of
/// declarations together are the sum of those of each.
pub proof fn lemma_edge_cases_pool(a: Seq<Declaration>, b: Seq<Declaration>)
    ensures
        edge_cases(a + b) == edge_cases(a) + edge_cases(b),
    decreases b.len(),
{
    if b.len() > 0 {
        lemma_edge_cases_pool(a, b.drop_last());
        assert((a + b).drop_last() =~= a + b.drop_last());
    }
}

/// A declaration whose intent block is empty contributes no edge case.
pub proof fn lemma_empty_intent_no_edge_cases(i: IntentNode)
    requires
        i.inputs@.len() == 0,
        i.outputs@.len() == 0,
        i.preconditions@.len() == 0,
        i.postconditions@.len() == 0,
        i.never@.len() == 0,
    ensures
        intent_edge_cases(i) == 0,
{
}

/// The base weights of the validation methods, in hundredths: a formal audit
/// weighs 1.00, a document review 0.80, a peer review 0.60 and an interview
/// 0.35, so a stronger method never weighs less than a weaker one.
pub proof fn lemma_method_weights(m: ValidationMethod)
    ensures
        method_weight(ValidationMethod::FormalAudit) == 100,
        method_weight(ValidationMethod::DocumentReview) == 80,
        method_weight(ValidationMethod::PeerReview) == 60,
        method_weight(ValidationMethod::Interview) == 35,
        method_weight(ValidationMethod::Interview) < method_weight(ValidationMethod::PeerReview)
            < method_weight(ValidationMethod::DocumentReview) < method_weight(ValidationMethod::FormalAudit),
{
}

/// Every validation method weighs at most 1.00, and formal audit weighs most.
pub proof fn lemma_method_weights_bounded(m: ValidationMethod)
    ensures
        0 < method_weight(m) <= method_weight(ValidationMethod::FormalAudit),
        method_weight(ValidationMethod::FormalAudit) == 100,
{
}

// ── coverage gap ─────────────────────────────────────────────────────────────

/// Some assumption block of `ws` has at least one string.
pub open spec fn has_assumption_string(ws: Seq<AssumptionWeighting>) -> bool {
    exists|i: int| 0 <= i < ws.len() && (#[trigger] ws[i]).strings > 0
}

/// The edge cases that no assumption string covers. Every string covers every
/// edge case of the program, so the gap is all of them when the program has
/// no assumption string, and none otherwise (`None` when the count does not
/// fit in a machine word).
pub fn coverage_gap(inputs: &AcsInputs) -> (r: Option<usize>)
    ensures
        r == if has_assumption_string(inputs.weightings@) {
            Some(0usize)
        } else {
            inputs.edge_cases
        },
{
    let ws = &inputs.weightings;
    let mut i: usize = 0;
    while i < ws.len()
        invariant
            ws == &inputs.weightings,
            i <= ws@.len(),
            forall|k: int| 0 <= k < i ==> (#[trigger] ws@[k]).strings == 0,
        decreases ws.len() - i,
    {
        if ws[i].strings > 0 {
            assert(ws@[i as int].strings > 0);
            return Some(0);
        }
        i += 1;
    }
    inputs.edge_cases
}

// ── build threshold policy ───────────────────────────────────────────────────

/// A build passes at a score of at least 0.70, in basis points (ten-thousandths).
pub const THRESHOLD_PASS_BP: u32 = 7000;

/// Below 0.50, in basis points, a failed build also needs human review.
pub const THRESHOLD_WARN_BP: u32 = 5000;

/// The diagnostic that the build threshold policy owes a program whose
/// score is `score` basis points: a hard error below 0.50, a build error in
/// [0.50, 0.70), nothing from 0.70 on.
pub open spec fn gate_error(score: u32) -> Option<Seq<char>> {
    if score < THRESHOLD_WARN_BP {
        Some("ACS is below 0.50: hard error, mandatory human review required"@)
    } else if score < THRESHOLD_PASS_BP {
        Some("ACS is below the 0.70 build threshold"@)
    } else {
        None
    }
}

/// Applies the build threshold policy to a score of `score` basis points.
pub fn acs_gate(score: u32) -> (r: Result<(), CompilerError>)
    ensures
        match gate_error(score) {
            None => r is Ok,
            Some(m) => r matches Err(CompilerError::AcsError(t)) && t@ == m,
        },
{
    if score < THRESHOLD_WARN_BP {
        Err(CompilerError::AcsError(String::from_str("ACS is below 0.50: hard error, mandatory human review required")))
    } else if score < THRESHOLD_PASS_BP {
        Err(CompilerError::AcsError(String::from_str("ACS is below the 0.70 build threshold")))
    } else {
        Ok(())
    }
}

/// The thresholds split the scores in three: every score below 0.70 fails the
/// build with an ACS error, and exactly those below 0.50 ask for human review.
pub proof fn lemma_gate_bands(score: u32)
    ensures
        gate_error(score) is None <==> score >= THRESHOLD_PASS_BP,
        (score < THRESHOLD_WARN_BP) <==> gate_error(score) == Some(
            "ACS is below 0.50: hard error, mandatory human review required"@,
        ),
{
    reveal_strlit("ACS is below 0.50: hard error, mandatory human review required");
    reveal_strlit("ACS is below the 0.70 build threshold");
    assert("ACS is below 0.50: hard error, mandatory human review required"@.len() != "ACS is below the 0.70 build threshold"@.len());
}

} // verus!
