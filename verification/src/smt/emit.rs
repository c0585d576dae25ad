//! SMT-LIB 2 emitter.
//!
//! Translates FIR predicate trees into SMT-LIB 2 text for Z3, and a whole
//! declaration into one query:
//!
//! ```text
//! ; <intent name>
//! (declare-fun <symbol> (<arguments>) Int)     one per symbol, in order of first use
//! (assert <precondition>)                      one per precondition
//! (assert <lemma predicate>)                   one per predicate of each lemma
//! (assert (not <postconditions>))              their conjunction, when there are any
//! (check-sat)
//! ```
//!
//! An identifier `a.b` becomes the symbol `a_b` (every character that is not a
//! letter, digit or `_` becomes `_`), and `old(a.b)` becomes `a_b_old`. Every
//! symbol, quantified variable and function result is an `Int`. Invariants
//! and verify blocks are not part of the query.

use vstd::prelude::*;
use crate::errors::CompilerError;
use crate::fir::{BinOpKind, ComparisonOp, Declaration, ExprNode, LemmaDecl, Number, PredicateNode, TypeNode};
use crate::text::join3;
use crate::parser::{decimal, decimal_text, is_word_char, push_char, source_chars, word_char};

verus! {

// ── specification ────────────────────────────────────────────────────────────

/// The SMT symbol of a name: characters other than letters, digits and `_` become `_`.
pub open spec fn smt_symbol(name: Seq<char>) -> Seq<char> {
    name.map_values(|c: char| if is_word_char(c) { c } else { '_' })
}

pub open spec fn number_smt(n: Number) -> Seq<char> {
    match n {
        Number::Integer(v) => decimal(v as nat),
        Number::Decimal(t) => t@,
    }
}

pub open spec fn bin_op_smt(op: BinOpKind) -> Seq<char> {
    match op {
        BinOpKind::Add => "+"@,
        BinOpKind::Sub => "-"@,
        BinOpKind::Mul => "*"@,
        BinOpKind::Div => "div"@,
    }
}

pub open spec fn comparison_smt(op: ComparisonOp) -> Seq<char> {
    match op {
        ComparisonOp::Eq => "="@,
        ComparisonOp::Ne => "distinct"@,
        ComparisonOp::Le => "<="@,
        ComparisonOp::Ge => ">="@,
        ComparisonOp::Lt => "<"@,
        ComparisonOp::Gt => ">"@,
    }
}

/// Each comparison of Firmum is emitted as the SMT-LIB operator of the same
/// relation (`==` as `=`, `!=` as `distinct`, the four orderings as
/// themselves), so the assertion for `l op r` is `(<operator> l r)`.
pub proof fn lemma_comparison_operators(l: ExprNode, r: ExprNode)
    ensures
        comparison_smt(ComparisonOp::Eq) == "="@,
        comparison_smt(ComparisonOp::Ne) == "distinct"@,
        comparison_smt(ComparisonOp::Le) == "<="@,
        comparison_smt(ComparisonOp::Ge) == ">="@,
        comparison_smt(ComparisonOp::Lt) == "<"@,
        comparison_smt(ComparisonOp::Gt) == ">"@,
        forall|op: ComparisonOp| #[trigger] pred_smt(PredicateNode::Comparison { left: l, op, right: r })
            == "("@ + comparison_smt(op) + " "@ + expr_smt(l) + " "@ + expr_smt(r) + ")"@,
{
}

/// Arithmetic is emitted as the SMT-LIB operator of the same operation
/// (`/` as integer `div`), old values as their name with `_old`, and the
/// connectives as `and`, `or`, `not`, `forall` and `exists` over integers.
pub proof fn lemma_connectives_smt(a: PredicateNode, b: PredicateNode, x: String, ty: TypeNode, l: ExprNode, r: ExprNode)
    ensures
        bin_op_smt(BinOpKind::Add) == "+"@,
        bin_op_smt(BinOpKind::Sub) == "-"@,
        bin_op_smt(BinOpKind::Mul) == "*"@,
        bin_op_smt(BinOpKind::Div) == "div"@,
        forall|op: BinOpKind| #[trigger] expr_smt(ExprNode::BinOp { left: Box::new(l), op, right: Box::new(r) })
            == "("@ + bin_op_smt(op) + " "@ + expr_smt(l) + " "@ + expr_smt(r) + ")"@,
        expr_smt(ExprNode::OldValue(x)) == smt_symbol(x@) + "_old"@,
        expr_smt(ExprNode::Identifier(x)) == smt_symbol(x@),
        pred_smt(PredicateNode::And(Box::new(a), Box::new(b))) == "(and "@ + pred_smt(a) + " "@ + pred_smt(b) + ")"@,
        pred_smt(PredicateNode::Or(Box::new(a), Box::new(b))) == "(or "@ + pred_smt(a) + " "@ + pred_smt(b) + ")"@,
        pred_smt(PredicateNode::Not(Box::new(a))) == "(not "@ + pred_smt(a) + ")"@,
        pred_smt(PredicateNode::Forall { var: x, ty: Box::new(ty), body: Box::new(a) })
            == "(forall (("@ + smt_symbol(x@) + " Int)) "@ + pred_smt(a) + ")"@,
        pred_smt(PredicateNode::Exists { var: x, ty: Box::new(ty), body: Box::new(a) })
            == "(exists (("@ + smt_symbol(x@) + " Int)) "@ + pred_smt(a) + ")"@,
{
}

/// The SMT-LIB term of an expression.
pub open spec fn expr_smt(e: ExprNode) -> Seq<char>
    decreases e,
{
    match e {
        ExprNode::Number(n) => number_smt(n),
        ExprNode::StringLit(t) => "\""@ + t@ + "\""@,
        ExprNode::OldValue(name) => smt_symbol(name@) + "_old"@,
        ExprNode::Identifier(name) => smt_symbol(name@),
        ExprNode::FunctionCall { name, args } => if args@.len() == 0 {
            smt_symbol(name@)
        } else {
            "("@ + smt_symbol(name@) + args_smt(args@) + ")"@
        },
        ExprNode::BinOp { left, op, right } => "("@ + bin_op_smt(op) + " "@ + expr_smt(*left) + " "@
            + expr_smt(*right) + ")"@,
    }
}

/// The terms of `s`, each preceded by a space.
pub open spec fn args_smt(s: Seq<ExprNode>) -> Seq<char>
    decreases s,
{
    if s.len() == 0 {
        Seq::empty()
    } else {
        args_smt(s.drop_last()) + " "@ + expr_smt(s.last())
    }
}

/// The SMT-LIB formula of a predicate.
pub open spec fn pred_smt(p: PredicateNode) -> Seq<char>
    decreases p,
{
    match p {
        PredicateNode::Comparison { left, op, right } => "("@ + comparison_smt(op) + " "@ + expr_smt(left)
            + " "@ + expr_smt(right) + ")"@,
        PredicateNode::And(a, b) => "(and "@ + pred_smt(*a) + " "@ + pred_smt(*b) + ")"@,
        PredicateNode::Or(a, b) => "(or "@ + pred_smt(*a) + " "@ + pred_smt(*b) + ")"@,
        PredicateNode::Not(q) => "(not "@ + pred_smt(*q) + ")"@,
        PredicateNode::Forall { var, body, .. } => "(forall (("@ + smt_symbol(var@) + " Int)) "@
            + pred_smt(*body) + ")"@,
        PredicateNode::Exists { var, body, .. } => "(exists (("@ + smt_symbol(var@) + " Int)) "@
            + pred_smt(*body) + ")"@,
    }
}

/// The symbols an expression uses, with the number of arguments each takes,
/// in order of use (repetitions included).
pub open spec fn expr_symbols(e: ExprNode) -> Seq<(Seq<char>, nat)>
    decreases e,
{
    match e {
        ExprNode::OldValue(name) => seq![(smt_symbol(name@) + "_old"@, 0nat)],
        ExprNode::Identifier(name) => seq![(smt_symbol(name@), 0nat)],
        ExprNode::FunctionCall { name, args } => seq![(smt_symbol(name@), args@.len())] + args_symbols(args@),
        ExprNode::BinOp { left, right, .. } => expr_symbols(*left) + expr_symbols(*right),
        _ => Seq::empty(),
    }
}

pub open spec fn args_symbols(s: Seq<ExprNode>) -> Seq<(Seq<char>, nat)>
    decreases s,
{
    if s.len() == 0 {
        Seq::empty()
    } else {
        args_symbols(s.drop_last()) + expr_symbols(s.last())
    }
}

pub open spec fn pred_symbols(p: PredicateNode) -> Seq<(Seq<char>, nat)>
    decreases p,
{
    match p {
        PredicateNode::Comparison { left, right, .. } => expr_symbols(left) + expr_symbols(right),
        PredicateNode::And(a, b) => pred_symbols(*a) + pred_symbols(*b),
        PredicateNode::Or(a, b) => pred_symbols(*a) + pred_symbols(*b),
        PredicateNode::Not(q) => pred_symbols(*q),
        PredicateNode::Forall { body, .. } => pred_symbols(*body),
        PredicateNode::Exists { body, .. } => pred_symbols(*body),
    }
}

pub open spec fn preds_symbols(s: Seq<PredicateNode>) -> Seq<(Seq<char>, nat)>
    decreases s.len(),
{
    if s.len() == 0 {
        Seq::empty()
    } else {
        preds_symbols(s.drop_last()) + pred_symbols(s.last())
    }
}

/// The predicates of the lemmas of `ls`, in order.
pub open spec fn lemma_predicates(ls: Seq<LemmaDecl>) -> Seq<PredicateNode>
    decreases ls.len(),
{
    if ls.len() == 0 {
        Seq::empty()
    } else {
        lemma_predicates(ls.drop_last()) + ls.last().predicates@
    }
}

/// Some entry of `s` has name `name`.
pub open spec fn names_symbol(s: Seq<(Seq<char>, nat)>, name: Seq<char>) -> bool {
    exists|k: int| 0 <= k < s.len() && (#[trigger] s[k]).0 == name
}

/// `s` with only the first entry of each name kept.
pub open spec fn first_uses(s: Seq<(Seq<char>, nat)>) -> Seq<(Seq<char>, nat)>
    decreases s.len(),
{
    if s.len() == 0 {
        Seq::empty()
    } else {
        let kept = first_uses(s.drop_last());
        if names_symbol(kept, s.last().0) {
            kept
        } else {
            kept.push(s.last())
        }
    }
}

/// "Int" repeated `n` times, separated by spaces.
pub open spec fn int_sorts(n: nat) -> Seq<char>
    decreases n,
{
    if n == 0 {
        Seq::empty()
    } else if n == 1 {
        "Int"@
    } else {
        int_sorts((n - 1) as nat) + " Int"@
    }
}

pub open spec fn declare_smt(sym: (Seq<char>, nat)) -> Seq<char> {
    "(declare-fun "@ + sym.0 + " ("@ + int_sorts(sym.1) + ") Int)\n"@
}

pub open spec fn declares_smt(s: Seq<(Seq<char>, nat)>) -> Seq<char>
    decreases s.len(),
{
    if s.len() == 0 {
        Seq::empty()
    } else {
        declares_smt(s.drop_last()) + declare_smt(s.last())
    }
}

/// One `(assert ..)` line per predicate.
pub open spec fn asserts_smt(s: Seq<PredicateNode>) -> Seq<char>
    decreases s.len(),
{
    if s.len() == 0 {
        Seq::empty()
    } else {
        asserts_smt(s.drop_last()) + "(assert "@ + pred_smt(s.last()) + ")\n"@
    }
}

/// The formulas of `s`, separated by spaces.
pub open spec fn joined_smt(s: Seq<PredicateNode>) -> Seq<char>
    decreases s.len(),
{
    if s.len() == 0 {
        Seq::empty()
    } else if s.len() == 1 {
        pred_smt(s[0])
    } else {
        joined_smt(s.drop_last()) + " "@ + pred_smt(s.last())
    }
}

/// The negated goal: nothing without postconditions, the negation of the
/// only one, or the negation of their conjunction.
pub open spec fn goal_smt(posts: Seq<PredicateNode>) -> Seq<char> {
    if posts.len() == 0 {
        Seq::empty()
    } else if posts.len() == 1 {
        "(assert (not "@ + pred_smt(posts[0]) + "))\n"@
    } else {
        "(assert (not (and "@ + joined_smt(posts) + ")))\n"@
    }
}

/// The predicates whose symbols the query declares, in order of emission.
pub open spec fn query_predicates(d: Declaration) -> Seq<PredicateNode> {
    d.intent.preconditions@ + lemma_predicates(d.proof.lemmas@) + d.intent.postconditions@
}

/// The SMT-LIB query of a declaration.
pub open spec fn declaration_smt(d: Declaration) -> Seq<char> {
    "; "@ + smt_symbol(d.intent.name@) + "\n"@ + declares_smt(first_uses(preds_symbols(query_predicates(d))))
        + asserts_smt(d.intent.preconditions@) + asserts_smt(lemma_predicates(d.proof.lemmas@))
        + goal_smt(d.intent.postconditions@) + "(check-sat)\n"@
}

// ── text ─────────────────────────────────────────────────────────────────────

/// The SMT symbol of `name`.
pub fn symbol(name: &String) -> (r: String)
    ensures
        r@ == smt_symbol(name@),
{
    let cs = source_chars(name.as_str());
    let mut r = String::new();
    let mut i: usize = 0;
    while i < cs.len()
        invariant
            cs@ == name@,
            i <= cs@.len(),
            r@ == smt_symbol(name@.take(i as int)),
        decreases cs.len() - i,
    {
        let c = cs[i];
        if word_char(c) {
            push_char(&mut r, c);
        } else {
            push_char(&mut r, '_');
        }
        assert(smt_symbol(name@.take(i + 1)) =~= smt_symbol(name@.take(i as int)).push(
            if is_word_char(c) { c } else { '_' },
        ));
        i += 1;
    }
    r
}

fn number_text(n: &Number) -> (r: String)
    ensures
        r@ == number_smt(*n),
{
    match n {
        Number::Integer(v) => decimal_text(*v as u128),
        Number::Decimal(t) => t.clone(),
    }
}

fn bin_op_text(op: BinOpKind) -> (r: &'static str)
    ensures
        r@ == bin_op_smt(op),
{
    match op {
        BinOpKind::Add => "+",
        BinOpKind::Sub => "-",
        BinOpKind::Mul => "*",
        BinOpKind::Div => "div",
    }
}

fn comparison_text(op: ComparisonOp) -> (r: &'static str)
    ensures
        r@ == comparison_smt(op),
{
    match op {
        ComparisonOp::Eq => "=",
        ComparisonOp::Ne => "distinct",
        ComparisonOp::Le => "<=",
        ComparisonOp::Ge => ">=",
        ComparisonOp::Lt => "<",
        ComparisonOp::Gt => ">",
    }
}

/// The SMT-LIB term of `e`.
#[verifier::loop_isolation(false)]
pub fn emit_expr(e: &ExprNode) -> (r: String)
    ensures
        r@ == expr_smt(*e),
    decreases e,
{
    match e {
        ExprNode::Number(n) => number_text(n),
        ExprNode::StringLit(t) => {
            let mut r = String::from_str("\"");
            r.append(t.as_str());
            r.append("\"");
            r
        },
        ExprNode::OldValue(name) => {
            let mut r = symbol(name);
            r.append("_old");
            r
        },
        ExprNode::Identifier(name) => symbol(name),
        ExprNode::FunctionCall { name, args } => {
            if args.len() == 0 {
                return symbol(name);
            }
            let mut r = String::from_str("(");
            r.append(symbol(name).as_str());
            let ghost head = r@;
            let mut i: usize = 0;
            while i < args.len()
                invariant
                    i <= args@.len(),
                    r@ == head + args_smt(args@.take(i as int)),
                decreases args.len() - i,
            {
                r.append(" ");
                r.append(emit_expr(&args[i]).as_str());
                assert(args@.take(i + 1).drop_last() =~= args@.take(i as int));
                i += 1;
            }
            assert(args@.take(args@.len() as int) =~= args@);
            r.append(")");
            r
        },
        ExprNode::BinOp { left, op, right } => {
            let mut r = String::from_str("(");
            r.append(bin_op_text(*op));
            r.append(" ");
            r.append(emit_expr(left).as_str());
            r.append(" ");
            r.append(emit_expr(right).as_str());
            r.append(")");
            r
        },
    }
}

/// The SMT-LIB formula of `p`.
pub fn emit_formula(p: &PredicateNode) -> (r: String)
    ensures
        r@ == pred_smt(*p),
    decreases p,
{
    match p {
        PredicateNode::Comparison { left, op, right } => {
            let mut r = String::from_str("(");
            r.append(comparison_text(*op));
            r.append(" ");
            r.append(emit_expr(left).as_str());
            r.append(" ");
            r.append(emit_expr(right).as_str());
            r.append(")");
            r
        },
        PredicateNode::And(a, b) => {
            let mut r = String::from_str("(and ");
            r.append(emit_formula(a).as_str());
            r.append(" ");
            r.append(emit_formula(b).as_str());
            r.append(")");
            r
        },
        PredicateNode::Or(a, b) => {
            let mut r = String::from_str("(or ");
            r.append(emit_formula(a).as_str());
            r.append(" ");
            r.append(emit_formula(b).as_str());
            r.append(")");
            r
        },
        PredicateNode::Not(q) => {
            let mut r = String::from_str("(not ");
            r.append(emit_formula(q).as_str());
            r.append(")");
            r
        },
        PredicateNode::Forall { var, body, .. } => {
            let mut r = String::from_str("(forall ((");
            r.append(symbol(var).as_str());
            r.append(" Int)) ");
            r.append(emit_formula(body).as_str());
            r.append(")");
            r
        },
        PredicateNode::Exists { var, body, .. } => {
            let mut r = String::from_str("(exists ((");
            r.append(symbol(var).as_str());
            r.append(" Int)) ");
            r.append(emit_formula(body).as_str());
            r.append(")");
            r
        },
    }
}

/// Translates one predicate into SMT-LIB 2.
pub fn emit_predicate(predicate: &PredicateNode) -> (r: Result<String, CompilerError>)
    ensures
        r matches Ok(t) && t@ == pred_smt(*predicate),
{
    Ok(emit_formula(predicate))
}

// ── symbols ──────────────────────────────────────────────────────────────────

pub open spec fn symbols_view(s: Seq<(String, usize)>) -> Seq<(Seq<char>, nat)> {
    s.map_values(|p: (String, usize)| (p.0@, p.1 as nat))
}

/// Appends the symbols that `e` uses to `out`.
#[verifier::loop_isolation(false)]
fn push_expr_symbols(e: &ExprNode, out: &mut Vec<(String, usize)>)
    ensures
        symbols_view(final(out)@) == symbols_view(old(out)@) + expr_symbols(*e),
    decreases e,
{
    match e {
        ExprNode::OldValue(name) => {
            let mut s = symbol(name);
            s.append("_old");
            let ghost before = out@;
            out.push((s, 0));
        },
        ExprNode::Identifier(name) => {
            out.push((symbol(name), 0));
        },
        ExprNode::FunctionCall { name, args } => {
            let ghost start = out@;
            out.push((symbol(name), args.len()));
            let ghost head = symbols_view(out@);
            let mut i: usize = 0;
            while i < args.len()
                invariant
                    i <= args@.len(),
                    symbols_view(out@) == head + args_symbols(args@.take(i as int)),
                decreases args.len() - i,
            {
                push_expr_symbols(&args[i], out);
                assert(args@.take(i + 1).drop_last() =~= args@.take(i as int));
                i += 1;
            }
            assert(args@.take(args@.len() as int) =~= args@);
        },
        ExprNode::BinOp { left, right, .. } => {
            push_expr_symbols(left, out);
            push_expr_symbols(right, out);
        },
        _ => {},
    }
}

/// Appends the symbols that `p` uses to `out`.
fn push_pred_symbols(p: &PredicateNode, out: &mut Vec<(String, usize)>)
    ensures
        symbols_view(final(out)@) == symbols_view(old(out)@) + pred_symbols(*p),
    decreases p,
{
    match p {
        PredicateNode::Comparison { left, right, .. } => {
            push_expr_symbols(left, out);
            push_expr_symbols(right, out);
        },
        PredicateNode::And(a, b) | PredicateNode::Or(a, b) => {
            push_pred_symbols(a, out);
            push_pred_symbols(b, out);
        },
        PredicateNode::Not(q) => push_pred_symbols(q, out),
        PredicateNode::Forall { body, .. } | PredicateNode::Exists { body, .. } => push_pred_symbols(body, out),
    }
}

/// Appends the symbols that the predicates of `ps` use to `out`.
fn push_preds_symbols(ps: &Vec<PredicateNode>, out: &mut Vec<(String, usize)>)
    ensures
        symbols_view(final(out)@) == symbols_view(old(out)@) + preds_symbols(ps@),
{
    let ghost start = symbols_view(out@);
    let mut i: usize = 0;
    while i < ps.len()
        invariant
            i <= ps@.len(),
            symbols_view(out@) == start + preds_symbols(ps@.take(i as int)),
        decreases ps.len() - i,
    {
        push_pred_symbols(&ps[i], out);
        assert(ps@.take(i + 1).drop_last() =~= ps@.take(i as int));
        i += 1;
    }
    assert(ps@.take(ps@.len() as int) =~= ps@);
}

proof fn lemma_preds_symbols_concat(a: Seq<PredicateNode>, b: Seq<PredicateNode>)
    ensures
        preds_symbols(a + b) =~= preds_symbols(a) + preds_symbols(b),
    decreases b.len(),
{
    if b.len() > 0 {
        lemma_preds_symbols_concat(a, b.drop_last());
        assert((a + b).drop_last() =~= a + b.drop_last());
    }
}

/// Appends the symbols that the predicates of the lemmas of `ls` use to `out`.
fn push_lemma_symbols(ls: &Vec<LemmaDecl>, out: &mut Vec<(String, usize)>)
    ensures
        symbols_view(final(out)@) == symbols_view(old(out)@) + preds_symbols(lemma_predicates(ls@)),
{
    let ghost start = symbols_view(out@);
    let mut i: usize = 0;
    while i < ls.len()
        invariant
            i <= ls@.len(),
            symbols_view(out@) == start + preds_symbols(lemma_predicates(ls@.take(i as int))),
        decreases ls.len() - i,
    {
        push_preds_symbols(&ls[i].predicates, out);
        assert(ls@.take(i + 1).drop_last() =~= ls@.take(i as int));
        proof {
            lemma_preds_symbols_concat(lemma_predicates(ls@.take(i as int)), ls@[i as int].predicates@);
        }
        i += 1;
    }
    assert(ls@.take(ls@.len() as int) =~= ls@);
}

/// `syms` with only the first entry of each name kept.
fn keep_first_uses(syms: &Vec<(String, usize)>) -> (r: Vec<(String, usize)>)
    ensures
        symbols_view(r@) == first_uses(symbols_view(syms@)),
{
    let ghost sv = symbols_view(syms@);
    let mut out: Vec<(String, usize)> = Vec::new();
    let mut i: usize = 0;
    while i < syms.len()
        invariant
            sv == symbols_view(syms@),
            i <= syms@.len(),
            symbols_view(out@) == first_uses(sv.take(i as int)),
        decreases syms.len() - i,
    {
        assert(sv.take(i + 1).drop_last() =~= sv.take(i as int));
        let ghost kept = symbols_view(out@);
        let mut found = false;
        let mut k: usize = 0;
        while k < out.len()
            invariant
                kept == symbols_view(out@),
                k <= out@.len(),
                i < syms@.len(),
                found ==> names_symbol(kept, syms@[i as int].0@),
                !found ==> forall|j: int| 0 <= j < k ==> kept[j].0 != syms@[i as int].0@,
            decreases out.len() - k,
        {
            if out[k].0 == syms[i].0 {
                found = true;
                assert(kept[k as int].0 == syms@[i as int].0@);
            }
            k += 1;
        }
        if !found {
            out.push((syms[i].0.clone(), syms[i].1));
        }
        i += 1;
    }
    assert(sv.take(syms@.len() as int) =~= sv);
    out
}

// ── the query ────────────────────────────────────────────────────────────────

fn int_sorts_text(n: usize) -> (r: String)
    ensures
        r@ == int_sorts(n as nat),
    decreases n,
{
    if n == 0 {
        String::new()
    } else if n == 1 {
        String::from_str("Int")
    } else {
        let mut r = int_sorts_text(n - 1);
        r.append(" Int");
        r
    }
}

/// Appends one `(assert ..)` line per predicate of `ps` to `out`.
fn append_asserts(ps: &Vec<PredicateNode>, out: &mut String)
    ensures
        final(out)@ == old(out)@ + asserts_smt(ps@),
{
    let ghost start = out@;
    let mut i: usize = 0;
    while i < ps.len()
        invariant
            i <= ps@.len(),
            out@ == start + asserts_smt(ps@.take(i as int)),
        decreases ps.len() - i,
    {
        out.append("(assert ");
        out.append(emit_formula(&ps[i]).as_str());
        out.append(")\n");
        assert(ps@.take(i + 1).drop_last() =~= ps@.take(i as int));
        i += 1;
    }
    assert(ps@.take(ps@.len() as int) =~= ps@);
}

proof fn lemma_asserts_concat(a: Seq<PredicateNode>, b: Seq<PredicateNode>)
    ensures
        asserts_smt(a + b) =~= asserts_smt(a) + asserts_smt(b),
    decreases b.len(),
{
    if b.len() > 0 {
        lemma_asserts_concat(a, b.drop_last());
        assert((a + b).drop_last() =~= a + b.drop_last());
    }
}

/// Appends one `(assert ..)` line per lemma predicate of `ls` to `out`.
fn append_lemma_asserts(ls: &Vec<LemmaDecl>, out: &mut String)
    ensures
        final(out)@ == old(out)@ + asserts_smt(lemma_predicates(ls@)),
{
    let ghost start = out@;
    let mut i: usize = 0;
    while i < ls.len()
        invariant
            i <= ls@.len(),
            out@ == start + asserts_smt(lemma_predicates(ls@.take(i as int))),
        decreases ls.len() - i,
    {
        append_asserts(&ls[i].predicates, out);
        assert(ls@.take(i + 1).drop_last() =~= ls@.take(i as int));
        proof {
            lemma_asserts_concat(lemma_predicates(ls@.take(i as int)), ls@[i as int].predicates@);
        }
        i += 1;
    }
    assert(ls@.take(ls@.len() as int) =~= ls@);
}

/// Appends the negated goal for the postconditions `posts` to `out`.
fn append_goal(posts: &Vec<PredicateNode>, out: &mut String)
    ensures
        final(out)@ == old(out)@ + goal_smt(posts@),
{
    if posts.len() == 0 {
        return;
    }
    if posts.len() == 1 {
        out.append("(assert (not ");
        out.append(emit_formula(&posts[0]).as_str());
        out.append("))\n");
        return;
    }
    out.append("(assert (not (and ");
    let ghost head = out@;
    out.append(emit_formula(&posts[0]).as_str());
    let mut i: usize = 1;
    while i < posts.len()
        invariant
            1 <= i <= posts@.len(),
            out@ == head + joined_smt(posts@.take(i as int)),
        decreases posts.len() - i,
    {
        out.append(" ");
        out.append(emit_formula(&posts[i]).as_str());
        assert(posts@.take(i + 1).drop_last() =~= posts@.take(i as int));
        i += 1;
    }
    assert(posts@.take(posts@.len() as int) =~= posts@);
    out.append(")))\n");
}

/// The SMT-LIB 2 query that checks `decl`: its symbols declared, its
/// preconditions and lemmas asserted, its postconditions negated, and a
/// closing `(check-sat)`.
pub fn emit_declaration(decl: &Declaration) -> (r: String)
    ensures
        r@ == declaration_smt(*decl),
{
    let mut syms: Vec<(String, usize)> = Vec::new();
    push_preds_symbols(&decl.intent.preconditions, &mut syms);
    push_lemma_symbols(&decl.proof.lemmas, &mut syms);
    push_preds_symbols(&decl.intent.postconditions, &mut syms);
    proof {
        lemma_preds_symbols_concat(decl.intent.preconditions@, lemma_predicates(decl.proof.lemmas@));
        lemma_preds_symbols_concat(
            decl.intent.preconditions@ + lemma_predicates(decl.proof.lemmas@),
            decl.intent.postconditions@,
        );
    }
    let firsts = keep_first_uses(&syms);
    let mut out = join3("; ", symbol(&decl.intent.name).as_str(), "\n");
    let ghost head = out@;
    let mut i: usize = 0;
    while i < firsts.len()
        invariant
            i <= firsts@.len(),
            out@ == head + declares_smt(symbols_view(firsts@).take(i as int)),
        decreases firsts.len() - i,
    {
        out.append("(declare-fun ");
        out.append(firsts[i].0.as_str());
        out.append(" (");
        out.append(int_sorts_text(firsts[i].1).as_str());
        out.append(") Int)\n");
        assert(symbols_view(firsts@).take(i + 1).drop_last() =~= symbols_view(firsts@).take(i as int));
        i += 1;
    }
    assert(symbols_view(firsts@).take(firsts@.len() as int) =~= symbols_view(firsts@));
    append_asserts(&decl.intent.preconditions, &mut out);
    append_lemma_asserts(&decl.proof.lemmas, &mut out);
    append_goal(&decl.intent.postconditions, &mut out);
    out.append("(check-sat)\n");
    out
}

// ── parentheses ──────────────────────────────────────────────────────────────

/// Opening minus closing parentheses in `s`.
pub open spec fn paren_balance(s: Seq<char>) -> int
    decreases s.len(),
{
    if s.len() == 0 {
        0
    } else {
        paren_balance(s.drop_last()) + if s.last() == '(' {
            1int
        } else if s.last() == ')' {
            -1int
        } else {
            0int
        }
    }
}

/// The string and decimal literals of `e` hold as many opening as closing parentheses.
pub open spec fn expr_literals_balanced(e: ExprNode) -> bool
    decreases e,
{
    match e {
        ExprNode::Number(Number::Decimal(t)) => paren_balance(t@) == 0,
        ExprNode::StringLit(t) => paren_balance(t@) == 0,
        ExprNode::FunctionCall { args, .. } => args_literals_balanced(args@),
        ExprNode::BinOp { left, right, .. } => expr_literals_balanced(*left) && expr_literals_balanced(*right),
        _ => true,
    }
}

pub open spec fn args_literals_balanced(s: Seq<ExprNode>) -> bool
    decreases s,
{
    if s.len() == 0 {
        true
    } else {
        args_literals_balanced(s.drop_last()) && expr_literals_balanced(s.last())
    }
}

pub open spec fn pred_literals_balanced(p: PredicateNode) -> bool
    decreases p,
{
    match p {
        PredicateNode::Comparison { left, right, .. } => expr_literals_balanced(left) && expr_literals_balanced(right),
        PredicateNode::And(a, b) => pred_literals_balanced(*a) && pred_literals_balanced(*b),
        PredicateNode::Or(a, b) => pred_literals_balanced(*a) && pred_literals_balanced(*b),
        PredicateNode::Not(q) => pred_literals_balanced(*q),
        PredicateNode::Forall { body, .. } => pred_literals_balanced(*body),
        PredicateNode::Exists { body, .. } => pred_literals_balanced(*body),
    }
}

pub broadcast proof fn lemma_balance_concat(a: Seq<char>, b: Seq<char>)
    ensures
        #[trigger] paren_balance(a + b) == paren_balance(a) + paren_balance(b),
    decreases b.len(),
{
    if b.len() > 0 {
        lemma_balance_concat(a, b.drop_last());
        assert((a + b).drop_last() =~= a + b.drop_last());
    }
}

proof fn lemma_balance_no_parens(s: Seq<char>)
    requires
        forall|i: int| 0 <= i < s.len() ==> #[trigger] s[i] != '(' && s[i] != ')',
    ensures
        paren_balance(s) == 0,
    decreases s.len(),
{
    if s.len() > 0 {
        lemma_balance_no_parens(s.drop_last());
    }
}

proof fn lemma_symbol_balanced(name: Seq<char>)
    ensures
        paren_balance(smt_symbol(name)) == 0,
{
    lemma_balance_no_parens(smt_symbol(name));
}

proof fn lemma_decimal_balanced(n: nat)
    ensures
        paren_balance(decimal(n)) == 0,
    decreases n,
{
    if n >= 10 {
        lemma_decimal_balanced(n / 10);
        lemma_balance_concat(decimal(n / 10), seq![digit_of_nat(n % 10)]);
        lemma_balance_no_parens(seq![digit_of_nat(n % 10)]);
        assert(decimal(n) =~= decimal(n / 10) + seq![digit_of_nat(n % 10)]);
    } else {
        lemma_balance_no_parens(decimal(n));
    }
}

spec fn digit_of_nat(d: nat) -> char {
    crate::parser::digit_of(d)
}

/// The parenthesis balance of each piece of fixed text the emitter writes.
proof fn lemma_literal_balances()
    ensures
        paren_balance("("@) == 1,
        paren_balance(")"@) == -1,
        paren_balance(" "@) == 0,
        paren_balance("\""@) == 0,
        paren_balance("_old"@) == 0,
        paren_balance("(and "@) == 1,
        paren_balance("(or "@) == 1,
        paren_balance("(not "@) == 1,
        paren_balance("(forall (("@) == 3,
        paren_balance("(exists (("@) == 3,
        paren_balance(" Int)) "@) == -2,
        paren_balance("(declare-fun "@) == 1,
        paren_balance(" ("@) == 1,
        paren_balance(") Int)\n"@) == -2,
        paren_balance("(assert "@) == 1,
        paren_balance(")\n"@) == -1,
        paren_balance("(assert (not "@) == 2,
        paren_balance("))\n"@) == -2,
        paren_balance("(assert (not (and "@) == 3,
        paren_balance(")))\n"@) == -3,
        paren_balance("(check-sat)\n"@) == 0,
        paren_balance("; "@) == 0,
        paren_balance("\n"@) == 0,
        paren_balance("Int"@) == 0,
        paren_balance(" Int"@) == 0,
        paren_balance("+"@) == 0,
        paren_balance("-"@) == 0,
        paren_balance("*"@) == 0,
        paren_balance("div"@) == 0,
        paren_balance("="@) == 0,
        paren_balance("distinct"@) == 0,
        paren_balance("<="@) == 0,
        paren_balance(">="@) == 0,
        paren_balance("<"@) == 0,
        paren_balance(">"@) == 0,
{
    lemma_lit_0();
    lemma_lit_1();
    lemma_lit_2();
    lemma_lit_3();
    lemma_lit_4();
    lemma_lit_5();
    lemma_lit_6();
    lemma_lit_7();
    lemma_lit_8();
    lemma_lit_9();
    lemma_lit_10();
    lemma_lit_11();
    lemma_lit_12();
    lemma_lit_13();
    lemma_lit_14();
    lemma_lit_15();
    lemma_lit_16();
    lemma_lit_17();
    lemma_lit_18();
    lemma_lit_19();
    lemma_lit_20();
    lemma_lit_21();
    lemma_lit_22();
    lemma_lit_23();
    lemma_lit_24();
    lemma_lit_25();
    lemma_lit_26();
    lemma_lit_27();
    lemma_lit_28();
    lemma_lit_29();
    lemma_lit_30();
    lemma_lit_31();
    lemma_lit_32();
    lemma_lit_33();
    lemma_lit_34();
}

proof fn lemma_lit_0()
    ensures
        paren_balance("("@) == 1,
{
    reveal_strlit("(");
    reveal_with_fuel(paren_balance, 2);
}

proof fn lemma_lit_1()
    ensures
        paren_balance(")"@) == -1,
{
    reveal_strlit(")");
    reveal_with_fuel(paren_balance, 2);
}

proof fn lemma_lit_2()
    ensures
        paren_balance(" "@) == 0,
{
    reveal_strlit(" ");
    reveal_with_fuel(paren_balance, 2);
}

proof fn lemma_lit_3()
    ensures
        paren_balance("\""@) == 0,
{
    reveal_strlit("\"");
    reveal_with_fuel(paren_balance, 2);
}

proof fn lemma_lit_4()
    ensures
        paren_balance("_old"@) == 0,
{
    reveal_strlit("_old");
    reveal_with_fuel(paren_balance, 5);
}

proof fn lemma_lit_5()
    ensures
        paren_balance("(and "@) == 1,
{
    reveal_strlit("(and ");
    reveal_with_fuel(paren_balance, 6);
}

proof fn lemma_lit_6()
    ensures
        paren_balance("(or "@) == 1,
{
    reveal_strlit("(or ");
    reveal_with_fuel(paren_balance, 5);
}

proof fn lemma_lit_7()
    ensures
        paren_balance("(not "@) == 1,
{
    reveal_strlit("(not ");
    reveal_with_fuel(paren_balance, 6);
}

proof fn lemma_lit_8()
    ensures
        paren_balance("(forall (("@) == 3,
{
    reveal_strlit("(forall ((");
    reveal_with_fuel(paren_balance, 11);
}

proof fn lemma_lit_9()
    ensures
        paren_balance("(exists (("@) == 3,
{
    reveal_strlit("(exists ((");
    reveal_with_fuel(paren_balance, 11);
}

proof fn lemma_lit_10()
    ensures
        paren_balance(" Int)) "@) == -2,
{
    reveal_strlit(" Int)) ");
    reveal_with_fuel(paren_balance, 8);
}

proof fn lemma_lit_11()
    ensures
        paren_balance("(declare-fun "@) == 1,
{
    reveal_strlit("(declare-fun ");
    reveal_with_fuel(paren_balance, 14);
}

proof fn lemma_lit_12()
    ensures
        paren_balance(" ("@) == 1,
{
    reveal_strlit(" (");
    reveal_with_fuel(paren_balance, 3);
}

proof fn lemma_lit_13()
    ensures
        paren_balance(") Int)\n"@) == -2,
{
    reveal_strlit(") Int)\n");
    reveal_with_fuel(paren_balance, 8);
}

proof fn lemma_lit_14()
    ensures
        paren_balance("(assert "@) == 1,
{
    reveal_strlit("(assert ");
    reveal_with_fuel(paren_balance, 9);
}

proof fn lemma_lit_15()
    ensures
        paren_balance(")\n"@) == -1,
{
    reveal_strlit(")\n");
    reveal_with_fuel(paren_balance, 3);
}

proof fn lemma_lit_16()
    ensures
        paren_balance("(assert (not "@) == 2,
{
    reveal_strlit("(assert (not ");
    reveal_with_fuel(paren_balance, 14);
}

proof fn lemma_lit_17()
    ensures
        paren_balance("))\n"@) == -2,
{
    reveal_strlit("))\n");
    reveal_with_fuel(paren_balance, 4);
}

proof fn lemma_lit_18()
    ensures
        paren_balance("(assert (not (and "@) == 3,
{
    reveal_strlit("(assert (not (and ");
    reveal_with_fuel(paren_balance, 19);
}

proof fn lemma_lit_19()
    ensures
        paren_balance(")))\n"@) == -3,
{
    reveal_strlit(")))\n");
    reveal_with_fuel(paren_balance, 5);
}

proof fn lemma_lit_20()
    ensures
        paren_balance("(check-sat)\n"@) == 0,
{
    reveal_strlit("(check-sat)\n");
    reveal_with_fuel(paren_balance, 13);
}

proof fn lemma_lit_21()
    ensures
        paren_balance("; "@) == 0,
{
    reveal_strlit("; ");
    reveal_with_fuel(paren_balance, 3);
}

proof fn lemma_lit_22()
    ensures
        paren_balance("\n"@) == 0,
{
    reveal_strlit("\n");
    reveal_with_fuel(paren_balance, 2);
}

proof fn lemma_lit_23()
    ensures
        paren_balance("Int"@) == 0,
{
    reveal_strlit("Int");
    reveal_with_fuel(paren_balance, 4);
}

proof fn lemma_lit_24()
    ensures
        paren_balance(" Int"@) == 0,
{
    reveal_strlit(" Int");
    reveal_with_fuel(paren_balance, 5);
}

proof fn lemma_lit_25()
    ensures
        paren_balance("+"@) == 0,
{
    reveal_strlit("+");
    reveal_with_fuel(paren_balance, 2);
}

proof fn lemma_lit_26()
    ensures
        paren_balance("-"@) == 0,
{
    reveal_strlit("-");
    reveal_with_fuel(paren_balance, 2);
}

proof fn lemma_lit_27()
    ensures
        paren_balance("*"@) == 0,
{
    reveal_strlit("*");
    reveal_with_fuel(paren_balance, 2);
}

proof fn lemma_lit_28()
    ensures
        paren_balance("div"@) == 0,
{
    reveal_strlit("div");
    reveal_with_fuel(paren_balance, 4);
}

proof fn lemma_lit_29()
    ensures
        paren_balance("="@) == 0,
{
    reveal_strlit("=");
    reveal_with_fuel(paren_balance, 2);
}

proof fn lemma_lit_30()
    ensures
        paren_balance("distinct"@) == 0,
{
    reveal_strlit("distinct");
    reveal_with_fuel(paren_balance, 9);
}

proof fn lemma_lit_31()
    ensures
        paren_balance("<="@) == 0,
{
    reveal_strlit("<=");
    reveal_with_fuel(paren_balance, 3);
}

proof fn lemma_lit_32()
    ensures
        paren_balance(">="@) == 0,
{
    reveal_strlit(">=");
    reveal_with_fuel(paren_balance, 3);
}

proof fn lemma_lit_33()
    ensures
        paren_balance("<"@) == 0,
{
    reveal_strlit("<");
    reveal_with_fuel(paren_balance, 2);
}

proof fn lemma_lit_34()
    ensures
        paren_balance(">"@) == 0,
{
    reveal_strlit(">");
    reveal_with_fuel(paren_balance, 2);
}

proof fn lemma_expr_balanced(e: ExprNode)
    requires
        expr_literals_balanced(e),
    ensures
        paren_balance(expr_smt(e)) == 0,
    decreases e,
{
    broadcast use lemma_balance_concat;
    lemma_literal_balances();
    match e {
        ExprNode::Number(Number::Integer(v)) => {
            lemma_decimal_balanced(v as nat);
        },
        ExprNode::OldValue(name) => {
            lemma_symbol_balanced(name@);
        },
        ExprNode::Identifier(name) => {
            lemma_symbol_balanced(name@);
        },
        ExprNode::FunctionCall { name, args } => {
            lemma_symbol_balanced(name@);
            lemma_args_balanced(args@);
        },
        ExprNode::BinOp { left, op, right } => {
            lemma_expr_balanced(*left);
            lemma_expr_balanced(*right);
        },
        _ => {},
    }
}

proof fn lemma_args_balanced(s: Seq<ExprNode>)
    requires
        args_literals_balanced(s),
    ensures
        paren_balance(args_smt(s)) == 0,
    decreases s,
{
    broadcast use lemma_balance_concat;
    lemma_literal_balances();
    if s.len() > 0 {
        lemma_args_balanced(s.drop_last());
        lemma_expr_balanced(s.last());
    }
}

proof fn lemma_pred_balanced(p: PredicateNode)
    requires
        pred_literals_balanced(p),
    ensures
        paren_balance(pred_smt(p)) == 0,
    decreases p,
{
    broadcast use lemma_balance_concat;
    lemma_literal_balances();
    match p {
        PredicateNode::Comparison { left, op, right } => {
            lemma_expr_balanced(left);
            lemma_expr_balanced(right);
        },
        PredicateNode::And(a, b) => {
            lemma_pred_balanced(*a);
            lemma_pred_balanced(*b);
        },
        PredicateNode::Or(a, b) => {
            lemma_pred_balanced(*a);
            lemma_pred_balanced(*b);
        },
        PredicateNode::Not(q) => {
            lemma_pred_balanced(*q);
        },
        PredicateNode::Forall { var, body, .. } => {
            lemma_symbol_balanced(var@);
            lemma_pred_balanced(*body);
        },
        PredicateNode::Exists { var, body, .. } => {
            lemma_symbol_balanced(var@);
            lemma_pred_balanced(*body);
        },
    }
}

/// Every predicate of `s` has balanced literals.
pub open spec fn preds_literals_balanced(s: Seq<PredicateNode>) -> bool {
    forall|k: int| 0 <= k < s.len() ==> pred_literals_balanced(#[trigger] s[k])
}

/// Every symbol name of `s` has balanced parentheses.
pub open spec fn names_balanced(s: Seq<(Seq<char>, nat)>) -> bool {
    forall|k: int| 0 <= k < s.len() ==> paren_balance((#[trigger] s[k]).0) == 0
}

proof fn lemma_names_concat(a: Seq<(Seq<char>, nat)>, b: Seq<(Seq<char>, nat)>)
    requires
        names_balanced(a),
        names_balanced(b),
    ensures
        names_balanced(a + b),
{
    assert(forall|k: int| 0 <= k < (a + b).len() ==> paren_balance((#[trigger] (a + b)[k]).0) == 0);
}

proof fn lemma_expr_symbol_names(e: ExprNode)
    ensures
        names_balanced(expr_symbols(e)),
    decreases e,
{
    broadcast use lemma_balance_concat;
    lemma_literal_balances();
    match e {
        ExprNode::OldValue(name) => {
            lemma_symbol_balanced(name@);
        },
        ExprNode::Identifier(name) => {
            lemma_symbol_balanced(name@);
        },
        ExprNode::FunctionCall { name, args } => {
            lemma_symbol_balanced(name@);
            lemma_args_symbol_names(args@);
            lemma_names_concat(seq![(smt_symbol(name@), args@.len())], args_symbols(args@));
        },
        ExprNode::BinOp { left, right, .. } => {
            lemma_expr_symbol_names(*left);
            lemma_expr_symbol_names(*right);
            lemma_names_concat(expr_symbols(*left), expr_symbols(*right));
        },
        _ => {},
    }
}

proof fn lemma_args_symbol_names(s: Seq<ExprNode>)
    ensures
        names_balanced(args_symbols(s)),
    decreases s,
{
    if s.len() > 0 {
        lemma_args_symbol_names(s.drop_last());
        lemma_expr_symbol_names(s.last());
        lemma_names_concat(args_symbols(s.drop_last()), expr_symbols(s.last()));
    }
}

proof fn lemma_pred_symbol_names(p: PredicateNode)
    ensures
        names_balanced(pred_symbols(p)),
    decreases p,
{
    match p {
        PredicateNode::Comparison { left, right, .. } => {
            lemma_expr_symbol_names(left);
            lemma_expr_symbol_names(right);
            lemma_names_concat(expr_symbols(left), expr_symbols(right));
        },
        PredicateNode::And(a, b) => {
            lemma_pred_symbol_names(*a);
            lemma_pred_symbol_names(*b);
            lemma_names_concat(pred_symbols(*a), pred_symbols(*b));
        },
        PredicateNode::Or(a, b) => {
            lemma_pred_symbol_names(*a);
            lemma_pred_symbol_names(*b);
            lemma_names_concat(pred_symbols(*a), pred_symbols(*b));
        },
        PredicateNode::Not(q) => {
            lemma_pred_symbol_names(*q);
        },
        PredicateNode::Forall { body, .. } => {
            lemma_pred_symbol_names(*body);
        },
        PredicateNode::Exists { body, .. } => {
            lemma_pred_symbol_names(*body);
        },
    }
}

proof fn lemma_preds_symbol_names(s: Seq<PredicateNode>)
    ensures
        names_balanced(preds_symbols(s)),
    decreases s.len(),
{
    if s.len() > 0 {
        lemma_preds_symbol_names(s.drop_last());
        lemma_pred_symbol_names(s.last());
        lemma_names_concat(preds_symbols(s.drop_last()), pred_symbols(s.last()));
    }
}

proof fn lemma_first_uses_names(s: Seq<(Seq<char>, nat)>)
    requires
        names_balanced(s),
    ensures
        names_balanced(first_uses(s)),
    decreases s.len(),
{
    if s.len() > 0 {
        assert(names_balanced(s.drop_last())) by {
            assert(forall|k: int| 0 <= k < s.drop_last().len() ==> paren_balance((#[trigger] s.drop_last()[k]).0) == 0);
        }
        lemma_first_uses_names(s.drop_last());
    }
}

proof fn lemma_int_sorts_balanced(n: nat)
    ensures
        paren_balance(int_sorts(n)) == 0,
    decreases n,
{
    broadcast use lemma_balance_concat;
    lemma_literal_balances();
    if n > 1 {
        lemma_int_sorts_balanced((n - 1) as nat);
    }
}

proof fn lemma_declares_balanced(s: Seq<(Seq<char>, nat)>)
    requires
        names_balanced(s),
    ensures
        paren_balance(declares_smt(s)) == 0,
    decreases s.len(),
{
    broadcast use lemma_balance_concat;
    lemma_literal_balances();
    if s.len() > 0 {
        assert(names_balanced(s.drop_last())) by {
            assert(forall|k: int| 0 <= k < s.drop_last().len() ==> paren_balance((#[trigger] s.drop_last()[k]).0) == 0);
        }
        lemma_declares_balanced(s.drop_last());
        lemma_int_sorts_balanced(s.last().1);
    }
}

proof fn lemma_asserts_balanced(s: Seq<PredicateNode>)
    requires
        preds_literals_balanced(s),
    ensures
        paren_balance(asserts_smt(s)) == 0,
    decreases s.len(),
{
    broadcast use lemma_balance_concat;
    lemma_literal_balances();
    if s.len() > 0 {
        assert(preds_literals_balanced(s.drop_last())) by {
            assert(forall|k: int| 0 <= k < s.drop_last().len() ==> pred_literals_balanced(#[trigger] s.drop_last()[k]));
        }
        lemma_asserts_balanced(s.drop_last());
        lemma_pred_balanced(s.last());
    }
}

proof fn lemma_joined_balanced(s: Seq<PredicateNode>)
    requires
        preds_literals_balanced(s),
    ensures
        paren_balance(joined_smt(s)) == 0,
    decreases s.len(),
{
    broadcast use lemma_balance_concat;
    lemma_literal_balances();
    if s.len() == 1 {
        lemma_pred_balanced(s[0]);
    } else if s.len() > 1 {
        assert(preds_literals_balanced(s.drop_last())) by {
            assert(forall|k: int| 0 <= k < s.drop_last().len() ==> pred_literals_balanced(#[trigger] s.drop_last()[k]));
        }
        lemma_joined_balanced(s.drop_last());
        lemma_pred_balanced(s.last());
    }
}

proof fn lemma_goal_balanced(s: Seq<PredicateNode>)
    requires
        preds_literals_balanced(s),
    ensures
        paren_balance(goal_smt(s)) == 0,
{
    broadcast use lemma_balance_concat;
    lemma_literal_balances();
    if s.len() == 1 {
        lemma_pred_balanced(s[0]);
    } else if s.len() > 1 {
        lemma_joined_balanced(s);
    }
}

proof fn lemma_lemma_predicates_split(ls: Seq<LemmaDecl>, pre: Seq<PredicateNode>, post: Seq<PredicateNode>)
    requires
        preds_literals_balanced(pre + lemma_predicates(ls) + post),
    ensures
        preds_literals_balanced(pre),
        preds_literals_balanced(lemma_predicates(ls)),
        preds_literals_balanced(post),
{
    let all = pre + lemma_predicates(ls) + post;
    let mid = lemma_predicates(ls);
    assert forall|k: int| 0 <= k < pre.len() implies pred_literals_balanced(#[trigger] pre[k]) by {
        assert(all[k] == pre[k]);
    }
    assert forall|k: int| 0 <= k < mid.len() implies pred_literals_balanced(#[trigger] mid[k]) by {
        assert(all[pre.len() + k] == mid[k]);
    }
    assert forall|k: int| 0 <= k < post.len() implies pred_literals_balanced(#[trigger] post[k]) by {
        assert(all[pre.len() + mid.len() + k] == post[k]);
    }
}

/// The query that `emit_declaration` writes holds as many opening as closing
/// parentheses, whenever the string and decimal literals of the predicates it
/// translates do.
pub proof fn lemma_query_parentheses_balanced(d: Declaration)
    requires
        preds_literals_balanced(query_predicates(d)),
    ensures
        paren_balance(declaration_smt(d)) == 0,
{
    broadcast use lemma_balance_concat;
    lemma_literal_balances();
    lemma_lemma_predicates_split(d.proof.lemmas@, d.intent.preconditions@, d.intent.postconditions@);
    lemma_symbol_balanced(d.intent.name@);
    lemma_preds_symbol_names(query_predicates(d));
    lemma_first_uses_names(preds_symbols(query_predicates(d)));
    lemma_declares_balanced(first_uses(preds_symbols(query_predicates(d))));
    lemma_asserts_balanced(d.intent.preconditions@);
    lemma_asserts_balanced(lemma_predicates(d.proof.lemmas@));
    lemma_goal_balanced(d.intent.postconditions@);
}

} // verus!
