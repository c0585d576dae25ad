//! Parser for Firmum source text.
//!
//! A recursive-descent reading of the grammar (ordered choice, with
//! backtracking), which builds the FIR program directly. Whitespace
//! (`" " | "\t" | "\n" | "\r"`) and comments (`// ...` up to the end of the
//! line, `/* ... */`) are skipped between tokens. Identifiers, numbers,
//! string literals, qualified identifiers, dates, confidence values and
//! source references are tokens: no whitespace inside them.

use vstd::prelude::*;
use vstd::std_specs::iter::IteratorSpec;
use crate::errors::CompilerError;
use crate::fir::model::{
    ContextFieldM, ContextM, ExprM, FieldM, IntentM, LemmaM, ParamM, PredM, ProofM, SectionM,
    SourceRefM, StmtM, VerifyM, DeclM, LetM, ProgramM, expr_views, lemma_stmt_views_len, stmt_views, views,
};
use crate::grammar::{
    Gram, and_at, and_rest, atom_at, comparison_at, comparison_op_at, contextual_at, dependent_at,
    duration_at, or_at, or_rest, quantifier_at, temporal_at, time_unit_at, timed_at, type_at,
    args_rest, call_at, call_close, expr_at, expr_rest, factor_at, term_at, term_rest,
    agrees, agrees_all, found_all, as_pos, block_close, digits_stop, dotted_stop, found, identifier_at, line_end, lit_at,
    number_at, qualified_at, string_at, string_close, word_stop, ws_end,
    boolean_at, context_decl_at, context_field_at, context_fields_rest, ids_rest, let_at, lines_at,
    lines_rest, never_at, param_section_at, params_at, params_rest, predicate_section_at,
    intent_at, intent_body_at, intent_tail, invariants_rest, optional,
    assumption_at, confidence_at, date_at, field_at, fields_rest, method_at, path_stop, refs_rest,
    section_at, sections_rest, source_ref_at, strings_rest,
    certificate_at, declaration_at, lemma_at, lemmas_rest, proof_at, proof_end, proof_tail,
    statement_at, statements_rest, strategy_at, strategy_name_at, technique_at, verifies_rest,
    verify_at, atomic_at, verify_end, items_rest, line_col, parse_outcome, program_of,
    unexpected_message, lemma_program_of_literal, no_items,
};
use crate::fir::{
    AssignOp, AssumptionNode, AssumptionSection, BinOpKind, CertificatePlaceholder, ComparisonOp,
    ContextDecl, ContextField, ContextFieldValue, Declaration, Duration, ExprNode, IntentNode,
    LemmaDecl, LetBinding, Number, Param, PredicateNode, Program, ProofMethod, ProofNode,
    ProofTechnique, SourceRef, SourceType, StrategyExpr, StrategyName, TemporalType, TimeUnit,
    TypeNode, ValidatedBy, ValidatedByField, ValidationMethod, VerifyDecl, VerifyStatement,
};

verus! {

broadcast use vstd::string::group_string_axioms;

/// The characters of `s`, in order.
pub fn source_chars(s: &str) -> (r: Vec<char>)
    ensures
        r@ == s@,
{
    let mut it = s.chars();
    let mut out: Vec<char> = Vec::new();
    loop
        invariant
            out@ + it.remaining() == s@,
            it.decrease() is Some,
        ensures
            out@ == s@,
        decreases it.decrease()->0,
    {
        match it.next() {
            Some(c) => {
                out.push(c);
            },
            None => {
                break;
            },
        }
    }
    out
}

// ── character classes ────────────────────────────────────────────────────────

/// ALPHA = 'a'..'z' | 'A'..'Z' | "_"
pub open spec fn is_alpha(c: char) -> bool {
    ('a' <= c && c <= 'z') || ('A' <= c && c <= 'Z') || c == '_'
}

/// DIGIT = '0'..'9'
pub open spec fn is_digit(c: char) -> bool {
    '0' <= c && c <= '9'
}

/// A character that may continue an identifier.
pub open spec fn is_word_char(c: char) -> bool {
    is_alpha(c) || is_digit(c)
}

/// WHITESPACE = " " | "\t" | "\n" | "\r"
pub open spec fn is_space(c: char) -> bool {
    c == ' ' || c == '\t' || c == '\n' || c == '\r'
}

/// A character of a source path: ASCII alphanumeric or one of `- _ / . @`.
pub open spec fn is_path_char(c: char) -> bool {
    is_word_char(c) || c == '-' || c == '/' || c == '.' || c == '@'
}

fn alpha(c: char) -> (r: bool)
    ensures
        r == is_alpha(c),
{
    ('a' <= c && c <= 'z') || ('A' <= c && c <= 'Z') || c == '_'
}

fn digit(c: char) -> (r: bool)
    ensures
        r == is_digit(c),
{
    '0' <= c && c <= '9'
}

pub(crate) fn word_char(c: char) -> (r: bool)
    ensures
        r == is_word_char(c),
{
    alpha(c) || digit(c)
}

fn path_char(c: char) -> (r: bool)
    ensures
        r == is_path_char(c),
{
    word_char(c) || c == '-' || c == '/' || c == '.' || c == '@'
}

// ── keywords ─────────────────────────────────────────────────────────────────

/// The reserved words: none of them can be used as an identifier.
pub open spec fn is_keyword(w: Seq<char>) -> bool {
    ||| w == "intent"@ ||| w == "assumption"@ ||| w == "proof"@ ||| w == "input"@
    ||| w == "output"@ ||| w == "where"@ ||| w == "never"@ ||| w == "context"@
    ||| w == "Fresh"@ ||| w == "Stale"@ ||| w == "Expiring"@ ||| w == "old"@
    ||| w == "forall"@ ||| w == "exists"@ ||| w == "assert"@ ||| w == "atomic"@
    ||| w == "strategy"@ ||| w == "verify"@ ||| w == "lemma"@ ||| w == "induction"@
    ||| w == "certificate"@ ||| w == "AND"@ ||| w == "OR"@ ||| w == "true"@
    ||| w == "false"@ ||| w == "let"@ ||| w == "in"@ ||| w == "using"@
    ||| w == "with"@ ||| w == "fallback"@ ||| w == "type"@ ||| w == "interview"@
    ||| w == "document_review"@ ||| w == "formal_audit"@ ||| w == "peer_review"@
    ||| w == "smt_solver"@ ||| w == "bounded_model_checking"@ ||| w == "ai_assisted"@
    ||| w == "compile_time"@ ||| w == "validated_by"@ ||| w == "context_source"@
    ||| w == "out_of_scope"@ ||| w == "domain_expert"@ ||| w == "precondition"@
    ||| w == "postcondition"@ ||| w == "invariant"@
}

fn is_word(w: &String, k: &str) -> (r: bool)
    ensures
        r == (w@ == k@),
{
    *w == String::from_str(k)
}

/// `w` is a reserved word.
pub fn keyword(w: &String) -> (r: bool)
    ensures
        r == is_keyword(w@),
{
    is_word(w, "intent") || is_word(w, "assumption") || is_word(w, "proof") || is_word(w, "input")
        || is_word(w, "output") || is_word(w, "where") || is_word(w, "never") || is_word(w, "context")
        || is_word(w, "Fresh") || is_word(w, "Stale") || is_word(w, "Expiring") || is_word(w, "old")
        || is_word(w, "forall") || is_word(w, "exists") || is_word(w, "assert") || is_word(w, "atomic")
        || is_word(w, "strategy") || is_word(w, "verify") || is_word(w, "lemma") || is_word(w, "induction")
        || is_word(w, "certificate") || is_word(w, "AND") || is_word(w, "OR") || is_word(w, "true")
        || is_word(w, "false") || is_word(w, "let") || is_word(w, "in") || is_word(w, "using")
        || is_word(w, "with") || is_word(w, "fallback") || is_word(w, "type") || is_word(w, "interview")
        || is_word(w, "document_review") || is_word(w, "formal_audit") || is_word(w, "peer_review")
        || is_word(w, "smt_solver") || is_word(w, "bounded_model_checking") || is_word(w, "ai_assisted")
        || is_word(w, "compile_time") || is_word(w, "validated_by") || is_word(w, "context_source")
        || is_word(w, "out_of_scope") || is_word(w, "domain_expert") || is_word(w, "precondition")
        || is_word(w, "postcondition") || is_word(w, "invariant")
}


// ── names ────────────────────────────────────────────────────────────────────

/// An identifier: a letter or `_`, then letters, digits and `_`, and not a reserved word.
pub open spec fn is_identifier(w: Seq<char>) -> bool {
    &&& w.len() > 0
    &&& is_alpha(w[0])
    &&& forall|j: int| 0 <= j < w.len() ==> is_word_char(#[trigger] w[j])
    &&& !is_keyword(w)
}

/// The position of the first `.` of `w` (its length when it has none).
pub open spec fn dot_position(w: Seq<char>) -> nat
    decreases w.len(),
{
    if w.len() == 0 {
        0
    } else if w[0] == '.' {
        0
    } else {
        1 + dot_position(w.drop_first())
    }
}

/// A qualified identifier: identifiers joined by dots (`foo` or `foo.bar.baz`).
pub open spec fn is_qualified(w: Seq<char>) -> bool
    decreases w.len(),
{
    let k = dot_position(w);
    if k >= w.len() {
        is_identifier(w)
    } else {
        is_identifier(w.take(k as int)) && is_qualified(w.skip(k + 1int))
    }
}

pub open spec fn expr_names_ok(e: ExprNode) -> bool
    decreases e,
{
    match e {
        ExprNode::Identifier(n) => is_qualified(n@),
        ExprNode::OldValue(n) => is_qualified(n@),
        ExprNode::FunctionCall { name, args } => is_identifier(name@) && forall|i: int|
            0 <= i < args@.len() ==> expr_names_ok(#[trigger] args@[i]),
        ExprNode::BinOp { left, right, .. } => expr_names_ok(*left) && expr_names_ok(*right),
        _ => true,
    }
}

pub open spec fn type_names_ok(t: TypeNode) -> bool
    decreases t,
{
    match t {
        TypeNode::Base(b) => is_identifier(b@),
        TypeNode::Refined { base, predicate } => is_identifier(base@) && pred_names_ok(*predicate),
        TypeNode::Dependent { base, type_param, value_param_name, value_param_type } => is_identifier(base@)
            && type_names_ok(*type_param) && is_identifier(value_param_name@) && is_identifier(
            value_param_type@,
        ),
        TypeNode::Contextual { base, context } => is_identifier(base@) && is_identifier(context@),
        TypeNode::Temporal(tt) => match tt {
            TemporalType::Fresh { inner, .. } => type_names_ok(*inner),
            TemporalType::Expiring { inner, .. } => type_names_ok(*inner),
            TemporalType::Stale(inner) => type_names_ok(*inner),
        },
    }
}

pub open spec fn pred_names_ok(p: PredicateNode) -> bool
    decreases p,
{
    match p {
        PredicateNode::Comparison { left, right, .. } => expr_names_ok(left) && expr_names_ok(right),
        PredicateNode::And(a, b) => pred_names_ok(*a) && pred_names_ok(*b),
        PredicateNode::Or(a, b) => pred_names_ok(*a) && pred_names_ok(*b),
        PredicateNode::Not(q) => pred_names_ok(*q),
        PredicateNode::Forall { var, ty, body } => is_identifier(var@) && type_names_ok(*ty) && pred_names_ok(*body),
        PredicateNode::Exists { var, ty, body } => is_identifier(var@) && type_names_ok(*ty) && pred_names_ok(*body),
    }
}

pub open spec fn params_names_ok(ps: Seq<Param>) -> bool {
    forall|i: int| 0 <= i < ps.len() ==> is_identifier((#[trigger] ps[i]).name@) && type_names_ok(ps[i].ty)
}

pub open spec fn preds_names_ok(ps: Seq<PredicateNode>) -> bool {
    forall|i: int| 0 <= i < ps.len() ==> pred_names_ok(#[trigger] ps[i])
}

pub open spec fn idents_ok(ws: Seq<String>) -> bool {
    forall|i: int| 0 <= i < ws.len() ==> is_identifier((#[trigger] ws[i])@)
}

pub open spec fn statement_names_ok(s: VerifyStatement) -> bool
    decreases s,
{
    match s {
        VerifyStatement::Assert(p) => pred_names_ok(p),
        VerifyStatement::Atomic(stmts) => forall|i: int|
            0 <= i < stmts@.len() ==> statement_names_ok(#[trigger] stmts@[i]),
        VerifyStatement::Assign { target, expr, .. } => is_qualified(target@) && expr_names_ok(expr),
    }
}

pub open spec fn intent_names_ok(i: IntentNode) -> bool {
    &&& is_identifier(i.name@)
    &&& params_names_ok(i.inputs@)
    &&& params_names_ok(i.outputs@)
    &&& preds_names_ok(i.preconditions@)
    &&& preds_names_ok(i.postconditions@)
    &&& preds_names_ok(i.invariants@)
    &&& idents_ok(i.never@)
}

pub open spec fn lemma_names_ok(l: LemmaDecl) -> bool {
    &&& is_identifier(l.name@)
    &&& preds_names_ok(l.predicates@)
    &&& (l.proof_method matches Some(m) ==> (m.technique matches ProofTechnique::Induction { on } ==> is_identifier(on@)))
}

pub open spec fn verify_names_ok(v: VerifyDecl) -> bool {
    &&& is_identifier(v.target@)
    &&& (v.using matches Some(u) ==> is_identifier(u@))
    &&& forall|i: int| 0 <= i < v.statements@.len() ==> statement_names_ok(#[trigger] v.statements@[i])
}

pub open spec fn proof_names_ok(p: ProofNode) -> bool {
    &&& is_identifier(p.name@)
    &&& forall|i: int| 0 <= i < p.lemmas@.len() ==> lemma_names_ok(#[trigger] p.lemmas@[i])
    &&& forall|i: int| 0 <= i < p.verify_decls@.len() ==> verify_names_ok(#[trigger] p.verify_decls@[i])
}

pub open spec fn declaration_names_ok(d: Declaration) -> bool {
    &&& intent_names_ok(d.intent)
    &&& is_identifier(d.assumption.name@)
    &&& proof_names_ok(d.proof)
}

pub open spec fn context_names_ok(c: ContextDecl) -> bool {
    &&& is_identifier(c.ty_name@)
    &&& is_identifier(c.context_name@)
    &&& forall|i: int| 0 <= i < c.fields@.len() ==> is_identifier((#[trigger] c.fields@[i]).name@)
}

pub open spec fn let_names_ok(l: LetBinding) -> bool {
    &&& is_identifier(l.name@)
    &&& (l.ty matches Some(t) ==> type_names_ok(t))
    &&& expr_names_ok(l.expr)
}

/// Every name in `p` is an identifier (so none is a reserved word), and every
/// qualified name is identifiers joined by dots.
pub open spec fn program_names_ok(p: Program) -> bool {
    &&& forall|i: int| 0 <= i < p.contexts@.len() ==> context_names_ok(#[trigger] p.contexts@[i])
    &&& forall|i: int| 0 <= i < p.lets@.len() ==> let_names_ok(#[trigger] p.lets@[i])
    &&& forall|i: int| 0 <= i < p.declarations@.len() ==> declaration_names_ok(#[trigger] p.declarations@[i])
}

proof fn lemma_identifier_has_no_dot(w: Seq<char>)
    requires
        forall|j: int| 0 <= j < w.len() ==> is_word_char(#[trigger] w[j]),
    ensures
        dot_position(w) == w.len(),
    decreases w.len(),
{
    if w.len() > 0 {
        assert(forall|j: int| 0 <= j < w.drop_first().len() ==> is_word_char(#[trigger] w.drop_first()[j]));
        lemma_identifier_has_no_dot(w.drop_first());
    }
}

proof fn lemma_dot_position_concat(a: Seq<char>, b: Seq<char>)
    ensures
        dot_position(a) < a.len() ==> dot_position(a + b) == dot_position(a),
        dot_position(a) >= a.len() ==> dot_position(a + b) == a.len() + dot_position(b),
        dot_position(a) <= a.len(),
    decreases a.len(),
{
    if a.len() > 0 {
        lemma_dot_position_concat(a.drop_first(), b);
        assert((a + b).drop_first() =~= a.drop_first() + b);
    }
}

/// Joining a qualified name and an identifier with a dot gives a qualified name.
proof fn lemma_qualified_extend(a: Seq<char>, b: Seq<char>)
    requires
        is_qualified(a),
        is_identifier(b),
    ensures
        is_qualified(a + seq!['.'] + b),
    decreases a.len(),
{
    let w = a + seq!['.'] + b;
    let k = dot_position(a);
    lemma_dot_position_concat(a, seq!['.'] + b);
    assert(w =~= a + (seq!['.'] + b));
    if k >= a.len() {
        // `a` is an identifier: the first dot of `w` is the one added
        assert(w.take(a.len() as int) =~= a);
        assert(w.skip(a.len() + 1int) =~= b);
        lemma_identifier_has_no_dot(b);
        assert(is_qualified(b));
    } else {
        assert(w.take(k as int) =~= a.take(k as int));
        assert(w.skip(k + 1int) =~= a.skip(k + 1int) + seq!['.'] + b);
        lemma_qualified_extend(a.skip(k + 1int), b);
    }
}

/// An identifier is a qualified name of one segment.
proof fn lemma_identifier_qualified(w: Seq<char>)
    requires
        is_identifier(w),
    ensures
        is_qualified(w),
{
    lemma_identifier_has_no_dot(w);
}

// ── numbers ──────────────────────────────────────────────────────────────────

/// The value of a string of decimal digits.
pub open spec fn digits_value(s: Seq<char>) -> nat
    decreases s.len(),
{
    if s.len() == 0 {
        0
    } else {
        digits_value(s.drop_last()) * 10 + (s.last() as nat - '0' as nat) as nat
    }
}

proof fn lemma_digits_value_grows(s: Seq<char>, k: int)
    requires
        0 <= k <= s.len(),
        forall|i: int| 0 <= i < s.len() ==> is_digit(#[trigger] s[i]),
    ensures
        digits_value(s.take(k)) <= digits_value(s),
    decreases s.len(),
{
    if k < s.len() {
        assert(s.drop_last().take(k) =~= s.take(k));
        lemma_digits_value_grows(s.drop_last(), k);
    } else {
        assert(s.take(k) =~= s);
    }
}

/// Appends `c` to `s`.
///
/// Calls `String::push`, whose documentation says that it appends the given
/// character to the end of the string; the contract states exactly that.
#[verifier::external_body]
pub(crate) fn push_char(s: &mut String, c: char)
    ensures
        final(s)@ == old(s)@.push(c),
{
    s.push(c);
}

/// The character of decimal digit `d`.
pub open spec fn digit_of(d: nat) -> char {
    if d == 0 { '0' } else if d == 1 { '1' } else if d == 2 { '2' } else if d == 3 { '3' }
    else if d == 4 { '4' } else if d == 5 { '5' } else if d == 6 { '6' } else if d == 7 { '7' }
    else if d == 8 { '8' } else { '9' }
}

/// The decimal notation of `n`, without leading zeros.
pub open spec fn decimal(n: nat) -> Seq<char>
    decreases n,
{
    if n < 10 {
        seq![digit_of(n)]
    } else {
        decimal(n / 10).push(digit_of(n % 10))
    }
}

fn digit_char(d: u128) -> (r: char)
    requires
        d < 10,
    ensures
        r == digit_of(d as nat),
{
    match d {
        0 => '0',
        1 => '1',
        2 => '2',
        3 => '3',
        4 => '4',
        5 => '5',
        6 => '6',
        7 => '7',
        8 => '8',
        _ => '9',
    }
}

/// The decimal notation of `n`.
pub fn decimal_text(n: u128) -> (r: String)
    ensures
        r@ == decimal(n as nat),
    decreases n,
{
    if n < 10 {
        let mut s = String::new();
        push_char(&mut s, digit_char(n));
        s
    } else {
        let mut s = decimal_text(n / 10);
        push_char(&mut s, digit_char(n % 10));
        s
    }
}

/// The result of a grammar rule at a position: `Ok(Some((node, end)))` when it
/// matches the text up to `end`, `Ok(None)` when it does not match, and `Err`
/// when the text matches but cannot be represented (an integer that does not
/// fit in 64 bits).
pub type Parsed<T> = Result<Option<(T, usize)>, CompilerError>;

/// The parser state: the source text as characters.
pub struct FirmumParser {
    pub src: Vec<char>,
}

impl FirmumParser {
    pub open spec fn size(&self) -> nat {
        self.src@.len()
    }

    /// A match moves strictly forward and stays inside the text.
    pub open spec fn advances<T>(&self, pos: usize, r: Parsed<T>) -> bool {
        &&& r matches Ok(Some((_, p))) ==> pos < p <= self.size()
        &&& r matches Err(e) ==> e is LoweringError
    }

    pub open spec fn advances_opt<T>(&self, pos: usize, r: Option<(T, usize)>) -> bool {
        r matches Some((_, p)) ==> pos < p <= self.size()
    }

    pub fn new(source: &str) -> (r: FirmumParser)
        ensures
            r.src@ == source@,
    {
        FirmumParser { src: source_chars(source) }
    }

    /// The characters from `start` to `end`, as a string.
    pub fn text(&self, start: usize, end: usize) -> (r: String)
        requires
            start <= end <= self.size(),
        ensures
            r@ == self.src@.subrange(start as int, end as int),
    {
        let mut r = String::new();
        let mut i = start;
        while i < end
            invariant
                start <= i <= end <= self.size(),
                r@ == self.src@.subrange(start as int, i as int),
            decreases end - i,
        {
            push_char(&mut r, self.src[i]);
            i += 1;
        }
        r
    }

    /// The position after the whitespace and comments that start at `pos`.
    pub fn skip_ws(&self, pos: usize) -> (r: usize)
        requires
            pos <= self.size(),
        ensures
            pos <= r <= self.size(),
            r == ws_end(self.src@, pos as int),
    {
        let n = self.src.len();
        let ghost s = self.src@;
        let mut p = pos;
        while p < n
            invariant
                n == self.size(),
                s == self.src@,
                pos <= p <= n,
                ws_end(s, p as int) == ws_end(s, pos as int),
            decreases n - p,
        {
            let c = self.src[p];
            if c == ' ' || c == '\t' || c == '\n' || c == '\r' {
                p += 1;
            } else if c == '/' && p + 1 < n && self.src[p + 1] == '/' {
                // line comment, up to and including the end of the line
                let ghost p0 = p;
                p += 2;
                while p < n && self.src[p] != '\n'
                    invariant
                        n == self.size(),
                        s == self.src@,
                        pos <= p <= n,
                        p0 + 2 <= p,
                        line_end(s, p as int) == line_end(s, p0 + 2),
                    decreases n - p,
                {
                    p += 1;
                }
                if p < n {
                    p += 1;
                }
            } else if c == '/' && p + 1 < n && self.src[p + 1] == '*' {
                // block comment, up to and including the closing "*/"
                let mut q = p + 2;
                while q < n - 1 && !(self.src[q] == '*' && self.src[q + 1] == '/')
                    invariant
                        n == self.size(),
                        s == self.src@,
                        n >= 2,
                        p + 2 <= q <= n,
                        block_close(s, q as int) == block_close(s, p + 2),
                    decreases n - q,
                {
                    q += 1;
                }
                if q < n - 1 {
                    p = q + 2;
                } else {
                    // an unterminated comment is not a comment
                    return p;
                }
            } else {
                return p;
            }
        }
        p
    }

    /// Matches the literal `word` after whitespace.
    pub fn lit(&self, pos: usize, word: &str) -> (r: Option<usize>)
        requires
            pos <= self.size(),
        ensures
            as_pos(r) == lit_at(self.src@, pos as int, word@),
            r matches Some(e) ==> pos < e <= self.size() && e >= word@.len()
                && self.src@.subrange(e - word@.len(), e as int) == word@,
    {
        let p = self.skip_ws(pos);
        let n = self.src.len();
        let k = word.unicode_len();
        if k == 0 || k > n - p {
            return None;
        }
        let mut i: usize = 0;
        while i < k
            invariant
                n == self.size(),
                p + k <= n,
                p == ws_end(self.src@, pos as int),
                k == word@.len(),
                i <= k,
                forall|j: int| 0 <= j < i ==> self.src@[p + j] == word@[j],
            decreases k - i,
        {
            if self.src[p + i] != word.get_char(i) {
                return None;
            }
            i += 1;
        }
        assert(self.src@.subrange(p as int, (p + k) as int) =~= word@);
        Some(p + k)
    }

    /// The end of the word (ALPHA followed by letters, digits and `_`) that starts at `p`, if one does.
    fn word_end(&self, p: usize) -> (r: Option<usize>)
        requires
            p <= self.size(),
        ensures
            r matches Some(e) ==> p < e <= self.size() && is_alpha(self.src@[p as int])
                && (forall|j: int| p < j < e ==> is_word_char(#[trigger] self.src@[j]))
                && (e == self.size() || !is_word_char(self.src@[e as int])),
            r is None ==> p == self.size() || !is_alpha(self.src@[p as int]),
            r matches Some(e) ==> e == word_stop(self.src@, p + 1),
    {
        let n = self.src.len();
        if p >= n || !alpha(self.src[p]) {
            return None;
        }
        let mut e = p + 1;
        while e < n && word_char(self.src[e])
            invariant
                n == self.size(),
                p < e <= n,
                forall|j: int| p < j < e ==> is_word_char(#[trigger] self.src@[j]),
                word_stop(self.src@, e as int) == word_stop(self.src@, p + 1),
            decreases n - e,
        {
            e += 1;
        }
        Some(e)
    }

    /// identifier = !(keyword boundary) ALPHA (ALPHA | DIGIT | "_")*
    pub fn identifier(&self, pos: usize) -> (r: Option<(String, usize)>)
        requires
            pos <= self.size(),
        ensures
            self.advances_opt(pos, r),
            found(r, identifier_at(self.src@, pos as int)),
            r matches Some((w, e)) ==> e >= w@.len() && w@ == self.src@.subrange(e - w@.len(), e as int)
                && !is_keyword(w@) && w@.len() > 0 && is_alpha(w@[0])
                && (forall|j: int| 0 <= j < w@.len() ==> is_word_char(#[trigger] w@[j]))
                && (e == self.size() || !is_word_char(self.src@[e as int])) && is_identifier(w@),
    {
        let p = self.skip_ws(pos);
        match self.word_end(p) {
            None => None,
            Some(e) => {
                let w = self.text(p, e);
                if keyword(&w) {
                    None
                } else {
                    proof {
                        assert(forall|j: int| 0 <= j < w@.len() ==> is_word_char(#[trigger] w@[j]));
                    }
                    Some((w, e))
                }
            },
        }
    }

    /// qualified_identifier = identifier ("." identifier)*, written without spaces.
    pub fn qualified_identifier(&self, pos: usize) -> (r: Option<(String, usize)>)
        requires
            pos <= self.size(),
        ensures
            self.advances_opt(pos, r),
            found(r, qualified_at(self.src@, pos as int)),
            r matches Some((w, e)) ==> e >= w@.len() && w@ == self.src@.subrange(e - w@.len(), e as int)
                && is_qualified(w@),
    {
        match self.identifier(pos) {
            None => None,
            Some((first, first_end)) => {
                let n = self.src.len();
                let mut e = first_end;
                let q = first_end - first.as_str().unicode_len();
                proof {
                    lemma_identifier_qualified(first@);
                }
                loop
                    invariant
                        n == self.size(),
                        pos < e <= n,
                        q <= e,
                        q == first_end - first@.len(),
                        is_qualified(self.src@.subrange(q as int, e as int)),
                        dotted_stop(self.src@, e as int) == dotted_stop(self.src@, first_end as int),
                    ensures
                        pos < e <= n,
                        q <= e,
                        is_qualified(self.src@.subrange(q as int, e as int)),
                        e == dotted_stop(self.src@, first_end as int),
                    decreases n - e,
                {
                    if e < n && self.src[e] == '.' {
                        // the dot must be followed directly by an identifier
                        match self.word_end(e + 1) {
                            Some(e2) => {
                                let w = self.text(e + 1, e2);
                                if keyword(&w) {
                                    break;
                                }
                                proof {
                                    assert(forall|j: int| 0 <= j < w@.len() ==> is_word_char(#[trigger] w@[j]));
                                    lemma_qualified_extend(self.src@.subrange(q as int, e as int), w@);
                                    assert(self.src@.subrange(q as int, e2 as int) =~= self.src@.subrange(q as int, e as int) + seq!['.'] + w@);
                                }
                                e = e2;
                            },
                            None => {
                                break;
                            },
                        }
                    } else {
                        break;
                    }
                }
                let w = self.text(q, e);
                Some((w, e))
            },
        }
    }

    /// The digits that start at `p`, if any: their end.
    fn digits_end(&self, p: usize) -> (r: usize)
        requires
            p <= self.size(),
        ensures
            p <= r <= self.size(),
            forall|j: int| p <= j < r ==> is_digit(#[trigger] self.src@[j]),
            r == self.size() || !is_digit(self.src@[r as int]),
            r == digits_stop(self.src@, p as int),
    {
        let n = self.src.len();
        let mut e = p;
        while e < n && digit(self.src[e])
            invariant
                n == self.size(),
                p <= e <= n,
                forall|j: int| p <= j < e ==> is_digit(#[trigger] self.src@[j]),
                digits_stop(self.src@, e as int) == digits_stop(self.src@, p as int),
            decreases n - e,
        {
            e += 1;
        }
        e
    }

    /// The value of the digits from `start` to `end`, if it fits in 64 bits.
    pub fn digits_u64(&self, start: usize, end: usize) -> (r: Option<u64>)
        requires
            start <= end <= self.size(),
            forall|j: int| start <= j < end ==> is_digit(#[trigger] self.src@[j]),
        ensures
            match r {
                Some(v) => v == digits_value(self.src@.subrange(start as int, end as int)),
                None => digits_value(self.src@.subrange(start as int, end as int)) > u64::MAX,
            },
    {
        let ghost ds = self.src@.subrange(start as int, end as int);
        let mut v: u64 = 0;
        let mut i = start;
        while i < end
            invariant
                start <= i <= end <= self.size(),
                ds == self.src@.subrange(start as int, end as int),
                forall|j: int| start <= j < end ==> is_digit(#[trigger] self.src@[j]),
                v == digits_value(ds.take(i - start)),
            decreases end - i,
        {
            assert(ds.take(i - start + 1).drop_last() =~= ds.take(i - start));
            let d = (self.src[i] as u32 - '0' as u32) as u64;
            let next = match v.checked_mul(10) {
                Some(m) => m.checked_add(d),
                None => None,
            };
            match next {
                Some(x) => {
                    v = x;
                },
                None => {
                    proof {
                        assert(forall|j: int| 0 <= j < ds.len() ==> is_digit(#[trigger] ds[j]));
                        lemma_digits_value_grows(ds, i - start + 1);
                    }
                    return None;
                },
            }
            i += 1;
        }
        assert(ds.take(end - start) =~= ds);
        Some(v)
    }

    /// number = decimal | integer, where decimal = DIGIT+ "." DIGIT+ and integer = DIGIT+.
    pub fn number(&self, pos: usize) -> (r: Parsed<Number>)
        requires
            pos <= self.size(),
        ensures
            self.advances(pos, r),
            agrees(r, number_at(self.src@, pos as int)),
    {
        let p = self.skip_ws(pos);
        let n = self.src.len();
        let d1 = self.digits_end(p);
        if d1 == p {
            return Ok(None);
        }
        if d1 < n && self.src[d1] == '.' {
            let d2 = self.digits_end(d1 + 1);
            if d2 > d1 + 1 {
                return Ok(Some((Number::Decimal(self.text(p, d2)), d2)));
            }
        }
        match self.digits_u64(p, d1) {
            Some(v) => {
                Ok(Some((Number::Integer(v), d1)))
            },
            None => {
                let mut msg = String::from_str("integer literal out of range: ");
                msg.append(self.text(p, d1).as_str());
                Err(CompilerError::LoweringError(msg))
            },
        }
    }

    /// string_literal = '"' (non-quote-non-backslash | "\" ANY)* '"'; the
    /// value is the text between the quotes, as written.
    pub fn string_literal(&self, pos: usize) -> (r: Option<(String, usize)>)
        requires
            pos <= self.size(),
        ensures
            self.advances_opt(pos, r),
            found(r, string_at(self.src@, pos as int)),
            r matches Some((t, e)) ==> e >= t@.len() + 2 && self.src@[e - 1] == '"'
                && t@ == self.src@.subrange(e - 1 - t@.len(), e - 1)
                && self.src@[e - 2 - t@.len()] == '"',
    {
        let p = self.skip_ws(pos);
        let n = self.src.len();
        if p >= n || self.src[p] != '"' {
            return None;
        }
        let mut i = p + 1;
        while i < n
            invariant
                n == self.size(),
                pos <= p < i <= n,
                self.src@[p as int] == '"',
                p == ws_end(self.src@, pos as int),
                string_close(self.src@, i as int) == string_close(self.src@, p + 1),
            decreases n - i,
        {
            let c = self.src[i];
            if c == '"' {
                let t = self.text(p + 1, i);
                return Some((t, i + 1));
            } else if c == '\\' {
                if i + 1 < n {
                    i += 2;
                } else {
                    return None;
                }
            } else {
                i += 1;
            }
        }
        None
    }

    // ── expressions ──────────────────────────────────────────────────────────

    /// factor = number | string_literal | old_expr | function_call
    ///        | qualified_identifier | "(" expr ")"
    pub fn factor(&self, pos: usize) -> (r: Parsed<ExprNode>)
        requires
            pos <= self.size(),
        ensures
            self.advances(pos, r),
            agrees(r, factor_at(self.src@, pos as int)),
            r matches Ok(Some((e, _))) ==> expr_names_ok(e),
        decreases self.size() - pos, 1int,
    {
        match self.number(pos)? {
            Some((v, e)) => {
                return Ok(Some((ExprNode::Number(v), e)));
            },
            None => {},
        }
        if let Some((t, e)) = self.string_literal(pos) {
            return Ok(Some((ExprNode::StringLit(t), e)));
        }
        // old_expr = "old" "(" qualified_identifier ")"
        if let Some(p1) = self.lit(pos, "old") {
            if let Some(p2) = self.lit(p1, "(") {
                if let Some((name, p3)) = self.qualified_identifier(p2) {
                    if let Some(p4) = self.lit(p3, ")") {
                        return Ok(Some((ExprNode::OldValue(name), p4)));
                    }
                }
            }
        }
        // function_call = identifier "(" (expr ("," expr)*)? ")"
        match self.function_call(pos)? {
            Some((f, e)) => {
                return Ok(Some((f, e)));
            },
            None => {},
        }
        if let Some((name, e)) = self.qualified_identifier(pos) {
            return Ok(Some((ExprNode::Identifier(name), e)));
        }
        if let Some(p1) = self.lit(pos, "(") {
            match self.expr(p1)? {
                Some((inner, p2)) => {
                    if let Some(p3) = self.lit(p2, ")") {
                        return Ok(Some((inner, p3)));
                    }
                },
                None => {},
            }
        }
        Ok(None)
    }

    /// function_call = identifier "(" (expr ("," expr)*)? ")"
    pub fn function_call(&self, pos: usize) -> (r: Parsed<ExprNode>)
        requires
            pos <= self.size(),
        ensures
            self.advances(pos, r),
            agrees(r, call_at(self.src@, pos as int)),
            r matches Ok(Some((e, _))) ==> expr_names_ok(e),
        decreases self.size() - pos, 0int,
    {
        let (name, p1) = match self.identifier(pos) {
            Some(x) => x,
            None => {
                return Ok(None);
            },
        };
        let p2 = match self.lit(p1, "(") {
            Some(p) => p,
            None => {
                return Ok(None);
            },
        };
        let mut args: Vec<ExprNode> = Vec::new();
        if let Some(p3) = self.lit(p2, ")") {
            assert(expr_views(args@) =~= Seq::<ExprM>::empty());
            let node = ExprNode::FunctionCall { name, args };
            return Ok(Some((node, p3)));
        }
        let mut p = p2;
        match self.expr(p2)? {
            Some((a, e)) => {
                args.push(a);
                p = e;
            },
            None => {
                return Ok(None);
            },
        }
        assert(expr_views(args@.drop_last()) =~= Seq::<ExprM>::empty());
        loop
            invariant
                pos < p <= self.size(),
                is_identifier(name@),
                forall|k: int| 0 <= k < args@.len() ==> expr_names_ok(#[trigger] args@[k]),
                call_at(self.src@, pos as int) == args_rest(self.src@, name@, expr_views(args@), p as int),
            ensures
                pos < p <= self.size(),
                is_identifier(name@),
                forall|k: int| 0 <= k < args@.len() ==> expr_names_ok(#[trigger] args@[k]),
                call_at(self.src@, pos as int) == call_close(self.src@, name@, expr_views(args@), p as int),
            decreases self.size() - p,
        {
            let p3 = match self.lit(p, ",") {
                Some(q) => q,
                None => {
                    break;
                },
            };
            match self.expr(p3)? {
                Some((a, e)) => {
                    let ghost before = args@;
                    args.push(a);
                    assert(args@.drop_last() =~= before);
                    p = e;
                },
                None => {
                    break;
                },
            }
        }
        match self.lit(p, ")") {
            Some(e) => Ok(Some((ExprNode::FunctionCall { name, args }, e))),
            None => Ok(None),
        }
    }

    /// term = factor (("*" | "/") factor)*
    pub fn term(&self, pos: usize) -> (r: Parsed<ExprNode>)
        requires
            pos <= self.size(),
        ensures
            self.advances(pos, r),
            agrees(r, term_at(self.src@, pos as int)),
            r matches Ok(Some((e, _))) ==> expr_names_ok(e),
        decreases self.size() - pos, 2int,
    {
        let (mut acc, mut p) = match self.factor(pos)? {
            Some(x) => x,
            None => {
                return Ok(None);
            },
        };
        loop
            invariant
                pos < p <= self.size(),
                expr_names_ok(acc),
                term_at(self.src@, pos as int) == term_rest(self.src@, acc@, p as int),
            ensures
                pos < p <= self.size(),
                expr_names_ok(acc),
                term_at(self.src@, pos as int) == Gram::<ExprM>::Ok(Some((acc@, p as int))),
            decreases self.size() - p,
        {
            let (op, p1) = if let Some(q) = self.lit(p, "*") {
                (BinOpKind::Mul, q)
            } else if let Some(q) = self.lit(p, "/") {
                (BinOpKind::Div, q)
            } else {
                break;
            };
            match self.factor(p1)? {
                Some((rhs, p2)) => {
                    acc = ExprNode::BinOp { left: Box::new(acc), op, right: Box::new(rhs) };
                    p = p2;
                },
                None => {
                    break;
                },
            }
        }
        Ok(Some((acc, p)))
    }

    /// expr = term (("+" | "-") term)*
    pub fn expr(&self, pos: usize) -> (r: Parsed<ExprNode>)
        requires
            pos <= self.size(),
        ensures
            self.advances(pos, r),
            agrees(r, expr_at(self.src@, pos as int)),
            r matches Ok(Some((e, _))) ==> expr_names_ok(e),
        decreases self.size() - pos, 3int,
    {
        let (mut acc, mut p) = match self.term(pos)? {
            Some(x) => x,
            None => {
                return Ok(None);
            },
        };
        loop
            invariant
                pos < p <= self.size(),
                expr_names_ok(acc),
                expr_at(self.src@, pos as int) == expr_rest(self.src@, acc@, p as int),
            ensures
                pos < p <= self.size(),
                expr_names_ok(acc),
                expr_at(self.src@, pos as int) == Gram::<ExprM>::Ok(Some((acc@, p as int))),
            decreases self.size() - p,
        {
            let (op, p1) = if let Some(q) = self.lit(p, "+") {
                (BinOpKind::Add, q)
            } else if let Some(q) = self.lit(p, "-") {
                (BinOpKind::Sub, q)
            } else {
                break;
            };
            match self.term(p1)? {
                Some((rhs, p2)) => {
                    acc = ExprNode::BinOp { left: Box::new(acc), op, right: Box::new(rhs) };
                    p = p2;
                },
                None => {
                    break;
                },
            }
        }
        Ok(Some((acc, p)))
    }

    // ── predicates ───────────────────────────────────────────────────────────

    /// comparison_op = "==" | "!=" | "<=" | ">=" | "<" | ">"
    pub fn comparison_op(&self, pos: usize) -> (r: Option<(ComparisonOp, usize)>)
        requires
            pos <= self.size(),
        ensures
            self.advances_opt(pos, r),
            found(r, comparison_op_at(self.src@, pos as int)),
    {
        if let Some(e) = self.lit(pos, "==") {
            Some((ComparisonOp::Eq, e))
        } else if let Some(e) = self.lit(pos, "!=") {
            Some((ComparisonOp::Ne, e))
        } else if let Some(e) = self.lit(pos, "<=") {
            Some((ComparisonOp::Le, e))
        } else if let Some(e) = self.lit(pos, ">=") {
            Some((ComparisonOp::Ge, e))
        } else if let Some(e) = self.lit(pos, "<") {
            Some((ComparisonOp::Lt, e))
        } else if let Some(e) = self.lit(pos, ">") {
            Some((ComparisonOp::Gt, e))
        } else {
            None
        }
    }

    /// comparison = expr comparison_op expr
    pub fn comparison(&self, pos: usize) -> (r: Parsed<PredicateNode>)
        requires
            pos <= self.size(),
        ensures
            self.advances(pos, r),
            agrees(r, comparison_at(self.src@, pos as int)),
            r matches Ok(Some((p, _))) ==> pred_names_ok(p),
        decreases self.size() - pos, 4int,
    {
        let (left, p1) = match self.expr(pos)? {
            Some(x) => x,
            None => {
                return Ok(None);
            },
        };
        let (op, p2) = match self.comparison_op(p1) {
            Some(x) => x,
            None => {
                return Ok(None);
            },
        };
        match self.expr(p2)? {
            Some((right, p3)) => Ok(Some((PredicateNode::Comparison { left, op, right }, p3))),
            None => Ok(None),
        }
    }

    /// "forall" / "exists" identifier ":" type_expr "=>" predicate_atom, for
    /// the quantifier word `word`: the variable, its type, the body.
    fn quantifier(&self, pos: usize, word: &str) -> (r: Parsed<(String, TypeNode, PredicateNode)>)
        requires
            pos <= self.size(),
        ensures
            self.advances(pos, r),
            agrees(r, quantifier_at(self.src@, pos as int, word@)),
            r matches Ok(Some((q, _))) ==> is_identifier(q.0@) && type_names_ok(q.1) && pred_names_ok(q.2),
        decreases self.size() - pos, 0int,
    {
        let p1 = match self.lit(pos, word) {
            Some(p) => p,
            None => {
                return Ok(None);
            },
        };
        let (var, p2) = match self.identifier(p1) {
            Some(x) => x,
            None => {
                return Ok(None);
            },
        };
        let p3 = match self.lit(p2, ":") {
            Some(p) => p,
            None => {
                return Ok(None);
            },
        };
        let (ty, p4) = match self.type_expr(p3)? {
            Some(x) => x,
            None => {
                return Ok(None);
            },
        };
        let p5 = match self.lit(p4, "=>") {
            Some(p) => p,
            None => {
                return Ok(None);
            },
        };
        match self.predicate_atom(p5)? {
            Some((body, p6)) => Ok(Some(((var, ty, body), p6))),
            None => Ok(None),
        }
    }

    /// predicate_atom = "!" predicate_atom
    ///                | "forall" identifier ":" type_expr "=>" predicate_atom
    ///                | "exists" identifier ":" type_expr "=>" predicate_atom
    ///                | "(" predicate_or ")"
    ///                | comparison
    pub fn predicate_atom(&self, pos: usize) -> (r: Parsed<PredicateNode>)
        requires
            pos <= self.size(),
        ensures
            self.advances(pos, r),
            agrees(r, atom_at(self.src@, pos as int)),
            r matches Ok(Some((p, _))) ==> pred_names_ok(p),
        decreases self.size() - pos, 5int,
    {
        if let Some(p1) = self.lit(pos, "!") {
            match self.predicate_atom(p1)? {
                Some((inner, p2)) => {
                    return Ok(Some((PredicateNode::Not(Box::new(inner)), p2)));
                },
                None => {},
            }
        }
        match self.quantifier(pos, "forall")? {
            Some(((var, ty, body), e)) => {
                return Ok(Some((PredicateNode::Forall { var, ty: Box::new(ty), body: Box::new(body) }, e)));
            },
            None => {},
        }
        match self.quantifier(pos, "exists")? {
            Some(((var, ty, body), e)) => {
                return Ok(Some((PredicateNode::Exists { var, ty: Box::new(ty), body: Box::new(body) }, e)));
            },
            None => {},
        }
        if let Some(p1) = self.lit(pos, "(") {
            match self.predicate_or(p1)? {
                Some((inner, p2)) => {
                    if let Some(p3) = self.lit(p2, ")") {
                        return Ok(Some((inner, p3)));
                    }
                },
                None => {},
            }
        }
        self.comparison(pos)
    }

    /// predicate_and = predicate_atom ("AND" predicate_atom)*
    pub fn predicate_and(&self, pos: usize) -> (r: Parsed<PredicateNode>)
        requires
            pos <= self.size(),
        ensures
            self.advances(pos, r),
            agrees(r, and_at(self.src@, pos as int)),
            r matches Ok(Some((p, _))) ==> pred_names_ok(p),
        decreases self.size() - pos, 6int,
    {
        let (mut acc, mut p) = match self.predicate_atom(pos)? {
            Some(x) => x,
            None => {
                return Ok(None);
            },
        };
        loop
            invariant
                pos < p <= self.size(),
                pred_names_ok(acc),
                and_at(self.src@, pos as int) == and_rest(self.src@, acc@, p as int),
            ensures
                pos < p <= self.size(),
                pred_names_ok(acc),
                and_at(self.src@, pos as int) == Gram::<PredM>::Ok(Some((acc@, p as int))),
            decreases self.size() - p,
        {
            let p1 = match self.lit(p, "AND") {
                Some(q) => q,
                None => {
                    break;
                },
            };
            match self.predicate_atom(p1)? {
                Some((rhs, p2)) => {
                    acc = PredicateNode::And(Box::new(acc), Box::new(rhs));
                    p = p2;
                },
                None => {
                    break;
                },
            }
        }
        Ok(Some((acc, p)))
    }

    /// predicate_or = predicate_and ("OR" predicate_and)*
    pub fn predicate_or(&self, pos: usize) -> (r: Parsed<PredicateNode>)
        requires
            pos <= self.size(),
        ensures
            self.advances(pos, r),
            agrees(r, or_at(self.src@, pos as int)),
            r matches Ok(Some((p, _))) ==> pred_names_ok(p),
        decreases self.size() - pos, 7int,
    {
        let (mut acc, mut p) = match self.predicate_and(pos)? {
            Some(x) => x,
            None => {
                return Ok(None);
            },
        };
        loop
            invariant
                pos < p <= self.size(),
                pred_names_ok(acc),
                or_at(self.src@, pos as int) == or_rest(self.src@, acc@, p as int),
            ensures
                pos < p <= self.size(),
                pred_names_ok(acc),
                or_at(self.src@, pos as int) == Gram::<PredM>::Ok(Some((acc@, p as int))),
            decreases self.size() - p,
        {
            let p1 = match self.lit(p, "OR") {
                Some(q) => q,
                None => {
                    break;
                },
            };
            match self.predicate_and(p1)? {
                Some((rhs, p2)) => {
                    acc = PredicateNode::Or(Box::new(acc), Box::new(rhs));
                    p = p2;
                },
                None => {
                    break;
                },
            }
        }
        Ok(Some((acc, p)))
    }

    // ── types ────────────────────────────────────────────────────────────────

    /// time_unit = "ms" | "min" | "s" | "h" | "d"
    pub fn time_unit(&self, pos: usize) -> (r: Option<(TimeUnit, usize)>)
        requires
            pos <= self.size(),
        ensures
            self.advances_opt(pos, r),
            found(r, time_unit_at(self.src@, pos as int)),
    {
        if let Some(e) = self.lit(pos, "ms") {
            Some((TimeUnit::Millisecond, e))
        } else if let Some(e) = self.lit(pos, "min") {
            Some((TimeUnit::Minute, e))
        } else if let Some(e) = self.lit(pos, "s") {
            Some((TimeUnit::Second, e))
        } else if let Some(e) = self.lit(pos, "h") {
            Some((TimeUnit::Hour, e))
        } else if let Some(e) = self.lit(pos, "d") {
            Some((TimeUnit::Day, e))
        } else {
            None
        }
    }

    /// duration = number time_unit
    pub fn duration(&self, pos: usize) -> (r: Parsed<Duration>)
        requires
            pos <= self.size(),
        ensures
            self.advances(pos, r),
            agrees(r, duration_at(self.src@, pos as int)),
    {
        let (value, p1) = match self.number(pos)? {
            Some(x) => x,
            None => {
                return Ok(None);
            },
        };
        match self.time_unit(p1) {
            Some((unit, p2)) => Ok(Some((Duration { value, unit }, p2))),
            None => Ok(None),
        }
    }

    /// "Fresh" / "Expiring" "<" type_expr "," duration ">", for the state word `word`.
    fn timed_type(&self, pos: usize, word: &str) -> (r: Parsed<(TypeNode, Duration)>)
        requires
            pos <= self.size(),
        ensures
            self.advances(pos, r),
            agrees(r, timed_at(self.src@, pos as int, word@)),
            r matches Ok(Some((t, _))) ==> type_names_ok(t.0),
        decreases self.size() - pos, 0int,
    {
        let p1 = match self.lit(pos, word) {
            Some(p) => p,
            None => {
                return Ok(None);
            },
        };
        let p2 = match self.lit(p1, "<") {
            Some(p) => p,
            None => {
                return Ok(None);
            },
        };
        let (inner, p3) = match self.type_expr(p2)? {
            Some(x) => x,
            None => {
                return Ok(None);
            },
        };
        let p4 = match self.lit(p3, ",") {
            Some(p) => p,
            None => {
                return Ok(None);
            },
        };
        let (d, p5) = match self.duration(p4)? {
            Some(x) => x,
            None => {
                return Ok(None);
            },
        };
        match self.lit(p5, ">") {
            Some(p6) => Ok(Some(((inner, d), p6))),
            None => Ok(None),
        }
    }

    /// temporal_type = "Fresh" "<" type_expr "," duration ">"
    ///               | "Expiring" "<" type_expr "," duration ">"
    ///               | "Stale" "<" type_expr ">"
    pub fn temporal_type(&self, pos: usize) -> (r: Parsed<TemporalType>)
        requires
            pos <= self.size(),
        ensures
            self.advances(pos, r),
            agrees(r, temporal_at(self.src@, pos as int)),
            r matches Ok(Some((t, _))) ==> type_names_ok(TypeNode::Temporal(t)),
        decreases self.size() - pos, 1int,
    {
        match self.timed_type(pos, "Fresh")? {
            Some(((inner, duration), e)) => {
                return Ok(Some((TemporalType::Fresh { inner: Box::new(inner), duration }, e)));
            },
            None => {},
        }
        match self.timed_type(pos, "Expiring")? {
            Some(((inner, duration), e)) => {
                return Ok(Some((TemporalType::Expiring { inner: Box::new(inner), duration }, e)));
            },
            None => {},
        }
        let p1 = match self.lit(pos, "Stale") {
            Some(p) => p,
            None => {
                return Ok(None);
            },
        };
        let p2 = match self.lit(p1, "<") {
            Some(p) => p,
            None => {
                return Ok(None);
            },
        };
        let (inner, p3) = match self.type_expr(p2)? {
            Some(x) => x,
            None => {
                return Ok(None);
            },
        };
        match self.lit(p3, ">") {
            Some(p4) => Ok(Some((TemporalType::Stale(Box::new(inner)), p4))),
            None => Ok(None),
        }
    }

    /// dependent_type = identifier "<" type_expr "," identifier ":" base_type ">"
    fn dependent_type(&self, pos: usize) -> (r: Parsed<TypeNode>)
        requires
            pos <= self.size(),
        ensures
            self.advances(pos, r),
            agrees(r, dependent_at(self.src@, pos as int)),
            r matches Ok(Some((t, _))) ==> type_names_ok(t),
        decreases self.size() - pos, 1int,
    {
        let (base, p1) = match self.identifier(pos) {
            Some(x) => x,
            None => {
                return Ok(None);
            },
        };
        let p2 = match self.lit(p1, "<") {
            Some(p) => p,
            None => {
                return Ok(None);
            },
        };
        let (type_param, p3) = match self.type_expr(p2)? {
            Some(x) => x,
            None => {
                return Ok(None);
            },
        };
        let p4 = match self.lit(p3, ",") {
            Some(p) => p,
            None => {
                return Ok(None);
            },
        };
        let (value_param_name, p5) = match self.identifier(p4) {
            Some(x) => x,
            None => {
                return Ok(None);
            },
        };
        let p6 = match self.lit(p5, ":") {
            Some(p) => p,
            None => {
                return Ok(None);
            },
        };
        let (value_param_type, p7) = match self.identifier(p6) {
            Some(x) => x,
            None => {
                return Ok(None);
            },
        };
        match self.lit(p7, ">") {
            Some(p8) => Ok(
                Some(
                    (
                        TypeNode::Dependent {
                            base,
                            type_param: Box::new(type_param),
                            value_param_name,
                            value_param_type,
                        },
                        p8,
                    ),
                ),
            ),
            None => Ok(None),
        }
    }

    /// contextual_type = identifier "<" identifier ">"
    fn contextual_type(&self, pos: usize) -> (r: Option<(TypeNode, usize)>)
        requires
            pos <= self.size(),
        ensures
            self.advances_opt(pos, r),
            found(r, contextual_at(self.src@, pos as int)),
            r matches Some((t, _)) ==> type_names_ok(t),
    {
        let (base, p1) = self.identifier(pos)?;
        let p2 = self.lit(p1, "<")?;
        let (context, p3) = self.identifier(p2)?;
        let p4 = self.lit(p3, ">")?;
        Some((TypeNode::Contextual { base, context }, p4))
    }

    /// type_expr = temporal_type | dependent_type | contextual_type | refined_type | base_type,
    /// where refined_type = identifier "where" predicate_or and base_type = identifier.
    pub fn type_expr(&self, pos: usize) -> (r: Parsed<TypeNode>)
        requires
            pos <= self.size(),
        ensures
            self.advances(pos, r),
            agrees(r, type_at(self.src@, pos as int)),
            r matches Ok(Some((t, _))) ==> type_names_ok(t),
        decreases self.size() - pos, 8int,
    {
        match self.temporal_type(pos)? {
            Some((t, e)) => {
                return Ok(Some((TypeNode::Temporal(t), e)));
            },
            None => {},
        }
        match self.dependent_type(pos)? {
            Some(x) => {
                return Ok(Some(x));
            },
            None => {},
        }
        if let Some(x) = self.contextual_type(pos) {
            return Ok(Some(x));
        }
        let (base, p1) = match self.identifier(pos) {
            Some(x) => x,
            None => {
                return Ok(None);
            },
        };
        if let Some(p2) = self.lit(p1, "where") {
            match self.predicate_or(p2)? {
                Some((pred, p3)) => {
                    return Ok(Some((TypeNode::Refined { base, predicate: Box::new(pred) }, p3)));
                },
                None => {},
            }
        }
        Ok(Some((TypeNode::Base(base), p1)))
    }


    // ── top level ────────────────────────────────────────────────────────────

    /// context_field = identifier ":" (string_literal | number | boolean_literal)
    fn context_field(&self, pos: usize) -> (r: Parsed<ContextField>)
        requires
            pos <= self.size(),
        ensures
            self.advances(pos, r),
            agrees(r, context_field_at(self.src@, pos as int)),
            r matches Ok(Some((f, _))) ==> is_identifier(f.name@),
    {
        let (name, p1) = match self.identifier(pos) {
            Some(x) => x,
            None => {
                return Ok(None);
            },
        };
        let p2 = match self.lit(p1, ":") {
            Some(p) => p,
            None => {
                return Ok(None);
            },
        };
        if let Some((t, e)) = self.string_literal(p2) {
            return Ok(Some((ContextField { name, value: ContextFieldValue::StringVal(t) }, e)));
        }
        match self.number(p2)? {
            Some((Number::Integer(v), e)) => {
                return Ok(Some((ContextField { name, value: ContextFieldValue::Integer(v) }, e)));
            },
            Some((Number::Decimal(t), e)) => {
                return Ok(Some((ContextField { name, value: ContextFieldValue::Decimal(t) }, e)));
            },
            None => {},
        }
        match self.boolean_literal(p2) {
            Some((b, e)) => Ok(Some((ContextField { name, value: ContextFieldValue::Boolean(b) }, e))),
            None => Ok(None),
        }
    }

    /// boolean_literal = ("true" | "false") boundary
    pub fn boolean_literal(&self, pos: usize) -> (r: Option<(bool, usize)>)
        requires
            pos <= self.size(),
        ensures
            self.advances_opt(pos, r),
            found(r, boolean_at(self.src@, pos as int)),
            r matches Some((_, e)) ==> e == self.size() || !is_word_char(self.src@[e as int]),
    {
        let (b, e) = if let Some(e) = self.lit(pos, "true") {
            (true, e)
        } else if let Some(e) = self.lit(pos, "false") {
            (false, e)
        } else {
            return None;
        };
        if e < self.src.len() && word_char(self.src[e]) {
            None
        } else {
            Some((b, e))
        }
    }

    /// context_decl = "type" identifier "in" "context" identifier "{" context_field* "}"
    pub fn context_decl(&self, pos: usize) -> (r: Parsed<ContextDecl>)
        requires
            pos <= self.size(),
        ensures
            self.advances(pos, r),
            agrees(r, context_decl_at(self.src@, pos as int)),
            r matches Ok(Some((c, _))) ==> context_names_ok(c),
    {
        proof {
            reveal(context_decl_at);
        }
        let p1 = match self.lit(pos, "type") {
            Some(p) => p,
            None => {
                return Ok(None);
            },
        };
        let (ty_name, p2) = match self.identifier(p1) {
            Some(x) => x,
            None => {
                return Ok(None);
            },
        };
        let p3 = match self.lit(p2, "in") {
            Some(p) => p,
            None => {
                return Ok(None);
            },
        };
        let p4 = match self.lit(p3, "context") {
            Some(p) => p,
            None => {
                return Ok(None);
            },
        };
        let (context_name, p5) = match self.identifier(p4) {
            Some(x) => x,
            None => {
                return Ok(None);
            },
        };
        let mut p = match self.lit(p5, "{") {
            Some(p) => p,
            None => {
                return Ok(None);
            },
        };
        let mut fields: Vec<ContextField> = Vec::new();
        assert(views(fields@) =~= Seq::<ContextFieldM>::empty());
        loop
            invariant
                pos < p <= self.size(),
                is_identifier(ty_name@),
                is_identifier(context_name@),
                forall|i: int| 0 <= i < fields@.len() ==> is_identifier((#[trigger] fields@[i]).name@),
                context_decl_at(self.src@, pos as int) == context_fields_rest(self.src@, ty_name@, context_name@, views(fields@), p as int),
            ensures
                pos < p <= self.size(),
                is_identifier(ty_name@),
                is_identifier(context_name@),
                forall|i: int| 0 <= i < fields@.len() ==> is_identifier((#[trigger] fields@[i]).name@),
                context_decl_at(self.src@, pos as int) == match lit_at(self.src@, p as int, "}"@) {
                    Some(e) => Gram::<ContextM>::Ok(Some((ContextM { ty_name: ty_name@, context_name: context_name@, fields: views(fields@) }, e))),
                    None => Gram::<ContextM>::Ok(None),
                },
            decreases self.size() - p,
        {
            match self.context_field(p)? {
                Some((f, e)) => {
                    let ghost before = fields@;
                    fields.push(f);
                    assert(views(fields@) =~= views(before).push(fields@.last()@));
                    p = e;
                },
                None => {
                    break;
                },
            }
        }
        match self.lit(p, "}") {
            Some(e) => Ok(Some((ContextDecl { ty_name, context_name, fields }, e))),
            None => Ok(None),
        }
    }

    /// let_stmt = "let" identifier (":" type_expr)? "=" expr
    pub fn let_stmt(&self, pos: usize) -> (r: Parsed<LetBinding>)
        requires
            pos <= self.size(),
        ensures
            self.advances(pos, r),
            agrees(r, let_at(self.src@, pos as int)),
            r matches Ok(Some((l, _))) ==> let_names_ok(l),
    {
        proof {
            reveal(let_at);
        }
        let p1 = match self.lit(pos, "let") {
            Some(p) => p,
            None => {
                return Ok(None);
            },
        };
        let (name, p2) = match self.identifier(p1) {
            Some(x) => x,
            None => {
                return Ok(None);
            },
        };
        let mut ty: Option<TypeNode> = None;
        let mut p = p2;
        if let Some(p3) = self.lit(p2, ":") {
            match self.type_expr(p3)? {
                Some((t, p4)) => {
                    ty = Some(t);
                    p = p4;
                },
                None => {},
            }
        }
        let p5 = match self.lit(p, "=") {
            Some(q) => q,
            None => {
                return Ok(None);
            },
        };
        match self.expr(p5)? {
            Some((expr, e)) => Ok(Some((LetBinding { name, ty, expr }, e))),
            None => Ok(None),
        }
    }

    /// param+: one or more `identifier ":" type_expr`.
    fn params(&self, pos: usize) -> (r: Parsed<Vec<Param>>)
        requires
            pos <= self.size(),
        ensures
            self.advances(pos, r),
            r matches Ok(Some((ps, _))) ==> params_names_ok(ps@),
            r matches Ok(Some((ps, _))) ==> ps@.len() > 0,
            agrees_all(r, params_at(self.src@, pos as int)),
    {
        let mut out: Vec<Param> = Vec::new();
        let mut p = pos;
        assert(views(out@) =~= Seq::<ParamM>::empty());
        loop
            invariant
                pos <= p <= self.size(),
                out@.len() > 0 ==> pos < p,
                params_names_ok(out@),
                params_rest(self.src@, Seq::empty(), pos as int) == params_rest(self.src@, views(out@), p as int),
            ensures
                pos <= p <= self.size(),
                out@.len() > 0 ==> pos < p,
                params_names_ok(out@),
                params_rest(self.src@, Seq::empty(), pos as int) == Ok::<(Seq<ParamM>, int), Seq<char>>((views(out@), p as int)),
            decreases self.size() - p,
        {
            let (name, p1) = match self.identifier(p) {
                Some(x) => x,
                None => {
                    break;
                },
            };
            let p2 = match self.lit(p1, ":") {
                Some(q) => q,
                None => {
                    break;
                },
            };
            match self.type_expr(p2)? {
                Some((ty, p3)) => {
                    let ghost before = out@;
                    out.push(Param { name, ty });
                    assert(views(out@) =~= views(before).push(out@.last()@));
                    p = p3;
                },
                None => {
                    break;
                },
            }
        }
        if out.len() == 0 {
            Ok(None)
        } else {
            Ok(Some((out, p)))
        }
    }

    /// predicate_line+: one or more predicates.
    fn predicate_lines(&self, pos: usize) -> (r: Parsed<Vec<PredicateNode>>)
        requires
            pos <= self.size(),
        ensures
            self.advances(pos, r),
            r matches Ok(Some((ps, _))) ==> preds_names_ok(ps@),
            r matches Ok(Some((ps, _))) ==> ps@.len() > 0,
            agrees_all(r, lines_at(self.src@, pos as int)),
    {
        let mut out: Vec<PredicateNode> = Vec::new();
        let mut p = pos;
        assert(views(out@) =~= Seq::<PredM>::empty());
        loop
            invariant
                pos <= p <= self.size(),
                out@.len() > 0 ==> pos < p,
                preds_names_ok(out@),
                lines_rest(self.src@, Seq::empty(), pos as int) == lines_rest(self.src@, views(out@), p as int),
            ensures
                pos <= p <= self.size(),
                out@.len() > 0 ==> pos < p,
                preds_names_ok(out@),
                lines_rest(self.src@, Seq::empty(), pos as int) == Ok::<(Seq<PredM>, int), Seq<char>>((views(out@), p as int)),
            decreases self.size() - p,
        {
            match self.predicate_or(p)? {
                Some((pred, e)) => {
                    let ghost before = out@;
                    out.push(pred);
                    assert(views(out@) =~= views(before).push(out@.last()@));
                    p = e;
                },
                None => {
                    break;
                },
            }
        }
        if out.len() == 0 {
            Ok(None)
        } else {
            Ok(Some((out, p)))
        }
    }

    /// `word ":" item+` for a section whose items are parameters.
    fn param_section(&self, pos: usize, word: &str) -> (r: Parsed<Vec<Param>>)
        requires
            pos <= self.size(),
        ensures
            self.advances(pos, r),
            agrees_all(r, param_section_at(self.src@, pos as int, word@)),
            r matches Ok(Some((ps, _))) ==> params_names_ok(ps@),
    {
        let p1 = match self.lit(pos, word) {
            Some(p) => p,
            None => {
                return Ok(None);
            },
        };
        let p2 = match self.lit(p1, ":") {
            Some(p) => p,
            None => {
                return Ok(None);
            },
        };
        self.params(p2)
    }

    /// `word ":" predicate_line+`.
    fn predicate_section(&self, pos: usize, word: &str) -> (r: Parsed<Vec<PredicateNode>>)
        requires
            pos <= self.size(),
        ensures
            self.advances(pos, r),
            agrees_all(r, predicate_section_at(self.src@, pos as int, word@)),
            r matches Ok(Some((ps, _))) ==> preds_names_ok(ps@),
    {
        let p1 = match self.lit(pos, word) {
            Some(p) => p,
            None => {
                return Ok(None);
            },
        };
        let p2 = match self.lit(p1, ":") {
            Some(p) => p,
            None => {
                return Ok(None);
            },
        };
        self.predicate_lines(p2)
    }

    /// never_section = "never" ":" never_id+
    fn never_section(&self, pos: usize) -> (r: Option<(Vec<String>, usize)>)
        requires
            pos <= self.size(),
        ensures
            self.advances_opt(pos, r),
            found_all(r, never_at(self.src@, pos as int)),
            r matches Some((ws, _)) ==> idents_ok(ws@),
    {
        let p1 = self.lit(pos, "never")?;
        let p2 = self.lit(p1, ":")?;
        let mut out: Vec<String> = Vec::new();
        let mut p = p2;
        assert(views(out@) =~= Seq::<Seq<char>>::empty());
        loop
            invariant
                pos < p <= self.size(),
                idents_ok(out@),
                ids_rest(self.src@, Seq::empty(), p2 as int) == ids_rest(self.src@, views(out@), p as int),
            ensures
                pos < p <= self.size(),
                idents_ok(out@),
                ids_rest(self.src@, Seq::empty(), p2 as int) == (views(out@), p as int),
            decreases self.size() - p,
        {
            match self.identifier(p) {
                Some((w, e)) => {
                    let ghost before = out@;
                    out.push(w);
                    assert(views(out@) =~= views(before).push(out@.last()@));
                    p = e;
                },
                None => {
                    break;
                },
            }
        }
        if out.len() == 0 {
            None
        } else {
            Some((out, p))
        }
    }

    /// intent_block = "intent" identifier "{" input_section? output_section?
    ///                precondition_section? postcondition_section? invariant_section*
    ///                never_section? "}"
    pub fn intent_block(&self, pos: usize) -> (r: Parsed<IntentNode>)
        requires
            pos <= self.size(),
        ensures
            self.advances(pos, r),
            agrees(r, intent_at(self.src@, pos as int)),
            r matches Ok(Some((i, _))) ==> intent_names_ok(i),
    {
        let p1 = match self.lit(pos, "intent") {
            Some(p) => p,
            None => {
                return Ok(None);
            },
        };
        let (name, p2) = match self.identifier(p1) {
            Some(x) => x,
            None => {
                return Ok(None);
            },
        };
        let p3 = match self.lit(p2, "{") {
            Some(q) => q,
            None => {
                return Ok(None);
            },
        };
        self.intent_body(name, p3)
    }

    /// The sections of the intent `name` and its closing `}`, from `p3` on.
    fn intent_body(&self, name: String, p3: usize) -> (r: Parsed<IntentNode>)
        requires
            p3 <= self.size(),
            is_identifier(name@),
        ensures
            self.advances(p3, r),
            agrees(r, intent_body_at(self.src@, name@, p3 as int)),
            r matches Ok(Some((i, _))) ==> intent_names_ok(i),
    {
        let ghost s = self.src@;
        let mut p = p3;
        let mut inputs: Vec<Param> = Vec::new();
        let mut outputs: Vec<Param> = Vec::new();
        let mut preconditions: Vec<PredicateNode> = Vec::new();
        let mut postconditions: Vec<PredicateNode> = Vec::new();
        let mut invariants: Vec<PredicateNode> = Vec::new();
        assert(views(inputs@) =~= Seq::<ParamM>::empty());
        assert(views(preconditions@) =~= Seq::<PredM>::empty());
        match self.param_section(p, "input")? {
            Some((ps, e)) => {
                inputs = ps;
                p = e;
            },
            None => {},
        }
        match self.param_section(p, "output")? {
            Some((ps, e)) => {
                outputs = ps;
                p = e;
            },
            None => {},
        }
        match self.predicate_section(p, "precondition")? {
            Some((ps, e)) => {
                preconditions = ps;
                p = e;
            },
            None => {},
        }
        match self.predicate_section(p, "postcondition")? {
            Some((ps, e)) => {
                postconditions = ps;
                p = e;
            },
            None => {},
        }
        let ghost p7 = p as int;
        assert(intent_body_at(s, name@, p3 as int) == match invariants_rest(s, Seq::empty(), p7) {
            Err(m) => Gram::<IntentM>::Err(m),
            Ok((invs, p8)) => intent_tail(s, name@, views(inputs@), views(outputs@), views(preconditions@), views(postconditions@), invs, p8),
        });
        loop
            invariant
                p3 <= p <= self.size(),
                s == self.src@,
                intent_body_at(s, name@, p3 as int) == match invariants_rest(s, Seq::empty(), p7) {
                    Err(m) => Gram::<IntentM>::Err(m),
                    Ok((invs, p8)) => intent_tail(s, name@, views(inputs@), views(outputs@), views(preconditions@), views(postconditions@), invs, p8),
                },
                preds_names_ok(invariants@),
                invariants_rest(s, Seq::empty(), p7) == invariants_rest(s, views(invariants@), p as int),
            ensures
                p3 <= p <= self.size(),
                preds_names_ok(invariants@),
                invariants_rest(s, Seq::empty(), p7) == Ok::<(Seq<PredM>, int), Seq<char>>((views(invariants@), p as int)),
            decreases self.size() - p,
        {
            match self.predicate_section(p, "invariant")? {
                Some((mut ps, e)) => {
                    let ghost before = invariants@;
                    let ghost more = ps@;
                    invariants.append(&mut ps);
                    assert(views(invariants@) =~= views(before) + views(more));
                    assert(forall|i: int| 0 <= i < invariants@.len() ==> pred_names_ok(#[trigger] invariants@[i]));
                    p = e;
                },
                None => {
                    break;
                },
            }
        }
        self.intent_tail(name, inputs, outputs, preconditions, postconditions, invariants, p)
    }

    /// The optional never section and the closing `}` of an intent whose
    /// other parts are given, from `p8` on.
    fn intent_tail(
        &self,
        name: String,
        inputs: Vec<Param>,
        outputs: Vec<Param>,
        preconditions: Vec<PredicateNode>,
        postconditions: Vec<PredicateNode>,
        invariants: Vec<PredicateNode>,
        p8: usize,
    ) -> (r: Parsed<IntentNode>)
        requires
            p8 <= self.size(),
            is_identifier(name@),
            params_names_ok(inputs@),
            params_names_ok(outputs@),
            preds_names_ok(preconditions@),
            preds_names_ok(postconditions@),
            preds_names_ok(invariants@),
        ensures
            self.advances(p8, r),
            agrees(
                r,
                intent_tail(
                    self.src@,
                    name@,
                    views(inputs@),
                    views(outputs@),
                    views(preconditions@),
                    views(postconditions@),
                    views(invariants@),
                    p8 as int,
                ),
            ),
            r matches Ok(Some((i, _))) ==> intent_names_ok(i),
    {
        let mut p = p8;
        let mut never: Vec<String> = Vec::new();
        assert(views(never@) =~= Seq::<Seq<char>>::empty());
        if let Some((ids, e)) = self.never_section(p) {
            never = ids;
            p = e;
        }
        match self.lit(p, "}") {
            Some(e) => Ok(
                Some(
                    (
                        IntentNode { name, inputs, outputs, preconditions, postconditions, invariants, never },
                        e,
                    ),
                ),
            ),
            None => Ok(None),
        }
    }


    /// source_ref = source_type "#" source_path, written without spaces, where
    /// source_type = "ref" | "slack" | "email" | "github" | "jira" | "doc" and
    /// source_path = (ALNUM | "-" | "_" | "/" | "." | "@")+
    pub fn source_ref(&self, pos: usize) -> (r: Option<(SourceRef, usize)>)
        requires
            pos <= self.size(),
        ensures
            self.advances_opt(pos, r),
            found(r, source_ref_at(self.src@, pos as int)),
            r matches Some((sr, e)) ==> e >= sr.path@.len() && sr.path@ == self.src@.subrange(e - sr.path@.len(), e as int)
                && sr.path@.len() > 0
                && (forall|j: int| 0 <= j < sr.path@.len() ==> is_path_char(#[trigger] sr.path@[j])),
    {
        let (source_type, p1) = if let Some(e) = self.lit(pos, "ref") {
            (SourceType::Ref, e)
        } else if let Some(e) = self.lit(pos, "slack") {
            (SourceType::Slack, e)
        } else if let Some(e) = self.lit(pos, "email") {
            (SourceType::Email, e)
        } else if let Some(e) = self.lit(pos, "github") {
            (SourceType::Github, e)
        } else if let Some(e) = self.lit(pos, "jira") {
            (SourceType::Jira, e)
        } else if let Some(e) = self.lit(pos, "doc") {
            (SourceType::Doc, e)
        } else {
            return None;
        };
        let n = self.src.len();
        if p1 >= n || self.src[p1] != '#' {
            return None;
        }
        let start = p1 + 1;
        let mut e = start;
        while e < n && path_char(self.src[e])
            invariant
                n == self.size(),
                start <= e <= n,
                forall|j: int| start <= j < e ==> is_path_char(#[trigger] self.src@[j]),
                path_stop(self.src@, e as int) == path_stop(self.src@, start as int),
            decreases n - e,
        {
            e += 1;
        }
        if e == start {
            return None;
        }
        let path = self.text(start, e);
        proof {
            assert(forall|j: int| 0 <= j < path@.len() ==> is_path_char(#[trigger] path@[j]));
        }
        Some((SourceRef { source_type, path }, e))
    }

    /// date_literal = DIGIT{4} "-" DIGIT{2} "-" DIGIT{2}
    pub fn date_literal(&self, pos: usize) -> (r: Option<(String, usize)>)
        requires
            pos <= self.size(),
        ensures
            self.advances_opt(pos, r),
            found(r, date_at(self.src@, pos as int)),
            r matches Some((d, e)) ==> d@.len() == 10 && e >= 10 && d@ == self.src@.subrange(e - 10, e as int)
                && is_digit(d@[0]) && is_digit(d@[1]) && is_digit(d@[2]) && is_digit(d@[3]) && d@[4] == '-'
                && is_digit(d@[5]) && is_digit(d@[6]) && d@[7] == '-' && is_digit(d@[8]) && is_digit(d@[9]),
    {
        let p = self.skip_ws(pos);
        let n = self.src.len();
        if n - p < 10 {
            return None;
        }
        let s = &self.src;
        if digit(s[p]) && digit(s[p + 1]) && digit(s[p + 2]) && digit(s[p + 3]) && s[p + 4] == '-'
            && digit(s[p + 5]) && digit(s[p + 6]) && s[p + 7] == '-' && digit(s[p + 8]) && digit(s[p + 9]) {
            let d = self.text(p, p + 10);
            Some((d, p + 10))
        } else {
            None
        }
    }

    /// confidence_value = ("0" | "1") ("." DIGIT*)?
    pub fn confidence_value(&self, pos: usize) -> (r: Option<(String, usize)>)
        requires
            pos <= self.size(),
        ensures
            self.advances_opt(pos, r),
            found(r, confidence_at(self.src@, pos as int)),
            r matches Some((c, e)) ==> e >= c@.len() && c@ == self.src@.subrange(e - c@.len(), e as int)
                && c@.len() > 0 && (c@[0] == '0' || c@[0] == '1'),
    {
        let p = self.skip_ws(pos);
        let n = self.src.len();
        if p >= n || (self.src[p] != '0' && self.src[p] != '1') {
            return None;
        }
        let mut e = p + 1;
        if e < n && self.src[e] == '.' {
            e = self.digits_end(e + 1);
        }
        let c = self.text(p, e);
        Some((c, e))
    }

    /// validation_method = "interview" | "document_review" | "formal_audit" | "peer_review"
    fn validation_method(&self, pos: usize) -> (r: Option<(ValidationMethod, usize)>)
        requires
            pos <= self.size(),
        ensures
            self.advances_opt(pos, r),
            found(r, method_at(self.src@, pos as int)),
    {
        if let Some(e) = self.lit(pos, "interview") {
            Some((ValidationMethod::Interview, e))
        } else if let Some(e) = self.lit(pos, "document_review") {
            Some((ValidationMethod::DocumentReview, e))
        } else if let Some(e) = self.lit(pos, "formal_audit") {
            Some((ValidationMethod::FormalAudit, e))
        } else if let Some(e) = self.lit(pos, "peer_review") {
            Some((ValidationMethod::PeerReview, e))
        } else {
            None
        }
    }

    /// validated_by_field = "domain_expert" ":" string_literal | "date" ":" date_literal
    ///                    | "confidence" ":" confidence_value | "method" ":" validation_method
    fn validated_by_field(&self, pos: usize) -> (r: Option<(ValidatedByField, usize)>)
        requires
            pos <= self.size(),
        ensures
            self.advances_opt(pos, r),
            found(r, field_at(self.src@, pos as int)),
    {
        if let Some(p1) = self.lit(pos, "domain_expert") {
            if let Some(p2) = self.lit(p1, ":") {
                if let Some((t, e)) = self.string_literal(p2) {
                    return Some((ValidatedByField::DomainExpert(t), e));
                }
            }
        }
        if let Some(p1) = self.lit(pos, "date") {
            if let Some(p2) = self.lit(p1, ":") {
                if let Some((d, e)) = self.date_literal(p2) {
                    return Some((ValidatedByField::Date(d), e));
                }
            }
        }
        if let Some(p1) = self.lit(pos, "confidence") {
            if let Some(p2) = self.lit(p1, ":") {
                if let Some((c, e)) = self.confidence_value(p2) {
                    return Some((ValidatedByField::Confidence(c), e));
                }
            }
        }
        if let Some(p1) = self.lit(pos, "method") {
            if let Some(p2) = self.lit(p1, ":") {
                if let Some((m, e)) = self.validation_method(p2) {
                    return Some((ValidatedByField::Method(m), e));
                }
            }
        }
        None
    }

    /// assumption_section = assumption_string | context_source_section
    ///                    | out_of_scope_section | validated_by_section
    fn assumption_section(&self, pos: usize) -> (r: Option<(AssumptionSection, usize)>)
        requires
            pos <= self.size(),
        ensures
            self.advances_opt(pos, r),
            found(r, section_at(self.src@, pos as int)),
    {
        if let Some((t, e)) = self.string_literal(pos) {
            return Some((AssumptionSection::StringAssumption(t), e));
        }
        // context_source_section = "context_source" ":" source_ref+
        if let Some(p1) = self.lit(pos, "context_source") {
            if let Some(p2) = self.lit(p1, ":") {
                let mut refs: Vec<SourceRef> = Vec::new();
                let mut p = p2;
                assert(views(refs@) =~= Seq::<SourceRefM>::empty());
                loop
                    invariant
                        pos < p <= self.size(),
                        refs_rest(self.src@, Seq::empty(), p2 as int) == refs_rest(self.src@, views(refs@), p as int),
                    ensures
                        pos < p <= self.size(),
                        refs_rest(self.src@, Seq::empty(), p2 as int) == (views(refs@), p as int),
                    decreases self.size() - p,
                {
                    match self.source_ref(p) {
                        Some((sr, e)) => {
                            let ghost before = refs@;
                            refs.push(sr);
                            assert(views(refs@) =~= views(before).push(refs@.last()@));
                            p = e;
                        },
                        None => {
                            break;
                        },
                    }
                }
                if refs.len() > 0 {
                    return Some((AssumptionSection::ContextSource(refs), p));
                }
            }
        }
        // out_of_scope_section = "out_of_scope" ":" string_literal+
        if let Some(p1) = self.lit(pos, "out_of_scope") {
            if let Some(p2) = self.lit(p1, ":") {
                let mut items: Vec<String> = Vec::new();
                let mut p = p2;
                assert(views(items@) =~= Seq::<Seq<char>>::empty());
                loop
                    invariant
                        pos < p <= self.size(),
                        strings_rest(self.src@, Seq::empty(), p2 as int) == strings_rest(self.src@, views(items@), p as int),
                    ensures
                        pos < p <= self.size(),
                        strings_rest(self.src@, Seq::empty(), p2 as int) == (views(items@), p as int),
                    decreases self.size() - p,
                {
                    match self.string_literal(p) {
                        Some((t, e)) => {
                            let ghost before = items@;
                            items.push(t);
                            assert(views(items@) =~= views(before).push(items@.last()@));
                            p = e;
                        },
                        None => {
                            break;
                        },
                    }
                }
                if items.len() > 0 {
                    return Some((AssumptionSection::OutOfScope(items), p));
                }
            }
        }
        // validated_by_section = "validated_by" ":" validated_by_field*
        if let Some(p1) = self.lit(pos, "validated_by") {
            if let Some(p2) = self.lit(p1, ":") {
                let mut fields: Vec<ValidatedByField> = Vec::new();
                let mut p = p2;
                assert(views(fields@) =~= Seq::<FieldM>::empty());
                loop
                    invariant
                        pos < p <= self.size(),
                        fields_rest(self.src@, Seq::empty(), p2 as int) == fields_rest(self.src@, views(fields@), p as int),
                    ensures
                        pos < p <= self.size(),
                        fields_rest(self.src@, Seq::empty(), p2 as int) == (views(fields@), p as int),
                    decreases self.size() - p,
                {
                    match self.validated_by_field(p) {
                        Some((f, e)) => {
                            let ghost before = fields@;
                            fields.push(f);
                            assert(views(fields@) =~= views(before).push(fields@.last()@));
                            p = e;
                        },
                        None => {
                            break;
                        },
                    }
                }
                return Some((AssumptionSection::ValidatedBy(ValidatedBy { fields }), p));
            }
        }
        None
    }

    /// assumption_block = "assumption" identifier "{" assumption_section* "}"
    pub fn assumption_block(&self, pos: usize) -> (r: Option<(AssumptionNode, usize)>)
        requires
            pos <= self.size(),
        ensures
            self.advances_opt(pos, r),
            found(r, assumption_at(self.src@, pos as int)),
            r matches Some((a, _)) ==> is_identifier(a.name@),
    {
        let p1 = self.lit(pos, "assumption")?;
        let (name, p2) = self.identifier(p1)?;
        let p3 = self.lit(p2, "{")?;
        let mut p = p3;
        let mut sections: Vec<AssumptionSection> = Vec::new();
        assert(views(sections@) =~= Seq::<SectionM>::empty());
        loop
            invariant
                pos < p <= self.size(),
                is_identifier(name@),
                sections_rest(self.src@, Seq::empty(), p3 as int) == sections_rest(self.src@, views(sections@), p as int),
            ensures
                pos < p <= self.size(),
                is_identifier(name@),
                sections_rest(self.src@, Seq::empty(), p3 as int) == (views(sections@), p as int),
            decreases self.size() - p,
        {
            match self.assumption_section(p) {
                Some((sec, e)) => {
                    let ghost before = sections@;
                    sections.push(sec);
                    assert(views(sections@) =~= views(before).push(sections@.last()@));
                    p = e;
                },
                None => {
                    break;
                },
            }
        }
        let e = self.lit(p, "}")?;
        Some((AssumptionNode { name, sections }, e))
    }


    /// strategy_name = "smt_solver" "(" "z3" ")" | "bounded_model_checking"
    ///               | "induction" | "ai_assisted"
    fn strategy_name(&self, pos: usize) -> (r: Option<(StrategyName, usize)>)
        requires
            pos <= self.size(),
        ensures
            self.advances_opt(pos, r),
            found(r, strategy_name_at(self.src@, pos as int)),
    {
        if let Some(p1) = self.lit(pos, "smt_solver") {
            if let Some(p2) = self.lit(p1, "(") {
                if let Some(p3) = self.lit(p2, "z3") {
                    if let Some(p4) = self.lit(p3, ")") {
                        return Some((StrategyName::SmtSolverZ3, p4));
                    }
                }
            }
        }
        if let Some(e) = self.lit(pos, "bounded_model_checking") {
            Some((StrategyName::BoundedModelChecking, e))
        } else if let Some(e) = self.lit(pos, "induction") {
            Some((StrategyName::Induction, e))
        } else if let Some(e) = self.lit(pos, "ai_assisted") {
            Some((StrategyName::AiAssisted, e))
        } else {
            None
        }
    }

    /// strategy_decl = "strategy" ":" strategy_name ("with" "fallback" "(" strategy_name ")")?
    fn strategy_decl(&self, pos: usize) -> (r: Option<(StrategyExpr, usize)>)
        requires
            pos <= self.size(),
        ensures
            self.advances_opt(pos, r),
            found(r, strategy_at(self.src@, pos as int)),
    {
        let p1 = self.lit(pos, "strategy")?;
        let p2 = self.lit(p1, ":")?;
        let (primary, p3) = self.strategy_name(p2)?;
        if let Some(p4) = self.lit(p3, "with") {
            if let Some(p5) = self.lit(p4, "fallback") {
                if let Some(p6) = self.lit(p5, "(") {
                    if let Some((fb, p7)) = self.strategy_name(p6) {
                        if let Some(p8) = self.lit(p7, ")") {
                            return Some((StrategyExpr { primary, fallback: Some(fb) }, p8));
                        }
                    }
                }
            }
        }
        Some((StrategyExpr { primary, fallback: None }, p3))
    }

    /// proof_method = "proof" ":" proof_technique, where
    /// proof_technique = "induction" "on" identifier | "contradiction" | "direct"
    fn proof_method(&self, pos: usize) -> (r: Option<(ProofMethod, usize)>)
        requires
            pos <= self.size(),
        ensures
            self.advances_opt(pos, r),
            found(r, technique_at(self.src@, pos as int)),
            r matches Some((m, _)) ==> (m.technique matches ProofTechnique::Induction { on } ==> is_identifier(on@)),
    {
        let p1 = self.lit(pos, "proof")?;
        let p2 = self.lit(p1, ":")?;
        if let Some(p3) = self.lit(p2, "induction") {
            if let Some(p4) = self.lit(p3, "on") {
                if let Some((on, p5)) = self.identifier(p4) {
                    return Some((ProofMethod { technique: ProofTechnique::Induction { on } }, p5));
                }
            }
        }
        if let Some(e) = self.lit(p2, "contradiction") {
            Some((ProofMethod { technique: ProofTechnique::Contradiction }, e))
        } else if let Some(e) = self.lit(p2, "direct") {
            Some((ProofMethod { technique: ProofTechnique::Direct }, e))
        } else {
            None
        }
    }

    /// lemma_decl = "lemma" identifier "{" predicate_or+ proof_method? "}"
    fn lemma_decl(&self, pos: usize) -> (r: Parsed<LemmaDecl>)
        requires
            pos <= self.size(),
        ensures
            self.advances(pos, r),
            agrees(r, lemma_at(self.src@, pos as int)),
            r matches Ok(Some((l, _))) ==> lemma_names_ok(l),
    {
        let p1 = match self.lit(pos, "lemma") {
            Some(p) => p,
            None => {
                return Ok(None);
            },
        };
        let (name, p2) = match self.identifier(p1) {
            Some(x) => x,
            None => {
                return Ok(None);
            },
        };
        let p3 = match self.lit(p2, "{") {
            Some(p) => p,
            None => {
                return Ok(None);
            },
        };
        let (predicates, p4) = match self.predicate_lines(p3)? {
            Some(x) => x,
            None => {
                return Ok(None);
            },
        };
        let mut p = p4;
        let mut proof_method: Option<ProofMethod> = None;
        if let Some((m, e)) = self.proof_method(p4) {
            proof_method = Some(m);
            p = e;
        }
        match self.lit(p, "}") {
            Some(e) => Ok(Some((LemmaDecl { name, predicates, proof_method }, e))),
            None => Ok(None),
        }
    }

    /// atomic_stmt = "atomic" "{" verify_statement+ "}"
    fn atomic_statement(&self, pos: usize) -> (r: Parsed<VerifyStatement>)
        requires
            pos <= self.size(),
        ensures
            self.advances(pos, r),
            agrees(r, atomic_at(self.src@, pos as int)),
            r matches Ok(Some((st, _))) ==> statement_names_ok(st),
        decreases self.size() - pos, 0int,
    {
        let p1 = match self.lit(pos, "atomic") {
            Some(q) => q,
            None => {
                return Ok(None);
            },
        };
        let p2 = match self.lit(p1, "{") {
            Some(q) => q,
            None => {
                return Ok(None);
            },
        };
        let mut stmts: Vec<VerifyStatement> = Vec::new();
        let mut p = p2;
        loop
            invariant
                pos < p2 <= p <= self.size(),
                forall|i: int| 0 <= i < stmts@.len() ==> statement_names_ok(#[trigger] stmts@[i]),
                statements_rest(self.src@, Seq::empty(), p2 as int) == statements_rest(self.src@, stmt_views(stmts@), p as int),
                atomic_at(self.src@, pos as int) == match statements_rest(self.src@, Seq::empty(), p2 as int) {
                    Err(m) => Gram::<StmtM>::Err(m),
                    Ok((sts, q)) => if sts.len() > 0 {
                        match lit_at(self.src@, q, "}"@) {
                            Some(e) => Gram::<StmtM>::Ok(Some((StmtM::Atomic(sts), e))),
                            None => Gram::<StmtM>::Ok(None),
                        }
                    } else {
                        Gram::<StmtM>::Ok(None)
                    },
                },
            ensures
                pos < p2 <= p <= self.size(),
                forall|i: int| 0 <= i < stmts@.len() ==> statement_names_ok(#[trigger] stmts@[i]),
                statements_rest(self.src@, Seq::empty(), p2 as int) == Ok::<(Seq<StmtM>, int), Seq<char>>((stmt_views(stmts@), p as int)),
                atomic_at(self.src@, pos as int) == if stmts@.len() > 0 {
                    match lit_at(self.src@, p as int, "}"@) {
                        Some(e) => Gram::<StmtM>::Ok(Some((StmtM::Atomic(stmt_views(stmts@)), e))),
                        None => Gram::<StmtM>::Ok(None),
                    }
                } else {
                    Gram::<StmtM>::Ok(None)
                },
            decreases self.size() - p,
        {
            match self.verify_statement(p)? {
                Some((st, e)) => {
                    let ghost before = stmts@;
                    stmts.push(st);
                    assert(stmts@.drop_last() =~= before);
                    p = e;
                },
                None => {
                    proof {
                        lemma_stmt_views_len(stmts@);
                    }
                    break;
                },
            }
        }
        if stmts.len() == 0 {
            return Ok(None);
        }
        match self.lit(p, "}") {
            Some(e) => Ok(Some((VerifyStatement::Atomic(stmts), e))),
            None => Ok(None),
        }
    }

    /// verify_statement = assert_stmt | atomic_stmt | assign_stmt, where
    /// assert_stmt = "assert" predicate_or, atomic_stmt = "atomic" "{" verify_statement+ "}"
    /// and assign_stmt = qualified_identifier ("+=" | "-=" | "=") expr
    pub fn verify_statement(&self, pos: usize) -> (r: Parsed<VerifyStatement>)
        requires
            pos <= self.size(),
        ensures
            self.advances(pos, r),
            agrees(r, statement_at(self.src@, pos as int)),
            r matches Ok(Some((st, _))) ==> statement_names_ok(st),
        decreases self.size() - pos, 1int,
    {
        if let Some(p1) = self.lit(pos, "assert") {
            match self.predicate_or(p1)? {
                Some((pred, e)) => {
                    return Ok(Some((VerifyStatement::Assert(pred), e)));
                },
                None => {},
            }
        }
        match self.atomic_statement(pos)? {
            Some(x) => {
                return Ok(Some(x));
            },
            None => {},
        }
        let (target, p1) = match self.qualified_identifier(pos) {
            Some(x) => x,
            None => {
                return Ok(None);
            },
        };
        let (op, p2) = if let Some(e) = self.lit(p1, "+=") {
            (AssignOp::AddAssign, e)
        } else if let Some(e) = self.lit(p1, "-=") {
            (AssignOp::SubAssign, e)
        } else if let Some(e) = self.lit(p1, "=") {
            (AssignOp::Assign, e)
        } else {
            return Ok(None);
        };
        match self.expr(p2)? {
            Some((expr, e)) => Ok(Some((VerifyStatement::Assign { target, op, expr }, e))),
            None => Ok(None),
        }
    }

    /// verify_decl = "verify" identifier ("using" identifier)? "{" verify_statement* "}"
    fn verify_decl(&self, pos: usize) -> (r: Parsed<VerifyDecl>)
        requires
            pos <= self.size(),
        ensures
            self.advances(pos, r),
            agrees(r, verify_at(self.src@, pos as int)),
            r matches Ok(Some((v, _))) ==> verify_names_ok(v),
    {
        let p1 = match self.lit(pos, "verify") {
            Some(p) => p,
            None => {
                return Ok(None);
            },
        };
        let (target, p2) = match self.identifier(p1) {
            Some(x) => x,
            None => {
                return Ok(None);
            },
        };
        let mut using: Option<String> = None;
        let mut p = p2;
        if let Some(p3) = self.lit(p2, "using") {
            if let Some((u, p4)) = self.identifier(p3) {
                using = Some(u);
                p = p4;
            }
        }
        p = match self.lit(p, "{") {
            Some(q) => q,
            None => {
                return Ok(None);
            },
        };
        let ghost q = p as int;
        let mut statements: Vec<VerifyStatement> = Vec::new();
        assert(views(statements@) =~= Seq::<StmtM>::empty());
        loop
            invariant
                pos < p <= self.size(),
                is_identifier(target@),
                using matches Some(u) ==> is_identifier(u@),
                forall|i: int| 0 <= i < statements@.len() ==> statement_names_ok(#[trigger] statements@[i]),
                statements_rest(self.src@, Seq::empty(), q) == statements_rest(self.src@, views(statements@), p as int),
                verify_at(self.src@, pos as int) == match statements_rest(self.src@, Seq::empty(), q) {
                    Err(m) => Gram::<VerifyM>::Err(m),
                    Ok((sts, p5)) => verify_end(
                        self.src@,
                        target@,
                        match using {
                            Some(u) => Some(u@),
                            None => None,
                        },
                        sts,
                        p5,
                    ),
                },
            ensures
                pos < p <= self.size(),
                is_identifier(target@),
                using matches Some(u) ==> is_identifier(u@),
                forall|i: int| 0 <= i < statements@.len() ==> statement_names_ok(#[trigger] statements@[i]),
                statements_rest(self.src@, Seq::empty(), q) == Ok::<(Seq<StmtM>, int), Seq<char>>((views(statements@), p as int)),
            decreases self.size() - p,
        {
            match self.verify_statement(p)? {
                Some((st, e)) => {
                    let ghost before = statements@;
                    statements.push(st);
                    assert(views(statements@) =~= views(before).push(statements@.last()@));
                    p = e;
                },
                None => {
                    break;
                },
            }
        }
        match self.lit(p, "}") {
            Some(e) => Ok(Some((VerifyDecl { target, using, statements }, e))),
            None => Ok(None),
        }
    }

    /// certificate_decl = "certificate" ":" string_literal "verified_at" ":" "compile_time"
    fn certificate_decl(&self, pos: usize) -> (r: Option<(CertificatePlaceholder, usize)>)
        requires
            pos <= self.size(),
        ensures
            self.advances_opt(pos, r),
            found(r, certificate_at(self.src@, pos as int)),
    {
        let p1 = self.lit(pos, "certificate")?;
        let p2 = self.lit(p1, ":")?;
        let (value, p3) = self.string_literal(p2)?;
        let p4 = self.lit(p3, "verified_at")?;
        let p5 = self.lit(p4, ":")?;
        let p6 = self.lit(p5, "compile_time")?;
        Some((CertificatePlaceholder { value }, p6))
    }

    /// proof_block = "proof" identifier "{" strategy_decl lemma_decl* verify_decl+
    ///               certificate_decl? "}"
    pub fn proof_block(&self, pos: usize) -> (r: Parsed<ProofNode>)
        requires
            pos <= self.size(),
        ensures
            self.advances(pos, r),
            agrees(r, proof_at(self.src@, pos as int)),
            r matches Ok(Some((pr, _))) ==> proof_names_ok(pr),
    {
        let p1 = match self.lit(pos, "proof") {
            Some(p) => p,
            None => {
                return Ok(None);
            },
        };
        let (name, p2) = match self.identifier(p1) {
            Some(x) => x,
            None => {
                return Ok(None);
            },
        };
        let p3 = match self.lit(p2, "{") {
            Some(p) => p,
            None => {
                return Ok(None);
            },
        };
        let (strategy, p4) = match self.strategy_decl(p3) {
            Some(x) => x,
            None => {
                return Ok(None);
            },
        };
        let mut p = p4;
        let mut lemmas: Vec<LemmaDecl> = Vec::new();
        assert(views(lemmas@) =~= Seq::<LemmaM>::empty());
        let ghost s = self.src@;
        assert(proof_at(s, pos as int) == match lemmas_rest(s, Seq::empty(), p4 as int) {
            Err(m) => Gram::<ProofM>::Err(m),
            Ok((ls, p5)) => proof_tail(s, name@, strategy, ls, p5),
        });
        loop
            invariant
                pos < p <= self.size(),
                s == self.src@,
                is_identifier(name@),
                forall|i: int| 0 <= i < lemmas@.len() ==> lemma_names_ok(#[trigger] lemmas@[i]),
                lemmas_rest(s, Seq::empty(), p4 as int) == lemmas_rest(s, views(lemmas@), p as int),
                proof_at(s, pos as int) == match lemmas_rest(s, Seq::empty(), p4 as int) {
                    Err(m) => Gram::<ProofM>::Err(m),
                    Ok((ls, p5)) => proof_tail(s, name@, strategy, ls, p5),
                },
            ensures
                pos < p <= self.size(),
                is_identifier(name@),
                forall|i: int| 0 <= i < lemmas@.len() ==> lemma_names_ok(#[trigger] lemmas@[i]),
                lemmas_rest(s, Seq::empty(), p4 as int) == Ok::<(Seq<LemmaM>, int), Seq<char>>((views(lemmas@), p as int)),
            decreases self.size() - p,
        {
            match self.lemma_decl(p)? {
                Some((l, e)) => {
                    let ghost before = lemmas@;
                    lemmas.push(l);
                    assert(views(lemmas@) =~= views(before).push(lemmas@.last()@));
                    p = e;
                },
                None => {
                    break;
                },
            }
        }
        let ghost p5 = p as int;
        let mut verify_decls: Vec<VerifyDecl> = Vec::new();
        assert(views(verify_decls@) =~= Seq::<VerifyM>::empty());
        loop
            invariant
                pos < p <= self.size(),
                s == self.src@,
                is_identifier(name@),
                forall|i: int| 0 <= i < lemmas@.len() ==> lemma_names_ok(#[trigger] lemmas@[i]),
                forall|i: int| 0 <= i < verify_decls@.len() ==> verify_names_ok(#[trigger] verify_decls@[i]),
                verifies_rest(s, Seq::empty(), p5) == verifies_rest(s, views(verify_decls@), p as int),
                proof_at(s, pos as int) == proof_tail(s, name@, strategy, views(lemmas@), p5),
                proof_tail(s, name@, strategy, views(lemmas@), p5) == match verifies_rest(s, Seq::empty(), p5) {
                    Err(m) => Gram::<ProofM>::Err(m),
                    Ok((vds, p6)) => proof_end(s, name@, strategy, views(lemmas@), vds, p6),
                },
            ensures
                pos < p <= self.size(),
                is_identifier(name@),
                forall|i: int| 0 <= i < lemmas@.len() ==> lemma_names_ok(#[trigger] lemmas@[i]),
                forall|i: int| 0 <= i < verify_decls@.len() ==> verify_names_ok(#[trigger] verify_decls@[i]),
                verifies_rest(s, Seq::empty(), p5) == Ok::<(Seq<VerifyM>, int), Seq<char>>((views(verify_decls@), p as int)),
            decreases self.size() - p,
        {
            match self.verify_decl(p)? {
                Some((v, e)) => {
                    let ghost before = verify_decls@;
                    verify_decls.push(v);
                    assert(views(verify_decls@) =~= views(before).push(verify_decls@.last()@));
                    p = e;
                },
                None => {
                    break;
                },
            }
        }
        if verify_decls.len() == 0 {
            return Ok(None);
        }
        let mut certificate: Option<CertificatePlaceholder> = None;
        if let Some((c, e)) = self.certificate_decl(p) {
            certificate = Some(c);
            p = e;
        }
        match self.lit(p, "}") {
            Some(e) => Ok(Some((ProofNode { name, strategy, lemmas, verify_decls, certificate }, e))),
            None => Ok(None),
        }
    }

    /// declaration = intent_block assumption_block proof_block
    pub fn declaration(&self, pos: usize) -> (r: Parsed<Declaration>)
        requires
            pos <= self.size(),
        ensures
            self.advances(pos, r),
            agrees(r, declaration_at(self.src@, pos as int)),
            r matches Ok(Some((d, _))) ==> declaration_names_ok(d),
    {
        proof {
            reveal(declaration_at);
        }
        let (intent, p1) = match self.intent_block(pos)? {
            Some(x) => x,
            None => {
                return Ok(None);
            },
        };
        let (assumption, p2) = match self.assumption_block(p1) {
            Some(x) => x,
            None => {
                return Ok(None);
            },
        };
        match self.proof_block(p2)? {
            Some((proof, p3)) => Ok(Some((Declaration { intent, assumption, proof }, p3))),
            None => Ok(None),
        }
    }

    /// program = (context_decl | let_stmt | declaration)+ EOF
    #[verifier::rlimit(50)]
    pub fn program(&self) -> (r: Result<Program, CompilerError>)
        ensures
            parse_outcome(r, program_of(self.src@)),
            r matches Ok(p) ==> p.contexts@.len() + p.lets@.len() + p.declarations@.len() > 0,
            r matches Err(e) ==> e is ParseError || e is LoweringError,
            r matches Ok(p) ==> program_names_ok(p),
    {
        let ghost s = self.src@;
        let mut contexts: Vec<ContextDecl> = Vec::new();
        let mut lets: Vec<LetBinding> = Vec::new();
        let mut declarations: Vec<Declaration> = Vec::new();
        let mut p: usize = 0;
        let ghost mut acc = no_items();
        loop
            invariant
                p <= self.size(),
                s == self.src@,
                forall|i: int| 0 <= i < contexts@.len() ==> context_names_ok(#[trigger] contexts@[i]),
                forall|i: int| 0 <= i < lets@.len() ==> let_names_ok(#[trigger] lets@[i]),
                forall|i: int| 0 <= i < declarations@.len() ==> declaration_names_ok(#[trigger] declarations@[i]),
                acc.contexts == views(contexts@),
                acc.lets == views(lets@),
                acc.declarations == views(declarations@),
                items_rest(s, no_items(), 0) == items_rest(s, acc, p as int),
            ensures
                p <= self.size(),
                forall|i: int| 0 <= i < contexts@.len() ==> context_names_ok(#[trigger] contexts@[i]),
                forall|i: int| 0 <= i < lets@.len() ==> let_names_ok(#[trigger] lets@[i]),
                forall|i: int| 0 <= i < declarations@.len() ==> declaration_names_ok(#[trigger] declarations@[i]),
                acc.contexts == views(contexts@),
                acc.lets == views(lets@),
                acc.declarations == views(declarations@),
                items_rest(s, no_items(), 0) == Ok::<(ProgramM, int), Seq<char>>((acc, p as int)),
            decreases self.size() - p,
        {
            let ghost p0 = p as int;
            match self.context_decl(p) {
                Err(e) => {
                    proof {
                        lemma_program_of_literal(s, context_decl_at(s, p0)->Err_0);
                    }
                    return Err(e);
                },
                Ok(Some((c, e))) => {
                    proof {
                        acc = ProgramM { contexts: acc.contexts.push(c@), ..acc };
                    }
                    contexts.push(c);
                    p = e;
                    continue;
                },
                Ok(None) => {},
            }
            match self.let_stmt(p) {
                Err(e) => {
                    proof {
                        lemma_program_of_literal(s, let_at(s, p0)->Err_0);
                    }
                    return Err(e);
                },
                Ok(Some((l, e))) => {
                    proof {
                        acc = ProgramM { lets: acc.lets.push(l@), ..acc };
                    }
                    lets.push(l);
                    p = e;
                    continue;
                },
                Ok(None) => {},
            }
            match self.declaration(p) {
                Err(e) => {
                    proof {
                        lemma_program_of_literal(s, declaration_at(s, p0)->Err_0);
                    }
                    return Err(e);
                },
                Ok(Some((d, e))) => {
                    proof {
                        acc = ProgramM { declarations: acc.declarations.push(d@), ..acc };
                    }
                    declarations.push(d);
                    p = e;
                    continue;
                },
                Ok(None) => {},
            }
            break;
        }
        let end = self.skip_ws(p);
        if (contexts.len() == 0 && lets.len() == 0 && declarations.len() == 0) || end < self.src.len() {
            return Err(CompilerError::ParseError(self.unexpected_at(end)));
        }
        Ok(Program { contexts, lets, declarations })
    }

    /// Line and column (both counted from 1) of position `pos`.
    pub fn line_col(&self, pos: usize) -> (r: (u128, u128))
        requires
            pos <= self.size(),
        ensures
            r.0 == line_col(self.src@, pos as int).0,
            r.1 == line_col(self.src@, pos as int).1,
    {
        let mut line: u128 = 1;
        let mut col: u128 = 1;
        let mut i: usize = 0;
        while i < pos
            invariant
                i <= pos <= self.size(),
                line == line_col(self.src@, i as int).0,
                col == line_col(self.src@, i as int).1,
                1 <= line <= i + 1,
                1 <= col <= i + 1,
            decreases pos - i,
        {
            if self.src[i] == '\n' {
                line = line + 1;
                col = 1;
            } else {
                col = col + 1;
            }
            i += 1;
        }
        (line, col)
    }

    /// The diagnostic for input that no rule accepts at `pos`.
    pub fn unexpected_at(&self, pos: usize) -> (r: String)
        requires
            pos <= self.size(),
        ensures
            r@ == unexpected_message(self.src@, pos as int),
    {
        let (line, col) = self.line_col(pos);
        let mut msg = String::from_str("unexpected input at line ");
        msg.append(decimal_text(line).as_str());
        msg.append(", column ");
        msg.append(decimal_text(col).as_str());
        msg
    }

}

/// Parses a Firmum source text into its FIR program.
///
/// `Err(ParseError(..))` when the text is not a program of the grammar
/// (with the line and column where no rule applies), and
/// `Err(LoweringError(..))` when it is one but holds an integer literal that
/// does not fit in 64 bits.
pub fn parse(source: &str) -> (r: Result<Program, CompilerError>)
    ensures
        parse_outcome(r, program_of(source@)),
        r matches Ok(p) ==> p.contexts@.len() + p.lets@.len() + p.declarations@.len() > 0,
        r matches Err(e) ==> e is ParseError || e is LoweringError,
        r matches Ok(p) ==> program_names_ok(p),
{
    let parser = FirmumParser::new(source);
    parser.program()
}

} // verus!
