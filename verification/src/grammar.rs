//! The grammar of Firmum source text, as spec functions over the text.
//!
//! Each rule takes the text `s` and a position, and gives what the rule
//! matches there: `Ok(Some((node, end)))` when it matches up to `end`,
//! `Ok(None)` when it does not match, and `Err(message)` when the text matches
//! but holds an integer literal that does not fit in 64 bits. Choices are
//! ordered (the first alternative that matches wins) and repetitions are
//! greedy, as in a PEG. Whitespace and comments are skipped before every
//! token. The parser in `crate::parser` computes exactly these functions.
use vstd::prelude::*;
use crate::fir::{
    Program, AssignOp, BinOpKind, ComparisonOp, SourceType, StrategyExpr, StrategyName, TimeUnit, ValidationMethod,
};
use crate::fir::model::{
    views, AssumptionM, ContextFieldM, ContextM, DeclM, DurM, ExprM, FieldM, FieldValueM, IntentM, LemmaM,
    LetM, NumM, ParamM, PredM, ProgramM, ProofM, SectionM, SourceRefM, StmtM, TechniqueM, TemporalM,
    TyM, VerifyM,
};
use crate::parser::{decimal, digits_value, is_alpha, is_digit, is_keyword, is_path_char, is_space, is_word_char, Parsed};
use crate::errors::CompilerError;

verus! {

/// What a rule gives at a position (see the module documentation).
pub type Gram<T> = Result<Option<(T, int)>, Seq<char>>;

/// `to` lies after `from` and inside `s`. Every rule that matches moves
/// forward, so this always holds of a match; the grammar states it where it
/// goes on from a match, which is what makes the rules well founded.
pub open spec fn moved(s: Seq<char>, from: int, to: int) -> bool {
    from < to <= s.len()
}

/// The exec result `r` of a rule is what the grammar gives, `g`, with the node
/// taken by its view and an error carried as a `LoweringError`.
pub open spec fn agrees<T: View>(r: Parsed<T>, g: Gram<T::V>) -> bool {
    match r {
        Ok(Some((x, e))) => g == Gram::<T::V>::Ok(Some((x@, e as int))),
        Ok(None) => g == Gram::<T::V>::Ok(None),
        Err(CompilerError::LoweringError(m)) => g == Gram::<T::V>::Err(m@),
        Err(_) => false,
    }
}

/// The same for a rule that cannot fail.
pub open spec fn found<T: View>(r: Option<(T, usize)>, g: Option<(T::V, int)>) -> bool {
    match r {
        Some((x, e)) => g == Some((x@, e as int)),
        None => g is None,
    }
}

/// `agrees` for a rule whose node is a list, each item taken by its view.
pub open spec fn agrees_all<T: View>(r: Parsed<Vec<T>>, g: Gram<Seq<T::V>>) -> bool {
    match r {
        Ok(Some((x, e))) => g == Gram::<Seq<T::V>>::Ok(Some((views(x@), e as int))),
        Ok(None) => g == Gram::<Seq<T::V>>::Ok(None),
        Err(CompilerError::LoweringError(m)) => g == Gram::<Seq<T::V>>::Err(m@),
        Err(_) => false,
    }
}

/// `found` for a rule whose node is a list, each item taken by its view.
pub open spec fn found_all<T: View>(r: Option<(Vec<T>, usize)>, g: Option<(Seq<T::V>, int)>) -> bool {
    match r {
        Some((x, e)) => g == Some((views(x@), e as int)),
        None => g is None,
    }
}

/// A position as an integer.
pub open spec fn as_pos(r: Option<usize>) -> Option<int> {
    match r {
        Some(e) => Some(e as int),
        None => None,
    }
}

// ── whitespace and comments ──────────────────────────────────────────────────

/// The position after the end of the line that contains `q` (the end of the
/// text when there is no line break from `q` on).
pub open spec fn line_end(s: Seq<char>, q: int) -> int
    decreases s.len() - q,
{
    if q < 0 || q >= s.len() {
        q
    } else if s[q] == '\n' {
        q + 1
    } else {
        line_end(s, q + 1)
    }
}

/// The position after the first `*/` at or after `q`, if there is one.
pub open spec fn block_close(s: Seq<char>, q: int) -> Option<int>
    decreases s.len() - q,
{
    if q < 0 || q + 1 >= s.len() {
        None
    } else if s[q] == '*' && s[q + 1] == '/' {
        Some(q + 2)
    } else {
        block_close(s, q + 1)
    }
}

/// The end of a line lies between where the search starts and the end of the text.
pub proof fn lemma_line_end(s: Seq<char>, q: int)
    requires
        0 <= q <= s.len(),
    ensures
        q <= line_end(s, q) <= s.len(),
    decreases s.len() - q,
{
    if q < s.len() && s[q] != '\n' {
        lemma_line_end(s, q + 1);
    }
}

/// The end of a block comment lies after its `*/` and inside the text.
pub proof fn lemma_block_close(s: Seq<char>, q: int)
    requires
        0 <= q,
    ensures
        block_close(s, q) matches Some(e) ==> q + 2 <= e <= s.len(),
    decreases s.len() - q,
{
    if q + 1 < s.len() && !(s[q] == '*' && s[q + 1] == '/') {
        lemma_block_close(s, q + 1);
    }
}

/// The position after the whitespace and comments that start at `p`:
/// `" " | "\t" | "\n" | "\r"`, `// ...` up to and including the end of the
/// line, and `/* ... */`. An unterminated `/*` is not a comment.
pub open spec fn ws_end(s: Seq<char>, p: int) -> int
    decreases s.len() - p,
{
    if p < 0 || p >= s.len() {
        p
    } else if is_space(s[p]) {
        ws_end(s, p + 1)
    } else if s[p] == '/' && p + 1 < s.len() && s[p + 1] == '/' {
        proof {
            lemma_line_end(s, p + 2);
        }
        ws_end(s, line_end(s, p + 2))
    } else if s[p] == '/' && p + 1 < s.len() && s[p + 1] == '*' {
        proof {
            lemma_block_close(s, p + 2);
        }
        match block_close(s, p + 2) {
            Some(q) => ws_end(s, q),
            None => p,
        }
    } else {
        p
    }
}

/// Skipping whitespace and comments stays between the start and the end of the text.
pub proof fn lemma_ws_end(s: Seq<char>, p: int)
    requires
        0 <= p <= s.len(),
    ensures
        p <= ws_end(s, p) <= s.len(),
    decreases s.len() - p,
{
    if p < s.len() {
        if is_space(s[p]) {
            lemma_ws_end(s, p + 1);
        } else if s[p] == '/' && p + 1 < s.len() && s[p + 1] == '/' {
            lemma_line_end(s, p + 2);
            lemma_ws_end(s, line_end(s, p + 2));
        } else if s[p] == '/' && p + 1 < s.len() && s[p + 1] == '*' {
            lemma_block_close(s, p + 2);
            if let Some(q) = block_close(s, p + 2) {
                lemma_ws_end(s, q);
            }
        }
    }
}

// ── tokens ───────────────────────────────────────────────────────────────────

/// The literal `w`, after whitespace: the position after it.
pub open spec fn lit_at(s: Seq<char>, pos: int, w: Seq<char>) -> Option<int> {
    let p = ws_end(s, pos);
    if w.len() > 0 && 0 <= p && p + w.len() <= s.len() && s.subrange(p, p + w.len()) == w {
        Some(p + w.len())
    } else {
        None
    }
}

/// The first position at or after `q` that holds no letter, digit or `_`.
pub open spec fn word_stop(s: Seq<char>, q: int) -> int
    decreases s.len() - q,
{
    if 0 <= q < s.len() && is_word_char(s[q]) {
        word_stop(s, q + 1)
    } else {
        q
    }
}

/// The end of a word stays between its start and the end of the text.
pub proof fn lemma_word_stop(s: Seq<char>, q: int)
    requires
        0 <= q <= s.len(),
    ensures
        q <= word_stop(s, q) <= s.len(),
    decreases s.len() - q,
{
    if q < s.len() && is_word_char(s[q]) {
        lemma_word_stop(s, q + 1);
    }
}

/// identifier = ALPHA (ALPHA | DIGIT | "_")*, not a reserved word: the word
/// and the position after it.
pub open spec fn identifier_at(s: Seq<char>, pos: int) -> Option<(Seq<char>, int)> {
    let p = ws_end(s, pos);
    if 0 <= p < s.len() && is_alpha(s[p]) {
        let e = word_stop(s, p + 1);
        if is_keyword(s.subrange(p, e)) {
            None
        } else {
            Some((s.subrange(p, e), e))
        }
    } else {
        None
    }
}

/// The end of the `("." identifier)*` that follows a name ending at `e`.
pub open spec fn dotted_stop(s: Seq<char>, e: int) -> int
    decreases s.len() - e,
{
    if 0 <= e && e + 1 < s.len() && s[e] == '.' && is_alpha(s[e + 1]) && !is_keyword(
        s.subrange(e + 1, word_stop(s, e + 2)),
    ) {
        proof {
            lemma_word_stop(s, e + 2);
        }
        dotted_stop(s, word_stop(s, e + 2))
    } else {
        e
    }
}

/// qualified_identifier = identifier ("." identifier)*, written without spaces.
pub open spec fn qualified_at(s: Seq<char>, pos: int) -> Option<(Seq<char>, int)> {
    match identifier_at(s, pos) {
        None => None,
        Some((w, e)) => Some((s.subrange(e - w.len(), dotted_stop(s, e)), dotted_stop(s, e))),
    }
}

/// The first position at or after `q` that holds no digit.
pub open spec fn digits_stop(s: Seq<char>, q: int) -> int
    decreases s.len() - q,
{
    if 0 <= q < s.len() && is_digit(s[q]) {
        digits_stop(s, q + 1)
    } else {
        q
    }
}

/// number = decimal | integer, where decimal = DIGIT+ "." DIGIT+ and
/// integer = DIGIT+. A decimal keeps its text; an integer that does not fit
/// in 64 bits is an error.
pub open spec fn number_at(s: Seq<char>, pos: int) -> Gram<NumM> {
    let p = ws_end(s, pos);
    let d1 = digits_stop(s, p);
    if d1 == p {
        Ok(None)
    } else if 0 <= d1 < s.len() && s[d1] == '.' && digits_stop(s, d1 + 1) > d1 + 1 {
        Ok(Some((NumM::Decimal(s.subrange(p, digits_stop(s, d1 + 1))), digits_stop(s, d1 + 1))))
    } else if digits_value(s.subrange(p, d1)) <= u64::MAX {
        Ok(Some((NumM::Integer(digits_value(s.subrange(p, d1)) as u64), d1)))
    } else {
        Err("integer literal out of range: "@ + s.subrange(p, d1))
    }
}

/// The position of the quote that closes a string literal whose text starts
/// at `i`, if there is one: a backslash escapes the character after it.
pub open spec fn string_close(s: Seq<char>, i: int) -> Option<int>
    decreases s.len() - i,
{
    if i < 0 || i >= s.len() {
        None
    } else if s[i] == '"' {
        Some(i)
    } else if s[i] == '\\' {
        if i + 1 < s.len() {
            string_close(s, i + 2)
        } else {
            None
        }
    } else {
        string_close(s, i + 1)
    }
}

/// string_literal = '"' (non-quote-non-backslash | "\" ANY)* '"': the text
/// between the quotes, as written.
pub open spec fn string_at(s: Seq<char>, pos: int) -> Option<(Seq<char>, int)> {
    let p = ws_end(s, pos);
    if 0 <= p < s.len() && s[p] == '"' {
        match string_close(s, p + 1) {
            Some(c) => Some((s.subrange(p + 1, c), c + 1)),
            None => None,
        }
    } else {
        None
    }
}

// ── expressions ──────────────────────────────────────────────────────────────

/// old_expr = "old" "(" qualified_identifier ")": the name and the end.
pub open spec fn old_at(s: Seq<char>, pos: int) -> Option<(Seq<char>, int)> {
    match lit_at(s, pos, "old"@) {
        None => None,
        Some(p1) => match lit_at(s, p1, "("@) {
            None => None,
            Some(p2) => match qualified_at(s, p2) {
                None => None,
                Some((name, p3)) => match lit_at(s, p3, ")"@) {
                    Some(p4) => Some((name, p4)),
                    None => None,
                },
            },
        },
    }
}

/// factor = number | string_literal | old_expr | function_call
///        | qualified_identifier | "(" expr ")"
pub open spec fn factor_at(s: Seq<char>, pos: int) -> Gram<ExprM>
    decreases s.len() - pos, 1int,
{
    match number_at(s, pos) {
        Err(m) => Err(m),
        Ok(Some((v, e))) => Ok(Some((ExprM::Number(v), e))),
        Ok(None) => match string_at(s, pos) {
            Some((t, e)) => Ok(Some((ExprM::StringLit(t), e))),
            None => match old_at(s, pos) {
                Some((n, e)) => Ok(Some((ExprM::OldValue(n), e))),
                None => match call_at(s, pos) {
                    Err(m) => Err(m),
                    Ok(Some(x)) => Ok(Some(x)),
                    Ok(None) => match qualified_at(s, pos) {
                        Some((n, e)) => Ok(Some((ExprM::Identifier(n), e))),
                        None => match lit_at(s, pos, "("@) {
                            None => Ok(None),
                            Some(p1) => if moved(s, pos, p1) {
                                match expr_at(s, p1) {
                                    Err(m) => Err(m),
                                    Ok(None) => Ok(None),
                                    Ok(Some((inner, p2))) => match lit_at(s, p2, ")"@) {
                                        Some(p3) => Ok(Some((inner, p3))),
                                        None => Ok(None),
                                    },
                                }
                            } else {
                                Ok(None)
                            },
                        },
                    },
                },
            },
        },
    }
}

/// function_call = identifier "(" (expr ("," expr)*)? ")"
pub open spec fn call_at(s: Seq<char>, pos: int) -> Gram<ExprM>
    decreases s.len() - pos, 0int,
{
    match identifier_at(s, pos) {
        None => Ok(None),
        Some((name, p1)) => match lit_at(s, p1, "("@) {
            None => Ok(None),
            Some(p2) => match lit_at(s, p2, ")"@) {
                Some(p3) => Ok(Some((ExprM::FunctionCall { name, args: Seq::empty() }, p3))),
                None => if moved(s, pos, p2) {
                    match expr_at(s, p2) {
                        Err(m) => Err(m),
                        Ok(None) => Ok(None),
                        Ok(Some((a, e))) => if moved(s, p2, e) {
                            args_rest(s, name, seq![a], e)
                        } else {
                            Ok(None)
                        },
                    }
                } else {
                    Ok(None)
                },
            },
        },
    }
}

/// The `("," expr)* ")"` of a call to `name` whose arguments so far are
/// `args`, from `p` on.
pub open spec fn args_rest(s: Seq<char>, name: Seq<char>, args: Seq<ExprM>, p: int) -> Gram<ExprM>
    decreases s.len() - p, 0int,
{
    match lit_at(s, p, ","@) {
        Some(p3) => if moved(s, p, p3) {
            match expr_at(s, p3) {
                Err(m) => Err(m),
                Ok(Some((a, e))) => if moved(s, p3, e) {
                    args_rest(s, name, args.push(a), e)
                } else {
                    Ok(None)
                },
                Ok(None) => call_close(s, name, args, p),
            }
        } else {
            Ok(None)
        },
        None => call_close(s, name, args, p),
    }
}

/// The closing `")"` of a call to `name` with arguments `args`.
pub open spec fn call_close(s: Seq<char>, name: Seq<char>, args: Seq<ExprM>, p: int) -> Gram<ExprM> {
    match lit_at(s, p, ")"@) {
        Some(e) => Ok(Some((ExprM::FunctionCall { name, args }, e))),
        None => Ok(None),
    }
}

/// "*" | "/"
pub open spec fn mul_op_at(s: Seq<char>, p: int) -> Option<(BinOpKind, int)> {
    match lit_at(s, p, "*"@) {
        Some(q) => Some((BinOpKind::Mul, q)),
        None => match lit_at(s, p, "/"@) {
            Some(q) => Some((BinOpKind::Div, q)),
            None => None,
        },
    }
}

/// "+" | "-"
pub open spec fn add_op_at(s: Seq<char>, p: int) -> Option<(BinOpKind, int)> {
    match lit_at(s, p, "+"@) {
        Some(q) => Some((BinOpKind::Add, q)),
        None => match lit_at(s, p, "-"@) {
            Some(q) => Some((BinOpKind::Sub, q)),
            None => None,
        },
    }
}

/// term = factor (("*" | "/") factor)*, grouped to the left.
pub open spec fn term_at(s: Seq<char>, pos: int) -> Gram<ExprM>
    decreases s.len() - pos, 2int,
{
    match factor_at(s, pos) {
        Err(m) => Err(m),
        Ok(None) => Ok(None),
        Ok(Some((f, p))) => if moved(s, pos, p) {
            term_rest(s, f, p)
        } else {
            Ok(None)
        },
    }
}

/// The `(("*" | "/") factor)*` of a term whose value so far is `acc`.
pub open spec fn term_rest(s: Seq<char>, acc: ExprM, p: int) -> Gram<ExprM>
    decreases s.len() - p, 2int,
{
    match mul_op_at(s, p) {
        None => Ok(Some((acc, p))),
        Some((op, p1)) => if moved(s, p, p1) {
            match factor_at(s, p1) {
                Err(m) => Err(m),
                Ok(None) => Ok(Some((acc, p))),
                Ok(Some((rhs, p2))) => if moved(s, p1, p2) {
                    term_rest(s, ExprM::BinOp { left: Box::new(acc), op, right: Box::new(rhs) }, p2)
                } else {
                    Ok(None)
                },
            }
        } else {
            Ok(None)
        },
    }
}

/// expr = term (("+" | "-") term)*, grouped to the left.
pub open spec fn expr_at(s: Seq<char>, pos: int) -> Gram<ExprM>
    decreases s.len() - pos, 3int,
{
    match term_at(s, pos) {
        Err(m) => Err(m),
        Ok(None) => Ok(None),
        Ok(Some((t, p))) => if moved(s, pos, p) {
            expr_rest(s, t, p)
        } else {
            Ok(None)
        },
    }
}

/// The `(("+" | "-") term)*` of an expression whose value so far is `acc`.
pub open spec fn expr_rest(s: Seq<char>, acc: ExprM, p: int) -> Gram<ExprM>
    decreases s.len() - p, 3int,
{
    match add_op_at(s, p) {
        None => Ok(Some((acc, p))),
        Some((op, p1)) => if moved(s, p, p1) {
            match term_at(s, p1) {
                Err(m) => Err(m),
                Ok(None) => Ok(Some((acc, p))),
                Ok(Some((rhs, p2))) => if moved(s, p1, p2) {
                    expr_rest(s, ExprM::BinOp { left: Box::new(acc), op, right: Box::new(rhs) }, p2)
                } else {
                    Ok(None)
                },
            }
        } else {
            Ok(None)
        },
    }
}

// ── predicates and types ─────────────────────────────────────────────────────

/// comparison_op = "==" | "!=" | "<=" | ">=" | "<" | ">"
pub open spec fn comparison_op_at(s: Seq<char>, p: int) -> Option<(ComparisonOp, int)> {
    if lit_at(s, p, "=="@) is Some {
        Some((ComparisonOp::Eq, lit_at(s, p, "=="@)->0))
    } else if lit_at(s, p, "!="@) is Some {
        Some((ComparisonOp::Ne, lit_at(s, p, "!="@)->0))
    } else if lit_at(s, p, "<="@) is Some {
        Some((ComparisonOp::Le, lit_at(s, p, "<="@)->0))
    } else if lit_at(s, p, ">="@) is Some {
        Some((ComparisonOp::Ge, lit_at(s, p, ">="@)->0))
    } else if lit_at(s, p, "<"@) is Some {
        Some((ComparisonOp::Lt, lit_at(s, p, "<"@)->0))
    } else if lit_at(s, p, ">"@) is Some {
        Some((ComparisonOp::Gt, lit_at(s, p, ">"@)->0))
    } else {
        None
    }
}

/// comparison = expr comparison_op expr
pub open spec fn comparison_at(s: Seq<char>, pos: int) -> Gram<PredM> {
    match expr_at(s, pos) {
        Err(m) => Err(m),
        Ok(None) => Ok(None),
        Ok(Some((left, p1))) => match comparison_op_at(s, p1) {
            None => Ok(None),
            Some((op, p2)) => match expr_at(s, p2) {
                Err(m) => Err(m),
                Ok(None) => Ok(None),
                Ok(Some((right, p3))) => Ok(Some((PredM::Comparison { left, op, right }, p3))),
            },
        },
    }
}

/// `word` identifier ":" type_expr "=>" predicate_atom, for the quantifier
/// word `word`: the variable, its type and the body.
pub open spec fn quantifier_at(s: Seq<char>, pos: int, word: Seq<char>) -> Gram<(Seq<char>, TyM, PredM)>
    decreases s.len() - pos, 0int,
{
    match lit_at(s, pos, word) {
        None => Ok(None),
        Some(p1) => match identifier_at(s, p1) {
            None => Ok(None),
            Some((var, p2)) => match lit_at(s, p2, ":"@) {
                None => Ok(None),
                Some(p3) => if moved(s, pos, p3) {
                    match type_at(s, p3) {
                        Err(m) => Err(m),
                        Ok(None) => Ok(None),
                        Ok(Some((ty, p4))) => match lit_at(s, p4, "=>"@) {
                            None => Ok(None),
                            Some(p5) => if moved(s, pos, p5) {
                                match atom_at(s, p5) {
                                    Err(m) => Err(m),
                                    Ok(None) => Ok(None),
                                    Ok(Some((body, p6))) => Ok(Some(((var, ty, body), p6))),
                                }
                            } else {
                                Ok(None)
                            },
                        },
                    }
                } else {
                    Ok(None)
                },
            },
        },
    }
}

/// predicate_atom = "!" predicate_atom
///                | "forall" identifier ":" type_expr "=>" predicate_atom
///                | "exists" identifier ":" type_expr "=>" predicate_atom
///                | "(" predicate_or ")"
///                | comparison
pub open spec fn atom_at(s: Seq<char>, pos: int) -> Gram<PredM>
    decreases s.len() - pos, 5int,
{
    let negated: Gram<PredM> = match lit_at(s, pos, "!"@) {
        Some(p1) => if moved(s, pos, p1) {
            match atom_at(s, p1) {
                Err(m) => Err(m),
                Ok(Some((inner, p2))) => Ok(Some((PredM::Not(Box::new(inner)), p2))),
                Ok(None) => Ok(None),
            }
        } else {
            Ok(None)
        },
        None => Ok(None),
    };
    if negated != Gram::<PredM>::Ok(None) {
        negated
    } else {
        match quantifier_at(s, pos, "forall"@) {
            Err(m) => Err(m),
            Ok(Some(((var, ty, body), e))) => Ok(Some((PredM::Forall { var, ty: Box::new(ty), body: Box::new(body) }, e))),
            Ok(None) => match quantifier_at(s, pos, "exists"@) {
                Err(m) => Err(m),
                Ok(Some(((var, ty, body), e))) => Ok(Some((PredM::Exists { var, ty: Box::new(ty), body: Box::new(body) }, e))),
                Ok(None) => {
                    let grouped: Gram<PredM> = match lit_at(s, pos, "("@) {
                        Some(p1) => if moved(s, pos, p1) {
                            match or_at(s, p1) {
                                Err(m) => Err(m),
                                Ok(Some((inner, p2))) => match lit_at(s, p2, ")"@) {
                                    Some(p3) => Ok(Some((inner, p3))),
                                    None => Ok(None),
                                },
                                Ok(None) => Ok(None),
                            }
                        } else {
                            Ok(None)
                        },
                        None => Ok(None),
                    };
                    if grouped != Gram::<PredM>::Ok(None) {
                        grouped
                    } else {
                        comparison_at(s, pos)
                    }
                },
            },
        }
    }
}

/// predicate_and = predicate_atom ("AND" predicate_atom)*, grouped to the left.
pub open spec fn and_at(s: Seq<char>, pos: int) -> Gram<PredM>
    decreases s.len() - pos, 6int,
{
    match atom_at(s, pos) {
        Err(m) => Err(m),
        Ok(None) => Ok(None),
        Ok(Some((a, p))) => if moved(s, pos, p) {
            and_rest(s, a, p)
        } else {
            Ok(None)
        },
    }
}

/// The `("AND" predicate_atom)*` of a conjunction whose value so far is `acc`.
pub open spec fn and_rest(s: Seq<char>, acc: PredM, p: int) -> Gram<PredM>
    decreases s.len() - p, 6int,
{
    match lit_at(s, p, "AND"@) {
        None => Ok(Some((acc, p))),
        Some(p1) => if moved(s, p, p1) {
            match atom_at(s, p1) {
                Err(m) => Err(m),
                Ok(None) => Ok(Some((acc, p))),
                Ok(Some((rhs, p2))) => if moved(s, p1, p2) {
                    and_rest(s, PredM::And(Box::new(acc), Box::new(rhs)), p2)
                } else {
                    Ok(None)
                },
            }
        } else {
            Ok(None)
        },
    }
}

/// predicate_or = predicate_and ("OR" predicate_and)*, grouped to the left.
pub open spec fn or_at(s: Seq<char>, pos: int) -> Gram<PredM>
    decreases s.len() - pos, 7int,
{
    match and_at(s, pos) {
        Err(m) => Err(m),
        Ok(None) => Ok(None),
        Ok(Some((a, p))) => if moved(s, pos, p) {
            or_rest(s, a, p)
        } else {
            Ok(None)
        },
    }
}

/// The `("OR" predicate_and)*` of a disjunction whose value so far is `acc`.
pub open spec fn or_rest(s: Seq<char>, acc: PredM, p: int) -> Gram<PredM>
    decreases s.len() - p, 7int,
{
    match lit_at(s, p, "OR"@) {
        None => Ok(Some((acc, p))),
        Some(p1) => if moved(s, p, p1) {
            match and_at(s, p1) {
                Err(m) => Err(m),
                Ok(None) => Ok(Some((acc, p))),
                Ok(Some((rhs, p2))) => if moved(s, p1, p2) {
                    or_rest(s, PredM::Or(Box::new(acc), Box::new(rhs)), p2)
                } else {
                    Ok(None)
                },
            }
        } else {
            Ok(None)
        },
    }
}

/// time_unit = "ms" | "min" | "s" | "h" | "d"
pub open spec fn time_unit_at(s: Seq<char>, p: int) -> Option<(TimeUnit, int)> {
    if lit_at(s, p, "ms"@) is Some {
        Some((TimeUnit::Millisecond, lit_at(s, p, "ms"@)->0))
    } else if lit_at(s, p, "min"@) is Some {
        Some((TimeUnit::Minute, lit_at(s, p, "min"@)->0))
    } else if lit_at(s, p, "s"@) is Some {
        Some((TimeUnit::Second, lit_at(s, p, "s"@)->0))
    } else if lit_at(s, p, "h"@) is Some {
        Some((TimeUnit::Hour, lit_at(s, p, "h"@)->0))
    } else if lit_at(s, p, "d"@) is Some {
        Some((TimeUnit::Day, lit_at(s, p, "d"@)->0))
    } else {
        None
    }
}

/// duration = number time_unit
pub open spec fn duration_at(s: Seq<char>, pos: int) -> Gram<DurM> {
    match number_at(s, pos) {
        Err(m) => Err(m),
        Ok(None) => Ok(None),
        Ok(Some((value, p1))) => match time_unit_at(s, p1) {
            Some((unit, p2)) => Ok(Some((DurM { value, unit }, p2))),
            None => Ok(None),
        },
    }
}

/// `word` "<" type_expr "," duration ">", for the state word `word`: the
/// inner type and the duration.
pub open spec fn timed_at(s: Seq<char>, pos: int, word: Seq<char>) -> Gram<(TyM, DurM)>
    decreases s.len() - pos, 0int,
{
    match lit_at(s, pos, word) {
        None => Ok(None),
        Some(p1) => match lit_at(s, p1, "<"@) {
            None => Ok(None),
            Some(p2) => if moved(s, pos, p2) {
                match type_at(s, p2) {
                    Err(m) => Err(m),
                    Ok(None) => Ok(None),
                    Ok(Some((inner, p3))) => match lit_at(s, p3, ","@) {
                        None => Ok(None),
                        Some(p4) => match duration_at(s, p4) {
                            Err(m) => Err(m),
                            Ok(None) => Ok(None),
                            Ok(Some((d, p5))) => match lit_at(s, p5, ">"@) {
                                Some(p6) => Ok(Some(((inner, d), p6))),
                                None => Ok(None),
                            },
                        },
                    },
                }
            } else {
                Ok(None)
            },
        },
    }
}

/// temporal_type = "Fresh" "<" type_expr "," duration ">"
///               | "Expiring" "<" type_expr "," duration ">"
///               | "Stale" "<" type_expr ">"
pub open spec fn temporal_at(s: Seq<char>, pos: int) -> Gram<TemporalM>
    decreases s.len() - pos, 1int,
{
    match timed_at(s, pos, "Fresh"@) {
        Err(m) => Err(m),
        Ok(Some(((inner, duration), e))) => Ok(Some((TemporalM::Fresh { inner: Box::new(inner), duration }, e))),
        Ok(None) => match timed_at(s, pos, "Expiring"@) {
            Err(m) => Err(m),
            Ok(Some(((inner, duration), e))) => Ok(Some((TemporalM::Expiring { inner: Box::new(inner), duration }, e))),
            Ok(None) => match lit_at(s, pos, "Stale"@) {
                None => Ok(None),
                Some(p1) => match lit_at(s, p1, "<"@) {
                    None => Ok(None),
                    Some(p2) => if moved(s, pos, p2) {
                        match type_at(s, p2) {
                            Err(m) => Err(m),
                            Ok(None) => Ok(None),
                            Ok(Some((inner, p3))) => match lit_at(s, p3, ">"@) {
                                Some(p4) => Ok(Some((TemporalM::Stale(Box::new(inner)), p4))),
                                None => Ok(None),
                            },
                        }
                    } else {
                        Ok(None)
                    },
                },
            },
        },
    }
}

/// dependent_type = identifier "<" type_expr "," identifier ":" base_type ">"
pub open spec fn dependent_at(s: Seq<char>, pos: int) -> Gram<TyM>
    decreases s.len() - pos, 1int,
{
    match identifier_at(s, pos) {
        None => Ok(None),
        Some((base, p1)) => match lit_at(s, p1, "<"@) {
            None => Ok(None),
            Some(p2) => if moved(s, pos, p2) {
                match type_at(s, p2) {
                    Err(m) => Err(m),
                    Ok(None) => Ok(None),
                    Ok(Some((type_param, p3))) => match lit_at(s, p3, ","@) {
                        None => Ok(None),
                        Some(p4) => match identifier_at(s, p4) {
                            None => Ok(None),
                            Some((value_param_name, p5)) => match lit_at(s, p5, ":"@) {
                                None => Ok(None),
                                Some(p6) => match identifier_at(s, p6) {
                                    None => Ok(None),
                                    Some((value_param_type, p7)) => match lit_at(s, p7, ">"@) {
                                        Some(p8) => Ok(
                                            Some(
                                                (
                                                    TyM::Dependent {
                                                        base,
                                                        type_param: Box::new(type_param),
                                                        value_param_name,
                                                        value_param_type,
                                                    },
                                                    p8,
                                                ),
                                            ),
                                        ),
                                        None => Ok(None),
                                    },
                                },
                            },
                        },
                    },
                }
            } else {
                Ok(None)
            },
        },
    }
}

/// contextual_type = identifier "<" identifier ">"
pub open spec fn contextual_at(s: Seq<char>, pos: int) -> Option<(TyM, int)> {
    match identifier_at(s, pos) {
        None => None,
        Some((base, p1)) => match lit_at(s, p1, "<"@) {
            None => None,
            Some(p2) => match identifier_at(s, p2) {
                None => None,
                Some((context, p3)) => match lit_at(s, p3, ">"@) {
                    Some(p4) => Some((TyM::Contextual { base, context }, p4)),
                    None => None,
                },
            },
        },
    }
}

/// type_expr = temporal_type | dependent_type | contextual_type | refined_type | base_type,
/// where refined_type = identifier "where" predicate_or and base_type = identifier.
pub open spec fn type_at(s: Seq<char>, pos: int) -> Gram<TyM>
    decreases s.len() - pos, 8int,
{
    match temporal_at(s, pos) {
        Err(m) => Err(m),
        Ok(Some((t, e))) => Ok(Some((TyM::Temporal(t), e))),
        Ok(None) => match dependent_at(s, pos) {
            Err(m) => Err(m),
            Ok(Some(x)) => Ok(Some(x)),
            Ok(None) => match contextual_at(s, pos) {
                Some(x) => Ok(Some(x)),
                None => match identifier_at(s, pos) {
                    None => Ok(None),
                    Some((base, p1)) => {
                        let refined: Gram<TyM> = match lit_at(s, p1, "where"@) {
                            Some(p2) => if moved(s, pos, p2) {
                                match or_at(s, p2) {
                                    Err(m) => Err(m),
                                    Ok(Some((pred, p3))) => Ok(Some((TyM::Refined { base, predicate: Box::new(pred) }, p3))),
                                    Ok(None) => Ok(None),
                                }
                            } else {
                                Ok(None)
                            },
                            None => Ok(None),
                        };
                        if refined != Gram::<TyM>::Ok(None) {
                            refined
                        } else {
                            Ok(Some((TyM::Base(base), p1)))
                        }
                    },
                },
            },
        },
    }
}

// ── top level ────────────────────────────────────────────────────────────────

/// An optional section: what it matched, or nothing (the empty list, at `p`).
pub open spec fn optional<T>(g: Gram<Seq<T>>, p: int) -> Result<(Seq<T>, int), Seq<char>> {
    match g {
        Err(m) => Err(m),
        Ok(Some((x, e))) => Ok((x, e)),
        Ok(None) => Ok((Seq::empty(), p)),
    }
}

/// boolean_literal = ("true" | "false") boundary
pub open spec fn boolean_at(s: Seq<char>, pos: int) -> Option<(bool, int)> {
    let t: Option<(bool, int)> = if lit_at(s, pos, "true"@) is Some {
        Some((true, lit_at(s, pos, "true"@)->0))
    } else if lit_at(s, pos, "false"@) is Some {
        Some((false, lit_at(s, pos, "false"@)->0))
    } else {
        None
    };
    match t {
        None => None,
        Some((b, e)) => if 0 <= e < s.len() && is_word_char(s[e]) {
            None
        } else {
            Some((b, e))
        },
    }
}

/// context_field = identifier ":" (string_literal | number | boolean_literal)
pub open spec fn context_field_at(s: Seq<char>, pos: int) -> Gram<ContextFieldM> {
    match identifier_at(s, pos) {
        None => Ok(None),
        Some((name, p1)) => match lit_at(s, p1, ":"@) {
            None => Ok(None),
            Some(p2) => match string_at(s, p2) {
                Some((t, e)) => Ok(Some((ContextFieldM { name, value: FieldValueM::StringVal(t) }, e))),
                None => match number_at(s, p2) {
                    Err(m) => Err(m),
                    Ok(Some((NumM::Integer(v), e))) => Ok(Some((ContextFieldM { name, value: FieldValueM::Integer(v) }, e))),
                    Ok(Some((NumM::Decimal(t), e))) => Ok(Some((ContextFieldM { name, value: FieldValueM::Decimal(t) }, e))),
                    Ok(None) => match boolean_at(s, p2) {
                        Some((b, e)) => Ok(Some((ContextFieldM { name, value: FieldValueM::Boolean(b) }, e))),
                        None => Ok(None),
                    },
                },
            },
        },
    }
}

/// The `context_field* "}"` of a context declaration, from `p` on.
pub open spec fn context_fields_rest(
    s: Seq<char>,
    ty_name: Seq<char>,
    context_name: Seq<char>,
    fields: Seq<ContextFieldM>,
    p: int,
) -> Gram<ContextM>
    decreases s.len() - p,
{
    match context_field_at(s, p) {
        Err(m) => Err(m),
        Ok(Some((f, e))) => if moved(s, p, e) {
            context_fields_rest(s, ty_name, context_name, fields.push(f), e)
        } else {
            Ok(None)
        },
        Ok(None) => match lit_at(s, p, "}"@) {
            Some(e) => Ok(Some((ContextM { ty_name, context_name, fields }, e))),
            None => Ok(None),
        },
    }
}

/// context_decl = "type" identifier "in" "context" identifier "{" context_field* "}"
#[verifier::opaque]
pub open spec fn context_decl_at(s: Seq<char>, pos: int) -> Gram<ContextM> {
    match lit_at(s, pos, "type"@) {
        None => Ok(None),
        Some(p1) => match identifier_at(s, p1) {
            None => Ok(None),
            Some((ty_name, p2)) => match lit_at(s, p2, "in"@) {
                None => Ok(None),
                Some(p3) => match lit_at(s, p3, "context"@) {
                    None => Ok(None),
                    Some(p4) => match identifier_at(s, p4) {
                        None => Ok(None),
                        Some((context_name, p5)) => match lit_at(s, p5, "{"@) {
                            None => Ok(None),
                            Some(p6) => context_fields_rest(s, ty_name, context_name, Seq::empty(), p6),
                        },
                    },
                },
            },
        },
    }
}

/// let_stmt = "let" identifier (":" type_expr)? "=" expr
#[verifier::opaque]
pub open spec fn let_at(s: Seq<char>, pos: int) -> Gram<LetM> {
    match lit_at(s, pos, "let"@) {
        None => Ok(None),
        Some(p1) => match identifier_at(s, p1) {
            None => Ok(None),
            Some((name, p2)) => {
                let typed: Gram<TyM> = match lit_at(s, p2, ":"@) {
                    Some(p3) => type_at(s, p3),
                    None => Ok(None),
                };
                match typed {
                    Err(m) => Err(m),
                    Ok(t) => {
                        let ty: Option<TyM> = match t {
                            Some((ty, _)) => Some(ty),
                            None => None,
                        };
                        let p: int = match t {
                            Some((_, p4)) => p4,
                            None => p2,
                        };
                        match lit_at(s, p, "="@) {
                            None => Ok(None),
                            Some(p5) => match expr_at(s, p5) {
                                Err(m) => Err(m),
                                Ok(None) => Ok(None),
                                Ok(Some((expr, e))) => Ok(Some((LetM { name, ty, expr }, e))),
                            },
                        }
                    },
                }
            },
        },
    }
}

/// The parameters `(identifier ":" type_expr)*` from `p` on, after `acc`.
pub open spec fn params_rest(s: Seq<char>, acc: Seq<ParamM>, p: int) -> Result<(Seq<ParamM>, int), Seq<char>>
    decreases s.len() - p,
{
    match identifier_at(s, p) {
        None => Ok((acc, p)),
        Some((name, p1)) => match lit_at(s, p1, ":"@) {
            None => Ok((acc, p)),
            Some(p2) => match type_at(s, p2) {
                Err(m) => Err(m),
                Ok(None) => Ok((acc, p)),
                Ok(Some((ty, p3))) => if moved(s, p, p3) {
                    params_rest(s, acc.push(ParamM { name, ty }), p3)
                } else {
                    Ok((acc, p))
                },
            },
        },
    }
}

/// param+
pub open spec fn params_at(s: Seq<char>, pos: int) -> Gram<Seq<ParamM>> {
    match params_rest(s, Seq::empty(), pos) {
        Err(m) => Err(m),
        Ok((ps, p)) => if ps.len() == 0 {
            Ok(None)
        } else {
            Ok(Some((ps, p)))
        },
    }
}

/// The predicates `predicate_or*` from `p` on, after `acc`.
pub open spec fn lines_rest(s: Seq<char>, acc: Seq<PredM>, p: int) -> Result<(Seq<PredM>, int), Seq<char>>
    decreases s.len() - p,
{
    match or_at(s, p) {
        Err(m) => Err(m),
        Ok(None) => Ok((acc, p)),
        Ok(Some((pred, e))) => if moved(s, p, e) {
            lines_rest(s, acc.push(pred), e)
        } else {
            Ok((acc, p))
        },
    }
}

/// predicate_line+
pub open spec fn lines_at(s: Seq<char>, pos: int) -> Gram<Seq<PredM>> {
    match lines_rest(s, Seq::empty(), pos) {
        Err(m) => Err(m),
        Ok((ps, p)) => if ps.len() == 0 {
            Ok(None)
        } else {
            Ok(Some((ps, p)))
        },
    }
}

/// `word ":" param+`
pub open spec fn param_section_at(s: Seq<char>, pos: int, word: Seq<char>) -> Gram<Seq<ParamM>> {
    match lit_at(s, pos, word) {
        None => Ok(None),
        Some(p1) => match lit_at(s, p1, ":"@) {
            None => Ok(None),
            Some(p2) => params_at(s, p2),
        },
    }
}

/// `word ":" predicate_line+`
pub open spec fn predicate_section_at(s: Seq<char>, pos: int, word: Seq<char>) -> Gram<Seq<PredM>> {
    match lit_at(s, pos, word) {
        None => Ok(None),
        Some(p1) => match lit_at(s, p1, ":"@) {
            None => Ok(None),
            Some(p2) => lines_at(s, p2),
        },
    }
}

/// The identifiers `identifier*` from `p` on, after `acc`.
pub open spec fn ids_rest(s: Seq<char>, acc: Seq<Seq<char>>, p: int) -> (Seq<Seq<char>>, int)
    decreases s.len() - p,
{
    match identifier_at(s, p) {
        Some((w, e)) => if moved(s, p, e) {
            ids_rest(s, acc.push(w), e)
        } else {
            (acc, p)
        },
        None => (acc, p),
    }
}

/// never_section = "never" ":" identifier+
pub open spec fn never_at(s: Seq<char>, pos: int) -> Option<(Seq<Seq<char>>, int)> {
    match lit_at(s, pos, "never"@) {
        None => None,
        Some(p1) => match lit_at(s, p1, ":"@) {
            None => None,
            Some(p2) => if ids_rest(s, Seq::empty(), p2).0.len() == 0 {
                None
            } else {
                Some(ids_rest(s, Seq::empty(), p2))
            },
        },
    }
}

/// The invariant sections `invariant_section*` from `p` on, their predicates
/// appended to `acc`.
pub open spec fn invariants_rest(s: Seq<char>, acc: Seq<PredM>, p: int) -> Result<(Seq<PredM>, int), Seq<char>>
    decreases s.len() - p,
{
    match predicate_section_at(s, p, "invariant"@) {
        Err(m) => Err(m),
        Ok(None) => Ok((acc, p)),
        Ok(Some((ps, e))) => if moved(s, p, e) {
            invariants_rest(s, acc + ps, e)
        } else {
            Ok((acc, p))
        },
    }
}

/// The end of the intent `name`, after its invariant sections: the optional
/// never section and the closing `}`.
pub open spec fn intent_tail(
    s: Seq<char>,
    name: Seq<char>,
    inputs: Seq<ParamM>,
    outputs: Seq<ParamM>,
    preconditions: Seq<PredM>,
    postconditions: Seq<PredM>,
    invariants: Seq<PredM>,
    p8: int,
) -> Gram<IntentM> {
    let never: Seq<Seq<char>> = match never_at(s, p8) {
        Some((ids, _)) => ids,
        None => Seq::empty(),
    };
    let p9: int = match never_at(s, p8) {
        Some((_, e)) => e,
        None => p8,
    };
    match lit_at(s, p9, "}"@) {
        Some(e) => Ok(
            Some((IntentM { name, inputs, outputs, preconditions, postconditions, invariants, never }, e)),
        ),
        None => Ok(None),
    }
}

/// The body of the intent `name`, from after its `{`.
pub open spec fn intent_body_at(s: Seq<char>, name: Seq<char>, p3: int) -> Gram<IntentM> {
    match optional(param_section_at(s, p3, "input"@), p3) {
        Err(m) => Err(m),
        Ok((inputs, p4)) => match optional(param_section_at(s, p4, "output"@), p4) {
            Err(m) => Err(m),
            Ok((outputs, p5)) => match optional(predicate_section_at(s, p5, "precondition"@), p5) {
                Err(m) => Err(m),
                Ok((preconditions, p6)) => match optional(predicate_section_at(s, p6, "postcondition"@), p6) {
                    Err(m) => Err(m),
                    Ok((postconditions, p7)) => match invariants_rest(s, Seq::empty(), p7) {
                        Err(m) => Err(m),
                        Ok((invariants, p8)) => intent_tail(
                            s,
                            name,
                            inputs,
                            outputs,
                            preconditions,
                            postconditions,
                            invariants,
                            p8,
                        ),
                    },
                },
            },
        },
    }
}

/// intent_block = "intent" identifier "{" input_section? output_section?
///                precondition_section? postcondition_section? invariant_section*
///                never_section? "}"
pub open spec fn intent_at(s: Seq<char>, pos: int) -> Gram<IntentM> {
    match lit_at(s, pos, "intent"@) {
        None => Ok(None),
        Some(p1) => match identifier_at(s, p1) {
            None => Ok(None),
            Some((name, p2)) => match lit_at(s, p2, "{"@) {
                None => Ok(None),
                Some(p3) => intent_body_at(s, name, p3),
            },
        },
    }
}

/// source_type = "ref" | "slack" | "email" | "github" | "jira" | "doc"
pub open spec fn source_type_at(s: Seq<char>, pos: int) -> Option<(SourceType, int)> {
    if lit_at(s, pos, "ref"@) is Some {
        Some((SourceType::Ref, lit_at(s, pos, "ref"@)->0))
    } else if lit_at(s, pos, "slack"@) is Some {
        Some((SourceType::Slack, lit_at(s, pos, "slack"@)->0))
    } else if lit_at(s, pos, "email"@) is Some {
        Some((SourceType::Email, lit_at(s, pos, "email"@)->0))
    } else if lit_at(s, pos, "github"@) is Some {
        Some((SourceType::Github, lit_at(s, pos, "github"@)->0))
    } else if lit_at(s, pos, "jira"@) is Some {
        Some((SourceType::Jira, lit_at(s, pos, "jira"@)->0))
    } else if lit_at(s, pos, "doc"@) is Some {
        Some((SourceType::Doc, lit_at(s, pos, "doc"@)->0))
    } else {
        None
    }
}

/// The first position at or after `q` that holds no character of a source path.
pub open spec fn path_stop(s: Seq<char>, q: int) -> int
    decreases s.len() - q,
{
    if 0 <= q < s.len() && is_path_char(s[q]) {
        path_stop(s, q + 1)
    } else {
        q
    }
}

/// source_ref = source_type "#" source_path, written without spaces, where
/// source_path = (ALNUM | "-" | "_" | "/" | "." | "@")+
pub open spec fn source_ref_at(s: Seq<char>, pos: int) -> Option<(SourceRefM, int)> {
    match source_type_at(s, pos) {
        None => None,
        Some((source_type, p1)) => if 0 <= p1 < s.len() && s[p1] == '#' && path_stop(s, p1 + 1) > p1 + 1 {
            Some((SourceRefM { source_type, path: s.subrange(p1 + 1, path_stop(s, p1 + 1)) }, path_stop(s, p1 + 1)))
        } else {
            None
        },
    }
}

/// date_literal = DIGIT{4} "-" DIGIT{2} "-" DIGIT{2}
pub open spec fn date_at(s: Seq<char>, pos: int) -> Option<(Seq<char>, int)> {
    let p = ws_end(s, pos);
    if 0 <= p && p + 10 <= s.len() && is_digit(s[p]) && is_digit(s[p + 1]) && is_digit(s[p + 2])
        && is_digit(s[p + 3]) && s[p + 4] == '-' && is_digit(s[p + 5]) && is_digit(s[p + 6])
        && s[p + 7] == '-' && is_digit(s[p + 8]) && is_digit(s[p + 9]) {
        Some((s.subrange(p, p + 10), p + 10))
    } else {
        None
    }
}

/// confidence_value = ("0" | "1") ("." DIGIT*)?
pub open spec fn confidence_at(s: Seq<char>, pos: int) -> Option<(Seq<char>, int)> {
    let p = ws_end(s, pos);
    if 0 <= p < s.len() && (s[p] == '0' || s[p] == '1') {
        let e = if p + 1 < s.len() && s[p + 1] == '.' {
            digits_stop(s, p + 2)
        } else {
            p + 1
        };
        Some((s.subrange(p, e), e))
    } else {
        None
    }
}

/// validation_method = "interview" | "document_review" | "formal_audit" | "peer_review"
pub open spec fn method_at(s: Seq<char>, pos: int) -> Option<(ValidationMethod, int)> {
    if lit_at(s, pos, "interview"@) is Some {
        Some((ValidationMethod::Interview, lit_at(s, pos, "interview"@)->0))
    } else if lit_at(s, pos, "document_review"@) is Some {
        Some((ValidationMethod::DocumentReview, lit_at(s, pos, "document_review"@)->0))
    } else if lit_at(s, pos, "formal_audit"@) is Some {
        Some((ValidationMethod::FormalAudit, lit_at(s, pos, "formal_audit"@)->0))
    } else if lit_at(s, pos, "peer_review"@) is Some {
        Some((ValidationMethod::PeerReview, lit_at(s, pos, "peer_review"@)->0))
    } else {
        None
    }
}

/// A validation method is read as the method its word names: where the text
/// (after white space) reads `interview`, `document_review`, `formal_audit` or
/// `peer_review`, the method is `Interview`, `DocumentReview`, `FormalAudit` or
/// `PeerReview`, and reading ends after that word; where it reads none of
/// them, no method is read.
pub proof fn lemma_method_named_by_its_word(s: Seq<char>, pos: int)
    ensures
        lit_at(s, pos, "interview"@) matches Some(e) ==> method_at(s, pos) == Some((ValidationMethod::Interview, e)),
        lit_at(s, pos, "document_review"@) matches Some(e) ==> method_at(s, pos) == Some((ValidationMethod::DocumentReview, e)),
        lit_at(s, pos, "formal_audit"@) matches Some(e) ==> method_at(s, pos) == Some((ValidationMethod::FormalAudit, e)),
        lit_at(s, pos, "peer_review"@) matches Some(e) ==> method_at(s, pos) == Some((ValidationMethod::PeerReview, e)),
        (lit_at(s, pos, "interview"@) is None && lit_at(s, pos, "document_review"@) is None
            && lit_at(s, pos, "formal_audit"@) is None && lit_at(s, pos, "peer_review"@) is None)
            ==> method_at(s, pos) is None,
{
    reveal_strlit("interview");
    reveal_strlit("document_review");
    reveal_strlit("formal_audit");
    reveal_strlit("peer_review");
    let p = ws_end(s, pos);
    // the four words start with different letters, so at most one of them is read
    let firsts = seq!['i', 'd', 'f', 'p'];
    let words = seq!["interview"@, "document_review"@, "formal_audit"@, "peer_review"@];
    assert forall|k: int| 0 <= k < 4 && #[trigger] lit_at(s, pos, words[k]) is Some implies s[p] == firsts[k] by {
        assert(s.subrange(p, p + words[k].len())[0] == s[p]);
    }
    assert(words[0] == "interview"@);
    assert(words[1] == "document_review"@);
    assert(words[2] == "formal_audit"@);
    assert(words[3] == "peer_review"@);
    assert(lit_at(s, pos, words[0]) == lit_at(s, pos, "interview"@));
    assert(lit_at(s, pos, words[1]) == lit_at(s, pos, "document_review"@));
    assert(lit_at(s, pos, words[2]) == lit_at(s, pos, "formal_audit"@));
    assert(lit_at(s, pos, words[3]) == lit_at(s, pos, "peer_review"@));
}

/// `word ":"`, then `value` at the position after the colon.
pub open spec fn labelled<T>(s: Seq<char>, pos: int, word: Seq<char>, value: spec_fn(int) -> Option<(T, int)>) -> Option<(T, int)> {
    match lit_at(s, pos, word) {
        None => None,
        Some(p1) => match lit_at(s, p1, ":"@) {
            None => None,
            Some(p2) => value(p2),
        },
    }
}

/// validated_by_field = "domain_expert" ":" string_literal | "date" ":" date_literal
///                    | "confidence" ":" confidence_value | "method" ":" validation_method
pub open spec fn field_at(s: Seq<char>, pos: int) -> Option<(FieldM, int)> {
    let expert = labelled(
        s,
        pos,
        "domain_expert"@,
        |p: int|
            match string_at(s, p) {
                Some((t, e)) => Some((FieldM::DomainExpert(t), e)),
                None => None,
            },
    );
    let date = labelled(
        s,
        pos,
        "date"@,
        |p: int|
            match date_at(s, p) {
                Some((d, e)) => Some((FieldM::Date(d), e)),
                None => None,
            },
    );
    let confidence = labelled(
        s,
        pos,
        "confidence"@,
        |p: int|
            match confidence_at(s, p) {
                Some((c, e)) => Some((FieldM::Confidence(c), e)),
                None => None,
            },
    );
    let method = labelled(
        s,
        pos,
        "method"@,
        |p: int|
            match method_at(s, p) {
                Some((m, e)) => Some((FieldM::Method(m), e)),
                None => None,
            },
    );
    if expert is Some {
        expert
    } else if date is Some {
        date
    } else if confidence is Some {
        confidence
    } else {
        method
    }
}

/// The source references `source_ref*` from `p` on, after `acc`.
pub open spec fn refs_rest(s: Seq<char>, acc: Seq<SourceRefM>, p: int) -> (Seq<SourceRefM>, int)
    decreases s.len() - p,
{
    match source_ref_at(s, p) {
        Some((r, e)) => if moved(s, p, e) {
            refs_rest(s, acc.push(r), e)
        } else {
            (acc, p)
        },
        None => (acc, p),
    }
}

/// The string literals `string_literal*` from `p` on, after `acc`.
pub open spec fn strings_rest(s: Seq<char>, acc: Seq<Seq<char>>, p: int) -> (Seq<Seq<char>>, int)
    decreases s.len() - p,
{
    match string_at(s, p) {
        Some((t, e)) => if moved(s, p, e) {
            strings_rest(s, acc.push(t), e)
        } else {
            (acc, p)
        },
        None => (acc, p),
    }
}

/// The fields `validated_by_field*` from `p` on, after `acc`.
pub open spec fn fields_rest(s: Seq<char>, acc: Seq<FieldM>, p: int) -> (Seq<FieldM>, int)
    decreases s.len() - p,
{
    match field_at(s, p) {
        Some((f, e)) => if moved(s, p, e) {
            fields_rest(s, acc.push(f), e)
        } else {
            (acc, p)
        },
        None => (acc, p),
    }
}

/// assumption_section = string_literal
///                    | "context_source" ":" source_ref+
///                    | "out_of_scope" ":" string_literal+
///                    | "validated_by" ":" validated_by_field*
pub open spec fn section_at(s: Seq<char>, pos: int) -> Option<(SectionM, int)> {
    let sources = labelled(
        s,
        pos,
        "context_source"@,
        |p: int|
            if refs_rest(s, Seq::empty(), p).0.len() > 0 {
                Some((SectionM::ContextSource(refs_rest(s, Seq::empty(), p).0), refs_rest(s, Seq::empty(), p).1))
            } else {
                None
            },
    );
    let out_of_scope = labelled(
        s,
        pos,
        "out_of_scope"@,
        |p: int|
            if strings_rest(s, Seq::empty(), p).0.len() > 0 {
                Some((SectionM::OutOfScope(strings_rest(s, Seq::empty(), p).0), strings_rest(s, Seq::empty(), p).1))
            } else {
                None
            },
    );
    let validated = labelled(
        s,
        pos,
        "validated_by"@,
        |p: int| Some((SectionM::ValidatedBy(fields_rest(s, Seq::empty(), p).0), fields_rest(s, Seq::empty(), p).1)),
    );
    match string_at(s, pos) {
        Some((t, e)) => Some((SectionM::StringAssumption(t), e)),
        None => if sources is Some {
            sources
        } else if out_of_scope is Some {
            out_of_scope
        } else {
            validated
        },
    }
}

/// The sections `assumption_section*` from `p` on, after `acc`.
pub open spec fn sections_rest(s: Seq<char>, acc: Seq<SectionM>, p: int) -> (Seq<SectionM>, int)
    decreases s.len() - p,
{
    match section_at(s, p) {
        Some((x, e)) => if moved(s, p, e) {
            sections_rest(s, acc.push(x), e)
        } else {
            (acc, p)
        },
        None => (acc, p),
    }
}

/// assumption_block = "assumption" identifier "{" assumption_section* "}"
pub open spec fn assumption_at(s: Seq<char>, pos: int) -> Option<(AssumptionM, int)> {
    match lit_at(s, pos, "assumption"@) {
        None => None,
        Some(p1) => match identifier_at(s, p1) {
            None => None,
            Some((name, p2)) => match lit_at(s, p2, "{"@) {
                None => None,
                Some(p3) => match lit_at(s, sections_rest(s, Seq::empty(), p3).1, "}"@) {
                    Some(e) => Some((AssumptionM { name, sections: sections_rest(s, Seq::empty(), p3).0 }, e)),
                    None => None,
                },
            },
        },
    }
}

/// strategy_name = "smt_solver" "(" "z3" ")" | "bounded_model_checking"
///               | "induction" | "ai_assisted"
pub open spec fn strategy_name_at(s: Seq<char>, pos: int) -> Option<(StrategyName, int)> {
    let smt: Option<int> = match lit_at(s, pos, "smt_solver"@) {
        None => None,
        Some(p1) => match lit_at(s, p1, "("@) {
            None => None,
            Some(p2) => match lit_at(s, p2, "z3"@) {
                None => None,
                Some(p3) => lit_at(s, p3, ")"@),
            },
        },
    };
    if smt is Some {
        Some((StrategyName::SmtSolverZ3, smt->0))
    } else if lit_at(s, pos, "bounded_model_checking"@) is Some {
        Some((StrategyName::BoundedModelChecking, lit_at(s, pos, "bounded_model_checking"@)->0))
    } else if lit_at(s, pos, "induction"@) is Some {
        Some((StrategyName::Induction, lit_at(s, pos, "induction"@)->0))
    } else if lit_at(s, pos, "ai_assisted"@) is Some {
        Some((StrategyName::AiAssisted, lit_at(s, pos, "ai_assisted"@)->0))
    } else {
        None
    }
}

/// The `"with" "fallback" "(" strategy_name ")"` that may follow a strategy.
pub open spec fn fallback_at(s: Seq<char>, pos: int) -> Option<(StrategyName, int)> {
    match lit_at(s, pos, "with"@) {
        None => None,
        Some(p4) => match lit_at(s, p4, "fallback"@) {
            None => None,
            Some(p5) => match lit_at(s, p5, "("@) {
                None => None,
                Some(p6) => match strategy_name_at(s, p6) {
                    None => None,
                    Some((fb, p7)) => match lit_at(s, p7, ")"@) {
                        Some(p8) => Some((fb, p8)),
                        None => None,
                    },
                },
            },
        },
    }
}

/// strategy_decl = "strategy" ":" strategy_name ("with" "fallback" "(" strategy_name ")")?
pub open spec fn strategy_at(s: Seq<char>, pos: int) -> Option<(StrategyExpr, int)> {
    match lit_at(s, pos, "strategy"@) {
        None => None,
        Some(p1) => match lit_at(s, p1, ":"@) {
            None => None,
            Some(p2) => match strategy_name_at(s, p2) {
                None => None,
                Some((primary, p3)) => match fallback_at(s, p3) {
                    Some((fb, e)) => Some((StrategyExpr { primary, fallback: Some(fb) }, e)),
                    None => Some((StrategyExpr { primary, fallback: None }, p3)),
                },
            },
        },
    }
}

/// proof_method = "proof" ":" proof_technique, where
/// proof_technique = "induction" "on" identifier | "contradiction" | "direct"
pub open spec fn technique_at(s: Seq<char>, pos: int) -> Option<(TechniqueM, int)> {
    match lit_at(s, pos, "proof"@) {
        None => None,
        Some(p1) => match lit_at(s, p1, ":"@) {
            None => None,
            Some(p2) => {
                let induction: Option<(TechniqueM, int)> = match lit_at(s, p2, "induction"@) {
                    None => None,
                    Some(p3) => match lit_at(s, p3, "on"@) {
                        None => None,
                        Some(p4) => match identifier_at(s, p4) {
                            Some((on, p5)) => Some((TechniqueM::Induction { on }, p5)),
                            None => None,
                        },
                    },
                };
                if induction is Some {
                    induction
                } else if lit_at(s, p2, "contradiction"@) is Some {
                    Some((TechniqueM::Contradiction, lit_at(s, p2, "contradiction"@)->0))
                } else if lit_at(s, p2, "direct"@) is Some {
                    Some((TechniqueM::Direct, lit_at(s, p2, "direct"@)->0))
                } else {
                    None
                }
            },
        },
    }
}

/// lemma_decl = "lemma" identifier "{" predicate_line+ proof_method? "}"
pub open spec fn lemma_at(s: Seq<char>, pos: int) -> Gram<LemmaM> {
    match lit_at(s, pos, "lemma"@) {
        None => Ok(None),
        Some(p1) => match identifier_at(s, p1) {
            None => Ok(None),
            Some((name, p2)) => match lit_at(s, p2, "{"@) {
                None => Ok(None),
                Some(p3) => match lines_at(s, p3) {
                    Err(m) => Err(m),
                    Ok(None) => Ok(None),
                    Ok(Some((predicates, p4))) => {
                        let proof_method: Option<TechniqueM> = match technique_at(s, p4) {
                            Some((t, _)) => Some(t),
                            None => None,
                        };
                        let p: int = match technique_at(s, p4) {
                            Some((_, e)) => e,
                            None => p4,
                        };
                        match lit_at(s, p, "}"@) {
                            Some(e) => Ok(Some((LemmaM { name, predicates, proof_method }, e))),
                            None => Ok(None),
                        }
                    },
                },
            },
        },
    }
}

/// The lemmas `lemma_decl*` from `p` on, after `acc`.
pub open spec fn lemmas_rest(s: Seq<char>, acc: Seq<LemmaM>, p: int) -> Result<(Seq<LemmaM>, int), Seq<char>>
    decreases s.len() - p,
{
    match lemma_at(s, p) {
        Err(m) => Err(m),
        Ok(None) => Ok((acc, p)),
        Ok(Some((l, e))) => if moved(s, p, e) {
            lemmas_rest(s, acc.push(l), e)
        } else {
            Ok((acc, p))
        },
    }
}

/// "+=" | "-=" | "="
pub open spec fn assign_op_at(s: Seq<char>, p: int) -> Option<(AssignOp, int)> {
    if lit_at(s, p, "+="@) is Some {
        Some((AssignOp::AddAssign, lit_at(s, p, "+="@)->0))
    } else if lit_at(s, p, "-="@) is Some {
        Some((AssignOp::SubAssign, lit_at(s, p, "-="@)->0))
    } else if lit_at(s, p, "="@) is Some {
        Some((AssignOp::Assign, lit_at(s, p, "="@)->0))
    } else {
        None
    }
}

/// atomic_stmt = "atomic" "{" verify_statement+ "}"
pub open spec fn atomic_at(s: Seq<char>, pos: int) -> Gram<StmtM>
    decreases s.len() - pos, 0int,
{
    match lit_at(s, pos, "atomic"@) {
        Some(p1) => match lit_at(s, p1, "{"@) {
            Some(p2) => if moved(s, pos, p2) {
                match statements_rest(s, Seq::empty(), p2) {
                    Err(m) => Err(m),
                    Ok((stmts, p)) => if stmts.len() > 0 {
                        match lit_at(s, p, "}"@) {
                            Some(e) => Ok(Some((StmtM::Atomic(stmts), e))),
                            None => Ok(None),
                        }
                    } else {
                        Ok(None)
                    },
                }
            } else {
                Ok(None)
            },
            None => Ok(None),
        },
        None => Ok(None),
    }
}

/// verify_statement = "assert" predicate_or
///                  | "atomic" "{" verify_statement+ "}"
///                  | qualified_identifier ("+=" | "-=" | "=") expr
pub open spec fn statement_at(s: Seq<char>, pos: int) -> Gram<StmtM>
    decreases s.len() - pos, 1int,
{
    let asserted: Gram<StmtM> = match lit_at(s, pos, "assert"@) {
        Some(p1) => match or_at(s, p1) {
            Err(m) => Err(m),
            Ok(Some((pred, e))) => Ok(Some((StmtM::Assert(pred), e))),
            Ok(None) => Ok(None),
        },
        None => Ok(None),
    };
    if asserted != Gram::<StmtM>::Ok(None) {
        asserted
    } else if atomic_at(s, pos) != Gram::<StmtM>::Ok(None) {
        atomic_at(s, pos)
    } else {
        match qualified_at(s, pos) {
            None => Ok(None),
            Some((target, p1)) => match assign_op_at(s, p1) {
                None => Ok(None),
                Some((op, p2)) => match expr_at(s, p2) {
                    Err(m) => Err(m),
                    Ok(None) => Ok(None),
                    Ok(Some((expr, e))) => Ok(Some((StmtM::Assign { target, op, expr }, e))),
                },
            },
        }
    }
}

/// The statements `verify_statement*` from `p` on, after `acc`.
pub open spec fn statements_rest(s: Seq<char>, acc: Seq<StmtM>, p: int) -> Result<(Seq<StmtM>, int), Seq<char>>
    decreases s.len() - p, 2int,
{
    match statement_at(s, p) {
        Err(m) => Err(m),
        Ok(None) => Ok((acc, p)),
        Ok(Some((st, e))) => if moved(s, p, e) {
            statements_rest(s, acc.push(st), e)
        } else {
            Ok((acc, p))
        },
    }
}

/// The end of the verify declaration of `target`: its closing `}` after
/// the statements.
pub open spec fn verify_end(
    s: Seq<char>,
    target: Seq<char>,
    using: Option<Seq<char>>,
    statements: Seq<StmtM>,
    p5: int,
) -> Gram<VerifyM> {
    match lit_at(s, p5, "}"@) {
        Some(e) => Ok(Some((VerifyM { target, using, statements }, e))),
        None => Ok(None),
    }
}

/// verify_decl = "verify" identifier ("using" identifier)? "{" verify_statement* "}"
pub open spec fn verify_at(s: Seq<char>, pos: int) -> Gram<VerifyM> {
    match lit_at(s, pos, "verify"@) {
        None => Ok(None),
        Some(p1) => match identifier_at(s, p1) {
            None => Ok(None),
            Some((target, p2)) => {
                let using: Option<(Seq<char>, int)> = match lit_at(s, p2, "using"@) {
                    Some(p3) => identifier_at(s, p3),
                    None => None,
                };
                let p: int = match using {
                    Some((_, p4)) => p4,
                    None => p2,
                };
                let used: Option<Seq<char>> = match using {
                    Some((u, _)) => Some(u),
                    None => None,
                };
                match lit_at(s, p, "{"@) {
                    None => Ok(None),
                    Some(q) => match statements_rest(s, Seq::empty(), q) {
                        Err(m) => Err(m),
                        Ok((statements, p5)) => verify_end(s, target, used, statements, p5),
                    },
                }
            },
        },
    }
}

/// The verify declarations `verify_decl*` from `p` on, after `acc`.
pub open spec fn verifies_rest(s: Seq<char>, acc: Seq<VerifyM>, p: int) -> Result<(Seq<VerifyM>, int), Seq<char>>
    decreases s.len() - p,
{
    match verify_at(s, p) {
        Err(m) => Err(m),
        Ok(None) => Ok((acc, p)),
        Ok(Some((v, e))) => if moved(s, p, e) {
            verifies_rest(s, acc.push(v), e)
        } else {
            Ok((acc, p))
        },
    }
}

/// certificate_decl = "certificate" ":" string_literal "verified_at" ":" "compile_time"
pub open spec fn certificate_at(s: Seq<char>, pos: int) -> Option<(Seq<char>, int)> {
    match lit_at(s, pos, "certificate"@) {
        None => None,
        Some(p1) => match lit_at(s, p1, ":"@) {
            None => None,
            Some(p2) => match string_at(s, p2) {
                None => None,
                Some((value, p3)) => match lit_at(s, p3, "verified_at"@) {
                    None => None,
                    Some(p4) => match lit_at(s, p4, ":"@) {
                        None => None,
                        Some(p5) => match lit_at(s, p5, "compile_time"@) {
                            Some(p6) => Some((value, p6)),
                            None => None,
                        },
                    },
                },
            },
        },
    }
}

/// What follows the verify declarations of a proof: the optional
/// certificate and the closing `}`.
pub open spec fn proof_end(
    s: Seq<char>,
    name: Seq<char>,
    strategy: StrategyExpr,
    lemmas: Seq<LemmaM>,
    verify_decls: Seq<VerifyM>,
    p6: int,
) -> Gram<ProofM> {
    if verify_decls.len() == 0 {
        Ok(None)
    } else {
        let certificate: Option<Seq<char>> = match certificate_at(s, p6) {
            Some((c, _)) => Some(c),
            None => None,
        };
        let p7: int = match certificate_at(s, p6) {
            Some((_, e)) => e,
            None => p6,
        };
        match lit_at(s, p7, "}"@) {
            Some(e) => Ok(Some((ProofM { name, strategy, lemmas, verify_decls, certificate }, e))),
            None => Ok(None),
        }
    }
}

/// What follows the lemmas of a proof: `verify_decl+ certificate_decl? "}"`.
pub open spec fn proof_tail(s: Seq<char>, name: Seq<char>, strategy: StrategyExpr, lemmas: Seq<LemmaM>, p5: int) -> Gram<ProofM> {
    match verifies_rest(s, Seq::empty(), p5) {
        Err(m) => Err(m),
        Ok((verify_decls, p6)) => proof_end(s, name, strategy, lemmas, verify_decls, p6),
    }
}

/// proof_block = "proof" identifier "{" strategy_decl lemma_decl* verify_decl+
///               certificate_decl? "}"
pub open spec fn proof_at(s: Seq<char>, pos: int) -> Gram<ProofM> {
    match lit_at(s, pos, "proof"@) {
        None => Ok(None),
        Some(p1) => match identifier_at(s, p1) {
            None => Ok(None),
            Some((name, p2)) => match lit_at(s, p2, "{"@) {
                None => Ok(None),
                Some(p3) => match strategy_at(s, p3) {
                    None => Ok(None),
                    Some((strategy, p4)) => match lemmas_rest(s, Seq::empty(), p4) {
                        Err(m) => Err(m),
                        Ok((lemmas, p5)) => proof_tail(s, name, strategy, lemmas, p5),
                    },
                },
            },
        },
    }
}

/// declaration = intent_block assumption_block proof_block
#[verifier::opaque]
pub open spec fn declaration_at(s: Seq<char>, pos: int) -> Gram<DeclM> {
    match intent_at(s, pos) {
        Err(m) => Err(m),
        Ok(None) => Ok(None),
        Ok(Some((intent, p1))) => match assumption_at(s, p1) {
            None => Ok(None),
            Some((assumption, p2)) => match proof_at(s, p2) {
                Err(m) => Err(m),
                Ok(None) => Ok(None),
                Ok(Some((proof, p3))) => Ok(Some((DeclM { intent, assumption, proof }, p3))),
            },
        },
    }
}

/// The items `(context_decl | let_stmt | declaration)*` from `p` on, added
/// to `acc`: the program and the position where no item starts.
pub open spec fn items_rest(s: Seq<char>, acc: ProgramM, p: int) -> Result<(ProgramM, int), Seq<char>>
    decreases s.len() - p,
{
    match context_decl_at(s, p) {
        Err(m) => Err(m),
        Ok(Some((c, e))) => if moved(s, p, e) {
            items_rest(s, ProgramM { contexts: acc.contexts.push(c), ..acc }, e)
        } else {
            Ok((acc, p))
        },
        Ok(None) => match let_at(s, p) {
            Err(m) => Err(m),
            Ok(Some((l, e))) => if moved(s, p, e) {
                items_rest(s, ProgramM { lets: acc.lets.push(l), ..acc }, e)
            } else {
                Ok((acc, p))
            },
            Ok(None) => match declaration_at(s, p) {
                Err(m) => Err(m),
                Ok(Some((d, e))) => if moved(s, p, e) {
                    items_rest(s, ProgramM { declarations: acc.declarations.push(d), ..acc }, e)
                } else {
                    Ok((acc, p))
                },
                Ok(None) => Ok((acc, p)),
            },
        },
    }
}

/// The line and column (both counted from 1) of position `pos`.
pub open spec fn line_col(s: Seq<char>, pos: int) -> (nat, nat)
    decreases pos,
{
    if pos <= 0 {
        (1, 1)
    } else if s[pos - 1] == '\n' {
        ((line_col(s, pos - 1).0 + 1) as nat, 1)
    } else {
        (line_col(s, pos - 1).0, (line_col(s, pos - 1).1 + 1) as nat)
    }
}

/// Why a text is not a program.
pub enum ParseFailure {
    /// No rule applies at some point: the diagnostic says where.
    Syntax(Seq<char>),
    /// An integer literal does not fit in 64 bits.
    Literal(Seq<char>),
}

/// The outcome `r` of parsing is `g`: the program by its view, a syntax error
/// as a `ParseError` and an integer literal out of range as a `LoweringError`.
pub open spec fn parse_outcome(r: Result<Program, CompilerError>, g: Result<ProgramM, ParseFailure>) -> bool {
    match r {
        Ok(p) => g == Result::<ProgramM, ParseFailure>::Ok(p@),
        Err(CompilerError::ParseError(m)) => g == Result::<ProgramM, ParseFailure>::Err(ParseFailure::Syntax(m@)),
        Err(CompilerError::LoweringError(m)) => g == Result::<ProgramM, ParseFailure>::Err(ParseFailure::Literal(m@)),
        Err(_) => false,
    }
}

/// The diagnostic for input that no rule accepts at `pos`, with line and
/// column written in decimal.
pub open spec fn unexpected_message(s: Seq<char>, pos: int) -> Seq<char> {
    "unexpected input at line "@ + decimal(line_col(s, pos).0) + ", column "@ + decimal(line_col(s, pos).1)
}

/// program = (context_decl | let_stmt | declaration)+ EOF: the program that
/// the text `s` holds, or why it holds none.
pub open spec fn program_of(s: Seq<char>) -> Result<ProgramM, ParseFailure> {
    match items_rest(s, no_items(), 0) {
        Err(m) => Err(ParseFailure::Literal(m)),
        Ok((prog, p)) => if prog.contexts.len() + prog.lets.len() + prog.declarations.len() == 0 || ws_end(s, p) < s.len() {
            Err(ParseFailure::Syntax(unexpected_message(s, ws_end(s, p))))
        } else {
            Ok(prog)
        },
    }
}

/// The program with no items.
pub open spec fn no_items() -> ProgramM {
    ProgramM { contexts: Seq::empty(), lets: Seq::empty(), declarations: Seq::empty() }
}

/// An integer literal out of range makes the whole text fail with its message.
pub proof fn lemma_program_of_literal(s: Seq<char>, m: Seq<char>)
    requires
        items_rest(s, no_items(), 0) == Err::<(ProgramM, int), Seq<char>>(m),
    ensures
        program_of(s) == Err::<ProgramM, ParseFailure>(ParseFailure::Literal(m)),
{
}

// ── laws of the token rules ─────────────────────────────────────────────────

/// `<=` is one operator: where the next token starts with `<=`, the
/// comparison operator read there is `Le`, not `Lt` followed by a stray `=`.
pub proof fn lemma_le_is_one_operator(s: Seq<char>, p: int)
    requires
        0 <= p <= s.len(),
        ws_end(s, p) + 2 <= s.len(),
        s[ws_end(s, p)] == '<',
        s[ws_end(s, p) + 1] == '=',
    ensures
        comparison_op_at(s, p) == Some((ComparisonOp::Le, ws_end(s, p) + 2)),
{
    let q = ws_end(s, p);
    lemma_ws_end(s, p);
    reveal_strlit("==");
    reveal_strlit("!=");
    reveal_strlit("<=");
    assert(s.subrange(q, q + 2)[0] == '<');
    assert(s.subrange(q, q + 2) =~= "<="@);
}

/// `>=` is one operator: where the next token starts with `>=`, the
/// comparison operator read there is `Ge`, not `Gt` followed by a stray `=`.
pub proof fn lemma_ge_is_one_operator(s: Seq<char>, p: int)
    requires
        0 <= p <= s.len(),
        ws_end(s, p) + 2 <= s.len(),
        s[ws_end(s, p)] == '>',
        s[ws_end(s, p) + 1] == '=',
    ensures
        comparison_op_at(s, p) == Some((ComparisonOp::Ge, ws_end(s, p) + 2)),
{
    let q = ws_end(s, p);
    lemma_ws_end(s, p);
    reveal_strlit("==");
    reveal_strlit("!=");
    reveal_strlit("<=");
    reveal_strlit(">=");
    assert(s.subrange(q, q + 2)[0] == '>');
    assert(s.subrange(q, q + 2) =~= ">="@);
}

/// `ms` is milliseconds: where the next token starts with `ms`, the time
/// unit read there is `Millisecond`, not `min` or seconds.
pub proof fn lemma_ms_is_milliseconds(s: Seq<char>, p: int)
    requires
        0 <= p <= s.len(),
        ws_end(s, p) + 2 <= s.len(),
        s[ws_end(s, p)] == 'm',
        s[ws_end(s, p) + 1] == 's',
    ensures
        time_unit_at(s, p) == Some((TimeUnit::Millisecond, ws_end(s, p) + 2)),
{
    let q = ws_end(s, p);
    lemma_ws_end(s, p);
    reveal_strlit("ms");
    assert(s.subrange(q, q + 2) =~= "ms"@);
}

/// `min` is minutes: where the next token starts with `min`, the time unit
/// read there is `Minute`.
pub proof fn lemma_min_is_minutes(s: Seq<char>, p: int)
    requires
        0 <= p <= s.len(),
        ws_end(s, p) + 3 <= s.len(),
        s[ws_end(s, p)] == 'm',
        s[ws_end(s, p) + 1] == 'i',
        s[ws_end(s, p) + 2] == 'n',
    ensures
        time_unit_at(s, p) == Some((TimeUnit::Minute, ws_end(s, p) + 3)),
{
    let q = ws_end(s, p);
    lemma_ws_end(s, p);
    reveal_strlit("ms");
    reveal_strlit("min");
    assert(s.subrange(q, q + 2)[1] == 'i');
    assert(s.subrange(q, q + 3) =~= "min"@);
}

/// A boolean literal ends at a word boundary: `trueness` is no `true`.
pub proof fn lemma_boolean_boundary(s: Seq<char>, p: int)
    ensures
        boolean_at(s, p) matches Some((_, e)) ==> !(0 <= e < s.len() && is_word_char(s[e])),
{
}

/// No reserved word is read as an identifier.
pub proof fn lemma_identifier_not_keyword(s: Seq<char>, p: int)
    ensures
        identifier_at(s, p) matches Some((w, _)) ==> !is_keyword(w),
{
}


// ── keywords and the values they name ───────────────────────────────────────

/// Where a word is read, the text holds its first two characters.
proof fn lemma_lit_chars(s: Seq<char>, pos: int, w: Seq<char>)
    ensures
        lit_at(s, pos, w) is Some ==> s[ws_end(s, pos)] == w[0],
        lit_at(s, pos, w) is Some && w.len() > 1 ==> s[ws_end(s, pos) + 1] == w[1],
{
    if lit_at(s, pos, w) is Some {
        let p = ws_end(s, pos);
        assert(s.subrange(p, p + w.len())[0] == s[p]);
        if w.len() > 1 {
            assert(s.subrange(p, p + w.len())[1] == s[p + 1]);
        }
    }
}

/// Each comparison operator is read as the comparison it writes: `==`, `!=`,
/// `<=`, `>=`, then `<` and `>` where no `=` follows them; and where none
/// of them is written, no comparison is read.
pub proof fn lemma_comparison_named_by_its_operator(s: Seq<char>, p: int)
    ensures
        lit_at(s, p, "=="@) matches Some(e) ==> comparison_op_at(s, p) == Some((ComparisonOp::Eq, e)),
        lit_at(s, p, "!="@) matches Some(e) ==> comparison_op_at(s, p) == Some((ComparisonOp::Ne, e)),
        lit_at(s, p, "<="@) matches Some(e) ==> comparison_op_at(s, p) == Some((ComparisonOp::Le, e)),
        lit_at(s, p, ">="@) matches Some(e) ==> comparison_op_at(s, p) == Some((ComparisonOp::Ge, e)),
        lit_at(s, p, "<="@) is None ==> (lit_at(s, p, "<"@) matches Some(e) ==> comparison_op_at(s, p) == Some((ComparisonOp::Lt, e))),
        lit_at(s, p, ">="@) is None ==> (lit_at(s, p, ">"@) matches Some(e) ==> comparison_op_at(s, p) == Some((ComparisonOp::Gt, e))),
        (lit_at(s, p, "=="@) is None && lit_at(s, p, "!="@) is None && lit_at(s, p, "<="@) is None
            && lit_at(s, p, ">="@) is None && lit_at(s, p, "<"@) is None && lit_at(s, p, ">"@) is None)
            ==> comparison_op_at(s, p) is None,
{
    reveal_strlit("==");
    reveal_strlit("!=");
    reveal_strlit("<=");
    reveal_strlit(">=");
    reveal_strlit("<");
    reveal_strlit(">");
    lemma_lit_chars(s, p, "=="@);
    lemma_lit_chars(s, p, "!="@);
    lemma_lit_chars(s, p, "<="@);
    lemma_lit_chars(s, p, ">="@);
    lemma_lit_chars(s, p, "<"@);
    lemma_lit_chars(s, p, ">"@);
}

/// `*`, `/`, `+` and `-` are read as multiplication, division, addition and
/// subtraction.
pub proof fn lemma_arithmetic_named_by_its_operator(s: Seq<char>, p: int)
    ensures
        lit_at(s, p, "*"@) matches Some(e) ==> mul_op_at(s, p) == Some((BinOpKind::Mul, e)),
        lit_at(s, p, "/"@) matches Some(e) ==> mul_op_at(s, p) == Some((BinOpKind::Div, e)),
        lit_at(s, p, "*"@) is None && lit_at(s, p, "/"@) is None ==> mul_op_at(s, p) is None,
        lit_at(s, p, "+"@) matches Some(e) ==> add_op_at(s, p) == Some((BinOpKind::Add, e)),
        lit_at(s, p, "-"@) matches Some(e) ==> add_op_at(s, p) == Some((BinOpKind::Sub, e)),
        lit_at(s, p, "+"@) is None && lit_at(s, p, "-"@) is None ==> add_op_at(s, p) is None,
{
    reveal_strlit("*");
    reveal_strlit("/");
    reveal_strlit("+");
    reveal_strlit("-");
    lemma_lit_chars(s, p, "*"@);
    lemma_lit_chars(s, p, "/"@);
    lemma_lit_chars(s, p, "+"@);
    lemma_lit_chars(s, p, "-"@);
}

/// `=`, `+=` and `-=` are read as assignment, adding and subtracting assignment.
pub proof fn lemma_assignment_named_by_its_operator(s: Seq<char>, p: int)
    ensures
        lit_at(s, p, "+="@) matches Some(e) ==> assign_op_at(s, p) == Some((AssignOp::AddAssign, e)),
        lit_at(s, p, "-="@) matches Some(e) ==> assign_op_at(s, p) == Some((AssignOp::SubAssign, e)),
        lit_at(s, p, "="@) matches Some(e) ==> assign_op_at(s, p) == Some((AssignOp::Assign, e)),
        lit_at(s, p, "+="@) is None && lit_at(s, p, "-="@) is None && lit_at(s, p, "="@) is None ==> assign_op_at(s, p) is None,
{
    reveal_strlit("+=");
    reveal_strlit("-=");
    reveal_strlit("=");
    lemma_lit_chars(s, p, "+="@);
    lemma_lit_chars(s, p, "-="@);
    lemma_lit_chars(s, p, "="@);
}

/// `ms`, `min`, `s`, `h` and `d` are read as milliseconds, minutes, seconds,
/// hours and days.
pub proof fn lemma_time_unit_named_by_its_word(s: Seq<char>, p: int)
    ensures
        lit_at(s, p, "ms"@) matches Some(e) ==> time_unit_at(s, p) == Some((TimeUnit::Millisecond, e)),
        lit_at(s, p, "min"@) matches Some(e) ==> time_unit_at(s, p) == Some((TimeUnit::Minute, e)),
        lit_at(s, p, "s"@) matches Some(e) ==> time_unit_at(s, p) == Some((TimeUnit::Second, e)),
        lit_at(s, p, "h"@) matches Some(e) ==> time_unit_at(s, p) == Some((TimeUnit::Hour, e)),
        lit_at(s, p, "d"@) matches Some(e) ==> time_unit_at(s, p) == Some((TimeUnit::Day, e)),
        (lit_at(s, p, "ms"@) is None && lit_at(s, p, "min"@) is None && lit_at(s, p, "s"@) is None
            && lit_at(s, p, "h"@) is None && lit_at(s, p, "d"@) is None) ==> time_unit_at(s, p) is None,
{
    reveal_strlit("ms");
    reveal_strlit("min");
    reveal_strlit("s");
    reveal_strlit("h");
    reveal_strlit("d");
    lemma_lit_chars(s, p, "ms"@);
    lemma_lit_chars(s, p, "min"@);
    lemma_lit_chars(s, p, "s"@);
    lemma_lit_chars(s, p, "h"@);
    lemma_lit_chars(s, p, "d"@);
}

/// A source reference's kind is the one its word names: `ref`, `slack`,
/// `email`, `github`, `jira` or `doc`.
pub proof fn lemma_source_type_named_by_its_word(s: Seq<char>, p: int)
    ensures
        lit_at(s, p, "ref"@) matches Some(e) ==> source_type_at(s, p) == Some((SourceType::Ref, e)),
        lit_at(s, p, "slack"@) matches Some(e) ==> source_type_at(s, p) == Some((SourceType::Slack, e)),
        lit_at(s, p, "email"@) matches Some(e) ==> source_type_at(s, p) == Some((SourceType::Email, e)),
        lit_at(s, p, "github"@) matches Some(e) ==> source_type_at(s, p) == Some((SourceType::Github, e)),
        lit_at(s, p, "jira"@) matches Some(e) ==> source_type_at(s, p) == Some((SourceType::Jira, e)),
        lit_at(s, p, "doc"@) matches Some(e) ==> source_type_at(s, p) == Some((SourceType::Doc, e)),
        (lit_at(s, p, "ref"@) is None && lit_at(s, p, "slack"@) is None && lit_at(s, p, "email"@) is None
            && lit_at(s, p, "github"@) is None && lit_at(s, p, "jira"@) is None && lit_at(s, p, "doc"@) is None)
            ==> source_type_at(s, p) is None,
{
    reveal_strlit("ref");
    reveal_strlit("slack");
    reveal_strlit("email");
    reveal_strlit("github");
    reveal_strlit("jira");
    reveal_strlit("doc");
    lemma_lit_chars(s, p, "ref"@);
    lemma_lit_chars(s, p, "slack"@);
    lemma_lit_chars(s, p, "email"@);
    lemma_lit_chars(s, p, "github"@);
    lemma_lit_chars(s, p, "jira"@);
    lemma_lit_chars(s, p, "doc"@);
}

/// A strategy is the one its words name: `smt_solver(z3)`,
/// `bounded_model_checking`, `induction` or `ai_assisted`.
pub proof fn lemma_strategy_named_by_its_word(s: Seq<char>, p: int)
    ensures
        lit_at(s, p, "smt_solver"@) matches Some(p1) ==> (lit_at(s, p1, "("@) matches Some(p2) ==> (
            lit_at(s, p2, "z3"@) matches Some(p3) ==> (lit_at(s, p3, ")"@) matches Some(e)
            ==> strategy_name_at(s, p) == Some((StrategyName::SmtSolverZ3, e))))),
        lit_at(s, p, "bounded_model_checking"@) matches Some(e) ==> strategy_name_at(s, p) == Some((StrategyName::BoundedModelChecking, e)),
        lit_at(s, p, "induction"@) matches Some(e) ==> strategy_name_at(s, p) == Some((StrategyName::Induction, e)),
        lit_at(s, p, "ai_assisted"@) matches Some(e) ==> strategy_name_at(s, p) == Some((StrategyName::AiAssisted, e)),
{
    reveal_strlit("smt_solver");
    reveal_strlit("bounded_model_checking");
    reveal_strlit("induction");
    reveal_strlit("ai_assisted");
    lemma_lit_chars(s, p, "smt_solver"@);
    lemma_lit_chars(s, p, "bounded_model_checking"@);
    lemma_lit_chars(s, p, "induction"@);
    lemma_lit_chars(s, p, "ai_assisted"@);
}


/// A `validated_by` field is the one its label names: `domain_expert:` then a
/// string, `date:` then a date, `confidence:` then a confidence literal,
/// `method:` then a validation method, each carrying the value read after
/// the colon.
pub proof fn lemma_field_named_by_its_label(s: Seq<char>, pos: int)
    ensures
        lit_at(s, pos, "domain_expert"@) matches Some(p1) ==> (lit_at(s, p1, ":"@) matches Some(p2) ==> (
            string_at(s, p2) matches Some((t, e)) ==> field_at(s, pos) == Some((FieldM::DomainExpert(t), e)))),
        lit_at(s, pos, "date"@) matches Some(p1) ==> (lit_at(s, p1, ":"@) matches Some(p2) ==> (
            date_at(s, p2) matches Some((d, e)) ==> field_at(s, pos) == Some((FieldM::Date(d), e)))),
        lit_at(s, pos, "confidence"@) matches Some(p1) ==> (lit_at(s, p1, ":"@) matches Some(p2) ==> (
            confidence_at(s, p2) matches Some((c, e)) ==> field_at(s, pos) == Some((FieldM::Confidence(c), e)))),
        lit_at(s, pos, "method"@) matches Some(p1) ==> (lit_at(s, p1, ":"@) matches Some(p2) ==> (
            method_at(s, p2) matches Some((m, e)) ==> field_at(s, pos) == Some((FieldM::Method(m), e)))),
{
    reveal_strlit("domain_expert");
    reveal_strlit("date");
    reveal_strlit("confidence");
    reveal_strlit("method");
    lemma_lit_chars(s, pos, "domain_expert"@);
    lemma_lit_chars(s, pos, "date"@);
    lemma_lit_chars(s, pos, "confidence"@);
    lemma_lit_chars(s, pos, "method"@);
}

/// A proof technique is the one its word names: `contradiction` or `direct`.
pub proof fn lemma_technique_named_by_its_word(s: Seq<char>, pos: int)
    ensures
        lit_at(s, pos, "proof"@) matches Some(p1) ==> (lit_at(s, p1, ":"@) matches Some(p2) ==> (
            lit_at(s, p2, "contradiction"@) matches Some(e) ==> technique_at(s, pos) == Some((TechniqueM::Contradiction, e)))),
        lit_at(s, pos, "proof"@) matches Some(p1) ==> (lit_at(s, p1, ":"@) matches Some(p2) ==> (
            lit_at(s, p2, "direct"@) matches Some(e) ==> technique_at(s, pos) == Some((TechniqueM::Direct, e)))),
{
    reveal_strlit("proof");
    reveal_strlit("induction");
    reveal_strlit("contradiction");
    reveal_strlit("direct");
    if lit_at(s, pos, "proof"@) is Some && lit_at(s, lit_at(s, pos, "proof"@)->0, ":"@) is Some {
        let p2 = lit_at(s, lit_at(s, pos, "proof"@)->0, ":"@)->0;
        lemma_lit_chars(s, p2, "induction"@);
        lemma_lit_chars(s, p2, "contradiction"@);
        lemma_lit_chars(s, p2, "direct"@);
    }
}

} // verus!
