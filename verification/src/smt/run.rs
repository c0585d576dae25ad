//! Reading the answer of the Z3 process.
//!
//! Z3 is invoked with the SMT-LIB 2 text on its standard input (`z3 -in`);
//! running the process happens outside the library. Its answer is read from
//! the first line of its standard output: `sat`, `unsat`, or anything else
//! (`unknown`, an error, no output).

use vstd::prelude::*;

verus! {

/// The result of a `(check-sat)` query.
#[derive(Debug, Clone, Copy, PartialEq, Eq)]
pub enum SmtResult {
    /// The formula is satisfiable (a model exists).
    Sat,
    /// The formula is unsatisfiable (no model exists: the proof is valid).
    Unsat,
    /// Z3 could not determine satisfiability within resource limits.
    Unknown,
}

/// Unicode White_Space, which `str::trim` removes.
pub open spec fn is_white_space(c: char) -> bool {
    ||| ('\u{9}' <= c && c <= '\u{d}')
    ||| c == ' '
    ||| c == '\u{85}'
    ||| c == '\u{a0}'
    ||| c == '\u{1680}'
    ||| ('\u{2000}' <= c && c <= '\u{200a}')
    ||| c == '\u{2028}'
    ||| c == '\u{2029}'
    ||| c == '\u{202f}'
    ||| c == '\u{205f}'
    ||| c == '\u{3000}'
}

fn white_space(c: char) -> (r: bool)
    ensures
        r == is_white_space(c),
{
    ('\u{9}' <= c && c <= '\u{d}') || c == ' ' || c == '\u{85}' || c == '\u{a0}' || c == '\u{1680}'
        || ('\u{2000}' <= c && c <= '\u{200a}') || c == '\u{2028}' || c == '\u{2029}'
        || c == '\u{202f}' || c == '\u{205f}' || c == '\u{3000}'
}

/// The text before the first line feed (all of it when there is none).
pub open spec fn first_line(s: Seq<char>) -> Seq<char>
    decreases s.len(),
{
    if s.len() == 0 {
        s
    } else if s[0] == '\n' {
        Seq::empty()
    } else {
        seq![s[0]] + first_line(s.drop_first())
    }
}

/// `s` without its leading and trailing white space.
pub open spec fn trimmed(s: Seq<char>) -> Seq<char>
    decreases s.len(),
{
    if s.len() == 0 {
        s
    } else if is_white_space(s[0]) {
        trimmed(s.drop_first())
    } else if is_white_space(s.last()) {
        trimmed(s.drop_last())
    } else {
        s
    }
}

/// What Z3's standard output `out` answers.
pub open spec fn z3_verdict(out: Seq<char>) -> SmtResult {
    let answer = trimmed(first_line(out));
    if answer == "unsat"@ {
        SmtResult::Unsat
    } else if answer == "sat"@ {
        SmtResult::Sat
    } else {
        SmtResult::Unknown
    }
}

/// Z3's answer is read from its first line, without surrounding white space:
/// `unsat` means the query is unsatisfiable (the intent holds), `sat` that
/// it is satisfiable (a counterexample exists), and anything else is unknown.
pub proof fn lemma_z3_answers(out: Seq<char>)
    ensures
        trimmed(first_line(out)) == "unsat"@ ==> z3_verdict(out) == SmtResult::Unsat,
        trimmed(first_line(out)) == "sat"@ ==> z3_verdict(out) == SmtResult::Sat,
        (trimmed(first_line(out)) != "unsat"@ && trimmed(first_line(out)) != "sat"@) ==> z3_verdict(out) == SmtResult::Unknown,
{
    reveal_strlit("unsat");
    reveal_strlit("sat");
    assert("unsat"@.len() != "sat"@.len());
}

proof fn lemma_first_line_prefix(s: Seq<char>, i: int)
    requires
        0 <= i <= s.len(),
        forall|k: int| 0 <= k < i ==> s[k] != '\n',
        i == s.len() || s[i] == '\n',
    ensures
        first_line(s) =~= s.take(i),
    decreases s.len(),
{
    if s.len() > 0 && i > 0 {
        lemma_first_line_prefix(s.drop_first(), i - 1);
    }
}

proof fn lemma_trimmed_window(s: Seq<char>, a: int, b: int)
    requires
        0 <= a <= b <= s.len(),
        forall|k: int| 0 <= k < a ==> is_white_space(#[trigger] s[k]),
        forall|k: int| b <= k < s.len() ==> is_white_space(#[trigger] s[k]),
        a < b ==> !is_white_space(s[a]) && !is_white_space(s[b - 1]),
    ensures
        trimmed(s) =~= s.subrange(a, b),
    decreases s.len(),
{
    if s.len() == 0 {
        // the empty text is its own trimming
    } else if a > 0 {
        lemma_trimmed_window(s.drop_first(), a - 1, b - 1);
    } else if b < s.len() {
        if is_white_space(s[0]) {
            // then a == b == 0: everything is white space
            lemma_trimmed_window(s.drop_first(), 0, 0);
        } else {
            lemma_trimmed_window(s.drop_last(), a, b);
        }
    }
}

/// Reads Z3's answer from its standard output: the first line, trimmed of
/// white space, is `unsat`, `sat`, or something else.
pub fn interpret_z3_output(out: &str) -> (r: SmtResult)
    ensures
        r == z3_verdict(out@),
{
    let n = out.unicode_len();
    let mut end: usize = 0;
    while end < n && out.get_char(end) != '\n'
        invariant
            n == out@.len(),
            end <= n,
            forall|k: int| 0 <= k < end ==> out@[k] != '\n',
        decreases n - end,
    {
        end += 1;
    }
    proof { lemma_first_line_prefix(out@, end as int); }
    let ghost line = out@.take(end as int);
    let mut a: usize = 0;
    while a < end && white_space(out.get_char(a))
        invariant
            n == out@.len(),
            a <= end <= n,
            forall|k: int| 0 <= k < a ==> is_white_space(#[trigger] out@[k]),
        decreases end - a,
    {
        a += 1;
    }
    let mut b: usize = end;
    while b > a && white_space(out.get_char(b - 1))
        invariant
            n == out@.len(),
            a <= b <= end <= n,
            forall|k: int| b <= k < end ==> is_white_space(#[trigger] out@[k]),
        decreases b,
    {
        b -= 1;
    }
    proof {
        assert(forall|k: int| 0 <= k < a ==> is_white_space(#[trigger] line[k]));
        assert(forall|k: int| b <= k < line.len() ==> is_white_space(#[trigger] line[k]));
        lemma_trimmed_window(line, a as int, b as int);
        assert(line.subrange(a as int, b as int) =~= out@.subrange(a as int, b as int));
    }
    let answer = String::from_str(out.substring_char(a, b));
    if answer == String::from_str("unsat") {
        SmtResult::Unsat
    } else if answer == String::from_str("sat") {
        SmtResult::Sat
    } else {
        SmtResult::Unknown
    }
}

} // verus!
