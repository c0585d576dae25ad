//! The rules of assumption blocks that the grammar leaves to the type checker:
//! no section other than an assumption string appears twice, no field appears
//! twice in one `validated_by`, and every `confidence` lies in `[0.0, 1.0]`.

use vstd::prelude::*;
use crate::errors::{CompilerError, type_outcome};
use crate::fir::{AssumptionNode, AssumptionSection, ValidatedByField};
use crate::parser::is_digit;
use crate::text::join5;

verus! {

// ── specification ────────────────────────────────────────────────────────────

/// The kind of a section: 0 for an assumption string (which may repeat), then
/// `context_source`, `out_of_scope` and `validated_by`.
pub open spec fn section_kind(s: AssumptionSection) -> u8 {
    match s {
        AssumptionSection::StringAssumption(_) => 0,
        AssumptionSection::ContextSource(_) => 1,
        AssumptionSection::OutOfScope(_) => 2,
        AssumptionSection::ValidatedBy(_) => 3,
    }
}

/// The keyword that opens a section of kind `k`.
pub open spec fn section_name(k: u8) -> Seq<char> {
    if k == 1 {
        "context_source"@
    } else if k == 2 {
        "out_of_scope"@
    } else {
        "validated_by"@
    }
}

/// The kind of a `validated_by` field.
pub open spec fn field_kind(f: ValidatedByField) -> u8 {
    match f {
        ValidatedByField::DomainExpert(_) => 0,
        ValidatedByField::Date(_) => 1,
        ValidatedByField::Confidence(_) => 2,
        ValidatedByField::Method(_) => 3,
    }
}

/// The keyword that opens a field of kind `k`.
pub open spec fn field_name(k: u8) -> Seq<char> {
    if k == 0 {
        "domain_expert"@
    } else if k == 1 {
        "date"@
    } else if k == 2 {
        "confidence"@
    } else {
        "method"@
    }
}

/// Sections and fields are told apart by kind and named by their keyword:
/// only assumption strings may repeat (kind 0); `context_source`,
/// `out_of_scope` and `validated_by` each have their own kind and name, as do
/// the fields `domain_expert`, `date`, `confidence` and `method`.
pub proof fn lemma_kinds_and_names(s: AssumptionSection, t: AssumptionSection, f: ValidatedByField, g: ValidatedByField)
    ensures
        section_kind(s) == 0 <==> s is StringAssumption,
        section_kind(s) == section_kind(t) <==> ((s is StringAssumption && t is StringAssumption)
            || (s is ContextSource && t is ContextSource) || (s is OutOfScope && t is OutOfScope)
            || (s is ValidatedBy && t is ValidatedBy)),
        s is ContextSource ==> section_name(section_kind(s)) == "context_source"@,
        s is OutOfScope ==> section_name(section_kind(s)) == "out_of_scope"@,
        s is ValidatedBy ==> section_name(section_kind(s)) == "validated_by"@,
        field_kind(f) == field_kind(g) <==> ((f is DomainExpert && g is DomainExpert) || (f is Date && g is Date)
            || (f is Confidence && g is Confidence) || (f is Method && g is Method)),
        f is DomainExpert ==> field_name(field_kind(f)) == "domain_expert"@,
        f is Date ==> field_name(field_kind(f)) == "date"@,
        f is Confidence ==> field_name(field_kind(f)) == "confidence"@,
        f is Method ==> field_name(field_kind(f)) == "method"@,
{
}

/// Section `j` is not a string and an earlier section has its kind.
pub open spec fn repeats_section(secs: Seq<AssumptionSection>, j: int) -> bool {
    section_kind(secs[j]) != 0 && exists|i: int| 0 <= i < j && section_kind(#[trigger] secs[i]) == section_kind(secs[j])
}

/// The first section from `j` on that repeats the kind of an earlier one.
pub open spec fn first_repeated_section(secs: Seq<AssumptionSection>, j: int) -> Option<int>
    decreases secs.len() - j,
{
    if j < 0 || j >= secs.len() {
        None
    } else if repeats_section(secs, j) {
        Some(j)
    } else {
        first_repeated_section(secs, j + 1)
    }
}

/// An earlier field of `fs` has the kind of field `j`.
pub open spec fn repeats_field(fs: Seq<ValidatedByField>, j: int) -> bool {
    exists|i: int| 0 <= i < j && field_kind(#[trigger] fs[i]) == field_kind(fs[j])
}

/// The first field from `j` on that repeats the kind of an earlier one.
pub open spec fn first_repeated_field(fs: Seq<ValidatedByField>, j: int) -> Option<int>
    decreases fs.len() - j,
{
    if j < 0 || j >= fs.len() {
        None
    } else if repeats_field(fs, j) {
        Some(j)
    } else {
        first_repeated_field(fs, j + 1)
    }
}

/// The fields of a section: those of a `validated_by`, none for the others.
pub open spec fn section_fields(s: AssumptionSection) -> Seq<ValidatedByField> {
    match s {
        AssumptionSection::ValidatedBy(vb) => vb.fields@,
        _ => Seq::empty(),
    }
}

/// The first repeated field, as (section, field), from section `k` on.
pub open spec fn first_field_repeat(secs: Seq<AssumptionSection>, k: int) -> Option<(int, int)>
    decreases secs.len() - k,
{
    if k < 0 || k >= secs.len() {
        None
    } else {
        match first_repeated_field(section_fields(secs[k]), 0) {
            Some(j) => Some((k, j)),
            None => first_field_repeat(secs, k + 1),
        }
    }
}

/// `c` is a confidence literal, `("0" | "1") ("." DIGIT*)?`, whose value is
/// at most 1: it starts with `0`, or it is `1` followed only by zeros.
pub open spec fn confidence_in_range(c: Seq<char>) -> bool {
    &&& c.len() > 0
    &&& (c[0] == '0' || c[0] == '1')
    &&& (c.len() == 1 || (c[1] == '.' && forall|j: int| 2 <= j < c.len() ==> is_digit(#[trigger] c[j])))
    &&& (c[0] == '0' || forall|j: int| 2 <= j < c.len() ==> #[trigger] c[j] == '0')
}

/// The first confidence of `fs` from field `j` on that is out of range.
pub open spec fn first_bad_confidence_field(fs: Seq<ValidatedByField>, j: int) -> Option<Seq<char>>
    decreases fs.len() - j,
{
    if j < 0 || j >= fs.len() {
        None
    } else {
        match fs[j] {
            ValidatedByField::Confidence(c) if !confidence_in_range(c@) => Some(c@),
            _ => first_bad_confidence_field(fs, j + 1),
        }
    }
}

/// The first out-of-range confidence of `secs` from section `k` on.
pub open spec fn first_bad_confidence(secs: Seq<AssumptionSection>, k: int) -> Option<Seq<char>>
    decreases secs.len() - k,
{
    if k < 0 || k >= secs.len() {
        None
    } else {
        match first_bad_confidence_field(section_fields(secs[k]), 0) {
            Some(c) => Some(c),
            None => first_bad_confidence(secs, k + 1),
        }
    }
}

/// The diagnostic for the first rule that assumption block `a` breaks:
/// a repeated section, then a repeated field, then a confidence out of range.
pub open spec fn assumption_error(a: AssumptionNode) -> Option<Seq<char>> {
    let secs = a.sections@;
    match first_repeated_section(secs, 0) {
        Some(j) => Some(
            "duplicate section '"@ + section_name(section_kind(secs[j])) + "' in assumption '"@ + a.name@ + "'"@,
        ),
        None => match first_field_repeat(secs, 0) {
            Some((k, j)) => Some(
                "duplicate field '"@ + field_name(field_kind(section_fields(secs[k])[j]))
                    + "' in validated_by of assumption '"@ + a.name@ + "'"@,
            ),
            None => match first_bad_confidence(secs, 0) {
                Some(c) => Some("confidence '"@ + c + "' in assumption '"@ + a.name@ + "' is outside [0.0, 1.0]"@),
                None => None,
            },
        },
    }
}

// ── implementation ───────────────────────────────────────────────────────────

fn kind_of_section(s: &AssumptionSection) -> (r: u8)
    ensures
        r == section_kind(*s),
{
    match s {
        AssumptionSection::StringAssumption(_) => 0,
        AssumptionSection::ContextSource(_) => 1,
        AssumptionSection::OutOfScope(_) => 2,
        AssumptionSection::ValidatedBy(_) => 3,
    }
}

fn kind_of_field(f: &ValidatedByField) -> (r: u8)
    ensures
        r == field_kind(*f),
{
    match f {
        ValidatedByField::DomainExpert(_) => 0,
        ValidatedByField::Date(_) => 1,
        ValidatedByField::Confidence(_) => 2,
        ValidatedByField::Method(_) => 3,
    }
}

fn section_label(k: u8) -> (r: &'static str)
    ensures
        r@ == section_name(k),
{
    if k == 1 {
        "context_source"
    } else if k == 2 {
        "out_of_scope"
    } else {
        "validated_by"
    }
}

fn field_label(k: u8) -> (r: &'static str)
    ensures
        r@ == field_name(k),
{
    if k == 0 {
        "domain_expert"
    } else if k == 1 {
        "date"
    } else if k == 2 {
        "confidence"
    } else {
        "method"
    }
}

/// The first section that repeats the kind of an earlier one.
fn repeated_section(secs: &Vec<AssumptionSection>) -> (r: Option<usize>)
    ensures
        match r {
            Some(j) => j < secs@.len() && first_repeated_section(secs@, 0) == Some(j as int),
            None => first_repeated_section(secs@, 0) is None,
        },
{
    let mut j: usize = 0;
    while j < secs.len()
        invariant
            j <= secs@.len(),
            first_repeated_section(secs@, 0) == first_repeated_section(secs@, j as int),
        decreases secs.len() - j,
    {
        let kj = kind_of_section(&secs[j]);
        if kj != 0 {
            let mut i: usize = 0;
            while i < j
                invariant
                    i <= j < secs@.len(),
                    kj == section_kind(secs@[j as int]),
                    kj != 0,
                    first_repeated_section(secs@, 0) == first_repeated_section(secs@, j as int),
                    forall|t: int| 0 <= t < i ==> section_kind(#[trigger] secs@[t]) != kj,
                decreases j - i,
            {
                if kind_of_section(&secs[i]) == kj {
                    assert(section_kind(secs@[i as int]) == section_kind(secs@[j as int]));
                    assert(repeats_section(secs@, j as int));
                    return Some(j);
                }
                i += 1;
            }
        }
        assert(!repeats_section(secs@, j as int));
        j += 1;
    }
    None
}

/// The first field that repeats the kind of an earlier one.
fn repeated_field(fs: &Vec<ValidatedByField>) -> (r: Option<usize>)
    ensures
        match r {
            Some(j) => j < fs@.len() && first_repeated_field(fs@, 0) == Some(j as int),
            None => first_repeated_field(fs@, 0) is None,
        },
{
    let mut j: usize = 0;
    while j < fs.len()
        invariant
            j <= fs@.len(),
            first_repeated_field(fs@, 0) == first_repeated_field(fs@, j as int),
        decreases fs.len() - j,
    {
        let kj = kind_of_field(&fs[j]);
        let mut i: usize = 0;
        while i < j
            invariant
                i <= j < fs@.len(),
                kj == field_kind(fs@[j as int]),
                first_repeated_field(fs@, 0) == first_repeated_field(fs@, j as int),
                forall|t: int| 0 <= t < i ==> field_kind(#[trigger] fs@[t]) != kj,
            decreases j - i,
        {
            if kind_of_field(&fs[i]) == kj {
                assert(field_kind(fs@[i as int]) == field_kind(fs@[j as int]));
                assert(repeats_field(fs@, j as int));
                return Some(j);
            }
            i += 1;
        }
        assert(!repeats_field(fs@, j as int));
        j += 1;
    }
    None
}

/// `c` is a confidence literal whose value is at most 1.
pub fn confidence_ok(c: &String) -> (r: bool)
    ensures
        r == confidence_in_range(c@),
{
    let s = c.as_str();
    let n = s.unicode_len();
    if n == 0 {
        return false;
    }
    let first = s.get_char(0);
    if first != '0' && first != '1' {
        return false;
    }
    if n == 1 {
        return true;
    }
    if s.get_char(1) != '.' {
        return false;
    }
    let mut j: usize = 2;
    while j < n
        invariant
            2 <= j <= n,
            n == c@.len(),
            s@ == c@,
            c@[1] == '.',
            first == c@[0],
            forall|t: int| 2 <= t < j ==> is_digit(#[trigger] c@[t]),
            first == '1' ==> forall|t: int| 2 <= t < j ==> #[trigger] c@[t] == '0',
        decreases n - j,
    {
        let d = s.get_char(j);
        if !('0' <= d && d <= '9') {
            return false;
        }
        if first == '1' && d != '0' {
            return false;
        }
        j += 1;
    }
    true
}

/// The first out-of-range confidence of `fs`.
fn bad_confidence_field(fs: &Vec<ValidatedByField>) -> (r: Option<&String>)
    ensures
        match r {
            Some(c) => first_bad_confidence_field(fs@, 0) == Some(c@),
            None => first_bad_confidence_field(fs@, 0) is None,
        },
{
    let mut j: usize = 0;
    while j < fs.len()
        invariant
            j <= fs@.len(),
            first_bad_confidence_field(fs@, 0) == first_bad_confidence_field(fs@, j as int),
        decreases fs.len() - j,
    {
        if let ValidatedByField::Confidence(c) = &fs[j] {
            if !confidence_ok(c) {
                return Some(c);
            }
        }
        j += 1;
    }
    None
}

/// Checks the rules of assumption block `a`.
pub fn check_assumption(a: &AssumptionNode) -> (r: Result<(), CompilerError>)
    ensures
        type_outcome(r, assumption_error(*a)),
{
    let secs = &a.sections;
    if let Some(j) = repeated_section(secs) {
        let k = kind_of_section(&secs[j]);
        return Err(CompilerError::TypeCheckError(join5(
            "duplicate section '",
            section_label(k),
            "' in assumption '",
            a.name.as_str(),
            "'",
        )));
    }
    // a repeated field, in the first `validated_by` that has one
    let mut k: usize = 0;
    while k < secs.len()
        invariant
            secs == &a.sections,
            k <= secs@.len(),
            first_repeated_section(secs@, 0) is None,
            first_field_repeat(secs@, 0) == first_field_repeat(secs@, k as int),
        decreases secs.len() - k,
    {
        if let AssumptionSection::ValidatedBy(vb) = &secs[k] {
            if let Some(j) = repeated_field(&vb.fields) {
                let fk = kind_of_field(&vb.fields[j]);
                return Err(CompilerError::TypeCheckError(join5(
                    "duplicate field '",
                    field_label(fk),
                    "' in validated_by of assumption '",
                    a.name.as_str(),
                    "'",
                )));
            }
        } else {
            assert(first_repeated_field(section_fields(secs@[k as int]), 0) is None);
        }
        k += 1;
    }
    // a confidence out of range, in the first `validated_by` that has one
    let mut k: usize = 0;
    while k < secs.len()
        invariant
            secs == &a.sections,
            k <= secs@.len(),
            first_repeated_section(secs@, 0) is None,
            first_field_repeat(secs@, 0) is None,
            first_bad_confidence(secs@, 0) == first_bad_confidence(secs@, k as int),
        decreases secs.len() - k,
    {
        if let AssumptionSection::ValidatedBy(vb) = &secs[k] {
            if let Some(c) = bad_confidence_field(&vb.fields) {
                return Err(CompilerError::TypeCheckError(join5(
                    "confidence '",
                    c.as_str(),
                    "' in assumption '",
                    a.name.as_str(),
                    "' is outside [0.0, 1.0]",
                )));
            }
        } else {
            assert(first_bad_confidence_field(section_fields(secs@[k as int]), 0) is None);
        }
        k += 1;
    }
    Ok(())
}

// ── laws ─────────────────────────────────────────────────────────────────────

proof fn lemma_no_repeated_section(secs: Seq<AssumptionSection>, j: int, t: int)
    requires
        0 <= j <= t < secs.len(),
        first_repeated_section(secs, j) is None,
    ensures
        !repeats_section(secs, t),
    decreases t - j,
{
    if j < t {
        lemma_no_repeated_section(secs, j + 1, t);
    }
}

proof fn lemma_no_repeated_field(fs: Seq<ValidatedByField>, j: int, t: int)
    requires
        0 <= j <= t < fs.len(),
        first_repeated_field(fs, j) is None,
    ensures
        !repeats_field(fs, t),
    decreases t - j,
{
    if j < t {
        lemma_no_repeated_field(fs, j + 1, t);
    }
}

proof fn lemma_no_field_repeat(secs: Seq<AssumptionSection>, k: int, t: int)
    requires
        0 <= k <= t < secs.len(),
        first_field_repeat(secs, k) is None,
    ensures
        first_repeated_field(section_fields(secs[t]), 0) is None,
    decreases t - k,
{
    if k < t {
        lemma_no_field_repeat(secs, k + 1, t);
    }
}

proof fn lemma_no_bad_confidence_field(fs: Seq<ValidatedByField>, j: int, t: int)
    requires
        0 <= j <= t < fs.len(),
        first_bad_confidence_field(fs, j) is None,
    ensures
        fs[t] matches ValidatedByField::Confidence(c) ==> confidence_in_range(c@),
    decreases t - j,
{
    if j < t {
        lemma_no_bad_confidence_field(fs, j + 1, t);
    }
}

proof fn lemma_no_bad_confidence(secs: Seq<AssumptionSection>, k: int, t: int)
    requires
        0 <= k <= t < secs.len(),
        first_bad_confidence(secs, k) is None,
    ensures
        first_bad_confidence_field(section_fields(secs[t]), 0) is None,
    decreases t - k,
{
    if k < t {
        lemma_no_bad_confidence(secs, k + 1, t);
    }
}

/// An assumption block that the rules accept repeats no section other than
/// its strings, repeats no field in any `validated_by`, and gives every
/// confidence in `[0.0, 1.0]`.
pub proof fn lemma_accepted_assumption(a: AssumptionNode)
    requires
        assumption_error(a) is None,
    ensures
        forall|i: int, j: int|
            0 <= i < j < a.sections@.len() && section_kind(a.sections@[j]) != 0 ==> section_kind(
                #[trigger] a.sections@[i],
            ) != section_kind(#[trigger] a.sections@[j]),
        forall|k: int, i: int, j: int|
            0 <= k < a.sections@.len() && 0 <= i < j < section_fields(#[trigger] a.sections@[k]).len() ==> field_kind(
                #[trigger] section_fields(a.sections@[k])[i],
            ) != field_kind(#[trigger] section_fields(a.sections@[k])[j]),
        forall|k: int, j: int|
            0 <= k < a.sections@.len() && 0 <= j < section_fields(#[trigger] a.sections@[k]).len() ==> (
            #[trigger] section_fields(a.sections@[k])[j] matches ValidatedByField::Confidence(c) ==> confidence_in_range(
                c@,
            )),
{
    let secs = a.sections@;
    assert forall|i: int, j: int|
        0 <= i < j < secs.len() && section_kind(secs[j]) != 0 implies section_kind(#[trigger] secs[i]) != section_kind(
        #[trigger] secs[j],
    ) by {
        lemma_no_repeated_section(secs, 0, j);
    }
    assert forall|k: int, i: int, j: int|
        0 <= k < secs.len() && 0 <= i < j < section_fields(#[trigger] secs[k]).len() implies field_kind(
        #[trigger] section_fields(secs[k])[i],
    ) != field_kind(#[trigger] section_fields(secs[k])[j]) by {
        lemma_no_field_repeat(secs, 0, k);
        lemma_no_repeated_field(section_fields(secs[k]), 0, j);
    }
    assert forall|k: int, j: int|
        0 <= k < secs.len() && 0 <= j < section_fields(#[trigger] secs[k]).len() implies (
        #[trigger] section_fields(secs[k])[j] matches ValidatedByField::Confidence(c) ==> confidence_in_range(c@)) by {
        lemma_no_field_repeat(secs, 0, k);
        lemma_no_bad_confidence(secs, 0, k);
        lemma_no_bad_confidence_field(section_fields(secs[k]), 0, j);
    }
}

} // verus!
