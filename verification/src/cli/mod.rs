//! The commands of the `firmum` tool and what each computes.
//!
//! Reading the file that a command names and printing what it reports happen
//! outside the library; here each command goes from the text of its file to
//! its result.

use vstd::prelude::*;
use crate::errors::CompilerError;
use crate::fir::Program;
use crate::errors::type_outcome;
use crate::grammar::{ParseFailure, program_of};
use crate::parser::parse;
use crate::smt::{not_yet, orchestrate};
use crate::typeck;
use crate::typeck::check_error;
use crate::typeck::acs::{AcsInputs, acs_gate, acs_inputs, gate_error, inputs_of};
use crate::typeck::congruence::{lemma_check_error_by_view, lemma_inputs_by_view, same_inputs};
use crate::fir::model::ProgramM;

verus! {

pub enum Command {
    /// Type check and compute ACS, no Z3
    Check { file: String },
    /// Full build: type check + Z3 verification + certificate emission
    Build { file: String },
    /// Print proof certificate for a module
    Proof { module_id: String },
    /// Print ACS score and coverage gap report
    Acs { file: String },
    /// Print the parsed program (debugging aid)
    Ast { file: String },
}

pub struct Cli {
    pub command: Command,
}

/// What a command reports when it succeeds.
pub enum Report {
    /// The program type-checks.
    Checked,
    /// The program was built.
    Built,
    /// What the assumption coverage score is computed from.
    Acs(AcsInputs),
    /// The parsed program.
    Tree(Program),
}

/// `r` fails as parsing a text fails with `f`.
pub open spec fn parse_failed<T>(r: Result<T, CompilerError>, f: ParseFailure) -> bool {
    match f {
        ParseFailure::Syntax(m) => r matches Err(CompilerError::ParseError(t)) && t@ == m,
        ParseFailure::Literal(m) => r matches Err(CompilerError::LoweringError(t)) && t@ == m,
    }
}

/// What `check` owes on the text `source`: the failure of parsing, or the
/// verdict of the type checker on the parsed program.
pub open spec fn check_outcome(r: Result<(), CompilerError>, source: Seq<char>) -> bool {
    match program_of(source) {
        Err(f) => parse_failed(r, f),
        Ok(m) => exists|p: Program| p@ == m && #[trigger] type_outcome(r, check_error(p)),
    }
}

/// What `build` owes on the text `source` when the program it holds scores
/// `score` (in basis points, or the reason it has no score): as `check`;
/// then, for a program that type-checks, the build threshold policy on the
/// score; then the verification stage, which does not exist yet.
pub open spec fn build_outcome(r: Result<(), CompilerError>, source: Seq<char>, score: Result<u32, CompilerError>) -> bool {
    match program_of(source) {
        Err(f) => parse_failed(r, f),
        Ok(m) => exists|p: Program|
            p@ == m && #[trigger] build_verdict(r, check_error(p), score),
    }
}

/// A build whose type checker said `error` and whose program scores `score`.
pub open spec fn build_verdict(r: Result<(), CompilerError>, error: Option<Seq<char>>, score: Result<u32, CompilerError>) -> bool {
    match error {
        Some(msg) => r matches Err(CompilerError::TypeCheckError(t)) && t@ == msg,
        None => match score {
            Err(e) => r == Err::<(), CompilerError>(e),
            Ok(bp) => match gate_error(bp) {
                Some(msg) => r matches Err(CompilerError::AcsError(t)) && t@ == msg,
                None => not_yet(r, "SMT orchestrator (Stage 4)"@),
            },
        },
    }
}

/// What `acs` owes on the text `source`: the failure of parsing, or the
/// inputs of the coverage score of the parsed program.
pub open spec fn acs_outcome(r: Result<AcsInputs, CompilerError>, source: Seq<char>) -> bool {
    match program_of(source) {
        Err(f) => parse_failed(r, f),
        Ok(m) => r matches Ok(x) && exists|p: Program| p@ == m && #[trigger] inputs_of(x, p),
    }
}

/// What `ast` owes on the text `source`: the failure of parsing, or the
/// parsed program.
pub open spec fn ast_outcome(r: Result<Program, CompilerError>, source: Seq<char>) -> bool {
    match program_of(source) {
        Err(f) => parse_failed(r, f),
        Ok(m) => r matches Ok(p) && p@ == m,
    }
}

/// The report of a run of `command` on `source`, where a build is held to
/// the coverage score `build_score`.
pub open spec fn run_outcome(
    command: Command,
    r: Result<Report, CompilerError>,
    source: Seq<char>,
    build_score: Result<u32, CompilerError>,
) -> bool {
    match command {
        Command::Check { .. } => check_outcome(
            match r {
                Ok(_) => Ok(()),
                Err(e) => Err(e),
            },
            source,
        ) && (r is Ok ==> r matches Ok(Report::Checked)),
        Command::Build { .. } => build_outcome(
            match r {
                Ok(_) => Ok(()),
                Err(e) => Err(e),
            },
            source,
            build_score,
        ) && r is Err,
        Command::Proof { .. } => r matches Err(CompilerError::NotYetImplemented(s)) && s@ == "proof command (Stage 4)"@,
        Command::Acs { .. } => match r {
            Ok(Report::Acs(x)) => acs_outcome(Ok(x), source),
            Ok(_) => false,
            Err(e) => acs_outcome(Err(e), source),
        },
        Command::Ast { .. } => match r {
            Ok(Report::Tree(p)) => ast_outcome(Ok(p), source),
            Ok(_) => false,
            Err(e) => ast_outcome(Err(e), source),
        },
    }
}

impl Cli {
    /// The file whose text the command works on, if it works on one.
    pub fn source_file(&self) -> (r: Option<&String>)
        ensures
            r is None <==> self.command is Proof,
            self.command matches Command::Check { file } ==> r == Some(&file),
            self.command matches Command::Build { file } ==> r == Some(&file),
            self.command matches Command::Acs { file } ==> r == Some(&file),
            self.command matches Command::Ast { file } ==> r == Some(&file),
    {
        match &self.command {
            Command::Check { file } => Some(file),
            Command::Build { file } => Some(file),
            Command::Proof { .. } => None,
            Command::Acs { file } => Some(file),
            Command::Ast { file } => Some(file),
        }
    }

    /// Runs the command on `source`, the text of the file it names (ignored
    /// by `proof`, which names no file). `build_score` is the assumption
    /// coverage score of the program in `source`, in basis points, or why it
    /// has none; only `build` is held to it.
    pub fn run(&self, source: &str, build_score: Result<u32, CompilerError>) -> (r: Result<Report, CompilerError>)
        ensures
            run_outcome(self.command, r, source@, build_score),
    {
        match &self.command {
            Command::Check { .. } => {
                let c = run_check(source);
                match c {
                    Ok(u) => {
                        Ok(Report::Checked)
                    },
                    Err(e) => Err(e),
                }
            },
            Command::Build { .. } => {
                match run_build(source, build_score) {
                    Ok(()) => Ok(Report::Built),
                    Err(e) => Err(e),
                }
            },
            Command::Proof { module_id } => match run_proof(module_id.as_str()) {
                Ok(()) => Ok(Report::Built),
                Err(e) => Err(e),
            },
            Command::Acs { .. } => match run_acs(source) {
                Ok(inputs) => Ok(Report::Acs(inputs)),
                Err(e) => Err(e),
            },
            Command::Ast { .. } => match run_ast(source) {
                Ok(p) => Ok(Report::Tree(p)),
                Err(e) => Err(e),
            },
        }
    }
}

/// Parses `source` and type-checks the program.
pub fn run_check(source: &str) -> (r: Result<(), CompilerError>)
    ensures
        check_outcome(r, source@),
{
    let program = match parse(source) {
        Ok(p) => p,
        Err(e) => {
            return Err(e);
        },
    };
    let r = typeck::check(&program);
    r
}

/// Parses `source`, type-checks the program, holds it to the build threshold
/// policy on its coverage score `score` (in basis points, or why it has none)
/// before any solver runs, and verifies it with Z3; the last stage does not
/// exist yet, so the build never succeeds.
pub fn run_build(source: &str, score: Result<u32, CompilerError>) -> (r: Result<(), CompilerError>)
    ensures
        build_outcome(r, source@, score),
        r is Err,
{
    let program = match parse(source) {
        Ok(p) => p,
        Err(e) => {
            return Err(e);
        },
    };
    let checked = typeck::check(&program);
    match checked {
        Ok(()) => {},
        Err(e) => {
            assert(program@ == program_of(source@)->Ok_0 && build_verdict(Err(e), check_error(program), score));
            return Err(e);
        },
    }
    let bp = match score {
        Ok(bp) => bp,
        Err(e) => {
            assert(program@ == program_of(source@)->Ok_0 && build_verdict(Err(e), check_error(program), score));
            return Err(e);
        },
    };
    match acs_gate(bp) {
        Ok(()) => {},
        Err(e) => {
            assert(program@ == program_of(source@)->Ok_0 && build_verdict(Err(e), check_error(program), score));
            return Err(e);
        },
    }
    let r = orchestrate(&program);
    assert(program@ == program_of(source@)->Ok_0 && build_verdict(r, check_error(program), score));
    r
}

/// Prints the proof certificate of a module (not implemented yet).
pub fn run_proof(module_id: &str) -> (r: Result<(), CompilerError>)
    ensures
        r matches Err(CompilerError::NotYetImplemented(s)) && s@ == "proof command (Stage 4)"@,
{
    Err(CompilerError::NotYetImplemented("proof command (Stage 4)"))
}

/// Parses `source` and extracts what its assumption coverage score is computed from.
pub fn run_acs(source: &str) -> (r: Result<AcsInputs, CompilerError>)
    ensures
        acs_outcome(r, source@),
{
    match parse(source) {
        Ok(p) => {
            let x = acs_inputs(&p);
            Ok(x)
        },
        Err(e) => Err(e),
    }
}

/// Parses `source`.
pub fn run_ast(source: &str) -> (r: Result<Program, CompilerError>)
    ensures
        ast_outcome(r, source@),
{
    parse(source)
}

// ── laws of the commands ─────────────────────────────────────────────────────

/// `a` and `b` are the same error: the same variant carrying the same text.
pub open spec fn same_error(a: CompilerError, b: CompilerError) -> bool {
    match (a, b) {
        (CompilerError::ParseError(x), CompilerError::ParseError(y)) => x@ == y@,
        (CompilerError::LoweringError(x), CompilerError::LoweringError(y)) => x@ == y@,
        (CompilerError::TypeCheckError(x), CompilerError::TypeCheckError(y)) => x@ == y@,
        (CompilerError::AcsError(x), CompilerError::AcsError(y)) => x@ == y@,
        (CompilerError::SmtError(x), CompilerError::SmtError(y)) => x@ == y@,
        (CompilerError::CertError(x), CompilerError::CertError(y)) => x@ == y@,
        (CompilerError::IoError(x), CompilerError::IoError(y)) => x@ == y@,
        (CompilerError::NotYetImplemented(x), CompilerError::NotYetImplemented(y)) => x@ == y@,
        _ => false,
    }
}

/// Two results agree: both succeed with values that `same_value` relates, or
/// both fail with the same error.
pub open spec fn same_result<T, U>(a: Result<T, CompilerError>, b: Result<U, CompilerError>, same_value: spec_fn(T, U) -> bool) -> bool {
    match (a, b) {
        (Ok(x), Ok(y)) => same_value(x, y),
        (Err(x), Err(y)) => same_error(x, y),
        _ => false,
    }
}

proof fn lemma_parse_failed_same<T, U>(a: Result<T, CompilerError>, b: Result<U, CompilerError>, f: ParseFailure, same_value: spec_fn(T, U) -> bool)
    requires
        parse_failed(a, f),
        parse_failed(b, f),
    ensures
        same_result(a, b, same_value),
{
}

/// `check` is parsing followed by the type checker and nothing else: on a text
/// that parses to a program `p` (as the parser's model says, up to the view),
/// what `check` returns is the type checker's verdict on `p`.
pub proof fn lemma_check_is_parse_then_type_check(r: Result<(), CompilerError>, source: Seq<char>, p: Program)
    requires
        check_outcome(r, source),
        program_of(source) == Ok::<ProgramM, ParseFailure>(p@),
    ensures
        type_outcome(r, check_error(p)),
{
    let q = choose|q: Program| q@ == p@ && #[trigger] type_outcome(r, check_error(q));
    lemma_check_error_by_view(p, q);
}

/// `check` has one outcome per text: any two results it may return on the
/// same text agree.
pub proof fn lemma_check_outcome_unique(a: Result<(), CompilerError>, b: Result<(), CompilerError>, source: Seq<char>)
    requires
        check_outcome(a, source),
        check_outcome(b, source),
    ensures
        same_result(a, b, |x: (), y: ()| true),
{
    match program_of(source) {
        Err(f) => lemma_parse_failed_same(a, b, f, |x: (), y: ()| true),
        Ok(m) => {
            let p = choose|p: Program| p@ == m && #[trigger] type_outcome(a, check_error(p));
            let q = choose|q: Program| q@ == m && #[trigger] type_outcome(b, check_error(q));
            lemma_check_error_by_view(p, q);
        },
    }
}

/// `build` has one outcome per text and score: any two results it may return
/// on the same text and score agree.
pub proof fn lemma_build_outcome_unique(
    a: Result<(), CompilerError>,
    b: Result<(), CompilerError>,
    source: Seq<char>,
    score: Result<u32, CompilerError>,
)
    requires
        build_outcome(a, source, score),
        build_outcome(b, source, score),
    ensures
        same_result(a, b, |x: (), y: ()| true),
{
    match program_of(source) {
        Err(f) => lemma_parse_failed_same(a, b, f, |x: (), y: ()| true),
        Ok(m) => {
            let p = choose|p: Program| p@ == m && #[trigger] build_verdict(a, check_error(p), score);
            let q = choose|q: Program| q@ == m && #[trigger] build_verdict(b, check_error(q), score);
            lemma_check_error_by_view(p, q);
            match score {
                Err(e) => {
                    if check_error(p) is None {
                        match e {
                            CompilerError::NotYetImplemented(x) => {},
                            _ => {},
                        }
                    }
                },
                _ => {},
            }
        },
    }
}

/// `ast` has one outcome per text: any two results it may return on the same
/// text agree, two programs up to their views.
pub proof fn lemma_ast_outcome_unique(a: Result<Program, CompilerError>, b: Result<Program, CompilerError>, source: Seq<char>)
    requires
        ast_outcome(a, source),
        ast_outcome(b, source),
    ensures
        same_result(a, b, |x: Program, y: Program| x@ == y@),
{
    match program_of(source) {
        Err(f) => lemma_parse_failed_same(a, b, f, |x: Program, y: Program| x@ == y@),
        Ok(m) => {},
    }
}

/// `acs` has one outcome per text: any two results it may return on the same
/// text agree, the inputs of the score being the same.
pub proof fn lemma_acs_outcome_unique(a: Result<AcsInputs, CompilerError>, b: Result<AcsInputs, CompilerError>, source: Seq<char>)
    requires
        acs_outcome(a, source),
        acs_outcome(b, source),
    ensures
        same_result(a, b, |x: AcsInputs, y: AcsInputs| same_inputs(x, y)),
{
    match program_of(source) {
        Err(f) => lemma_parse_failed_same(a, b, f, |x: AcsInputs, y: AcsInputs| same_inputs(x, y)),
        Ok(m) => {
            let (x, y) = (a->Ok_0, b->Ok_0);
            let p = choose|p: Program| p@ == m && #[trigger] inputs_of(x, p);
            let q = choose|q: Program| q@ == m && #[trigger] inputs_of(y, q);
            lemma_inputs_by_view(x, y, p, q);
        },
    }
}

/// What `Cli::run` reports is what the subcommand that the command names
/// returns on the same text: for `check`, `build`, `proof` and `ast`, any
/// result of `run` agrees with any result that `run_check`, `run_build`,
/// `run_proof`, `run_acs` or `run_ast` may return (success reported as
/// `Checked`, `Built` never, the inputs of the score as they are, the parsed
/// program up to its view).
pub proof fn lemma_run_is_subcommand(
    command: Command,
    r: Result<Report, CompilerError>,
    source: Seq<char>,
    score: Result<u32, CompilerError>,
    check: Result<(), CompilerError>,
    build: Result<(), CompilerError>,
    proof_r: Result<(), CompilerError>,
    acs: Result<AcsInputs, CompilerError>,
    ast: Result<Program, CompilerError>,
)
    requires
        run_outcome(command, r, source, score),
        check_outcome(check, source),
        build_outcome(build, source, score),
        proof_r matches Err(CompilerError::NotYetImplemented(s)) && s@ == "proof command (Stage 4)"@,
        acs_outcome(acs, source),
        ast_outcome(ast, source),
    ensures
        command is Check ==> same_result(r, check, |x: Report, y: ()| x is Checked),
        command is Build ==> same_result(r, build, |x: Report, y: ()| false),
        command is Proof ==> same_result(r, proof_r, |x: Report, y: ()| false),
        command is Ast ==> same_result(r, ast, |x: Report, y: Program| x matches Report::Tree(p) && p@ == y@),
        command is Acs ==> same_result(r, acs, |x: Report, y: AcsInputs| x matches Report::Acs(z) && same_inputs(z, y)),
{
    let unit_of = match r {
        Ok(_) => Ok::<(), CompilerError>(()),
        Err(e) => Err(e),
    };
    match command {
        Command::Check { .. } => lemma_check_outcome_unique(unit_of, check, source),
        Command::Build { .. } => lemma_build_outcome_unique(unit_of, build, source, score),
        Command::Ast { .. } => {
            match r {
                Ok(Report::Tree(p)) => lemma_ast_outcome_unique(Ok(p), ast, source),
                Err(e) => lemma_ast_outcome_unique(Err(e), ast, source),
                _ => {},
            }
        },
        Command::Acs { .. } => {
            match r {
                Ok(Report::Acs(x)) => lemma_acs_outcome_unique(Ok(x), acs, source),
                Err(e) => lemma_acs_outcome_unique(Err(e), acs, source),
                _ => {},
            }
        },
        _ => {},
    }
}

} // verus!
