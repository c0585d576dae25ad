//! Behaviour of the library on concrete inputs: the type checker's
//! diagnostics, the contextual and temporal rules, the edge case count, the
//! parser's tokens and errors, the SMT-LIB query and the reading of Z3's
//! answer.
use firmum::cli::{run_acs, run_ast, run_build, run_check, run_proof, Cli, Command, Report};
use firmum::typeck::acs::{acs_gate, coverage_gap};
use firmum::typeck::assumptions::confidence_ok;
use firmum::codegen::emit_typescript;
use firmum::errors::CompilerError;
use firmum::fir::{
    BinOpKind, ComparisonOp, ContextFieldValue, ExprNode, Number, PredicateNode, Program,
    TemporalType, TimeUnit, TypeNode, ValidationMethod,
};
use firmum::parser::{decimal_text, keyword, parse};
use firmum::smt::cache::{lookup, store};
use firmum::smt::emit::{emit_declaration, emit_predicate, symbol};
use firmum::smt::orchestrate;
use firmum::smt::run::{interpret_z3_output, SmtResult};
use firmum::typeck;
use firmum::typeck::acs::{acs_inputs, edge_case_count, method_base_weight};
use firmum::typeck::contextual::{check_ctx_conflicts, first_name_segment};

fn program(src: &str) -> Program {
    parse(src).expect("parse failed")
}

fn type_error(src: &str) -> String {
    match typeck::check(&program(src)) {
        Err(CompilerError::TypeCheckError(m)) => m,
        other => panic!("expected a type error, got {other:?}"),
    }
}

const EMPTY_PROOF: &str = "proof Foo {\n  strategy: smt_solver(z3)\n  verify Foo {}\n}\n";

// ── declaration rules ─────────────────────────────────────────────────────────

#[test]
fn test_rule_messages_are_exact() {
    let m = type_error("intent Foo {}\nassumption Bar {}\nproof Foo {\n strategy: induction\n verify Foo {}\n}");
    assert_eq!(m, "declaration name mismatch: intent 'Foo' vs assumption 'Bar'");
    let m = type_error("intent Foo {}\nassumption Foo {}\nproof Baz {\n strategy: induction\n verify Foo {}\n}");
    assert_eq!(m, "declaration name mismatch: intent 'Foo' vs proof 'Baz'");
    let m = type_error("intent Foo {}\nassumption Foo {}\nproof Foo {\n strategy: induction\n verify Foo {}\n verify Other {}\n}");
    assert_eq!(m, "verify 'Other' does not reference intent 'Foo'");
}

#[test]
fn test_old_in_invariant_rejected() {
    let src = format!("intent Foo {{\n  invariant:\n    old(x) == x\n}}\nassumption Foo {{}}\n{EMPTY_PROOF}");
    assert_eq!(type_error(&src), "old() is not valid inside an invariant");
}

#[test]
fn test_old_in_refined_parameter_rejected() {
    let src = format!("intent Foo {{\n  output:\n    r : Int where r > old(r)\n}}\nassumption Foo {{}}\n{EMPTY_PROOF}");
    assert_eq!(
        type_error(&src),
        "old() is not valid in the refined-type predicate of parameter 'r'"
    );
}

#[test]
fn test_old_in_postcondition_and_verify_accepted() {
    let src = "intent Foo {\n  input:\n    x : Int\n  postcondition:\n    x == old(x) + 1\n}\nassumption Foo {}\nproof Foo {\n  strategy: smt_solver(z3)\n  verify Foo {\n    assert x > old(x)\n  }\n}\n";
    assert!(typeck::check(&program(src)).is_ok());
}

#[test]
fn test_first_failing_declaration_is_reported() {
    let src = "intent A {}\nassumption X {}\nproof A {\n strategy: induction\n verify A {}\n}\nintent B {}\nassumption Y {}\nproof B {\n strategy: induction\n verify B {}\n}\n";
    assert_eq!(type_error(src), "declaration name mismatch: intent 'A' vs assumption 'X'");
}

// ── contextual and temporal types ─────────────────────────────────────────────

#[test]
fn test_cross_context_message_is_exact() {
    let src = format!("intent Foo {{\n  input:\n    a : Amount<Banking>\n    b : Amount<Crypto>\n  precondition:\n    a.value + b.value > 0\n}}\nassumption Foo {{}}\n{EMPTY_PROOF}");
    assert_eq!(
        type_error(&src),
        "cross-context arithmetic: type 'Amount' is used in context 'Banking' and context 'Crypto' within the same expression"
    );
}

#[test]
fn test_contexts_in_separate_branches_accepted() {
    // Each side of AND is its own expression.
    let src = format!("intent Foo {{\n  input:\n    a : Amount<Banking>\n    b : Amount<Crypto>\n  precondition:\n    a > 0 AND b > 0\n}}\nassumption Foo {{}}\n{EMPTY_PROOF}");
    assert!(typeck::check(&program(&src)).is_ok());
}

#[test]
fn test_cross_context_assignment_rejected() {
    let src = "intent Foo {\n  input:\n    a : Amount<Banking>\n    b : Amount<Crypto>\n}\nassumption Foo {}\nproof Foo {\n  strategy: smt_solver(z3)\n  verify Foo {\n    atomic {\n      total = a + b\n    }\n  }\n}\n";
    assert!(type_error(src).contains("cross-context arithmetic"));
}

#[test]
fn test_cross_context_compound_assignment_rejected() {
    let src = "intent Foo {\n  input:\n    a : Amount<Banking>\n    b : Amount<Crypto>\n}\nassumption Foo {}\nproof Foo {\n  strategy: smt_solver(z3)\n  verify Foo {\n    a += b\n  }\n}\n";
    assert_eq!(
        type_error(src),
        "cross-context arithmetic: type 'Amount' is used in context 'Banking' and context 'Crypto' within the same expression"
    );
    let same = "intent Foo {\n  input:\n    a : Amount<Banking>\n    b : Amount<Banking>\n}\nassumption Foo {}\nproof Foo {\n  strategy: smt_solver(z3)\n  verify Foo {\n    a += b\n  }\n}\n";
    assert!(typeck::check(&program(same)).is_ok());
}

#[test]
fn test_conflicts_do_not_depend_on_order() {
    let s = |a: &str, b: &str| (a.to_string(), b.to_string());
    assert!(check_ctx_conflicts(&vec![s("Amount", "Banking"), s("Coin", "Crypto"), s("Amount", "Banking")]).is_ok());
    assert!(check_ctx_conflicts(&vec![s("Amount", "Banking"), s("Amount", "Banking"), s("Coin", "Crypto")]).is_ok());
    assert!(check_ctx_conflicts(&vec![s("A", "X"), s("B", "Y"), s("A", "W")]).is_err());
    assert!(check_ctx_conflicts(&vec![s("A", "W"), s("A", "X"), s("B", "Y")]).is_err());
}

#[test]
fn test_different_base_types_do_not_conflict() {
    let src = format!("intent Foo {{\n  input:\n    a : Amount<Banking>\n    b : Price<Crypto>\n  postcondition:\n    a == b\n}}\nassumption Foo {{}}\n{EMPTY_PROOF}");
    assert!(typeck::check(&program(&src)).is_ok());
}

#[test]
fn test_expiring_where_fresh_rejected() {
    let src = format!("intent Foo {{\n  input:\n    x : Fresh<LabResult, 24h>\n    y : Expiring<LabResult, 2h>\n  postcondition:\n    x == y\n}}\nassumption Foo {{}}\n{EMPTY_PROOF}");
    assert_eq!(
        type_error(&src),
        "temporal state conflict: type 'LabResult' is used as Fresh and Expiring within the same expression"
    );
}

#[test]
fn test_check_ctx_conflicts_first_pair() {
    let s = |a: &str, b: &str| (a.to_string(), b.to_string());
    assert!(check_ctx_conflicts(&vec![s("A", "X"), s("B", "Y"), s("A", "X")]).is_ok());
    match check_ctx_conflicts(&vec![s("A", "X"), s("B", "Y"), s("B", "Z"), s("A", "W")]) {
        Err(CompilerError::TypeCheckError(m)) => assert_eq!(
            m,
            "cross-context arithmetic: type 'A' is used in context 'X' and context 'W' within the same expression"
        ),
        other => panic!("expected a conflict, got {other:?}"),
    }
}

#[test]
fn test_first_name_segment() {
    assert_eq!(first_name_segment(&"sender.balance.cents".to_string()), "sender");
    assert_eq!(first_name_segment(&"amount".to_string()), "amount");
    assert_eq!(first_name_segment(&".x".to_string()), "");
}

// ── edge cases ────────────────────────────────────────────────────────────────

#[test]
fn test_edge_cases_each_rule() {
    let src = format!(
        "intent Foo {{\n  input:\n    a : Amount<Banking>\n    b : Amount<Crypto>\n    c : Amount<Banking>\n    n : Int where n > 0\n  output:\n    r : Int where r > 0\n  precondition:\n    n > 1\n  postcondition:\n    r == old(n)\n    r > 0\n  never:\n    x\n    y\n    z\n}}\nassumption Foo {{}}\n{EMPTY_PROOF}"
    );
    // 2 refined × 2 + 1 precondition × 2 + 3 never + 1 old() postcondition × 3
    // + 3 pairs of contextual inputs sharing the base type Amount
    assert_eq!(edge_case_count(&program(&src)), Some(4 + 2 + 3 + 3 + 3));
}

#[test]
fn test_edge_cases_pool_over_declarations() {
    let one = format!("intent Foo {{\n  never:\n    a\n    b\n}}\nassumption Foo {{}}\n{EMPTY_PROOF}");
    let two = format!("{one}\nintent Bar {{\n  precondition:\n    x > 0\n}}\nassumption Bar {{}}\nproof Bar {{\n  strategy: induction\n  verify Bar {{}}\n}}\n");
    assert_eq!(edge_case_count(&program(&one)), Some(2));
    assert_eq!(edge_case_count(&program(&two)), Some(2 + 2));
}

#[test]
fn test_weighting_takes_last_method_and_confidence() {
    let src = format!("intent Foo {{}}\nassumption Foo {{\n  \"a\"\n  validated_by:\n    method: interview\n    confidence: 0.5\n  \"b\"\n  validated_by:\n    method: peer_review\n  context_source:\n    email#user@example.com/thread-1\n}}\n{EMPTY_PROOF}");
    let inputs = acs_inputs(&program(&src));
    let w = &inputs.weightings[0];
    assert_eq!(w.method, Some(ValidationMethod::PeerReview));
    assert_eq!(w.confidence.as_deref(), Some("0.5"));
    assert_eq!(w.strings, 2);
    assert!(w.linked);
}

#[test]
fn test_method_weights() {
    assert_eq!(method_base_weight(&ValidationMethod::FormalAudit), 100);
    assert_eq!(method_base_weight(&ValidationMethod::DocumentReview), 80);
    assert_eq!(method_base_weight(&ValidationMethod::PeerReview), 60);
    assert_eq!(method_base_weight(&ValidationMethod::Interview), 35);
}

// ── parser ────────────────────────────────────────────────────────────────────

#[test]
fn test_keywords_are_not_identifiers() {
    assert!(keyword(&"intent".to_string()));
    assert!(keyword(&"document_review".to_string()));
    assert!(!keyword(&"intentional".to_string()));
    assert!(!keyword(&"ref".to_string()));
    assert!(parse(&format!("let intent = 1\n{EMPTY_PROOF}")).is_err());
    assert!(parse("let intentional = 1").is_ok());
}

#[test]
fn test_parse_error_position() {
    match parse("intent Foo {}\nassumption Foo {}\n\n  bogus") {
        Err(CompilerError::ParseError(m)) => assert_eq!(m, "unexpected input at line 1, column 1"),
        other => panic!("expected a parse error, got {other:?}"),
    }
    match parse("let x = 1\n  let = 2") {
        Err(CompilerError::ParseError(m)) => assert_eq!(m, "unexpected input at line 2, column 3"),
        other => panic!("expected a parse error, got {other:?}"),
    }
    assert!(matches!(parse("   // nothing here\n"), Err(CompilerError::ParseError(_))));
}

#[test]
fn test_integer_out_of_range_is_a_lowering_error() {
    match parse("let x = 18446744073709551616") {
        Err(CompilerError::LoweringError(m)) => {
            assert_eq!(m, "integer literal out of range: 18446744073709551616")
        }
        other => panic!("expected a lowering error, got {other:?}"),
    }
    let p = program("let x = 18446744073709551615");
    assert!(matches!(p.lets[0].expr, ExprNode::Number(Number::Integer(u64::MAX))));
}

#[test]
fn test_comments_and_decimals() {
    let p = program("/* block */ let x = 2.50 // trailing\nlet y = f(a.b, 3) * (c - 1)");
    assert_eq!(p.lets.len(), 2);
    assert!(matches!(&p.lets[0].expr, ExprNode::Number(Number::Decimal(t)) if t == "2.50"));
    match &p.lets[1].expr {
        ExprNode::BinOp { left, .. } => {
            assert!(matches!(&**left, ExprNode::FunctionCall { name, args } if name == "f" && args.len() == 2))
        }
        other => panic!("expected a product, got {other:?}"),
    }
}

#[test]
fn test_expiring_and_nested_types() {
    let src = format!("intent Foo {{\n  input:\n    x : Expiring<Vec<Order, n: Nat>, 5min>\n}}\nassumption Foo {{}}\n{EMPTY_PROOF}");
    let p = program(&src);
    match &p.declarations[0].intent.inputs[0].ty {
        TypeNode::Temporal(TemporalType::Expiring { inner, duration }) => {
            assert!(matches!(&**inner, TypeNode::Dependent { base, .. } if base == "Vec"));
            assert!(matches!(duration.unit, firmum::fir::TimeUnit::Minute));
        }
        other => panic!("expected an Expiring type, got {other:?}"),
    }
}

#[test]
fn test_not_and_parenthesised_predicates() {
    let src = format!("intent Foo {{\n  precondition:\n    !(a == b OR c == d) AND (e + 1) * 2 <= f\n}}\nassumption Foo {{}}\n{EMPTY_PROOF}");
    let p = program(&src);
    match &p.declarations[0].intent.preconditions[0] {
        PredicateNode::And(l, r) => {
            assert!(matches!(&**l, PredicateNode::Not(inner) if matches!(&**inner, PredicateNode::Or(_, _))));
            assert!(matches!(&**r, PredicateNode::Comparison { op: ComparisonOp::Le, .. }));
        }
        other => panic!("expected a conjunction, got {other:?}"),
    }
}

#[test]
fn test_operators_group_to_the_left() {
    let p = program("let x = a - b - c\nlet y = a + b * c");
    match &p.lets[0].expr {
        ExprNode::BinOp { left, op: BinOpKind::Sub, right } => {
            assert!(matches!(&**left, ExprNode::BinOp { op: BinOpKind::Sub, .. }));
            assert!(matches!(&**right, ExprNode::Identifier(n) if n == "c"));
        }
        other => panic!("expected a difference, got {other:?}"),
    }
    match &p.lets[1].expr {
        ExprNode::BinOp { left, op: BinOpKind::Add, right } => {
            assert!(matches!(&**left, ExprNode::Identifier(n) if n == "a"));
            assert!(matches!(&**right, ExprNode::BinOp { op: BinOpKind::Mul, .. }));
        }
        other => panic!("expected a sum, got {other:?}"),
    }
}

#[test]
fn test_and_binds_tighter_than_or() {
    let src = format!("intent Foo {{\n  precondition:\n    a == 1 OR b == 2 AND c == 3\n}}\nassumption Foo {{}}\n{EMPTY_PROOF}");
    let p = program(&src);
    match &p.declarations[0].intent.preconditions[0] {
        PredicateNode::Or(l, r) => {
            assert!(matches!(&**l, PredicateNode::Comparison { op: ComparisonOp::Eq, .. }));
            assert!(matches!(&**r, PredicateNode::And(_, _)));
        }
        other => panic!("expected a disjunction, got {other:?}"),
    }
}

#[test]
fn test_two_character_operators() {
    let src = format!("intent Foo {{\n  precondition:\n    a <= b\n    a >= b\n    a < b\n    a != b\n}}\nassumption Foo {{}}\n{EMPTY_PROOF}");
    let p = program(&src);
    let ops: Vec<ComparisonOp> = p.declarations[0]
        .intent
        .preconditions
        .iter()
        .map(|pred| match pred {
            PredicateNode::Comparison { op, .. } => *op,
            other => panic!("expected a comparison, got {other:?}"),
        })
        .collect();
    assert_eq!(ops, vec![ComparisonOp::Le, ComparisonOp::Ge, ComparisonOp::Lt, ComparisonOp::Ne]);
}

#[test]
fn test_time_units() {
    let src = format!(
        "intent Foo {{\n  input:\n    a : Fresh<T, 10ms>\n    b : Fresh<T, 2min>\n    c : Fresh<T, 5s>\n    d : Fresh<T, 3h>\n    e : Fresh<T, 1d>\n}}\nassumption Foo {{}}\n{EMPTY_PROOF}"
    );
    let p = program(&src);
    let units: Vec<TimeUnit> = p.declarations[0]
        .intent
        .inputs
        .iter()
        .map(|param| match &param.ty {
            TypeNode::Temporal(TemporalType::Fresh { duration, .. }) => duration.unit,
            other => panic!("expected a Fresh type, got {other:?}"),
        })
        .collect();
    assert_eq!(
        units,
        vec![TimeUnit::Millisecond, TimeUnit::Minute, TimeUnit::Second, TimeUnit::Hour, TimeUnit::Day]
    );
}

#[test]
fn test_qualified_names_and_boolean_boundary() {
    let p = program("let x = a.b.c");
    assert!(matches!(&p.lets[0].expr, ExprNode::Identifier(n) if n == "a.b.c"));
    // a keyword cannot continue a qualified name
    assert!(matches!(parse("let x = a.intent"), Err(CompilerError::ParseError(_))));
    // `trueness` is not the boolean `true`
    let ok = program("type Amount in context Banking { flag: true }");
    assert!(matches!(ok.contexts[0].fields[0].value, ContextFieldValue::Boolean(true)));
    assert!(matches!(
        parse("type Amount in context Banking { flag: trueness }"),
        Err(CompilerError::ParseError(_))
    ));
}

#[test]
fn test_decimal_text() {
    assert_eq!(decimal_text(0), "0");
    assert_eq!(decimal_text(1207), "1207");
    assert_eq!(decimal_text(u64::MAX as u128), "18446744073709551615");
}

// ── SMT-LIB query ─────────────────────────────────────────────────────────────

#[test]
fn test_emit_declaration_exact() {
    let src = "intent Foo {\n  input:\n    x : Int\n  precondition:\n    x > 0\n  postcondition:\n    y == old(x) + 1\n}\nassumption Foo {}\nproof Foo {\n  strategy: smt_solver(z3)\n  lemma L {\n    forall v: Int => f(v, 2) >= 0\n  }\n  verify Foo {}\n}\n";
    let p = program(src);
    assert_eq!(
        emit_declaration(&p.declarations[0]),
        "; Foo\n(declare-fun x () Int)\n(declare-fun f (Int Int) Int)\n(declare-fun v () Int)\n(declare-fun y () Int)\n(declare-fun x_old () Int)\n(assert (> x 0))\n(assert (forall ((v Int)) (>= (f v 2) 0)))\n(assert (not (= y (+ x_old 1))))\n(check-sat)\n"
    );
}

#[test]
fn test_emit_predicate_and_symbols() {
    let pred = PredicateNode::Comparison {
        left: ExprNode::Identifier("a.b".to_string()),
        op: ComparisonOp::Ne,
        right: ExprNode::OldValue("c-d".to_string()),
    };
    assert_eq!(emit_predicate(&pred).unwrap(), "(distinct a_b c_d_old)");
    assert_eq!(symbol(&"x.y(z)".to_string()), "x_y_z_");
}

#[test]
fn test_emit_conjunction_of_postconditions() {
    let src = "intent Foo {\n  postcondition:\n    a == 1\n    b == 2\n}\nassumption Foo {}\nproof Foo {\n  strategy: induction\n  verify Foo {}\n}\n";
    let text = emit_declaration(&program(src).declarations[0]);
    assert!(text.contains("(assert (not (and (= a 1) (= b 2))))\n"));
}

// ── Z3's answer ───────────────────────────────────────────────────────────────

#[test]
fn test_interpret_z3_output() {
    assert_eq!(interpret_z3_output("unsat\n"), SmtResult::Unsat);
    assert_eq!(interpret_z3_output("  sat \r\n(model)\n"), SmtResult::Sat);
    assert_eq!(interpret_z3_output("unknown\n"), SmtResult::Unknown);
    assert_eq!(interpret_z3_output(""), SmtResult::Unknown);
    assert_eq!(interpret_z3_output("\nunsat\n"), SmtResult::Unknown);
    assert_eq!(interpret_z3_output("sat extra"), SmtResult::Unknown);
}

// ── stages and commands ───────────────────────────────────────────────────────

fn not_yet(r: Result<(), CompilerError>, stage: &str) {
    match r {
        Err(CompilerError::NotYetImplemented(s)) => assert_eq!(s, stage),
        other => panic!("expected NotYetImplemented, got {other:?}"),
    }
}

#[test]
fn test_unbuilt_stages() {
    let p = program(&format!("intent Foo {{}}\nassumption Foo {{}}\n{EMPTY_PROOF}"));
    not_yet(orchestrate(&p), "SMT orchestrator (Stage 4)");
    not_yet(store(b"k", b"v"), "ProofCache (Stage 4)");
    assert!(matches!(lookup(b"k"), Err(CompilerError::NotYetImplemented("ProofCache (Stage 4)"))));
    assert!(matches!(emit_typescript(&p), Err(CompilerError::NotYetImplemented("TypeScript codegen (Stage 5)"))));
    not_yet(run_proof("m"), "proof command (Stage 4)");
}

#[test]
fn test_commands() {
    let good = format!("intent Foo {{}}\nassumption Foo {{}}\n{EMPTY_PROOF}");
    assert!(run_check(&good).is_ok());
    not_yet(run_build(&good, Ok(7000)), "SMT orchestrator (Stage 4)");
    assert!(matches!(run_build("intent", Ok(10000)), Err(CompilerError::ParseError(_))));
    let check = Cli { command: Command::Check { file: "a.frm".to_string() } };
    assert_eq!(check.source_file().map(|s| s.as_str()), Some("a.frm"));
    assert!(matches!(check.run(&good, Ok(0)), Ok(Report::Checked)));
    let build = Cli { command: Command::Build { file: "a.frm".to_string() } };
    assert!(matches!(build.run(&good, Ok(6999)), Err(CompilerError::AcsError(_))));
    let acs = Cli { command: Command::Acs { file: "a.frm".to_string() } };
    assert!(matches!(acs.run(&good, Ok(0)), Ok(Report::Acs(i)) if i.edge_cases == Some(0)));
    let ast = Cli { command: Command::Ast { file: "a.frm".to_string() } };
    assert!(matches!(ast.run(&good, Ok(0)), Ok(Report::Tree(p)) if p.declarations.len() == 1));
    let proof = Cli { command: Command::Proof { module_id: "m".to_string() } };
    assert!(proof.source_file().is_none());
    assert!(matches!(proof.run("", Ok(0)), Err(CompilerError::NotYetImplemented("proof command (Stage 4)"))));
}

#[test]
fn test_build_threshold_policy() {
    let good = format!("intent Foo {{}}\nassumption Foo {{}}\n{EMPTY_PROOF}");
    match run_build(&good, Ok(1000)) {
        Err(CompilerError::AcsError(m)) => {
            assert_eq!(m, "ACS is below 0.50: hard error, mandatory human review required")
        }
        other => panic!("expected an ACS error, got {other:?}"),
    }
    match run_build(&good, Ok(5000)) {
        Err(CompilerError::AcsError(m)) => assert_eq!(m, "ACS is below the 0.70 build threshold"),
        other => panic!("expected an ACS error, got {other:?}"),
    }
    not_yet(run_build(&good, Ok(7000)), "SMT orchestrator (Stage 4)");
    // a score that could not be computed stops the build with its reason
    let why = CompilerError::AcsError("no score".to_string());
    assert_eq!(run_build(&good, Err(why.clone())), Err(why));
    // type errors come before the score
    let bad = format!("intent Foo {{}}\nassumption Bar {{}}\n{EMPTY_PROOF}");
    assert!(matches!(run_build(&bad, Ok(0)), Err(CompilerError::TypeCheckError(_))));
    assert!(acs_gate(7000).is_ok());
    assert!(matches!(acs_gate(6999), Err(CompilerError::AcsError(_))));
}

#[test]
fn test_repeated_strings_count_once() {
    let src = format!("intent Foo {{}}\nassumption Foo {{\n\"a\"\n\"b\"\n\"a\"\n}}\n{EMPTY_PROOF}");
    let inputs = acs_inputs(&program(&src));
    assert_eq!(inputs.weightings[0].strings, 2);
}

#[test]
fn test_coverage_gap() {
    let bare = format!("intent Foo {{\n  never:\n    silent_failure\n    partial_execution\n}}\nassumption Foo {{}}\n{EMPTY_PROOF}");
    assert_eq!(coverage_gap(&acs_inputs(&program(&bare))), Some(2));
    let covered = format!("intent Foo {{\n  never:\n    silent_failure\n}}\nassumption Foo {{\n\"a\"\n}}\n{EMPTY_PROOF}");
    assert_eq!(coverage_gap(&acs_inputs(&program(&covered))), Some(0));
}

#[test]
fn test_parser_notes_limitations() {
    // a contextual type cannot also be refined
    let both = format!("intent Foo {{\n  input:\n    amount : Amount<Banking> where amount > 0\n}}\nassumption Foo {{}}\n{EMPTY_PROOF}");
    assert!(matches!(parse(&both), Err(CompilerError::ParseError(_))));
    // old() takes a qualified name only
    assert!(matches!(parse("let x = old(f(y))"), Err(CompilerError::ParseError(_))));
    // true and false are no predicate terms
    let boolean = format!("intent Foo {{\n  precondition:\n    flag == true\n}}\nassumption Foo {{}}\n{EMPTY_PROOF}");
    assert!(matches!(parse(&boolean), Err(CompilerError::ParseError(_))));
}

#[test]
fn test_program_needs_a_declaration() {
    let m = "the program has no declaration: at least one intent, assumption and proof triple is required";
    assert_eq!(type_error("let x = 1"), m);
    assert_eq!(type_error("type Amount in context Banking { unit: \"USD\" }"), m);
    let empty = Program { contexts: vec![], lets: vec![], declarations: vec![] };
    assert!(matches!(typeck::check(&empty), Err(CompilerError::TypeCheckError(t)) if t == m));
}

#[test]
fn test_validated_by_rules() {
    let with = |body: &str| format!("intent Foo {{}}\nassumption Foo {{\n{body}\n}}\n{EMPTY_PROOF}");
    assert_eq!(
        type_error(&with("validated_by:\n confidence: 1.999")),
        "confidence '1.999' in assumption 'Foo' is outside [0.0, 1.0]"
    );
    assert!(typeck::check(&program(&with("validated_by:\n confidence: 1.000"))).is_ok());
    assert!(typeck::check(&program(&with("validated_by:\n confidence: 0.92"))).is_ok());
    assert!(typeck::check(&program(&with("validated_by:\n confidence: 1"))).is_ok());
    assert_eq!(
        type_error(&with("validated_by:\n method: interview\n method: formal_audit")),
        "duplicate field 'method' in validated_by of assumption 'Foo'"
    );
    assert_eq!(
        type_error(&with("out_of_scope: \"a\"\nvalidated_by:\n method: interview\nout_of_scope: \"b\"")),
        "duplicate section 'out_of_scope' in assumption 'Foo'"
    );
    // assumption strings may repeat
    assert!(typeck::check(&program(&with("\"a\"\n\"b\""))).is_ok());
    assert!(confidence_ok(&"0.5".to_string()));
    assert!(!confidence_ok(&"1.01".to_string()));
}

#[test]
fn test_error_messages() {
    assert_eq!(CompilerError::ParseError("x".to_string()).message(), "parse error: x");
    assert_eq!(CompilerError::LoweringError("x".to_string()).message(), "lowering error: x");
    assert_eq!(CompilerError::TypeCheckError("x".to_string()).message(), "type error: x");
    assert_eq!(CompilerError::AcsError("x".to_string()).message(), "ACS error: x");
    assert_eq!(CompilerError::SmtError("x".to_string()).message(), "SMT error: x");
    assert_eq!(CompilerError::CertError("x".to_string()).message(), "certificate error: x");
    assert_eq!(CompilerError::IoError("x".to_string()).message(), "I/O error: x");
    assert_eq!(CompilerError::NotYetImplemented("lowering").message(), "lowering is not yet implemented");
}

#[test]
fn test_run_reports_what_the_subcommand_returns() {
    let good = format!("intent Foo {{}}\nassumption Foo {{}}\n{EMPTY_PROOF}");
    let mismatch = "intent Foo {}\nassumption Bar {}\nproof Foo {\n strategy: induction\n verify Foo {}\n}".to_string();
    let broken = "intent".to_string();
    let file = "a.frm".to_string();
    for src in [&good, &mismatch, &broken] {
        let check = Cli { command: Command::Check { file: file.clone() } }.run(src, Ok(9000));
        match (check, run_check(src)) {
            (Ok(Report::Checked), Ok(())) => {},
            (Err(a), Err(b)) => assert_eq!(a, b),
            _ => panic!("check disagrees with run_check"),
        }
        let build = Cli { command: Command::Build { file: file.clone() } }.run(src, Ok(9000));
        assert_eq!(build.err(), run_build(src, Ok(9000)).err());
        let acs = Cli { command: Command::Acs { file: file.clone() } }.run(src, Ok(0));
        match (acs, run_acs(src)) {
            (Ok(Report::Acs(a)), Ok(b)) => assert_eq!(a, b),
            (Err(a), Err(b)) => assert_eq!(a, b),
            _ => panic!("acs disagrees with run_acs"),
        }
        let ast = Cli { command: Command::Ast { file: file.clone() } }.run(src, Ok(0));
        match (ast, run_ast(src)) {
            (Ok(Report::Tree(a)), Ok(b)) => assert_eq!(a, b),
            (Err(a), Err(b)) => assert_eq!(a, b),
            _ => panic!("ast disagrees with run_ast"),
        }
    }
    // check is the type checker's verdict on the parsed program
    assert_eq!(run_check(&mismatch), typeck::check(&program(&mismatch)));
    assert_eq!(run_check(&good), typeck::check(&program(&good)));
}

#[test]
fn test_edge_cases_count_every_same_base_pair() {
    let src = format!(
        "intent Foo {{\n  input:\n    a : Amount<Banking>\n    b : Amount<Crypto>\n    c : Amount<Banking>\n    d : Amount<Fiat>\n    e : Rate<Banking>\n}}\nassumption Foo {{}}\n{EMPTY_PROOF}"
    );
    // four inputs over Amount give 4·3/2 pairs; Rate pairs with nothing
    assert_eq!(edge_case_count(&program(&src)), Some(6));
}
