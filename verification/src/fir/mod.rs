//! Firmum Intermediate Representation (FIR).
//!
//! Six node families: IntentNode, AssumptionNode, ProofNode, TypeNode,
//! PredicateNode, OwnershipNode.
//!
//! Decimal literals are kept as the text in which they were written (for
//! example `0.92`); turning them into floating-point values is left to the
//! code that does floating-point arithmetic on them.
pub mod model;

use vstd::prelude::*;

verus! {

// ============================================================
// Lexical value types
// ============================================================

#[derive(Debug, Clone, PartialEq, Eq)]
pub enum Number {
    Integer(u64),
    /// A decimal literal, as written (`DIGIT+ "." DIGIT+`).
    Decimal(String),
}

#[derive(Debug, Clone, PartialEq, Eq)]
pub struct Duration {
    pub value: Number,
    pub unit: TimeUnit,
}

#[derive(Debug, Clone, Copy, PartialEq, Eq)]
pub enum TimeUnit {
    Millisecond,
    Minute,
    Second,
    Hour,
    Day,
}

// ============================================================
// TypeNode family
// ============================================================

#[derive(Debug, PartialEq, Eq)]
pub enum TypeNode {
    Base(String),
    Refined { base: String, predicate: Box<PredicateNode> },
    Dependent {
        base: String,
        type_param: Box<TypeNode>,
        value_param_name: String,
        value_param_type: String,
    },
    Contextual { base: String, context: String },
    Temporal(TemporalType),
}

#[derive(Debug, PartialEq, Eq)]
pub enum TemporalType {
    Fresh { inner: Box<TypeNode>, duration: Duration },
    Expiring { inner: Box<TypeNode>, duration: Duration },
    Stale(Box<TypeNode>),
}

// ============================================================
// PredicateNode family
// ============================================================

#[derive(Debug, PartialEq, Eq)]
pub enum PredicateNode {
    Or(Box<PredicateNode>, Box<PredicateNode>),
    And(Box<PredicateNode>, Box<PredicateNode>),
    Not(Box<PredicateNode>),
    Forall { var: String, ty: Box<TypeNode>, body: Box<PredicateNode> },
    Exists { var: String, ty: Box<TypeNode>, body: Box<PredicateNode> },
    Comparison { left: ExprNode, op: ComparisonOp, right: ExprNode },
}

#[derive(Debug, Clone, Copy, PartialEq, Eq)]
pub enum ComparisonOp {
    Eq,
    Ne,
    Le,
    Ge,
    Lt,
    Gt,
}

// ============================================================
// Expression nodes
// ============================================================

#[derive(Debug, PartialEq, Eq)]
pub enum ExprNode {
    Number(Number),
    StringLit(String),
    /// old(qualified_identifier): valid only in postcondition and verify blocks.
    OldValue(String),
    FunctionCall { name: String, args: Vec<ExprNode> },
    /// qualified_identifier (foo or foo.bar.baz)
    Identifier(String),
    BinOp { left: Box<ExprNode>, op: BinOpKind, right: Box<ExprNode> },
}

#[derive(Debug, Clone, Copy, PartialEq, Eq)]
pub enum BinOpKind {
    Add,
    Sub,
    Mul,
    Div,
}

// ============================================================
// IntentNode family
// ============================================================

#[derive(Debug, PartialEq, Eq)]
pub struct Param {
    pub name: String,
    pub ty: TypeNode,
}

#[derive(Debug, PartialEq, Eq)]
pub struct IntentNode {
    pub name: String,
    pub inputs: Vec<Param>,
    pub outputs: Vec<Param>,
    pub preconditions: Vec<PredicateNode>,
    pub postconditions: Vec<PredicateNode>,
    pub invariants: Vec<PredicateNode>,
    pub never: Vec<String>,
}

// ============================================================
// AssumptionNode family
// ============================================================

#[derive(Debug, Clone, PartialEq, Eq)]
pub struct AssumptionNode {
    pub name: String,
    pub sections: Vec<AssumptionSection>,
}

#[derive(Debug, Clone, PartialEq, Eq)]
pub enum AssumptionSection {
    StringAssumption(String),
    ContextSource(Vec<SourceRef>),
    OutOfScope(Vec<String>),
    ValidatedBy(ValidatedBy),
}

#[derive(Debug, Clone, PartialEq, Eq)]
pub struct SourceRef {
    pub source_type: SourceType,
    pub path: String,
}

#[derive(Debug, Clone, Copy, PartialEq, Eq)]
pub enum SourceType {
    Ref,
    Slack,
    Email,
    Github,
    Jira,
    Doc,
}

#[derive(Debug, Clone, PartialEq, Eq)]
pub struct ValidatedBy {
    pub fields: Vec<ValidatedByField>,
}

#[derive(Debug, Clone, PartialEq, Eq)]
pub enum ValidatedByField {
    DomainExpert(String),
    Date(String),
    /// The confidence literal, as written (`("0" | "1") ("." DIGIT*)?`).
    Confidence(String),
    Method(ValidationMethod),
}

#[derive(Debug, Clone, Copy, PartialEq, Eq)]
pub enum ValidationMethod {
    Interview,
    DocumentReview,
    FormalAudit,
    PeerReview,
}

// ============================================================
// ProofNode family
// ============================================================

#[derive(Debug, PartialEq, Eq)]
pub struct ProofNode {
    pub name: String,
    pub strategy: StrategyExpr,
    pub lemmas: Vec<LemmaDecl>,
    pub verify_decls: Vec<VerifyDecl>,
    pub certificate: Option<CertificatePlaceholder>,
}

#[derive(Debug, Clone, Copy, PartialEq, Eq)]
pub struct StrategyExpr {
    pub primary: StrategyName,
    pub fallback: Option<StrategyName>,
}

#[derive(Debug, Clone, Copy, PartialEq, Eq)]
pub enum StrategyName {
    SmtSolverZ3,
    BoundedModelChecking,
    Induction,
    AiAssisted,
}

#[derive(Debug, PartialEq, Eq)]
pub struct LemmaDecl {
    pub name: String,
    pub predicates: Vec<PredicateNode>,
    pub proof_method: Option<ProofMethod>,
}

#[derive(Debug, Clone, PartialEq, Eq)]
pub struct ProofMethod {
    pub technique: ProofTechnique,
}

#[derive(Debug, Clone, PartialEq, Eq)]
pub enum ProofTechnique {
    Induction { on: String },
    Contradiction,
    Direct,
}

#[derive(Debug, PartialEq, Eq)]
pub struct VerifyDecl {
    pub target: String,
    pub using: Option<String>,
    pub statements: Vec<VerifyStatement>,
}

#[derive(Debug, PartialEq, Eq)]
pub enum VerifyStatement {
    Assert(PredicateNode),
    Atomic(Vec<VerifyStatement>),
    Assign { target: String, op: AssignOp, expr: ExprNode },
}

#[derive(Debug, Clone, Copy, PartialEq, Eq)]
pub enum AssignOp {
    Assign,
    AddAssign,
    SubAssign,
}

/// The string value in source is a placeholder; the real module certificate
/// is produced by the build.
#[derive(Debug, Clone, PartialEq, Eq)]
pub struct CertificatePlaceholder {
    pub value: String,
}

// ============================================================
// OwnershipNode family
// ============================================================

/// Ownership is encoded as a logical precondition, not a runtime check.
/// Input parameters receive an implicit Owned node.
/// Postconditions containing old(x) generate an OldBorrow node for x.
#[derive(Debug, Clone, PartialEq, Eq)]
pub enum OwnershipNode {
    Owned(String),
    OldBorrow(String),
}

// ============================================================
// Top-level program structures
// ============================================================

#[derive(Debug, Clone, PartialEq, Eq)]
pub struct ContextDecl {
    pub ty_name: String,
    pub context_name: String,
    pub fields: Vec<ContextField>,
}

#[derive(Debug, Clone, PartialEq, Eq)]
pub struct ContextField {
    pub name: String,
    pub value: ContextFieldValue,
}

#[derive(Debug, Clone, PartialEq, Eq)]
pub enum ContextFieldValue {
    StringVal(String),
    Integer(u64),
    /// A decimal literal, as written.
    Decimal(String),
    Boolean(bool),
}

#[derive(Debug, PartialEq, Eq)]
pub struct LetBinding {
    pub name: String,
    pub ty: Option<TypeNode>,
    pub expr: ExprNode,
}

#[derive(Debug, PartialEq, Eq)]
pub struct Declaration {
    pub intent: IntentNode,
    pub assumption: AssumptionNode,
    pub proof: ProofNode,
}

/// The top-level program after FIR lowering.
#[derive(Debug, PartialEq, Eq)]
pub struct Program {
    pub contexts: Vec<ContextDecl>,
    pub lets: Vec<LetBinding>,
    pub declarations: Vec<Declaration>,
}

} // verus!
