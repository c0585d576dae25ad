//! Mathematical models of the FIR nodes: the same trees with text as `Seq<char>`
//! and lists as `Seq`, so that two nodes are equal exactly when they have the
//! same shape and the same text. The grammar in `crate::grammar` produces these,
//! and each FIR node is related to its model by its view (`@`).
use vstd::prelude::*;
use super::{
    AssignOp, AssumptionNode, AssumptionSection, BinOpKind, CertificatePlaceholder, ComparisonOp,
    ContextDecl, ContextField, ContextFieldValue, Declaration, Duration, ExprNode, IntentNode,
    LemmaDecl, LetBinding, Number, Param, PredicateNode, Program, ProofMethod, ProofNode,
    ProofTechnique, SourceRef, SourceType, StrategyExpr, StrategyName, TemporalType, TimeUnit,
    TypeNode, ValidatedByField, ValidationMethod, VerifyDecl, VerifyStatement,
};

verus! {

/// The views of the items of `s`, in order.
pub open spec fn views<T: View>(s: Seq<T>) -> Seq<T::V> {
    s.map_values(|x: T| x@)
}

pub enum NumM {
    Integer(u64),
    Decimal(Seq<char>),
}

pub struct DurM {
    pub value: NumM,
    pub unit: TimeUnit,
}

pub enum ExprM {
    Number(NumM),
    StringLit(Seq<char>),
    OldValue(Seq<char>),
    FunctionCall { name: Seq<char>, args: Seq<ExprM> },
    Identifier(Seq<char>),
    BinOp { left: Box<ExprM>, op: BinOpKind, right: Box<ExprM> },
}

pub enum TyM {
    Base(Seq<char>),
    Refined { base: Seq<char>, predicate: Box<PredM> },
    Dependent { base: Seq<char>, type_param: Box<TyM>, value_param_name: Seq<char>, value_param_type: Seq<char> },
    Contextual { base: Seq<char>, context: Seq<char> },
    Temporal(TemporalM),
}

pub enum TemporalM {
    Fresh { inner: Box<TyM>, duration: DurM },
    Expiring { inner: Box<TyM>, duration: DurM },
    Stale(Box<TyM>),
}

pub enum PredM {
    Or(Box<PredM>, Box<PredM>),
    And(Box<PredM>, Box<PredM>),
    Not(Box<PredM>),
    Forall { var: Seq<char>, ty: Box<TyM>, body: Box<PredM> },
    Exists { var: Seq<char>, ty: Box<TyM>, body: Box<PredM> },
    Comparison { left: ExprM, op: ComparisonOp, right: ExprM },
}

pub struct ParamM {
    pub name: Seq<char>,
    pub ty: TyM,
}

pub struct IntentM {
    pub name: Seq<char>,
    pub inputs: Seq<ParamM>,
    pub outputs: Seq<ParamM>,
    pub preconditions: Seq<PredM>,
    pub postconditions: Seq<PredM>,
    pub invariants: Seq<PredM>,
    pub never: Seq<Seq<char>>,
}

pub struct SourceRefM {
    pub source_type: SourceType,
    pub path: Seq<char>,
}

pub enum FieldM {
    DomainExpert(Seq<char>),
    Date(Seq<char>),
    Confidence(Seq<char>),
    Method(ValidationMethod),
}

pub enum SectionM {
    StringAssumption(Seq<char>),
    ContextSource(Seq<SourceRefM>),
    OutOfScope(Seq<Seq<char>>),
    ValidatedBy(Seq<FieldM>),
}

pub struct AssumptionM {
    pub name: Seq<char>,
    pub sections: Seq<SectionM>,
}

pub enum TechniqueM {
    Induction { on: Seq<char> },
    Contradiction,
    Direct,
}

pub struct LemmaM {
    pub name: Seq<char>,
    pub predicates: Seq<PredM>,
    pub proof_method: Option<TechniqueM>,
}

pub enum StmtM {
    Assert(PredM),
    Atomic(Seq<StmtM>),
    Assign { target: Seq<char>, op: AssignOp, expr: ExprM },
}

pub struct VerifyM {
    pub target: Seq<char>,
    pub using: Option<Seq<char>>,
    pub statements: Seq<StmtM>,
}

pub struct ProofM {
    pub name: Seq<char>,
    pub strategy: StrategyExpr,
    pub lemmas: Seq<LemmaM>,
    pub verify_decls: Seq<VerifyM>,
    pub certificate: Option<Seq<char>>,
}

pub enum FieldValueM {
    StringVal(Seq<char>),
    Integer(u64),
    Decimal(Seq<char>),
    Boolean(bool),
}

pub struct ContextFieldM {
    pub name: Seq<char>,
    pub value: FieldValueM,
}

pub struct ContextM {
    pub ty_name: Seq<char>,
    pub context_name: Seq<char>,
    pub fields: Seq<ContextFieldM>,
}

pub struct LetM {
    pub name: Seq<char>,
    pub ty: Option<TyM>,
    pub expr: ExprM,
}

pub struct DeclM {
    pub intent: IntentM,
    pub assumption: AssumptionM,
    pub proof: ProofM,
}

pub struct ProgramM {
    pub contexts: Seq<ContextM>,
    pub lets: Seq<LetM>,
    pub declarations: Seq<DeclM>,
}

// ── views ────────────────────────────────────────────────────────────────────

impl View for TimeUnit {
    type V = TimeUnit;

    open spec fn view(&self) -> TimeUnit {
        *self
    }
}

impl View for BinOpKind {
    type V = BinOpKind;

    open spec fn view(&self) -> BinOpKind {
        *self
    }
}

impl View for ComparisonOp {
    type V = ComparisonOp;

    open spec fn view(&self) -> ComparisonOp {
        *self
    }
}

impl View for SourceType {
    type V = SourceType;

    open spec fn view(&self) -> SourceType {
        *self
    }
}

impl View for ValidationMethod {
    type V = ValidationMethod;

    open spec fn view(&self) -> ValidationMethod {
        *self
    }
}

impl View for StrategyName {
    type V = StrategyName;

    open spec fn view(&self) -> StrategyName {
        *self
    }
}

impl View for StrategyExpr {
    type V = StrategyExpr;

    open spec fn view(&self) -> StrategyExpr {
        *self
    }
}

impl View for AssignOp {
    type V = AssignOp;

    open spec fn view(&self) -> AssignOp {
        *self
    }
}

impl View for Number {
    type V = NumM;

    open spec fn view(&self) -> NumM {
        match self {
            Number::Integer(v) => NumM::Integer(*v),
            Number::Decimal(t) => NumM::Decimal(t@),
        }
    }
}

impl View for Duration {
    type V = DurM;

    open spec fn view(&self) -> DurM {
        DurM { value: self.value@, unit: self.unit }
    }
}

impl View for ExprNode {
    type V = ExprM;

    open spec fn view(&self) -> ExprM
        decreases self,
    {
        match self {
            ExprNode::Number(n) => ExprM::Number(n@),
            ExprNode::StringLit(t) => ExprM::StringLit(t@),
            ExprNode::OldValue(t) => ExprM::OldValue(t@),
            ExprNode::FunctionCall { name, args } => ExprM::FunctionCall { name: name@, args: expr_views(args@) },
            ExprNode::Identifier(t) => ExprM::Identifier(t@),
            ExprNode::BinOp { left, op, right } => ExprM::BinOp {
                left: Box::new((**left)@),
                op: *op,
                right: Box::new((**right)@),
            },
        }
    }
}

/// The views of the expressions of `s`, in order.
pub open spec fn expr_views(s: Seq<ExprNode>) -> Seq<ExprM>
    decreases s,
{
    if s.len() == 0 {
        Seq::empty()
    } else {
        expr_views(s.drop_last()).push(s.last()@)
    }
}

impl View for TypeNode {
    type V = TyM;

    open spec fn view(&self) -> TyM
        decreases self,
    {
        match self {
            TypeNode::Base(b) => TyM::Base(b@),
            TypeNode::Refined { base, predicate } => TyM::Refined {
                base: base@,
                predicate: Box::new((**predicate)@),
            },
            TypeNode::Dependent { base, type_param, value_param_name, value_param_type } => TyM::Dependent {
                base: base@,
                type_param: Box::new((**type_param)@),
                value_param_name: value_param_name@,
                value_param_type: value_param_type@,
            },
            TypeNode::Contextual { base, context } => TyM::Contextual { base: base@, context: context@ },
            TypeNode::Temporal(t) => TyM::Temporal(
                match t {
                    TemporalType::Fresh { inner, duration } => TemporalM::Fresh {
                        inner: Box::new((**inner)@),
                        duration: duration@,
                    },
                    TemporalType::Expiring { inner, duration } => TemporalM::Expiring {
                        inner: Box::new((**inner)@),
                        duration: duration@,
                    },
                    TemporalType::Stale(inner) => TemporalM::Stale(Box::new((**inner)@)),
                },
            ),
        }
    }
}

impl View for TemporalType {
    type V = TemporalM;

    open spec fn view(&self) -> TemporalM {
        match TypeNode::Temporal(*self)@ {
            TyM::Temporal(t) => t,
            _ => TemporalM::Stale(Box::new(TyM::Base(Seq::empty()))),
        }
    }
}

impl View for PredicateNode {
    type V = PredM;

    open spec fn view(&self) -> PredM
        decreases self,
    {
        match self {
            PredicateNode::Or(a, b) => PredM::Or(Box::new((**a)@), Box::new((**b)@)),
            PredicateNode::And(a, b) => PredM::And(Box::new((**a)@), Box::new((**b)@)),
            PredicateNode::Not(a) => PredM::Not(Box::new((**a)@)),
            PredicateNode::Forall { var, ty, body } => PredM::Forall {
                var: var@,
                ty: Box::new((**ty)@),
                body: Box::new((**body)@),
            },
            PredicateNode::Exists { var, ty, body } => PredM::Exists {
                var: var@,
                ty: Box::new((**ty)@),
                body: Box::new((**body)@),
            },
            PredicateNode::Comparison { left, op, right } => PredM::Comparison {
                left: left@,
                op: *op,
                right: right@,
            },
        }
    }
}

impl View for Param {
    type V = ParamM;

    open spec fn view(&self) -> ParamM {
        ParamM { name: self.name@, ty: self.ty@ }
    }
}

impl View for IntentNode {
    type V = IntentM;

    open spec fn view(&self) -> IntentM {
        IntentM {
            name: self.name@,
            inputs: views(self.inputs@),
            outputs: views(self.outputs@),
            preconditions: views(self.preconditions@),
            postconditions: views(self.postconditions@),
            invariants: views(self.invariants@),
            never: views(self.never@),
        }
    }
}

impl View for SourceRef {
    type V = SourceRefM;

    open spec fn view(&self) -> SourceRefM {
        SourceRefM { source_type: self.source_type, path: self.path@ }
    }
}

impl View for ValidatedByField {
    type V = FieldM;

    open spec fn view(&self) -> FieldM {
        match self {
            ValidatedByField::DomainExpert(t) => FieldM::DomainExpert(t@),
            ValidatedByField::Date(t) => FieldM::Date(t@),
            ValidatedByField::Confidence(t) => FieldM::Confidence(t@),
            ValidatedByField::Method(m) => FieldM::Method(*m),
        }
    }
}

impl View for AssumptionSection {
    type V = SectionM;

    open spec fn view(&self) -> SectionM {
        match self {
            AssumptionSection::StringAssumption(t) => SectionM::StringAssumption(t@),
            AssumptionSection::ContextSource(refs) => SectionM::ContextSource(views(refs@)),
            AssumptionSection::OutOfScope(items) => SectionM::OutOfScope(views(items@)),
            AssumptionSection::ValidatedBy(vb) => SectionM::ValidatedBy(views(vb.fields@)),
        }
    }
}

impl View for AssumptionNode {
    type V = AssumptionM;

    open spec fn view(&self) -> AssumptionM {
        AssumptionM { name: self.name@, sections: views(self.sections@) }
    }
}

impl View for ProofMethod {
    type V = TechniqueM;

    open spec fn view(&self) -> TechniqueM {
        match &self.technique {
            ProofTechnique::Induction { on } => TechniqueM::Induction { on: on@ },
            ProofTechnique::Contradiction => TechniqueM::Contradiction,
            ProofTechnique::Direct => TechniqueM::Direct,
        }
    }
}

impl View for LemmaDecl {
    type V = LemmaM;

    open spec fn view(&self) -> LemmaM {
        LemmaM {
            name: self.name@,
            predicates: views(self.predicates@),
            proof_method: match &self.proof_method {
                Some(m) => Some(m@),
                None => None,
            },
        }
    }
}

impl View for VerifyStatement {
    type V = StmtM;

    open spec fn view(&self) -> StmtM
        decreases self,
    {
        match self {
            VerifyStatement::Assert(p) => StmtM::Assert(p@),
            VerifyStatement::Atomic(stmts) => StmtM::Atomic(stmt_views(stmts@)),
            VerifyStatement::Assign { target, op, expr } => StmtM::Assign {
                target: target@,
                op: *op,
                expr: expr@,
            },
        }
    }
}

/// The views of the statements of `s`, in order.
pub open spec fn stmt_views(s: Seq<VerifyStatement>) -> Seq<StmtM>
    decreases s,
{
    if s.len() == 0 {
        Seq::empty()
    } else {
        stmt_views(s.drop_last()).push(s.last()@)
    }
}

pub proof fn lemma_stmt_views_len(s: Seq<VerifyStatement>)
    ensures
        stmt_views(s).len() == s.len(),
    decreases s.len(),
{
    if s.len() > 0 {
        lemma_stmt_views_len(s.drop_last());
        assert(stmt_views(s) == stmt_views(s.drop_last()).push(s.last()@));
    } else {
        assert(stmt_views(s) == Seq::<StmtM>::empty());
    }
}

impl View for VerifyDecl {
    type V = VerifyM;

    open spec fn view(&self) -> VerifyM {
        VerifyM {
            target: self.target@,
            using: match &self.using {
                Some(u) => Some(u@),
                None => None,
            },
            statements: views(self.statements@),
        }
    }
}

impl View for CertificatePlaceholder {
    type V = Seq<char>;

    open spec fn view(&self) -> Seq<char> {
        self.value@
    }
}

impl View for ProofNode {
    type V = ProofM;

    open spec fn view(&self) -> ProofM {
        ProofM {
            name: self.name@,
            strategy: self.strategy,
            lemmas: views(self.lemmas@),
            verify_decls: views(self.verify_decls@),
            certificate: match &self.certificate {
                Some(c) => Some(c@),
                None => None,
            },
        }
    }
}

impl View for ContextFieldValue {
    type V = FieldValueM;

    open spec fn view(&self) -> FieldValueM {
        match self {
            ContextFieldValue::StringVal(t) => FieldValueM::StringVal(t@),
            ContextFieldValue::Integer(v) => FieldValueM::Integer(*v),
            ContextFieldValue::Decimal(t) => FieldValueM::Decimal(t@),
            ContextFieldValue::Boolean(b) => FieldValueM::Boolean(*b),
        }
    }
}

impl View for ContextField {
    type V = ContextFieldM;

    open spec fn view(&self) -> ContextFieldM {
        ContextFieldM { name: self.name@, value: self.value@ }
    }
}

impl View for ContextDecl {
    type V = ContextM;

    open spec fn view(&self) -> ContextM {
        ContextM { ty_name: self.ty_name@, context_name: self.context_name@, fields: views(self.fields@) }
    }
}

impl View for LetBinding {
    type V = LetM;

    open spec fn view(&self) -> LetM {
        LetM {
            name: self.name@,
            ty: match &self.ty {
                Some(t) => Some(t@),
                None => None,
            },
            expr: self.expr@,
        }
    }
}

impl View for Declaration {
    type V = DeclM;

    open spec fn view(&self) -> DeclM {
        DeclM { intent: self.intent@, assumption: self.assumption@, proof: self.proof@ }
    }
}

impl View for Program {
    type V = ProgramM;

    open spec fn view(&self) -> ProgramM {
        ProgramM {
            contexts: views(self.contexts@),
            lets: views(self.lets@),
            declarations: views(self.declarations@),
        }
    }
}

} // verus!
