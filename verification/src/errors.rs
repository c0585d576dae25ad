use vstd::prelude::*;

verus! {

/// Compiler-wide error type.
///
/// Each variant corresponds to a pipeline stage. An I/O failure is carried as
/// the text of the underlying error, since reading files happens outside the
/// library.
#[derive(Debug, Clone, PartialEq, Eq)]
pub enum CompilerError {
    ParseError(String),
    LoweringError(String),
    TypeCheckError(String),
    AcsError(String),
    SmtError(String),
    CertError(String),
    IoError(String),
    /// Returned by pipeline stages that do not exist yet.
    NotYetImplemented(&'static str),
}

impl CompilerError {
    /// The human-readable text of the error: a stage prefix followed by the
    /// detail that the variant carries.
    pub open spec fn message_text(&self) -> Seq<char> {
        match self {
            CompilerError::ParseError(m) => "parse error: "@ + m@,
            CompilerError::LoweringError(m) => "lowering error: "@ + m@,
            CompilerError::TypeCheckError(m) => "type error: "@ + m@,
            CompilerError::AcsError(m) => "ACS error: "@ + m@,
            CompilerError::SmtError(m) => "SMT error: "@ + m@,
            CompilerError::CertError(m) => "certificate error: "@ + m@,
            CompilerError::IoError(m) => "I/O error: "@ + m@,
            CompilerError::NotYetImplemented(s) => s@ + " is not yet implemented"@,
        }
    }

    /// Renders the error as text (what `Display` prints for this error).
    pub fn message(&self) -> (r: String)
        ensures
            r@ == self.message_text(),
    {
        match self {
            CompilerError::ParseError(m) => prefixed("parse error: ", m),
            CompilerError::LoweringError(m) => prefixed("lowering error: ", m),
            CompilerError::TypeCheckError(m) => prefixed("type error: ", m),
            CompilerError::AcsError(m) => prefixed("ACS error: ", m),
            CompilerError::SmtError(m) => prefixed("SMT error: ", m),
            CompilerError::CertError(m) => prefixed("certificate error: ", m),
            CompilerError::IoError(m) => prefixed("I/O error: ", m),
            CompilerError::NotYetImplemented(s) => {
                let mut r = String::from_str(s);
                r.append(" is not yet implemented");
                r
            },
        }
    }
}

fn prefixed(prefix: &str, m: &String) -> (r: String)
    ensures
        r@ == prefix@ + m@,
{
    let mut r = String::from_str(prefix);
    r.append(m.as_str());
    r
}

} // verus!

verus! {

/// `r` is the outcome that a type-checking pass owes when its specification
/// says `expected`: success when nothing is wrong, and otherwise a
/// `TypeCheckError` carrying exactly the expected diagnostic.
pub open spec fn type_outcome(r: Result<(), CompilerError>, expected: Option<Seq<char>>) -> bool {
    match expected {
        None => r is Ok,
        Some(msg) => r matches Err(CompilerError::TypeCheckError(t)) && t@ == msg,
    }
}

/// The first of two diagnostics that is present.
pub open spec fn first_of(a: Option<Seq<char>>, b: Option<Seq<char>>) -> Option<Seq<char>> {
    match a {
        Some(m) => Some(m),
        None => b,
    }
}

} // verus!
