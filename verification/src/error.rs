//! The failures the engine can report, with where and when they arise.

use crate::chain::ChainName;
use crate::token::{CodeLocation, Token};
use crate::value::Variable;
use vstd::prelude::*;

verus! {

/// What was expected at a parse failure: a kind of token, or a description.
pub enum Expected {
    Token(crate::token::TokenType),
    Description(String),
}

/// Every failure the system can report.
pub enum ErrorSpec {
    FileNotFound(String),
    ExpectedFound(Expected, Token),
    CloseDelimeter(String),
    InvalidDelimeter(String),
    InvalidPitch(Token),
    DurationQuantifier(Token),
    InvalidBackLink(Token),
    InvalidKeyword(String),
    InvalidTerm(Token),
    CantFindChain(ChainName),
    UnexpectedEndOfFile,
    ZeroBacklink,
    PropertiesOfGenericChain(ChainName),
    DurationOfGenericChain(ChainName),
    NamedChainInAnonChain(String),
    ChainRedeclaration(ChainName),
    CantOpenOutputFile,
    MultipleOutChains(CodeLocation),
    UnstatisfiedBacklink(ChainName, usize, usize),
    UnnamedTopChain,
    /// Chain invocation nested deeper than the evaluator's guard allows:
    /// the chains recurse.
    RecursionDepthExceeded(ChainName),
    /// A note lookup reached a chain that holds expressions.
    NotesOfGenericChain,
    /// A note timeline's chain-level period contains a time that none of
    /// its notes covers: the finalize-time bookkeeping broke.
    NoteTimelineInconsistent,
    /// A generic chain evaluated with no links to produce a result.
    ChainWithoutLinks(ChainName),
    /// An index reached past the end of an array value.
    IndexOutOfRange,
    /// A sub-array's bounds reached outside the array value.
    SubArrayOutOfRange,
    /// The frequency transform met an array where a scalar sample was
    /// needed.
    FftOnArray,
    /// The frequency transform's magnitudes hold a NaN, so no maximum
    /// exists to normalize by.
    FftNan,
    /// The frequency transform ran over an empty window.
    FftEmptyWindow,
    DebugVar(Variable),
    DebugString(Variable),
}

/// How grave a failure is.
#[derive(Clone, Copy, PartialEq, Eq, Structural, Debug)]
pub enum ErrorSeverity {
    Fatal,
    Debug,
    Print,
}

/// When a failure arises.
#[derive(Clone, Copy, PartialEq, Eq, Structural, Debug)]
pub enum ErrorTime {
    Compile,
    Run,
    RunClear,
}

/// A failure, its time and severity, and where in the source it arose.
pub struct Error {
    pub spec: ErrorSpec,
    pub runtime: ErrorTime,
    pub severity: ErrorSeverity,
    pub location: Option<CodeLocation>,
}

/// Backlink faults and the recursion guard surface while samples are
/// evaluated; debug output is runtime output; everything else is found
/// while the program is built.
pub open spec fn spec_error_time(e: ErrorSpec) -> ErrorTime {
    match e {
        ErrorSpec::UnstatisfiedBacklink(..) => ErrorTime::RunClear,
        ErrorSpec::RecursionDepthExceeded(..) => ErrorTime::RunClear,
        ErrorSpec::DebugVar(..) => ErrorTime::Run,
        ErrorSpec::DebugString(..) => ErrorTime::Run,
        _ => ErrorTime::Compile,
    }
}

/// Debug output aside, every failure is fatal.
pub open spec fn spec_error_severity(e: ErrorSpec) -> ErrorSeverity {
    match e {
        ErrorSpec::DebugVar(..) => ErrorSeverity::Debug,
        ErrorSpec::DebugString(..) => ErrorSeverity::Print,
        _ => ErrorSeverity::Fatal,
    }
}

impl Error {
    pub fn new(spec: ErrorSpec) -> (r: Error)
        ensures
            r.spec == spec,
            r.runtime == spec_error_time(spec),
            r.severity == spec_error_severity(spec),
            r.location is None,
    {
        let runtime = match &spec {
            ErrorSpec::UnstatisfiedBacklink(..) => ErrorTime::RunClear,
            ErrorSpec::RecursionDepthExceeded(..) => ErrorTime::RunClear,
            ErrorSpec::DebugVar(..) => ErrorTime::Run,
            ErrorSpec::DebugString(..) => ErrorTime::Run,
            _ => ErrorTime::Compile,
        };
        let severity = match &spec {
            ErrorSpec::DebugVar(..) => ErrorSeverity::Debug,
            ErrorSpec::DebugString(..) => ErrorSeverity::Print,
            _ => ErrorSeverity::Fatal,
        };
        Error { spec, runtime, severity, location: None }
    }

    /// The same error, pinned to a source location.
    pub fn on_line(self, line: CodeLocation) -> (r: Error)
        ensures
            r.spec == self.spec,
            r.runtime == self.runtime,
            r.severity == self.severity,
            r.location == Some(line),
    {
        Error { location: Some(line), ..self }
    }
}

/// The result type the engine's fallible operations share.
pub type SonnyResult<T> = Result<T, Error>;

} // verus!
