//! The classifications that the renderers turn into badges and CSS classes.

use vstd::prelude::*;

verus! {

/// How a generated headword relates to the official dictionary.
#[derive(Clone, Copy, Debug, PartialEq, Eq, Structural)]
pub enum MatchStatus {
    OfficialMatch,
    DiffersFromOfficial,
    NoOfficialEntry,
}

/// Calibrated confidence bucket of a generated form.
#[derive(Clone, Copy, Debug, PartialEq, Eq, Structural)]
pub enum Confidence {
    High,
    Medium,
    Low,
}

/// Where a candidate form came from.
#[derive(Clone, Copy, Debug, PartialEq, Eq, Structural)]
pub enum CandidateSource {
    ProtoSlavicRule,
    BranchConsensus,
    ManualOverride,
    OfficialDictionary,
}

/// One rule application in a candidate's derivation.
pub struct TraceStep {
    pub id: String,
    pub before: String,
    pub after: String,
    pub explanation: String,
    /// Link to the rule's documentation, if any.
    pub reference: Option<String>,
}

/// A ranked candidate form for an entry, with the search folds of its
/// spelling.
pub struct Candidate {
    pub form: String,
    pub source: CandidateSource,
    /// The lowercased form in the standard Interslavic alphabet.
    pub standard_fold: String,
    /// The form reduced to plain ASCII letters.
    pub ascii_skeleton: String,
    pub trace: Vec<TraceStep>,
    pub warnings: Vec<String>,
}

/// A spelling together with its standard-alphabet fold and ASCII skeleton.
pub struct FoldedForm {
    pub form: String,
    /// The lowercased spelling in the standard Interslavic alphabet.
    pub standard_fold: String,
    /// The spelling reduced to plain ASCII letters.
    pub ascii_skeleton: String,
}

} // verus!
