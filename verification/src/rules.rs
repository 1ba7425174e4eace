//! The data model: rules as the Pattern Store hands them out, findings,
//! verdicts, and the error taxonomy, together with the ghost models that
//! the contracts speak of.

use vstd::prelude::*;

verus! {

/// The two directions of text flow that rules are partitioned by.
#[derive(Clone, Copy, PartialEq, Eq, Structural, Debug)]
pub enum Category {
    Input,
    Output,
}

/// A named pattern as the Pattern Store hands it out: raw text, not yet
/// compiled. Identity is (category, name).
#[derive(Debug)]
pub struct PatternRule {
    pub name: String,
    pub raw_pattern: String,
    pub description: String,
    pub category: Category,
}

/// The mathematical content of one rule: name, pattern text, description.
pub ghost struct RuleModel {
    pub name: Seq<char>,
    pub pattern: Seq<char>,
    pub description: Seq<char>,
}

impl PatternRule {
    pub open spec fn model(self) -> RuleModel {
        RuleModel {
            name: self.name@,
            pattern: self.raw_pattern@,
            description: self.description@,
        }
    }
}

pub open spec fn rule_models(s: Seq<PatternRule>) -> Seq<RuleModel> {
    s.map_values(|r: PatternRule| r.model())
}

/// One match of one rule against a payload. The span gives byte offsets
/// into the payload (start inclusive, end exclusive).
#[derive(Debug)]
pub struct Finding {
    pub rule_name: String,
    pub description: String,
    pub span: Option<(usize, usize)>,
}

pub ghost struct FindingModel {
    pub rule_name: Seq<char>,
    pub description: Seq<char>,
    pub span: Option<(int, int)>,
}

impl Finding {
    pub open spec fn model(self) -> FindingModel {
        FindingModel {
            rule_name: self.rule_name@,
            description: self.description@,
            span: match self.span {
                Some(p) => Some((p.0 as int, p.1 as int)),
                None => None,
            },
        }
    }
}

impl Clone for Finding {
    fn clone(&self) -> (r: Self)
        ensures
            r.model() == self.model(),
    {
        Finding {
            rule_name: self.rule_name.clone(),
            description: self.description.clone(),
            span: self.span,
        }
    }
}

pub open spec fn finding_models(s: Seq<Finding>) -> Seq<FindingModel> {
    s.map_values(|f: Finding| f.model())
}

/// One pattern that failed to compile, with the compiler's message.
/// Recorded per rule and never fatal to the batch it came from.
#[derive(Debug)]
pub struct CompileError {
    pub rule_name: String,
    pub raw_pattern: String,
    pub message: String,
}

pub ghost struct CompileErrorModel {
    pub rule_name: Seq<char>,
    pub raw_pattern: Seq<char>,
    pub message: Seq<char>,
}

impl CompileError {
    pub open spec fn model(self) -> CompileErrorModel {
        CompileErrorModel {
            rule_name: self.rule_name@,
            raw_pattern: self.raw_pattern@,
            message: self.message@,
        }
    }
}

impl Clone for CompileError {
    fn clone(&self) -> (r: Self)
        ensures
            r.model() == self.model(),
    {
        CompileError {
            rule_name: self.rule_name.clone(),
            raw_pattern: self.raw_pattern.clone(),
            message: self.message.clone(),
        }
    }
}

pub open spec fn error_models(s: Seq<CompileError>) -> Seq<CompileErrorModel> {
    s.map_values(|e: CompileError| e.model())
}

/// Why a fetch from the Pattern Store failed.
#[derive(Clone, Copy, PartialEq, Eq, Structural, Debug)]
pub enum StoreError {
    Connectivity,
    Auth,
    Malformed,
}

/// A refresh that never reached the Pattern Store: the previous rules stay
/// active and the cause is handed back to the caller.
#[derive(Clone, Copy, PartialEq, Eq, Structural, Debug)]
pub struct RefreshError {
    pub cause: StoreError,
}

/// What a successful refresh installed: how many rules compiled, and every
/// pattern that did not.
#[derive(Debug)]
pub struct RefreshReport {
    pub compiled_count: usize,
    pub failed: Vec<CompileError>,
}

/// Validation cannot run at all: no snapshot was ever loaded for the
/// category, so there is nothing to check against.
#[derive(Clone, Copy, PartialEq, Eq, Structural, Debug)]
pub enum EngineError {
    NoRulesLoaded,
}

/// The structured outcome of validating one payload against one rule set.
/// `passed` is true iff `findings` is empty; compile errors and timed-out
/// rules never block a verdict but are always surfaced.
#[derive(Debug)]
pub struct Verdict {
    pub passed: bool,
    pub findings: Vec<Finding>,
    pub compile_errors: Vec<CompileError>,
    pub timed_out: Vec<String>,
}

pub ghost struct VerdictModel {
    pub passed: bool,
    pub findings: Seq<FindingModel>,
    pub compile_errors: Seq<CompileErrorModel>,
    pub timed_out: Seq<Seq<char>>,
}

impl Verdict {
    pub open spec fn model(self) -> VerdictModel {
        VerdictModel {
            passed: self.passed,
            findings: finding_models(self.findings@),
            compile_errors: error_models(self.compile_errors@),
            timed_out: self.timed_out@.map_values(|s: String| s@),
        }
    }
}

/// A rejected payload, with the reason.
#[derive(Debug)]
pub struct ValidationError {
    pub message: String,
}

} // verus!
