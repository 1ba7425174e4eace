//! The Pattern Compiler: turns one raw rule into an executable matcher, and
//! isolates a failure to that one rule.

use vstd::prelude::*;

use crate::matcher::{compiles_ok, pattern_of, regex_new};
use crate::rules::{CompileError, PatternRule, RuleModel};

verus! {

/// One rule whose pattern compiled, keeping the metadata of the
/// [`PatternRule`] it came from.
pub struct CompiledRule {
    pub name: String,
    pub raw_pattern: String,
    pub description: String,
    pub matcher: regex::Regex,
}

impl CompiledRule {
    /// The matcher really was compiled from the pattern text carried beside it.
    pub open spec fn wf(self) -> bool {
        pattern_of(self.matcher) == self.raw_pattern@
    }

    pub open spec fn model(self) -> RuleModel {
        RuleModel {
            name: self.name@,
            pattern: self.raw_pattern@,
            description: self.description@,
        }
    }
}

/// Compiles one rule. Succeeds exactly when the pattern text is acceptable
/// to the regex engine; on failure the error carries the rule's name and
/// raw pattern, and the caller's batch goes on.
pub fn compile(rule: &PatternRule) -> (r: Result<CompiledRule, CompileError>)
    ensures
        r is Ok <==> compiles_ok(rule.raw_pattern@),
        r matches Ok(c) ==> c.wf() && c.model() == rule.model(),
        r matches Err(e) ==> e.rule_name@ == rule.name@ && e.raw_pattern@ == rule.raw_pattern@,
{
    match regex_new(rule.raw_pattern.as_str()) {
        Ok(m) => Ok(
            CompiledRule {
                name: rule.name.clone(),
                raw_pattern: rule.raw_pattern.clone(),
                description: rule.description.clone(),
                matcher: m,
            },
        ),
        Err(message) => Err(
            CompileError {
                rule_name: rule.name.clone(),
                raw_pattern: rule.raw_pattern.clone(),
                message,
            },
        ),
    }
}

} // verus!
