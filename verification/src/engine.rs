//! The Validation Engine: holds the current rule set per category, refreshed
//! whole from what the Pattern Store handed out, and runs every cached rule
//! against a payload to produce a [`Verdict`].

use vstd::prelude::*;

use crate::cache::{
    build_rule_set, clone_errors, compiled_of, failed_of, failed_pairs, RuleSet,
};
use crate::matcher::{find_of, regex_find};
use crate::order::{sort_by_rule_name, sort_findings};
use crate::rules::{
    error_models, finding_models, rule_models, Category, CompileError, CompileErrorModel,
    EngineError, Finding, FindingModel, PatternRule, RefreshError, RefreshReport, RuleModel,
    StoreError, Verdict, VerdictModel,
};

verus! {

/// The finding one rule owes for a payload: its name and description with
/// the first matched span, or nothing when the pattern matches nowhere.
pub open spec fn finding_of(rule: RuleModel, payload: Seq<char>) -> Option<FindingModel> {
    match find_of(rule.pattern, payload) {
        Some(sp) => Some(
            FindingModel { rule_name: rule.name, description: rule.description, span: Some(sp) },
        ),
        None => None,
    }
}

/// The findings of the first `n` rules, in rule order, before sorting.
pub open spec fn findings_upto(rules: Seq<RuleModel>, payload: Seq<char>, n: int) -> Seq<
    FindingModel,
>
    decreases n,
{
    if n <= 0 {
        Seq::empty()
    } else {
        findings_upto(rules, payload, n - 1) + match finding_of(rules[n - 1], payload) {
            Some(f) => seq![f],
            None => Seq::empty(),
        }
    }
}

/// The names of the rules from position `k` on: the rules still outstanding
/// when a deadline cut a validation short.
pub open spec fn names_from(rules: Seq<RuleModel>, k: int) -> Seq<Seq<char>> {
    Seq::new((rules.len() - k) as nat, |t: int| rules[k + t].name)
}

/// The verdict owed when the first `k` rules were evaluated against the
/// payload and the rest ran out of time: the findings of those `k` rules
/// sorted by rule name, a pass iff there are none, the compile errors
/// recorded at the last refresh, and the outstanding rules' names. A full
/// validation is the case `k == rules.len()`.
pub open spec fn verdict_model(
    rules: Seq<RuleModel>,
    errors: Seq<CompileErrorModel>,
    payload: Seq<char>,
    k: int,
) -> VerdictModel {
    let fs = sort_by_rule_name(findings_upto(rules, payload, k));
    VerdictModel {
        passed: fs.len() == 0,
        findings: fs,
        compile_errors: errors,
        timed_out: names_from(rules, k),
    }
}

/// Relies on `std::time::SystemTime::now`: a reading of the wall clock in
/// milliseconds. Nothing is assumed of its value.
#[verifier::external_body]
fn clock_start() -> (r: u128) {
    let d = std::time::SystemTime::now().duration_since(std::time::SystemTime::UNIX_EPOCH);
    match d {
        Ok(d) => d.as_millis(),
        Err(_) => 0,
    }
}

/// Relies on `std::time::SystemTime::now` and `Duration::as_millis`: how
/// many milliseconds have passed since the reading `start`, zero if the
/// clock stepped backwards. Time is not a function of the arguments, so
/// nothing is assumed of the result.
#[verifier::external_body]
fn millis_since(start: &u128) -> (r: u64) {
    let d = std::time::SystemTime::now().duration_since(std::time::SystemTime::UNIX_EPOCH);
    let now = match d {
        Ok(d) => d.as_millis(),
        Err(_) => 0,
    };
    let passed = now.saturating_sub(*start);
    if passed > u64::MAX as u128 {
        u64::MAX
    } else {
        passed as u64
    }
}

/// The engine and its cache: one rule set and the compile errors of the
/// last refresh per category, plus whether that category was ever loaded.
pub struct Validator {
    pub input_set: RuleSet,
    pub output_set: RuleSet,
    pub input_errors: Vec<CompileError>,
    pub output_errors: Vec<CompileError>,
    pub input_loaded: bool,
    pub output_loaded: bool,
}

impl Validator {
    /// Every cached matcher was compiled from the pattern text beside it.
    pub open spec fn wf(self) -> bool {
        self.input_set.wf() && self.output_set.wf()
    }

    /// The current rule set of one category, as the contracts see it.
    pub open spec fn rules_of(self, category: Category) -> Seq<RuleModel> {
        match category {
            Category::Input => self.input_set.model(),
            Category::Output => self.output_set.model(),
        }
    }

    /// The compile errors recorded at the last refresh of one category.
    pub open spec fn errors_of(self, category: Category) -> Seq<CompileErrorModel> {
        match category {
            Category::Input => error_models(self.input_errors@),
            Category::Output => error_models(self.output_errors@),
        }
    }

    /// Whether a snapshot was ever installed for this category.
    pub open spec fn loaded_of(self, category: Category) -> bool {
        match category {
            Category::Input => self.input_loaded,
            Category::Output => self.output_loaded,
        }
    }

    /// An engine with nothing loaded: validation refuses to run until a
    /// first refresh installs a snapshot.
    pub fn new() -> (r: Validator)
        ensures
            r.wf(),
            forall|c: Category| !r.loaded_of(c),
            forall|c: Category| r.rules_of(c).len() == 0,
            forall|c: Category| r.errors_of(c).len() == 0,
    {
        let r = Validator {
            input_set: RuleSet::empty(),
            output_set: RuleSet::empty(),
            input_errors: Vec::new(),
            output_errors: Vec::new(),
            input_loaded: false,
            output_loaded: false,
        };
        proof {
            assert(error_models(r.input_errors@) =~= Seq::<CompileErrorModel>::empty());
            assert(error_models(r.output_errors@) =~= Seq::<CompileErrorModel>::empty());
        }
        r
    }

    /// Installs what the Pattern Store handed out for one category: each
    /// rule compiled independently, the new set swapped in whole. A fetch
    /// that failed changes nothing — the engine keeps serving the previous
    /// snapshot — and hands the cause back as a [`RefreshError`].
    pub fn refresh_with(
        &mut self,
        category: Category,
        fetched: Result<Vec<PatternRule>, StoreError>,
    ) -> (r: Result<RefreshReport, RefreshError>)
        requires
            old(self).wf(),
        ensures
            final(self).wf(),
            r is Ok <==> fetched is Ok,
            fetched matches Err(se) ==> *final(self) == *old(self),
            fetched matches Err(se) ==> r == Err::<RefreshReport, RefreshError>(
                RefreshError { cause: se },
            ),
            fetched matches Ok(rows) ==> final(self).loaded_of(category)
                && final(self).rules_of(category) == compiled_of(rule_models(rows@))
                && failed_pairs(final(self).errors_of(category)) == failed_of(rule_models(rows@)),
            r matches Ok(rep) ==> error_models(rep.failed@) == final(self).errors_of(category)
                && rep.compiled_count == final(self).rules_of(category).len(),
            forall|c: Category|
                c != category ==> final(self).rules_of(c) == old(self).rules_of(c)
                    && final(self).errors_of(c) == old(self).errors_of(c)
                    && final(self).loaded_of(c) == old(self).loaded_of(c),
    {
        match fetched {
            Err(se) => Err(RefreshError { cause: se }),
            Ok(rows) => {
                let (set, errs) = build_rule_set(&rows);
                let compiled_count = set.len();
                let kept = clone_errors(&errs);
                match category {
                    Category::Input => {
                        self.input_set = set;
                        self.input_errors = kept;
                        self.input_loaded = true;
                    },
                    Category::Output => {
                        self.output_set = set;
                        self.output_errors = kept;
                        self.output_loaded = true;
                    },
                }
                Ok(RefreshReport { compiled_count, failed: errs })
            },
        }
    }

    /// The current rule set snapshot for one category.
    pub fn current(&self, category: Category) -> (r: &RuleSet)
        ensures
            r.model() == self.rules_of(category),
            self.wf() ==> r.wf(),
    {
        match category {
            Category::Input => &self.input_set,
            Category::Output => &self.output_set,
        }
    }

    fn recorded_errors(&self, category: Category) -> (r: Vec<CompileError>)
        ensures
            error_models(r@) == self.errors_of(category),
    {
        match category {
            Category::Input => clone_errors(&self.input_errors),
            Category::Output => clone_errors(&self.output_errors),
        }
    }

    /// Validates one payload against the current rules of one category:
    /// every rule is run, every match is collected, findings are sorted by
    /// rule name, and the last refresh's compile errors ride along. Fails
    /// only when no snapshot was ever loaded for the category.
    pub fn validate(&self, payload: &str, category: Category) -> (r: Result<Verdict, EngineError>)
        requires
            self.wf(),
        ensures
            r is Ok <==> self.loaded_of(category),
            r matches Err(e) ==> e == EngineError::NoRulesLoaded,
            r matches Ok(v) ==> v.model() == verdict_model(
                self.rules_of(category),
                self.errors_of(category),
                payload@,
                self.rules_of(category).len() as int,
            ),
    {
        if !self.is_loaded(category) {
            return Err(EngineError::NoRulesLoaded);
        }
        let set = self.current(category);
        let raw = scan_rules(set, payload);
        let findings = sort_findings(raw);
        let passed = findings.len() == 0;
        let compile_errors = self.recorded_errors(category);
        let timed_out: Vec<String> = Vec::new();
        let v = Verdict { passed, findings, compile_errors, timed_out };
        proof {
            let rules = self.rules_of(category);
            assert(v.model().timed_out =~= names_from(rules, rules.len() as int));
            assert(v.model().findings == sort_by_rule_name(
                findings_upto(rules, payload@, rules.len() as int),
            ));
        }
        Ok(v)
    }

    /// As [`Validator::validate`], under a deadline: rules are evaluated in
    /// order until the clock runs out, and every rule still outstanding is
    /// named in the verdict's `timed_out` list instead of silently dropped.
    /// Some first `k` rules — all of them, given time — are evaluated.
    pub fn validate_with_deadline(
        &self,
        payload: &str,
        category: Category,
        deadline_millis: u64,
    ) -> (r: Result<Verdict, EngineError>)
        requires
            self.wf(),
        ensures
            r is Ok <==> self.loaded_of(category),
            r matches Err(e) ==> e == EngineError::NoRulesLoaded,
            r matches Ok(v) ==> exists|k: int|
                0 <= k <= self.rules_of(category).len() && v.model() == verdict_model(
                    self.rules_of(category),
                    self.errors_of(category),
                    payload@,
                    k,
                ),
    {
        if !self.is_loaded(category) {
            return Err(EngineError::NoRulesLoaded);
        }
        let start = clock_start();
        let set = self.current(category);
        let ghost rules = set.model();
        let mut raw: Vec<Finding> = Vec::new();
        let mut i: usize = 0;
        let mut expired = false;
        proof {
            assert(finding_models(raw@) =~= findings_upto(rules, payload@, 0));
        }
        while !expired && i < set.rules.len()
            invariant
                set.wf(),
                rules == set.model(),
                0 <= i <= set.rules@.len(),
                finding_models(raw@) == findings_upto(rules, payload@, i as int),
            decreases set.rules@.len() - i + (if expired {
                0int
            } else {
                1int
            }),
        {
            if millis_since(&start) >= deadline_millis {
                expired = true;
            } else {
                scan_one(set, i, payload, &mut raw);
                i += 1;
            }
        }
        let ghost k = i as int;
        let mut timed_out: Vec<String> = Vec::new();
        let mut j = i;
        while j < set.rules.len()
            invariant
                rules == set.model(),
                0 <= k <= j <= set.rules@.len(),
                j - k == timed_out@.len(),
                forall|t: int|
                    0 <= t < timed_out@.len() ==> (#[trigger] timed_out@[t])@ == rules[k + t].name,
            decreases set.rules@.len() - j,
        {
            timed_out.push(set.rules[j].name.clone());
            j += 1;
        }
        let findings = sort_findings(raw);
        let passed = findings.len() == 0;
        let compile_errors = self.recorded_errors(category);
        let v = Verdict { passed, findings, compile_errors, timed_out };
        proof {
            assert(v.model().timed_out =~= names_from(rules, k));
            assert(v.model() == verdict_model(
                self.rules_of(category),
                self.errors_of(category),
                payload@,
                k,
            ));
        }
        Ok(v)
    }

    /// Whether a snapshot was ever installed for this category.
    pub fn is_loaded(&self, category: Category) -> (b: bool)
        ensures
            b == self.loaded_of(category),
    {
        match category {
            Category::Input => self.input_loaded,
            Category::Output => self.output_loaded,
        }
    }
}

/// Runs one cached rule against the payload and appends its finding, if any.
fn scan_one(set: &RuleSet, i: usize, payload: &str, raw: &mut Vec<Finding>)
    requires
        set.wf(),
        i < set.rules@.len(),
        finding_models(old(raw)@) == findings_upto(set.model(), payload@, i as int),
    ensures
        finding_models(final(raw)@) == findings_upto(set.model(), payload@, i + 1),
{
    let ghost rules = set.model();
    let rule = &set.rules[i];
    proof {
        assert(rule.wf());
        assert(rules[i as int] == rule.model());
    }
    let m = regex_find(&rule.matcher, payload);
    match m {
        Some(sp) => {
            let f = Finding {
                rule_name: rule.name.clone(),
                description: rule.description.clone(),
                span: Some(sp),
            };
            proof {
                assert(find_of(rules[i as int].pattern, payload@) == Some(
                    (sp.0 as int, sp.1 as int),
                ));
                assert(finding_of(rules[i as int], payload@) == Some(f.model()));
            }
            raw.push(f);
            proof {
                assert(finding_models(raw@) =~= findings_upto(rules, payload@, i + 1));
            }
        },
        None => {
            proof {
                assert(finding_of(rules[i as int], payload@) is None);
                assert(findings_upto(rules, payload@, i + 1) =~= findings_upto(
                    rules,
                    payload@,
                    i as int,
                ));
            }
        },
    }
}

/// Runs every cached rule against the payload, in rule order.
fn scan_rules(set: &RuleSet, payload: &str) -> (r: Vec<Finding>)
    requires
        set.wf(),
    ensures
        finding_models(r@) == findings_upto(set.model(), payload@, set.model().len() as int),
{
    let mut raw: Vec<Finding> = Vec::new();
    let mut i: usize = 0;
    proof {
        assert(finding_models(raw@) =~= findings_upto(set.model(), payload@, 0));
    }
    while i < set.rules.len()
        invariant
            set.wf(),
            0 <= i <= set.rules@.len(),
            finding_models(raw@) == findings_upto(set.model(), payload@, i as int),
        decreases set.rules@.len() - i,
    {
        scan_one(set, i, payload, &mut raw);
        i += 1;
    }
    raw
}

/// A verdict passes exactly when it holds not one finding, whether or not
/// compile errors or timed-out rules ride along.
pub proof fn lemma_passed_iff_no_findings(
    rules: Seq<RuleModel>,
    errors: Seq<CompileErrorModel>,
    payload: Seq<char>,
    k: int,
)
    ensures
        verdict_model(rules, errors, payload, k).passed <==> verdict_model(
            rules,
            errors,
            payload,
            k,
        ).findings.len() == 0,
{
}

/// The findings of any verdict the engine owes are sorted by rule name.
pub proof fn lemma_verdict_findings_sorted(
    rules: Seq<RuleModel>,
    errors: Seq<CompileErrorModel>,
    payload: Seq<char>,
    k: int,
)
    ensures
        crate::order::sorted_by_rule_name(verdict_model(rules, errors, payload, k).findings),
{
    crate::order::lemma_sort_sorted(findings_upto(rules, payload, k));
}

/// Validation is deterministic: the verdict owed for a rule set, recorded
/// errors and payload is one value, so repeated calls of `validate` with
/// equal inputs return equal verdicts, findings in the same order.
pub proof fn lemma_validate_deterministic(
    rules: Seq<RuleModel>,
    errors: Seq<CompileErrorModel>,
    payload: Seq<char>,
    v1: VerdictModel,
    v2: VerdictModel,
)
    requires
        v1 == verdict_model(rules, errors, payload, rules.len() as int),
        v2 == verdict_model(rules, errors, payload, rules.len() as int),
    ensures
        v1 == v2,
{
}

proof fn lemma_findings_upto_all_none(rules: Seq<RuleModel>, payload: Seq<char>, n: int)
    requires
        n <= rules.len(),
        forall|i: int| 0 <= i < rules.len() ==> find_of((#[trigger] rules[i]).pattern, payload) is None,
    ensures
        findings_upto(rules, payload, n).len() == 0,
    decreases n,
{
    if n > 0 {
        lemma_findings_upto_all_none(rules, payload, n - 1);
    }
}

/// The fail-open policy: an empty rule set passes every payload. Callers
/// tell this apart from a clean payload only by looking at the rule count.
pub proof fn lemma_empty_rule_set_fails_open(errors: Seq<CompileErrorModel>, payload: Seq<char>)
    ensures
        verdict_model(Seq::empty(), errors, payload, 0).passed,
        verdict_model(Seq::empty(), errors, payload, 0).findings.len() == 0,
{
}

proof fn lemma_findings_upto_at_least_one(
    rules: Seq<RuleModel>,
    payload: Seq<char>,
    i: int,
    n: int,
)
    requires
        0 <= i < n <= rules.len(),
        find_of(rules[i].pattern, payload) is Some,
    ensures
        findings_upto(rules, payload, n).len() >= 1,
    decreases n,
{
    if n - 1 > i {
        lemma_findings_upto_at_least_one(rules, payload, i, n - 1);
    }
}

/// A rule set detects what any of its rules matches: if some rule's
/// pattern matches the payload, the full verdict does not pass.
pub proof fn lemma_match_is_detected(
    rules: Seq<RuleModel>,
    errors: Seq<CompileErrorModel>,
    payload: Seq<char>,
    i: int,
)
    requires
        0 <= i < rules.len(),
        find_of(rules[i].pattern, payload) is Some,
    ensures
        !verdict_model(rules, errors, payload, rules.len() as int).passed,
        verdict_model(rules, errors, payload, rules.len() as int).findings.len() >= 1,
{
    lemma_findings_upto_at_least_one(rules, payload, i, rules.len() as int);
    crate::order::lemma_sort_len(findings_upto(rules, payload, rules.len() as int));
}

/// A payload in which no rule's pattern matches anywhere always passes:
/// the verdict of a full validation has `passed` and not one finding.
pub proof fn lemma_clean_payload_passes(
    rules: Seq<RuleModel>,
    errors: Seq<CompileErrorModel>,
    payload: Seq<char>,
)
    requires
        forall|i: int| 0 <= i < rules.len() ==> find_of((#[trigger] rules[i]).pattern, payload) is None,
    ensures
        verdict_model(rules, errors, payload, rules.len() as int).passed,
        verdict_model(rules, errors, payload, rules.len() as int).findings.len() == 0,
{
    lemma_findings_upto_all_none(rules, payload, rules.len() as int);
    assert(findings_upto(rules, payload, rules.len() as int) =~= Seq::<FindingModel>::empty());
}

} // verus!
