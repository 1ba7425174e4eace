//! The Pattern Cache's building block: a rule set compiled whole from what
//! the Pattern Store handed out, each rule compiled independently so that
//! one malformed pattern degrades coverage, never availability.

use vstd::prelude::*;

use crate::compile::{compile, CompiledRule};
use crate::matcher::compiles_ok;
use crate::rules::{
    error_models, rule_models, CompileError, CompileErrorModel, PatternRule, RuleModel,
};

verus! {

/// An immutable snapshot of every compiled rule of one category.
pub struct RuleSet {
    pub rules: Vec<CompiledRule>,
}

impl RuleSet {
    /// Every matcher in the set was compiled from the pattern text beside it.
    pub open spec fn wf(self) -> bool {
        forall|i: int| 0 <= i < self.rules@.len() ==> (#[trigger] self.rules@[i]).wf()
    }

    pub open spec fn model(self) -> Seq<RuleModel> {
        self.rules@.map_values(|r: CompiledRule| r.model())
    }

    pub fn empty() -> (r: RuleSet)
        ensures
            r.wf(),
            r.model() == Seq::<RuleModel>::empty(),
    {
        let r = RuleSet { rules: Vec::new() };
        proof {
            assert(r.model() =~= Seq::<RuleModel>::empty());
        }
        r
    }

    pub fn len(&self) -> (n: usize)
        ensures
            n == self.model().len(),
    {
        self.rules.len()
    }
}

/// The rules whose patterns compile, in the order they were handed out.
pub open spec fn compiled_of(rows: Seq<RuleModel>) -> Seq<RuleModel>
    decreases rows.len(),
{
    if rows.len() == 0 {
        Seq::empty()
    } else {
        compiled_of(rows.drop_last()) + if compiles_ok(rows.last().pattern) {
            seq![rows.last()]
        } else {
            Seq::empty()
        }
    }
}

/// The (name, pattern) of each rule whose pattern does not compile, in order.
pub open spec fn failed_of(rows: Seq<RuleModel>) -> Seq<(Seq<char>, Seq<char>)>
    decreases rows.len(),
{
    if rows.len() == 0 {
        Seq::empty()
    } else {
        failed_of(rows.drop_last()) + if compiles_ok(rows.last().pattern) {
            Seq::empty()
        } else {
            seq![(rows.last().name, rows.last().pattern)]
        }
    }
}

/// The recorded compile errors, reduced to the (name, pattern) they speak of.
pub open spec fn failed_pairs(s: Seq<CompileErrorModel>) -> Seq<(Seq<char>, Seq<char>)> {
    s.map_values(|e: CompileErrorModel| (e.rule_name, e.raw_pattern))
}

/// Every fetched rule lands on exactly one side of the compile step.
pub proof fn lemma_compile_partition(rows: Seq<RuleModel>)
    ensures
        compiled_of(rows).len() + failed_of(rows).len() == rows.len(),
    decreases rows.len(),
{
    if rows.len() != 0 {
        lemma_compile_partition(rows.drop_last());
    }
}

proof fn lemma_all_compile(rows: Seq<RuleModel>)
    requires
        forall|j: int| 0 <= j < rows.len() ==> compiles_ok((#[trigger] rows[j]).pattern),
    ensures
        failed_of(rows).len() == 0,
        compiled_of(rows) == rows,
    decreases rows.len(),
{
    if rows.len() != 0 {
        lemma_all_compile(rows.drop_last());
        assert(compiled_of(rows.drop_last()) + seq![rows.last()] =~= rows);
    }
}

/// One malformed pattern among many valid ones costs exactly that one rule:
/// a single compile error, naming it, and every other rule usable.
pub proof fn lemma_one_bad_pattern(rows: Seq<RuleModel>, bad: int)
    requires
        0 <= bad < rows.len(),
        !compiles_ok(rows[bad].pattern),
        forall|j: int|
            0 <= j < rows.len() && j != bad ==> compiles_ok((#[trigger] rows[j]).pattern),
    ensures
        failed_of(rows).len() == 1,
        failed_of(rows)[0] == (rows[bad].name, rows[bad].pattern),
        compiled_of(rows).len() == rows.len() - 1,
    decreases rows.len(),
{
    if bad == rows.len() - 1 {
        lemma_all_compile(rows.drop_last());
    } else {
        lemma_one_bad_pattern(rows.drop_last(), bad);
    }
}

/// A rule that compiles is never dropped: it stands in the compiled set.
pub proof fn lemma_compiled_keeps_good_rules(rows: Seq<RuleModel>, j: int)
    requires
        0 <= j < rows.len(),
        compiles_ok(rows[j].pattern),
    ensures
        compiled_of(rows).contains(rows[j]),
    decreases rows.len(),
{
    if j == rows.len() - 1 {
        let c = compiled_of(rows);
        assert(c[c.len() - 1] == rows.last());
    } else {
        lemma_compiled_keeps_good_rules(rows.drop_last(), j);
        let prev = compiled_of(rows.drop_last());
        let witness = choose|w: int| 0 <= w < prev.len() && prev[w] == rows[j];
        assert(compiled_of(rows)[witness] == rows[j]);
    }
}

/// Compiles every fetched rule independently. The returned set holds
/// exactly the rules that compiled, in order; the returned errors name
/// exactly the patterns that did not, in order.
pub fn build_rule_set(rows: &Vec<PatternRule>) -> (r: (RuleSet, Vec<CompileError>))
    ensures
        r.0.wf(),
        r.0.model() == compiled_of(rule_models(rows@)),
        failed_pairs(error_models(r.1@)) == failed_of(rule_models(rows@)),
{
    let mut set = RuleSet::empty();
    let mut errs: Vec<CompileError> = Vec::new();
    let mut i: usize = 0;
    proof {
        assert(rule_models(rows@).subrange(0, 0) =~= Seq::<RuleModel>::empty());
        assert(failed_pairs(error_models(errs@)) =~= Seq::<(Seq<char>, Seq<char>)>::empty());
    }
    while i < rows.len()
        invariant
            0 <= i <= rows@.len(),
            set.wf(),
            set.model() == compiled_of(rule_models(rows@).subrange(0, i as int)),
            failed_pairs(error_models(errs@)) == failed_of(rule_models(rows@).subrange(0, i as int)),
        decreases rows@.len() - i,
    {
        let ghost prefix = rule_models(rows@).subrange(0, i as int);
        let ghost prefix_next = rule_models(rows@).subrange(0, i + 1);
        proof {
            assert(prefix_next.drop_last() =~= prefix);
            assert(prefix_next.last() == rows@[i as int].model());
        }
        match compile(&rows[i]) {
            Ok(c) => {
                set.rules.push(c);
                proof {
                    assert(set.model() =~= compiled_of(prefix) + seq![rows@[i as int].model()]);
                    assert(failed_of(prefix_next) =~= failed_of(prefix));
                }
            },
            Err(e) => {
                errs.push(e);
                proof {
                    assert(failed_pairs(error_models(errs@)) =~= failed_of(prefix) + seq![
                        (rows@[i as int].model().name, rows@[i as int].model().pattern),
                    ]);
                    assert(compiled_of(prefix_next) =~= compiled_of(prefix));
                }
            },
        }
        i += 1;
    }
    proof {
        assert(rule_models(rows@).subrange(0, rows@.len() as int) =~= rule_models(rows@));
    }
    (set, errs)
}

/// Copies a recorded error list, so the report a refresh returns and the
/// errors the cache keeps say the same thing.
pub fn clone_errors(v: &Vec<CompileError>) -> (r: Vec<CompileError>)
    ensures
        error_models(r@) == error_models(v@),
{
    let mut r: Vec<CompileError> = Vec::new();
    let mut i: usize = 0;
    while i < v.len()
        invariant
            0 <= i <= v@.len(),
            error_models(r@) == error_models(v@.subrange(0, i as int)),
        decreases v@.len() - i,
    {
        let e = v[i].clone();
        proof {
            assert(error_models(r@).len() == r@.len());
            assert(error_models(v@.subrange(0, i as int)).len() == i);
            assert(r@.len() == i);
        }
        r.push(e);
        proof {
            let next = v@.subrange(0, i + 1);
            assert(r@.len() == i + 1);
            assert(next.len() == i + 1);
            assert forall|j: int| 0 <= j < r@.len() implies error_models(r@)[j] == error_models(
                next,
            )[j] by {
                assert(error_models(r@)[j] == r@[j].model());
                assert(error_models(next)[j] == next[j].model());
                if j < i {
                    assert(error_models(v@.subrange(0, i as int))[j] == v@.subrange(
                        0,
                        i as int,
                    )[j].model());
                }
            }
            assert(error_models(r@) =~= error_models(next));
        }
        i += 1;
    }
    proof {
        assert(v@.subrange(0, v@.len() as int) =~= v@);
    }
    r
}

} // verus!
