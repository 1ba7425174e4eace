//! Deterministic ordering of findings: a verdict lists its findings sorted
//! by rule name, so equal inputs give byte-for-byte equal output.

use vstd::multiset::Multiset;
use vstd::prelude::*;

use crate::rules::{finding_models, Finding, FindingModel};

verus! {

/// Lexicographic order on text, by code point. A prefix sorts before any
/// extension of it.
pub open spec fn lex_leq(a: Seq<char>, b: Seq<char>) -> bool
    decreases a.len(),
{
    if a.len() == 0 {
        true
    } else if b.len() == 0 {
        false
    } else if (a[0] as u32) < (b[0] as u32) {
        true
    } else if (a[0] as u32) > (b[0] as u32) {
        false
    } else {
        lex_leq(a.drop_first(), b.drop_first())
    }
}

/// Any two texts are comparable under `lex_leq`.
pub proof fn lemma_lex_leq_total(a: Seq<char>, b: Seq<char>)
    ensures
        lex_leq(a, b) || lex_leq(b, a),
    decreases a.len(),
{
    if a.len() != 0 && b.len() != 0 && (a[0] as u32) == (b[0] as u32) {
        lemma_lex_leq_total(a.drop_first(), b.drop_first());
    }
}

/// Relies on `str`'s `Ord` impl: comparison is lexicographic over bytes,
/// which on UTF-8 text coincides with lexicographic order by code point.
#[verifier::external_body]
pub(crate) fn str_le(a: &str, b: &str) -> (r: bool)
    ensures
        r == lex_leq(a@, b@),
{
    a <= b
}

/// Where one finding goes when placed into an already ordered run: after
/// every entry whose rule name sorts no higher than its own, so equal
/// names keep their relative order.
pub open spec fn insert_ordered(f: FindingModel, s: Seq<FindingModel>) -> Seq<FindingModel>
    decreases s.len(),
{
    if s.len() == 0 {
        seq![f]
    } else if !lex_leq(s[0].rule_name, f.rule_name) {
        seq![f] + s
    } else {
        seq![s[0]] + insert_ordered(f, s.drop_first())
    }
}

/// The mandated order of a verdict's findings: insertion sort by rule name.
/// Findings with equal rule names keep their relative order.
pub open spec fn sort_by_rule_name(s: Seq<FindingModel>) -> Seq<FindingModel>
    decreases s.len(),
{
    if s.len() == 0 {
        Seq::empty()
    } else {
        insert_ordered(s.last(), sort_by_rule_name(s.drop_last()))
    }
}

/// Adjacent entries are in order of rule name.
pub open spec fn sorted_by_rule_name(s: Seq<FindingModel>) -> bool {
    forall|i: int|
        0 <= i && i + 1 < s.len() ==> lex_leq(#[trigger] s[i].rule_name, s[i + 1].rule_name)
}

proof fn lemma_insert_keeps_sorted(f: FindingModel, s: Seq<FindingModel>)
    requires
        sorted_by_rule_name(s),
    ensures
        sorted_by_rule_name(insert_ordered(f, s)),
    decreases s.len(),
{
    if s.len() == 0 {
    } else if !lex_leq(s[0].rule_name, f.rule_name) {
        lemma_lex_leq_total(f.rule_name, s[0].rule_name);
        let r = seq![f] + s;
        assert forall|i: int| 0 <= i && i + 1 < r.len() implies lex_leq(
            r[i].rule_name,
            #[trigger] r[i + 1].rule_name,
        ) by {
            if i == 0 {
                assert(r[0] == f && r[1] == s[0]);
            } else {
                assert(r[i] == s[i - 1] && r[i + 1] == s[i]);
                assert(lex_leq(s[i - 1].rule_name, s[i].rule_name));
            }
        }
    } else {
        let tail = s.drop_first();
        assert forall|i: int| 0 <= i && i + 1 < tail.len() implies lex_leq(
            tail[i].rule_name,
            #[trigger] tail[i + 1].rule_name,
        ) by {
            assert(tail[i] == s[i + 1] && tail[i + 1] == s[i + 2]);
        }
        lemma_insert_keeps_sorted(f, tail);
        let it = insert_ordered(f, tail);
        let r = seq![s[0]] + it;
        assert forall|i: int| 0 <= i && i + 1 < r.len() implies lex_leq(
            r[i].rule_name,
            #[trigger] r[i + 1].rule_name,
        ) by {
            if i == 0 {
                assert(r[0] == s[0]);
                if tail.len() == 0 {
                    assert(r[1] == f);
                } else if !lex_leq(tail[0].rule_name, f.rule_name) {
                    assert(it[0] == f);
                    assert(r[1] == f);
                } else {
                    assert(it[0] == tail[0]);
                    assert(r[1] == tail[0]);
                    assert(tail[0] == s[1]);
                    assert(lex_leq(s[0].rule_name, s[1].rule_name));
                }
            } else {
                assert(r[i] == it[i - 1] && r[i + 1] == it[i]);
                assert(lex_leq(it[i - 1].rule_name, it[i].rule_name));
            }
        }
    }
}

/// The sort really sorts: its result is ordered by rule name.
pub proof fn lemma_sort_sorted(s: Seq<FindingModel>)
    ensures
        sorted_by_rule_name(sort_by_rule_name(s)),
    decreases s.len(),
{
    if s.len() != 0 {
        lemma_sort_sorted(s.drop_last());
        lemma_insert_keeps_sorted(s.last(), sort_by_rule_name(s.drop_last()));
    }
}

proof fn lemma_insert_ordered_multiset(f: FindingModel, s: Seq<FindingModel>)
    ensures
        insert_ordered(f, s).to_multiset() == s.to_multiset().insert(f),
    decreases s.len(),
{
    broadcast use vstd::seq_lib::group_to_multiset_ensures;

    if s.len() == 0 {
        assert(insert_ordered(f, s) =~= Seq::empty().push(f));
        assert(Seq::<FindingModel>::empty().push(f).to_multiset() =~= Multiset::empty().insert(
            f,
        ));
        assert(s.to_multiset() =~= Multiset::empty());
    } else if !lex_leq(s[0].rule_name, f.rule_name) {
        lemma_multiset_push_front(f, s);
    } else {
        let tail = s.drop_first();
        lemma_insert_ordered_multiset(f, tail);
        lemma_multiset_push_front(s[0], insert_ordered(f, tail));
        lemma_multiset_push_front(s[0], tail);
        assert(seq![s[0]] + tail =~= s);
        assert(insert_ordered(f, s).to_multiset() =~= s.to_multiset().insert(f));
    }
}

proof fn lemma_multiset_push_front<A>(x: A, s: Seq<A>)
    ensures
        (seq![x] + s).to_multiset() == s.to_multiset().insert(x),
    decreases s.len(),
{
    broadcast use vstd::seq_lib::group_to_multiset_ensures;

    if s.len() == 0 {
        assert(seq![x] + s =~= Seq::empty().push(x));
    } else {
        let r = seq![x] + s;
        assert(r =~= (seq![x] + s.drop_last()).push(s.last()));
        lemma_multiset_push_front(x, s.drop_last());
        assert(s =~= s.drop_last().push(s.last()));
        assert(r.to_multiset() =~= s.to_multiset().insert(x));
    }
}

/// The sort loses nothing and invents nothing: its result holds exactly the
/// findings it was given, as a multiset.
pub proof fn lemma_sort_permutes(s: Seq<FindingModel>)
    ensures
        sort_by_rule_name(s).to_multiset() == s.to_multiset(),
    decreases s.len(),
{
    broadcast use vstd::seq_lib::group_to_multiset_ensures;

    if s.len() != 0 {
        lemma_sort_permutes(s.drop_last());
        lemma_insert_ordered_multiset(s.last(), sort_by_rule_name(s.drop_last()));
        assert(s =~= s.drop_last().push(s.last()));
        assert(sort_by_rule_name(s).to_multiset() =~= s.to_multiset());
    }
}

proof fn lemma_insert_ordered_len(f: FindingModel, s: Seq<FindingModel>)
    ensures
        insert_ordered(f, s).len() == s.len() + 1,
    decreases s.len(),
{
    if s.len() != 0 && lex_leq(s[0].rule_name, f.rule_name) {
        lemma_insert_ordered_len(f, s.drop_first());
    }
}

/// The sort changes only the order: as many findings come out as went in.
pub proof fn lemma_sort_len(s: Seq<FindingModel>)
    ensures
        sort_by_rule_name(s).len() == s.len(),
    decreases s.len(),
{
    if s.len() != 0 {
        lemma_sort_len(s.drop_last());
        lemma_insert_ordered_len(s.last(), sort_by_rule_name(s.drop_last()));
    }
}

proof fn lemma_insert_skip(f: FindingModel, s: Seq<FindingModel>, j: int)
    requires
        0 <= j <= s.len(),
        forall|i: int| 0 <= i < j ==> lex_leq(#[trigger] s[i].rule_name, f.rule_name),
    ensures
        insert_ordered(f, s) == s.subrange(0, j) + insert_ordered(
            f,
            s.subrange(j, s.len() as int),
        ),
    decreases j,
{
    if j == 0 {
        assert(s.subrange(0, s.len() as int) =~= s);
        assert(s.subrange(0, 0) + insert_ordered(f, s) =~= insert_ordered(f, s));
    } else {
        let tail = s.drop_first();
        assert forall|i: int| 0 <= i < j - 1 implies lex_leq(
            (#[trigger] tail[i]).rule_name,
            f.rule_name,
        ) by {
            assert(tail[i] == s[i + 1]);
        }
        lemma_insert_skip(f, tail, j - 1);
        assert(tail.subrange(j - 1, tail.len() as int) =~= s.subrange(j, s.len() as int));
        assert(seq![s[0]] + tail.subrange(0, j - 1) =~= s.subrange(0, j));
        assert(insert_ordered(f, s) == seq![s[0]] + (tail.subrange(0, j - 1) + insert_ordered(
            f,
            tail.subrange(j - 1, tail.len() as int),
        )));
        assert(seq![s[0]] + (tail.subrange(0, j - 1) + insert_ordered(
            f,
            s.subrange(j, s.len() as int),
        )) =~= s.subrange(0, j) + insert_ordered(f, s.subrange(j, s.len() as int)));
    }
}

/// Places one finding into a vector already ordered by rule name, keeping
/// the order the sort mandates.
fn insert_by_rule_name(out: &mut Vec<Finding>, f: Finding)
    ensures
        finding_models(final(out)@) == insert_ordered(f.model(), finding_models(old(out)@)),
{
    let ghost m = finding_models(out@);
    let ghost fm = f.model();
    let mut j: usize = 0;
    let mut found: bool = false;
    while !found && j < out.len()
        invariant
            out@ == old(out)@,
            m == finding_models(out@),
            fm == f.model(),
            0 <= j <= out@.len(),
            found ==> j < out@.len() && !lex_leq(m[j as int].rule_name, fm.rule_name),
            forall|i: int| 0 <= i < j ==> lex_leq((#[trigger] m[i]).rule_name, fm.rule_name),
        decreases out@.len() - j + (if found { 0int } else { 1int }),
    {
        assert(m[j as int] == out@[j as int].model());
        if str_le(out[j].rule_name.as_str(), f.rule_name.as_str()) {
            j += 1;
        } else {
            found = true;
        }
    }
    proof {
        lemma_insert_skip(fm, m, j as int);
    }
    if found {
        let ghost suffix = m.subrange(j as int, m.len() as int);
        proof {
            assert(suffix[0] == m[j as int]);
            assert(insert_ordered(fm, suffix) == seq![fm] + suffix);
        }
        out.insert(j, f);
        proof {
            assert(finding_models(out@) =~= m.subrange(0, j as int) + (seq![fm] + suffix));
        }
    } else {
        let ghost suffix = m.subrange(j as int, m.len() as int);
        proof {
            assert(suffix.len() == 0);
            assert(insert_ordered(fm, suffix) == seq![fm]);
        }
        out.push(f);
        proof {
            assert(finding_models(out@) =~= m.subrange(0, j as int) + seq![fm]);
        }
    }
}

/// Sorts findings by rule name, the order every verdict lists them in.
pub fn sort_findings(findings: Vec<Finding>) -> (r: Vec<Finding>)
    ensures
        finding_models(r@) == sort_by_rule_name(finding_models(findings@)),
{
    let mut out: Vec<Finding> = Vec::new();
    let mut i: usize = 0;
    while i < findings.len()
        invariant
            0 <= i <= findings@.len(),
            finding_models(out@) == sort_by_rule_name(
                finding_models(findings@.subrange(0, i as int)),
            ),
        decreases findings@.len() - i,
    {
        let f = findings[i].clone();
        proof {
            let prefix_next = finding_models(findings@.subrange(0, i + 1));
            assert(prefix_next.drop_last() =~= finding_models(findings@.subrange(0, i as int)));
            assert(prefix_next.last() == f.model());
        }
        insert_by_rule_name(&mut out, f);
        i += 1;
    }
    proof {
        assert(findings@.subrange(0, findings@.len() as int) =~= findings@);
    }
    out
}

} // verus!
