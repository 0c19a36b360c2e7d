//! What reports on evaluations can be relied on for: rates, delays and failures are those of the
//! results.

use vstd::prelude::*;

use crate::laws::choosing::sorting_keeps_members;
use crate::laws::operating::distinct_keeps_each_once;
use crate::model::harness::{
    FailurePatternCluster, RagEvalCaseResult, RagEvalMetrics, RagEvalOverview, RagEvalRun, Rate,
};
use crate::operations::distinct;
use crate::order::{
    insert_sorted, sorted_by, sorted_by_is_in_order, sorted_by_keeps_elements, strict_order,
};
use crate::reports::{
    all_failures, are_clusters, are_metrics, component_for, count_results, failed_cases,
    greatest_first, is_cluster, is_overview, latencies, leaked, occurrences, p95, passed, repeated,
    shorter_first, violated, went_stale,
};
use crate::text::texts;
use crate::usage::count_where;

verus! {

proof fn lemma_count(results: Seq<RagEvalCaseResult>, p: spec_fn(RagEvalCaseResult) -> bool)
    ensures
        count_results(results, p) <= results.len(),
        count_results(results, p) == results.len() <==> forall|i: int|
            0 <= i < results.len() ==> p(#[trigger] results[i]),
        count_results(results, p) == 0 <==> forall|i: int|
            0 <= i < results.len() ==> !p(#[trigger] results[i]),
    decreases results.len(),
{
    if results.len() > 0 {
        let front = results.drop_last();
        lemma_count(front, p);
        assert(results[results.len() - 1] == results.last());
        assert(forall|i: int| 0 <= i < front.len() ==> front[i] == #[trigger] results[i]);
        if forall|i: int| 0 <= i < results.len() ==> p(#[trigger] results[i]) {
            assert forall|i: int| 0 <= i < front.len() implies p(#[trigger] front[i]) by {
                assert(p(results[i]));
            }
        }
        if forall|i: int| 0 <= i < results.len() ==> !p(#[trigger] results[i]) {
            assert forall|i: int| 0 <= i < front.len() implies !p(#[trigger] front[i]) by {
                assert(!p(results[i]));
            }
        }
        if forall|i: int| 0 <= i < front.len() ==> p(#[trigger] front[i]) {
            assert forall|i: int| 0 <= i < results.len() && i < front.len() implies p(
                #[trigger] results[i],
            ) by {
                assert(p(front[i]));
            }
        }
        if forall|i: int| 0 <= i < front.len() ==> !p(#[trigger] front[i]) {
            assert forall|i: int| 0 <= i < results.len() && i < front.len() implies !p(
                #[trigger] results[i],
            ) by {
                assert(!p(front[i]));
            }
        }
    }
}

/// The metrics of a run are of all its results: everything passed exactly if each result did, and
/// nothing did if none; a leak, a violation or a stale fragment is counted exactly where there is one.
pub proof fn metrics_tell_of_all_results(
    m: RagEvalMetrics,
    results: Seq<RagEvalCaseResult>,
    i: int,
)
    requires
        are_metrics(m, results),
    ensures
        m.pass_rate.whole == results.len(),
        m.pass_rate.part <= m.pass_rate.whole,
        m.pass_rate.part == m.pass_rate.whole <==> forall|k: int|
            0 <= k < results.len() ==> (#[trigger] results[k]).status@ == "passed"@,
        m.pass_rate.part == 0 <==> forall|k: int|
            0 <= k < results.len() ==> (#[trigger] results[k]).status@ != "passed"@,
        m.source_doc_leak_rate.part == 0 <==> forall|k: int|
            0 <= k < results.len() ==> (#[trigger] results[k]).metrics.source_doc_leak != Some(true),
        m.acl_violation_rate.part == 0 <==> forall|k: int|
            0 <= k < results.len() ==> (#[trigger] results[k]).metrics.acl_violation != Some(true),
        m.stale_fragment_rate.part == 0 <==> forall|k: int|
            0 <= k < results.len() ==> (#[trigger] results[k]).metrics.stale_fragment != Some(true),
        m.source_doc_leak_rate.whole == results.len(),
        m.acl_violation_rate.whole == results.len(),
        m.stale_fragment_rate.whole == results.len(),
        0 <= i < results.len() ==> {
            &&& m.retrieval_recall_at_5@[i] == or_nothing(results[i].metrics.retrieval_recall_at_5)
            &&& m.citation_precision@[i] == or_nothing(results[i].metrics.citation_precision)
            &&& m.traceback_success_rate@[i] == or_nothing(
                results[i].metrics.traceback_success_rate,
            )
            &&& results[i].metrics.tokens is Some ==> m.tokens_per_answer@[i].part
                == results[i].metrics.tokens->0
        },
{
    lemma_count(results, passed());
    lemma_count(results, leaked());
    lemma_count(results, violated());
    lemma_count(results, went_stale());
    assert(forall|k: int|
        0 <= k < results.len() ==> passed()(results[k]) == ((#[trigger] results[k]).status@
            == "passed"@));
    assert(forall|k: int|
        0 <= k < results.len() ==> leaked()(results[k]) == (
        (#[trigger] results[k]).metrics.source_doc_leak == Some(true)));
    assert(forall|k: int|
        0 <= k < results.len() ==> violated()(results[k]) == (
        (#[trigger] results[k]).metrics.acl_violation == Some(true)));
    assert(forall|k: int|
        0 <= k < results.len() ==> went_stale()(results[k]) == (
        (#[trigger] results[k]).metrics.stale_fragment == Some(true)));
    if 0 <= i < results.len() {
        assert(m.retrieval_recall_at_5@[i] == crate::reports::recall_of()(results[i]));
        assert(m.citation_precision@[i] == crate::reports::precision_of()(results[i]));
        assert(m.traceback_success_rate@[i] == crate::reports::traceback_of()(results[i]));
        assert(m.tokens_per_answer@[i] == crate::reports::tokens_of()(results[i]));
    }
}

/// A rate, or none of one where it was not measured.
pub open spec fn or_nothing(rate: Option<Rate>) -> Rate {
    if rate is Some {
        rate->0
    } else {
        Rate { part: 0, whole: 1 }
    }
}

proof fn lemma_count_inserted<T>(s: Seq<T>, x: T, lt: spec_fn(T, T) -> bool, p: spec_fn(T) -> bool)
    ensures
        count_where(insert_sorted(s, x, lt), p) == count_where(s, p) + (if p(x) {
            1nat
        } else {
            0
        }),
    decreases s.len(),
{
    if s.len() > 0 && lt(x, s.last()) {
        lemma_count_inserted(s.drop_last(), x, lt, p);
        let t = insert_sorted(s.drop_last(), x, lt).push(s.last());
        assert(t.drop_last() =~= insert_sorted(s.drop_last(), x, lt));
    } else {
        assert(s.push(x).drop_last() =~= s);
    }
}

/// Sorting changes no count.
pub proof fn sorting_changes_no_count<T>(s: Seq<T>, lt: spec_fn(T, T) -> bool, p: spec_fn(T) -> bool)
    ensures
        count_where(sorted_by(s, lt), p) == count_where(s, p),
    decreases s.len(),
{
    if s.len() > 0 {
        sorting_changes_no_count(s.drop_last(), lt, p);
        lemma_count_inserted(sorted_by(s.drop_last(), lt), s.last(), lt, p);
    }
}

proof fn lemma_count_front<T>(s: Seq<T>, p: spec_fn(T) -> bool, k: int)
    requires
        0 <= k <= s.len(),
        forall|i: int| 0 <= i < k ==> p(#[trigger] s[i]),
    ensures
        count_where(s, p) >= k,
    decreases s.len(),
{
    if s.len() > 0 {
        let front = s.drop_last();
        if k == s.len() {
            assert(p(s[k - 1]));
            assert forall|i: int| 0 <= i < k - 1 implies p(#[trigger] front[i]) by {
                assert(p(s[i]));
            }
            lemma_count_front(front, p, k - 1);
        } else {
            assert forall|i: int| 0 <= i < k implies p(#[trigger] front[i]) by {
                assert(p(s[i]));
            }
            lemma_count_front(front, p, k);
        }
    }
}

proof fn lemma_count_back<T>(s: Seq<T>, p: spec_fn(T) -> bool, k: int)
    requires
        0 <= k <= s.len(),
        forall|i: int| k <= i < s.len() ==> !p(#[trigger] s[i]),
    ensures
        count_where(s, p) <= k,
    decreases s.len(),
{
    if s.len() > 0 {
        let front = s.drop_last();
        if k < s.len() {
            assert(!p(s[s.len() - 1]));
            assert forall|i: int| k <= i < front.len() implies !p(#[trigger] front[i]) by {
                assert(!p(s[i]));
            }
            lemma_count_back(front, p, k);
        } else {
            lemma_count_back(front, p, front.len() as int);
        }
    }
}

/// Whether a delay is no longer than another.
pub open spec fn within(limit: u64) -> spec_fn(u64) -> bool {
    |delay: u64| delay <= limit
}

/// Whether a delay is shorter than another.
pub open spec fn below(limit: u64) -> spec_fn(u64) -> bool {
    |delay: u64| delay < limit
}

/// The delay that is reported is one of the delays; at least nineteen of twenty answers took no
/// longer, and of any shorter delay that cannot be said.
pub proof fn nearly_all_answers_took_no_longer(results: Seq<RagEvalCaseResult>)
    requires
        results.len() > 0,
    ensures
        exists|i: int|
            0 <= i < results.len() && (#[trigger] results[i]).latency_ms == p95(results),
        20 * count_where(latencies(results), within(p95(results))) >= 19 * results.len(),
        20 * count_where(latencies(results), below(p95(results))) < 19 * results.len(),
{
    let n = results.len() as int;
    let all = latencies(results);
    let lt = shorter_first();
    let sorted = sorted_by(all, lt);
    let k = (19 * n + 19) / 20;
    let limit = p95(results);
    assert(strict_order(lt));
    sorted_by_is_in_order(all, lt);
    sorted_by_keeps_elements(all, lt);
    assert(1 <= k <= n);
    assert(limit == sorted[k - 1]);
    assert(sorted.contains(sorted[k - 1]));
    sorting_keeps_members(all, lt, limit);
    let i = choose|i: int| 0 <= i < all.len() && all[i] == limit;
    assert(results[i].latency_ms == limit);
    assert forall|j: int| 0 <= j < k implies within(limit)(#[trigger] sorted[j]) by {
        if j < k - 1 {
            assert(!lt(sorted[k - 1], sorted[j]));
        }
    }
    lemma_count_front(sorted, within(limit), k);
    sorting_changes_no_count(all, lt, within(limit));
    assert forall|j: int| k - 1 <= j < sorted.len() implies !below(limit)(#[trigger] sorted[j]) by {
        if j > k - 1 {
            assert(!lt(sorted[j], sorted[k - 1]));
        }
    }
    lemma_count_back(sorted, below(limit), k - 1);
    sorting_changes_no_count(all, lt, below(limit));
}

proof fn lemma_all_failures(results: Seq<RagEvalCaseResult>, pattern: Seq<char>)
    ensures
        all_failures(results).contains(pattern) <==> exists|i: int|
            0 <= i < results.len() && texts((#[trigger] results[i]).failures@).contains(pattern),
    decreases results.len(),
{
    if results.len() > 0 {
        let front = results.drop_last();
        lemma_all_failures(front, pattern);
        let a = all_failures(front);
        let c = texts(results.last().failures@);
        let b = all_failures(results);
        let last = results.len() - 1;
        assert(results[last] == results.last());
        if b.contains(pattern) {
            let k = choose|k: int| 0 <= k < b.len() && b[k] == pattern;
            if k < a.len() {
                assert(a[k] == pattern);
                let i = choose|i: int|
                    0 <= i < front.len() && texts((#[trigger] front[i]).failures@).contains(pattern);
                assert(texts(results[i].failures@).contains(pattern));
            } else {
                assert(c[k - a.len()] == pattern);
                assert(texts(results[last].failures@).contains(pattern));
            }
        }
        if exists|i: int|
            0 <= i < results.len() && texts((#[trigger] results[i]).failures@).contains(pattern) {
            let i = choose|i: int|
                0 <= i < results.len() && texts((#[trigger] results[i]).failures@).contains(pattern);
            if i < last {
                assert(texts(front[i].failures@).contains(pattern));
                let k = choose|k: int| 0 <= k < a.len() && a[k] == pattern;
                assert(b[k] == pattern);
            } else {
                let k = choose|k: int| 0 <= k < c.len() && c[k] == pattern;
                assert(b[a.len() + k] == pattern);
            }
        }
    }
}

proof fn lemma_occurs(s: Seq<Seq<char>>, x: Seq<char>)
    ensures
        occurrences(s, x) > 0 <==> s.contains(x),
    decreases s.len(),
{
    if s.len() > 0 {
        let front = s.drop_last();
        lemma_occurs(front, x);
        assert(s[s.len() - 1] == s.last());
        if s.contains(x) {
            let i = choose|i: int| 0 <= i < s.len() && s[i] == x;
            if i < front.len() {
                assert(front[i] == x);
            }
        }
        if front.contains(x) {
            let i = choose|i: int| 0 <= i < front.len() && front[i] == x;
            assert(s[i] == x);
        }
    }
}

proof fn lemma_failed_cases(results: Seq<RagEvalCaseResult>, pattern: Seq<char>, id: Seq<char>)
    ensures
        failed_cases(results, pattern).contains(id) <==> exists|i: int|
            0 <= i < results.len() && (#[trigger] results[i]).case_id@ == id && texts(
                results[i].failures@,
            ).contains(pattern),
    decreases results.len(),
{
    if results.len() > 0 {
        let front = results.drop_last();
        lemma_failed_cases(front, pattern, id);
        let a = failed_cases(front, pattern);
        let last = results.len() - 1;
        let n = occurrences(texts(results[last].failures@), pattern);
        let c = repeated(results[last].case_id@, n);
        let b = failed_cases(results, pattern);
        lemma_occurs(texts(results[last].failures@), pattern);
        assert(results[last] == results.last());
        if b.contains(id) {
            let k = choose|k: int| 0 <= k < b.len() && b[k] == id;
            if k < a.len() {
                assert(a[k] == id);
                let i = choose|i: int|
                    0 <= i < front.len() && (#[trigger] front[i]).case_id@ == id && texts(
                        front[i].failures@,
                    ).contains(pattern);
                assert(results[i].case_id@ == id);
            } else {
                assert(c[k - a.len()] == id);
                assert(results[last].case_id@ == id);
            }
        }
        if exists|i: int|
            0 <= i < results.len() && (#[trigger] results[i]).case_id@ == id && texts(
                results[i].failures@,
            ).contains(pattern) {
            let i = choose|i: int|
                0 <= i < results.len() && (#[trigger] results[i]).case_id@ == id && texts(
                    results[i].failures@,
                ).contains(pattern);
            if i < last {
                assert(front[i].case_id@ == id);
                let k = choose|k: int| 0 <= k < a.len() && a[k] == id;
                assert(b[k] == id);
            } else {
                assert(c[0] == id);
                assert(b[a.len() as int] == id);
            }
        }
    }
}

/// Every failure that occurs has its cluster, and every cluster is of a failure that occurs; it names
/// the cases that failed so and no others.
pub proof fn a_cluster_names_the_cases_that_failed_so(
    all: Seq<FailurePatternCluster>,
    results: Seq<RagEvalCaseResult>,
    c: int,
    i: int,
    pattern: Seq<char>,
    id: Seq<char>,
)
    requires
        are_clusters(all, results),
    ensures
        0 <= c < all.len() ==> {
            &&& all[c].count == all[c].case_ids@.len()
            &&& texts(all[c].case_ids@).contains(id) <==> exists|k: int|
                0 <= k < results.len() && (#[trigger] results[k]).case_id@ == id && texts(
                    results[k].failures@,
                ).contains(all[c].pattern@)
            &&& exists|k: int|
                0 <= k < results.len() && texts((#[trigger] results[k]).failures@).contains(
                    all[c].pattern@,
                )
        },
        0 <= i < results.len() && texts(results[i].failures@).contains(pattern) ==> exists|k: int|
            0 <= k < all.len() && (#[trigger] all[k]).pattern@ == pattern,
{
    let patterns = distinct(all_failures(results));
    if 0 <= c < all.len() {
        assert(is_cluster(all[c], patterns[c], results));
        lemma_failed_cases(results, patterns[c], id);
        distinct_keeps_each_once(all_failures(results), patterns[c]);
        assert(patterns.contains(patterns[c]));
        lemma_all_failures(results, patterns[c]);
        assert(texts(all[c].case_ids@).len() == all[c].case_ids@.len());
    }
    if 0 <= i < results.len() && texts(results[i].failures@).contains(pattern) {
        lemma_all_failures(results, pattern);
        distinct_keeps_each_once(all_failures(results), pattern);
        let k = choose|k: int| 0 <= k < patterns.len() && patterns[k] == pattern;
        assert(is_cluster(all[k], patterns[k], results));
    }
}

/// An overview is of its run: it has its status and metrics, the commonest failure first, and points to
/// the component that that failure is about.
pub proof fn an_overview_points_to_the_commonest_failure(
    o: RagEvalOverview,
    run: RagEvalRun,
    results: Seq<RagEvalCaseResult>,
    values: Seq<Seq<char>>,
    now: i64,
    i: int,
    j: int,
)
    requires
        is_overview(o, run, results, values, now),
    ensures
        o.run_id == run.id,
        o.status == run.status,
        o.metrics == run.metrics,
        o.tenant_id == run.tenant_id,
        0 <= i < j < o.failure_patterns@.len() ==> o.failure_patterns@[i].count
            >= o.failure_patterns@[j].count,
        o.failure_patterns@.len() > 0 ==> o.suggested_target_component@ == component_for(
            o.failure_patterns@[0].pattern@,
        ),
        o.failure_patterns@.len() == 0 ==> o.suggested_target_component@
            == "retrieval.context_search"@,
{
    let all = choose|all: Seq<FailurePatternCluster>| #[trigger]
        are_clusters(all, results) && o.failure_patterns@ == sorted_by(all, greatest_first());
    let lt = greatest_first();
    let clusters = o.failure_patterns@;
    assert(strict_order(lt));
    sorted_by_is_in_order(all, lt);
    if 0 <= i < j < clusters.len() {
        assert(!lt(clusters[j], clusters[i]));
    }
    if clusters.len() > 0 {
        assert(clusters.contains(clusters[0]));
        sorting_keeps_members(all, lt, clusters[0]);
        let k = choose|k: int| 0 <= k < all.len() && all[k] == clusters[0];
        assert(is_cluster(all[k], distinct(all_failures(results))[k], results));
    }
}

/// Each kind of failure is about one component: what cannot be traced or is cited wrongly about the
/// traceback, what leaks or crosses an owner about safety, what is stale about the fragmenter, what is
/// answered wrongly about the prompt, and all else about the search.
pub proof fn a_failure_is_about_its_component(failure: Seq<char>)
    ensures
        failure == "traceback_missing"@ || failure == "citation_precision"@ ==> component_for(
            failure,
        ) == "retrieval.traceback"@,
        failure == "source_doc_leak"@ ==> component_for(failure)
            == "safety.source_doc_retrieval_guard"@,
        failure == "acl_violation"@ ==> component_for(failure) == "safety.owner_acl"@,
        failure == "stale_fragment"@ ==> component_for(failure) == "ingestion.fragmenter"@,
        failure == "answer_expectation"@ ==> component_for(failure) == "llm.rag_answer_prompt"@,
        failure != "traceback_missing"@ && failure != "citation_precision"@ && failure
            != "source_doc_leak"@ && failure != "acl_violation"@ && failure != "stale_fragment"@
            && failure != "answer_expectation"@ ==> component_for(failure)
            == "retrieval.context_search"@,
{
    reveal_strlit("traceback_missing");
    reveal_strlit("citation_precision");
    reveal_strlit("source_doc_leak");
    reveal_strlit("acl_violation");
    reveal_strlit("stale_fragment");
    reveal_strlit("answer_expectation");
    assert("traceback_missing"@.len() == 17);
    assert("citation_precision"@.len() == 18);
    assert("source_doc_leak"@.len() == 15);
    assert("acl_violation"@.len() == 13);
    assert("stale_fragment"@.len() == 14);
    assert("answer_expectation"@.len() == 18);
    assert("answer_expectation"@[0] != "citation_precision"@[0]);
}

} // verus!
