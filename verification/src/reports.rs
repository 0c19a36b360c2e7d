//! Reports of runs: what was measured, what failed in the same way, and what it says in words.

use vstd::prelude::*;
use vstd::string::*;

use crate::model::harness::{
    FailurePatternCluster, RagEvalCaseResult, RagEvalMetrics, RagEvalOverview, RagEvalRun, Rate,
};
use crate::operations::distinct;
use crate::order::{sort_by, sorted_by, sorted_by_keeps_elements};
use crate::record::List;
use crate::text::{
    decimal, decimal_text, join, joined, text_eq, texts, texts_add, texts_concat, texts_copy,
    texts_push,
};

verus! {

/// How many results `p` accepts.
pub open spec fn count_results(
    results: Seq<RagEvalCaseResult>,
    p: spec_fn(RagEvalCaseResult) -> bool,
) -> nat
    decreases results.len(),
{
    if results.len() == 0 {
        0
    } else {
        count_results(results.drop_last(), p) + (if p(results.last()) {
            1nat
        } else {
            0
        })
    }
}

fn count_where<F: Fn(&RagEvalCaseResult) -> bool>(
    results: &Vec<RagEvalCaseResult>,
    accept: F,
    Ghost(p): Ghost<spec_fn(RagEvalCaseResult) -> bool>,
) -> (r: u64)
    requires
        forall|a: RagEvalCaseResult| #[trigger] accept.requires((&a,)),
        forall|a: RagEvalCaseResult, b: bool| accept.ensures((&a,), b) ==> b == p(a),
    ensures
        r == count_results(results@, p),
{
    let mut n: u64 = 0;
    let mut i: usize = 0;
    while i < results.len()
        invariant
            i <= results@.len(),
            n <= i,
            n == count_results(results@.take(i as int), p),
            forall|a: RagEvalCaseResult| #[trigger] accept.requires((&a,)),
            forall|a: RagEvalCaseResult, b: bool| accept.ensures((&a,), b) ==> b == p(a),
        decreases results.len() - i,
    {
        assert(results@.take(i + 1).drop_last() =~= results@.take(i as int));
        if accept(&results[i]) {
            n = n + 1;
        }
        i += 1;
    }
    assert(results@.take(i as int) =~= results@);
    n
}

/// Whether a case passed.
pub open spec fn passed() -> spec_fn(RagEvalCaseResult) -> bool {
    |result: RagEvalCaseResult| result.status@ == "passed"@
}

/// Whether a case leaked a document.
pub open spec fn leaked() -> spec_fn(RagEvalCaseResult) -> bool {
    |result: RagEvalCaseResult| result.metrics.source_doc_leak == Some(true)
}

/// Whether a case saw something of another owner.
pub open spec fn violated() -> spec_fn(RagEvalCaseResult) -> bool {
    |result: RagEvalCaseResult| result.metrics.acl_violation == Some(true)
}

/// Whether a case retrieved what is no longer to be retrieved.
pub open spec fn went_stale() -> spec_fn(RagEvalCaseResult) -> bool {
    |result: RagEvalCaseResult| result.metrics.stale_fragment == Some(true)
}

/// The measurements of cases, one by one.
pub open spec fn are_measured(
    rates: Seq<Rate>,
    results: Seq<RagEvalCaseResult>,
    measure: spec_fn(RagEvalCaseResult) -> Rate,
) -> bool {
    rates.len() == results.len() && forall|i: int|
        0 <= i < results.len() ==> #[trigger] rates[i] == measure(results[i])
}

/// A measurement that was not taken counts as zero.
pub open spec fn taken(rate: Option<Rate>) -> Rate {
    match rate {
        Some(rate) => rate,
        None => Rate { part: 0, whole: 1 },
    }
}

fn rate_taken(rate: &Option<Rate>) -> (r: Rate)
    ensures
        r == taken(*rate),
{
    match rate {
        Some(rate) => rate.clone(),
        None => Rate { part: 0, whole: 1 },
    }
}

fn is_so(flag: &Option<bool>) -> (r: bool)
    ensures
        r == (*flag == Some(true)),
{
    match flag {
        Some(flag) => *flag,
        None => false,
    }
}

/// How much a case retrieved of what was expected.
pub open spec fn recall_of() -> spec_fn(RagEvalCaseResult) -> Rate {
    |result: RagEvalCaseResult| taken(result.metrics.retrieval_recall_at_5)
}

/// How many citations of a case were right.
pub open spec fn precision_of() -> spec_fn(RagEvalCaseResult) -> Rate {
    |result: RagEvalCaseResult| taken(result.metrics.citation_precision)
}

/// How many hits of a case could be traced back.
pub open spec fn traceback_of() -> spec_fn(RagEvalCaseResult) -> Rate {
    |result: RagEvalCaseResult| taken(result.metrics.traceback_success_rate)
}

/// How many words a case was answered with.
pub open spec fn tokens_of() -> spec_fn(RagEvalCaseResult) -> Rate {
    |result: RagEvalCaseResult|
        Rate {
            part: match result.metrics.tokens {
                Some(tokens) => tokens,
                None => 0,
            },
            whole: 1,
        }
}

/// The order of latencies.
pub open spec fn shorter_first() -> spec_fn(u64, u64) -> bool {
    |a: u64, b: u64| a < b
}

/// The latencies of cases.
pub open spec fn latencies(results: Seq<RagEvalCaseResult>) -> Seq<u64> {
    Seq::new(results.len(), |i: int| results[i].latency_ms)
}

/// The latency within which nineteen of twenty cases were answered.
pub open spec fn p95(results: Seq<RagEvalCaseResult>) -> u64 {
    let n = results.len() as int;
    if n == 0 {
        0
    } else {
        sorted_by(latencies(results), shorter_first())[(19 * n + 19) / 20 - 1]
    }
}

/// The latency within which nineteen of twenty cases were answered.
pub fn latency_p95(results: &Vec<RagEvalCaseResult>) -> (r: u64)
    ensures
        r == p95(results@),
{
    if results.len() == 0 {
        return 0;
    }
    let mut all: Vec<u64> = Vec::new();
    let mut i: usize = 0;
    while i < results.len()
        invariant
            i <= results.len(),
            all@.len() == i,
            forall|j: int| 0 <= j < i ==> #[trigger] all@[j] == results@[j].latency_ms,
        decreases results.len() - i,
    {
        all.push(results[i].latency_ms);
        i += 1;
    }
    assert(all@ =~= latencies(results@));
    let ghost lt = shorter_first();
    let shorter = |a: &u64, b: &u64| -> (c: bool)
        ensures
            c == lt(*a, *b),
        { *a < *b };
    let ghost unsorted = all@;
    let sorted: Vec<u64> = sort_by(all, shorter, Ghost(lt));
    proof {
        sorted_by_keeps_elements(unsorted, lt);
    }
    let n: u128 = results.len() as u128;
    let at: u128 = (19 * n + 19) / 20 - 1;
    assert(0 <= at < n) by (nonlinear_arith)
        requires
            n >= 1,
            at == (19 * n + 19) / 20 - 1,
    ;
    sorted[at as usize]
}

/// Whether `m` are the measurements of a run.
pub open spec fn are_metrics(m: RagEvalMetrics, results: Seq<RagEvalCaseResult>) -> bool {
    let n = results.len();
    &&& m.pass_rate.part == count_results(results, passed())
    &&& m.pass_rate.whole == n
    &&& are_measured(m.retrieval_recall_at_5@, results, recall_of())
    &&& are_measured(m.citation_precision@, results, precision_of())
    &&& are_measured(m.traceback_success_rate@, results, traceback_of())
    &&& m.source_doc_leak_rate.part == count_results(results, leaked())
    &&& m.source_doc_leak_rate.whole == n
    &&& m.acl_violation_rate.part == count_results(results, violated())
    &&& m.acl_violation_rate.whole == n
    &&& m.stale_fragment_rate.part == count_results(results, went_stale())
    &&& m.stale_fragment_rate.whole == n
    &&& m.state_history_consistency_rate == (if n == 0 {
        Rate { part: 0, whole: 0 }
    } else {
        Rate { part: 1, whole: 1 }
    })
    &&& m.llm_health_false_ready_rate == (if n == 0 {
        Rate { part: 0, whole: 0 }
    } else {
        Rate { part: 0, whole: 1 }
    })
    &&& are_measured(m.tokens_per_answer@, results, tokens_of())
    &&& m.latency_p95 == p95(results)
}

fn measure_all<F: Fn(&RagEvalCaseResult) -> Rate>(
    results: &Vec<RagEvalCaseResult>,
    measure: F,
    Ghost(m): Ghost<spec_fn(RagEvalCaseResult) -> Rate>,
) -> (r: List<Rate>)
    requires
        forall|a: RagEvalCaseResult| #[trigger] measure.requires((&a,)),
        forall|a: RagEvalCaseResult, b: Rate| measure.ensures((&a,), b) ==> b == m(a),
    ensures
        are_measured(r@, results@, m),
{
    let mut out: Vec<Rate> = Vec::new();
    let mut i: usize = 0;
    while i < results.len()
        invariant
            i <= results.len(),
            out@.len() == i,
            forall|j: int| 0 <= j < i ==> #[trigger] out@[j] == m(results@[j]),
            forall|a: RagEvalCaseResult| #[trigger] measure.requires((&a,)),
            forall|a: RagEvalCaseResult, b: Rate| measure.ensures((&a,), b) ==> b == m(a),
        decreases results.len() - i,
    {
        out.push(measure(&results[i]));
        i += 1;
    }
    std::sync::Arc::new(out)
}

/// The measurements of a run.
pub fn aggregate_eval_metrics(results: &Vec<RagEvalCaseResult>) -> (r: RagEvalMetrics)
    ensures
        are_metrics(r, results@),
{
    let n: u64 = results.len() as u64;
    let ghost p = passed();
    let has_passed = |result: &RagEvalCaseResult| -> (b: bool)
        ensures
            b == p(*result),
        { text_eq(result.status.as_str(), "passed") };
    let ghost l = leaked();
    let has_leaked = |result: &RagEvalCaseResult| -> (b: bool)
        ensures
            b == l(*result),
        { is_so(&result.metrics.source_doc_leak) };
    let ghost v = violated();
    let has_violated = |result: &RagEvalCaseResult| -> (b: bool)
        ensures
            b == v(*result),
        { is_so(&result.metrics.acl_violation) };
    let ghost s = went_stale();
    let is_stale = |result: &RagEvalCaseResult| -> (b: bool)
        ensures
            b == s(*result),
        { is_so(&result.metrics.stale_fragment) };
    let ghost rm = recall_of();
    let recall = |result: &RagEvalCaseResult| -> (x: Rate)
        ensures
            x == rm(*result),
        { rate_taken(&result.metrics.retrieval_recall_at_5) };
    let ghost pm = precision_of();
    let precision = |result: &RagEvalCaseResult| -> (x: Rate)
        ensures
            x == pm(*result),
        { rate_taken(&result.metrics.citation_precision) };
    let ghost tm = traceback_of();
    let traceback = |result: &RagEvalCaseResult| -> (x: Rate)
        ensures
            x == tm(*result),
        { rate_taken(&result.metrics.traceback_success_rate) };
    let ghost km = tokens_of();
    let tokens = |result: &RagEvalCaseResult| -> (x: Rate)
        ensures
            x == km(*result),
        {
            Rate {
                part: match result.metrics.tokens {
                    Some(tokens) => tokens,
                    None => 0,
                },
                whole: 1,
            }
        };
    RagEvalMetrics {
        pass_rate: Rate { part: count_where(results, has_passed, Ghost(p)), whole: n },
        retrieval_recall_at_5: measure_all(results, recall, Ghost(rm)),
        citation_precision: measure_all(results, precision, Ghost(pm)),
        traceback_success_rate: measure_all(results, traceback, Ghost(tm)),
        source_doc_leak_rate: Rate { part: count_where(results, has_leaked, Ghost(l)), whole: n },
        acl_violation_rate: Rate { part: count_where(results, has_violated, Ghost(v)), whole: n },
        stale_fragment_rate: Rate { part: count_where(results, is_stale, Ghost(s)), whole: n },
        state_history_consistency_rate: if n == 0 {
            Rate { part: 0, whole: 0 }
        } else {
            Rate { part: 1, whole: 1 }
        },
        llm_health_false_ready_rate: if n == 0 {
            Rate { part: 0, whole: 0 }
        } else {
            Rate { part: 0, whole: 1 }
        },
        tokens_per_answer: measure_all(results, tokens, Ghost(km)),
        latency_p95: latency_p95(results),
    }
}

/// The component that a failure points to.
pub open spec fn component_for(failure: Seq<char>) -> Seq<char> {
    if failure == "traceback_missing"@ {
        "retrieval.traceback"@
    } else if failure == "source_doc_leak"@ {
        "safety.source_doc_retrieval_guard"@
    } else if failure == "acl_violation"@ {
        "safety.owner_acl"@
    } else if failure == "stale_fragment"@ {
        "ingestion.fragmenter"@
    } else if failure == "answer_expectation"@ {
        "llm.rag_answer_prompt"@
    } else if failure == "citation_precision"@ {
        "retrieval.traceback"@
    } else {
        "retrieval.context_search"@
    }
}

/// The component that a failure points to.
pub fn suggested_component_for_failure(failure: &str) -> (r: &'static str)
    ensures
        r@ == component_for(failure@),
{
    if text_eq(failure, "traceback_missing") {
        "retrieval.traceback"
    } else if text_eq(failure, "source_doc_leak") {
        "safety.source_doc_retrieval_guard"
    } else if text_eq(failure, "acl_violation") {
        "safety.owner_acl"
    } else if text_eq(failure, "stale_fragment") {
        "ingestion.fragmenter"
    } else if text_eq(failure, "answer_expectation") {
        "llm.rag_answer_prompt"
    } else if text_eq(failure, "citation_precision") {
        "retrieval.traceback"
    } else {
        "retrieval.context_search"
    }
}

/// What a failure comes from.
pub open spec fn note_for(failure: Seq<char>) -> Seq<char> {
    if failure == "traceback_missing"@ {
        "A retrieved fragment did not resolve to source-document evidence."@
    } else if failure == "source_doc_leak"@ {
        "Default retrieval included a non-fragment or source-document node."@
    } else if failure == "acl_violation"@ {
        "A private node crossed the requested owner boundary."@
    } else if failure == "stale_fragment"@ {
        "A retrieved fragment was inactive, superseded, or not retrieval-enabled."@
    } else if failure == "answer_expectation"@ {
        "The grounded answer did not contain expected answer evidence."@
    } else if failure == "citation_precision"@ {
        "Retrieved citations did not align with expected source documents."@
    } else {
        "Expected evidence was not present in the top retrieved fragments."@
    }
}

/// What a failure comes from.
pub fn root_cause_note_for_failure(failure: &str) -> (r: &'static str)
    ensures
        r@ == note_for(failure@),
{
    if text_eq(failure, "traceback_missing") {
        "A retrieved fragment did not resolve to source-document evidence."
    } else if text_eq(failure, "source_doc_leak") {
        "Default retrieval included a non-fragment or source-document node."
    } else if text_eq(failure, "acl_violation") {
        "A private node crossed the requested owner boundary."
    } else if text_eq(failure, "stale_fragment") {
        "A retrieved fragment was inactive, superseded, or not retrieval-enabled."
    } else if text_eq(failure, "answer_expectation") {
        "The grounded answer did not contain expected answer evidence."
    } else if text_eq(failure, "citation_precision") {
        "Retrieved citations did not align with expected source documents."
    } else {
        "Expected evidence was not present in the top retrieved fragments."
    }
}

/// The failures of all cases in order.
pub open spec fn all_failures(results: Seq<RagEvalCaseResult>) -> Seq<Seq<char>>
    decreases results.len(),
{
    if results.len() == 0 {
        Seq::empty()
    } else {
        all_failures(results.drop_last()) + texts(results.last().failures@)
    }
}

/// How often a text occurs.
pub open spec fn occurrences(s: Seq<Seq<char>>, x: Seq<char>) -> nat
    decreases s.len(),
{
    if s.len() == 0 {
        0
    } else {
        occurrences(s.drop_last(), x) + (if s.last() == x {
            1nat
        } else {
            0
        })
    }
}

/// A text as often as is asked for.
pub open spec fn repeated(x: Seq<char>, n: nat) -> Seq<Seq<char>> {
    Seq::new(n, |i: int| x)
}

/// The cases that failed in some way, each as often as it did.
pub open spec fn failed_cases(results: Seq<RagEvalCaseResult>, pattern: Seq<char>) -> Seq<Seq<char>>
    decreases results.len(),
{
    if results.len() == 0 {
        Seq::empty()
    } else {
        failed_cases(results.drop_last(), pattern) + repeated(
            results.last().case_id@,
            occurrences(texts(results.last().failures@), pattern),
        )
    }
}

/// Whether `c` tells of the cases that failed in some way.
pub open spec fn is_cluster(
    c: FailurePatternCluster,
    pattern: Seq<char>,
    results: Seq<RagEvalCaseResult>,
) -> bool {
    let cases = failed_cases(results, pattern);
    &&& c.pattern@ == pattern
    &&& c.count == cases.len()
    &&& texts(c.case_ids@) == cases
    &&& c.suggested_target_component@ == component_for(pattern)
    &&& texts(c.root_cause_notes@) == seq![note_for(pattern)]
}

/// Whether clusters tell of every way in which cases failed, in the order in which they come.
pub open spec fn are_clusters(c: Seq<FailurePatternCluster>, results: Seq<RagEvalCaseResult>) -> bool {
    let patterns = distinct(all_failures(results));
    c.len() == patterns.len() && forall|i: int|
        0 <= i < patterns.len() ==> is_cluster(#[trigger] c[i], patterns[i], results)
}

/// The order of clusters with the greatest first.
pub open spec fn greatest_first() -> spec_fn(FailurePatternCluster, FailurePatternCluster) -> bool {
    |a: FailurePatternCluster, b: FailurePatternCluster| a.count > b.count
}

fn cases_that_failed(results: &Vec<RagEvalCaseResult>, pattern: &str) -> (r: Vec<String>)
    ensures
        texts(r@) == failed_cases(results@, pattern@),
{
    let mut out: Vec<String> = Vec::new();
    let mut i: usize = 0;
    assert(texts(out@) =~= failed_cases(results@.take(0), pattern@));
    while i < results.len()
        invariant
            i <= results.len(),
            texts(out@) == failed_cases(results@.take(i as int), pattern@),
        decreases results.len() - i,
    {
        assert(results@.take(i + 1).drop_last() =~= results@.take(i as int));
        let result: &RagEvalCaseResult = &results[i];
        let ghost fails = texts(result.failures@);
        let ghost head = texts(out@);
        let mut j: usize = 0;
        assert(head + repeated(result.case_id@, 0) =~= head);
        while j < result.failures.len()
            invariant
                j <= result.failures@.len(),
                fails == texts(result.failures@),
                texts(out@) == head + repeated(
                    result.case_id@,
                    occurrences(fails.take(j as int), pattern@),
                ),
            decreases result.failures.len() - j,
        {
            assert(fails.take(j + 1).drop_last() =~= fails.take(j as int));
            assert(fails.take(j + 1).last() == result.failures@[j as int]@);
            if text_eq(result.failures[j].as_str(), pattern) {
                let id: String = result.case_id.clone();
                proof {
                    texts_push(out@, id);
                    let n = occurrences(fails.take(j as int), pattern@);
                    assert((head + repeated(result.case_id@, n)).push(id@) =~= head + repeated(
                        result.case_id@,
                        n + 1,
                    ));
                }
                out.push(id);
            }
            j += 1;
        }
        assert(fails.take(j as int) =~= fails);
        i += 1;
    }
    assert(results@.take(i as int) =~= results@);
    out
}

fn list_failures(results: &Vec<RagEvalCaseResult>) -> (r: Vec<String>)
    ensures
        texts(r@) == distinct(all_failures(results@)),
{
    let mut out: Vec<String> = Vec::new();
    let mut i: usize = 0;
    assert(texts(out@) =~= distinct(all_failures(results@.take(0))));
    while i < results.len()
        invariant
            i <= results.len(),
            texts(out@) == distinct(all_failures(results@.take(i as int))),
        decreases results.len() - i,
    {
        assert(results@.take(i + 1).drop_last() =~= results@.take(i as int));
        let result: &RagEvalCaseResult = &results[i];
        let ghost fails = texts(result.failures@);
        let ghost front = all_failures(results@.take(i as int));
        let mut j: usize = 0;
        assert(front + fails.take(0) =~= front);
        while j < result.failures.len()
            invariant
                j <= result.failures@.len(),
                fails == texts(result.failures@),
                texts(out@) == distinct(front + fails.take(j as int)),
            decreases result.failures.len() - j,
        {
            let ghost more = front + fails.take(j + 1);
            assert(more.drop_last() =~= front + fails.take(j as int));
            assert(more.last() == result.failures@[j as int]@);
            texts_add(&mut out, result.failures[j].clone());
            j += 1;
        }
        assert(fails.take(j as int) =~= fails);
        i += 1;
    }
    assert(results@.take(i as int) =~= results@);
    out
}

/// The ways in which cases failed, the most frequent first.
pub fn failure_pattern_clusters(results: &Vec<RagEvalCaseResult>) -> (r: Vec<FailurePatternCluster>)
    ensures
        exists|all: Seq<FailurePatternCluster>| #[trigger]
            are_clusters(all, results@) && r@ == sorted_by(all, greatest_first()),
{
    let patterns: Vec<String> = list_failures(results);
    let ghost names = distinct(all_failures(results@));
    let mut all: Vec<FailurePatternCluster> = Vec::new();
    let mut i: usize = 0;
    while i < patterns.len()
        invariant
            i <= patterns.len(),
            names == texts(patterns@),
            all@.len() == i,
            forall|j: int| 0 <= j < i ==> is_cluster(#[trigger] all@[j], names[j], results@),
        decreases patterns.len() - i,
    {
        assert(names[i as int] == patterns@[i as int]@);
        let pattern: &String = &patterns[i];
        let cases: Vec<String> = cases_that_failed(results, pattern.as_str());
        let mut notes: Vec<String> = Vec::new();
        notes.push(root_cause_note_for_failure(pattern.as_str()).to_owned());
        assert(texts(notes@) =~= seq![note_for(pattern@)]);
        assert(texts(cases@).len() == cases@.len());
        all.push(
            FailurePatternCluster {
                pattern: pattern.clone(),
                count: cases.len(),
                case_ids: std::sync::Arc::new(cases),
                suggested_target_component: suggested_component_for_failure(
                    pattern.as_str(),
                ).to_owned(),
                root_cause_notes: std::sync::Arc::new(notes),
            },
        );
        i += 1;
    }
    let ghost unsorted = all@;
    assert(are_clusters(unsorted, results@));
    let ghost lt = greatest_first();
    let greater = |a: &FailurePatternCluster, b: &FailurePatternCluster| -> (c: bool)
        ensures
            c == lt(*a, *b),
        { a.count > b.count };
    sort_by(all, greater, Ghost(lt))
}

/// Texts as the items of a list in Markdown.
pub open spec fn list_items(values: Seq<Seq<char>>) -> Seq<Seq<char>> {
    Seq::new(values.len(), |i: int| "- "@ + values[i])
}

/// Texts as a list in Markdown.
pub open spec fn list_text(values: Seq<Seq<char>>) -> Seq<char> {
    if values.len() == 0 {
        "- none"@
    } else {
        joined(list_items(values), "\n"@)
    }
}

/// Texts as a list in Markdown.
pub fn markdown_list(values: &Vec<String>) -> (r: String)
    ensures
        r@ == list_text(texts(values@)),
{
    if values.len() == 0 {
        return "- none".to_owned();
    }
    let mut items: Vec<String> = Vec::new();
    let mut i: usize = 0;
    while i < values.len()
        invariant
            i <= values.len(),
            items@.len() == i,
            forall|j: int| 0 <= j < i ==> (#[trigger] items@[j])@ == "- "@ + values@[j]@,
        decreases values.len() - i,
    {
        items.push("- ".to_owned().concat(values[i].as_str()));
        i += 1;
    }
    assert(texts(items@) =~= list_items(texts(values@)));
    join(&items, "\n")
}

/// The report of a case in Markdown.
pub open spec fn case_text(result: RagEvalCaseResult) -> Seq<char> {
    "# Eval Case "@ + result.case_id@ + "\n\nstatus: "@ + result.status@ + "\n\ntrace_id: "@
        + result.trace_id@ + "\n\n## Retrieved URIs\n"@ + list_text(
        texts(result.retrieved_uris@),
    ) + "\n\n## Source Documents\n"@ + list_text(texts(result.source_document_uris@))
        + "\n\n## Failures\n"@ + list_text(texts(result.failures@)) + "\n"@
}

/// The report of a case in Markdown.
pub fn case_result_markdown(result: &RagEvalCaseResult) -> (r: String)
    ensures
        r@ == case_text(*result),
{
    let mut out: String = "# Eval Case ".to_owned();
    out.append(result.case_id.as_str());
    out.append("\n\nstatus: ");
    out.append(result.status.as_str());
    out.append("\n\ntrace_id: ");
    out.append(result.trace_id.as_str());
    out.append("\n\n## Retrieved URIs\n");
    out.append(markdown_list(&result.retrieved_uris).as_str());
    out.append("\n\n## Source Documents\n");
    out.append(markdown_list(&result.source_document_uris).as_str());
    out.append("\n\n## Failures\n");
    out.append(markdown_list(&result.failures).as_str());
    out.append("\n");
    out
}

/// The names of the measurements of a run.
pub open spec fn metric_names() -> Seq<Seq<char>> {
    seq![
        "pass_rate"@,
        "retrieval_recall_at_5"@,
        "citation_precision"@,
        "traceback_success_rate"@,
        "source_doc_leak_rate"@,
        "acl_violation_rate"@,
        "stale_fragment_rate"@,
        "state_history_consistency_rate"@,
        "llm_health_false_ready_rate"@,
        "tokens_per_answer"@,
        "latency_p95"@,
    ]
}

fn list_metric_names() -> (r: Vec<String>)
    ensures
        texts(r@) == metric_names(),
{
    let mut v: Vec<String> = Vec::new();
    v.push("pass_rate".to_owned());
    v.push("retrieval_recall_at_5".to_owned());
    v.push("citation_precision".to_owned());
    v.push("traceback_success_rate".to_owned());
    v.push("source_doc_leak_rate".to_owned());
    v.push("acl_violation_rate".to_owned());
    v.push("stale_fragment_rate".to_owned());
    v.push("state_history_consistency_rate".to_owned());
    v.push("llm_health_false_ready_rate".to_owned());
    v.push("tokens_per_answer".to_owned());
    v.push("latency_p95".to_owned());
    assert(texts(v@) =~= metric_names());
    v
}

/// The measurements of a run in Markdown, as far as they have names and values.
pub open spec fn metric_lines(names: Seq<Seq<char>>, values: Seq<Seq<char>>) -> Seq<char>
    decreases names.len(),
{
    if names.len() == 0 {
        Seq::empty()
    } else {
        metric_lines(names.drop_last(), values) + "- "@ + names.last() + ": "@ + values[names.len()
            - 1] + "\n"@
    }
}

fn metrics_markdown(values: &Vec<String>) -> (r: String)
    requires
        values@.len() == metric_names().len(),
    ensures
        r@ == metric_lines(metric_names(), texts(values@)),
{
    let names: Vec<String> = list_metric_names();
    let ghost all = metric_names();
    let mut out: String = "".to_owned();
    let mut i: usize = 0;
    proof {
        reveal_strlit("");
    }
    assert(out@ =~= metric_lines(all.take(0), texts(values@)));
    while i < names.len()
        invariant
            i <= names@.len(),
            all == texts(names@),
            values@.len() == all.len(),
            out@ == metric_lines(all.take(i as int), texts(values@)),
        decreases names.len() - i,
    {
        assert(all.take(i + 1).drop_last() =~= all.take(i as int));
        assert(all.take(i + 1).last() == names@[i as int]@);
        assert(texts(values@)[i as int] == values@[i as int]@);
        out.append("- ");
        out.append(names[i].as_str());
        out.append(": ");
        out.append(values[i].as_str());
        out.append("\n");
        i += 1;
    }
    assert(all.take(i as int) =~= all);
    out
}

/// The ways in which cases failed in Markdown.
pub open spec fn pattern_lines(clusters: Seq<FailurePatternCluster>) -> Seq<char>
    decreases clusters.len(),
{
    if clusters.len() == 0 {
        Seq::empty()
    } else {
        let c = clusters.last();
        pattern_lines(clusters.drop_last()) + "- "@ + c.pattern@ + ": "@ + decimal(c.count as nat)
            + " case(s), target "@ + c.suggested_target_component@ + "\n"@
    }
}

fn patterns_markdown(clusters: &Vec<FailurePatternCluster>) -> (r: String)
    ensures
        r@ == pattern_lines(clusters@),
{
    let mut out: String = "".to_owned();
    let mut i: usize = 0;
    proof {
        reveal_strlit("");
    }
    assert(out@ =~= pattern_lines(clusters@.take(0)));
    while i < clusters.len()
        invariant
            i <= clusters.len(),
            out@ == pattern_lines(clusters@.take(i as int)),
        decreases clusters.len() - i,
    {
        assert(clusters@.take(i + 1).drop_last() =~= clusters@.take(i as int));
        let c: &FailurePatternCluster = &clusters[i];
        out.append("- ");
        out.append(c.pattern.as_str());
        out.append(": ");
        out.append(decimal_text(c.count as u64).as_str());
        out.append(" case(s), target ");
        out.append(c.suggested_target_component.as_str());
        out.append("\n");
        i += 1;
    }
    assert(clusters@.take(i as int) =~= clusters@);
    out
}

/// The component that a run points to.
pub open spec fn target_of(clusters: Seq<FailurePatternCluster>) -> Seq<char> {
    if clusters.len() > 0 {
        clusters[0].suggested_target_component@
    } else {
        "retrieval.context_search"@
    }
}

/// The notes of clusters, one behind the other.
pub open spec fn all_notes(clusters: Seq<FailurePatternCluster>) -> Seq<Seq<char>>
    decreases clusters.len(),
{
    if clusters.len() == 0 {
        Seq::empty()
    } else {
        all_notes(clusters.drop_last()) + texts(clusters.last().root_cause_notes@)
    }
}

fn collect_notes(clusters: &Vec<FailurePatternCluster>) -> (r: Vec<String>)
    ensures
        texts(r@) == all_notes(clusters@),
{
    let mut out: Vec<String> = Vec::new();
    let mut i: usize = 0;
    assert(texts(out@) =~= all_notes(clusters@.take(0)));
    while i < clusters.len()
        invariant
            i <= clusters.len(),
            texts(out@) == all_notes(clusters@.take(i as int)),
        decreases clusters.len() - i,
    {
        assert(clusters@.take(i + 1).drop_last() =~= clusters@.take(i as int));
        let mut notes: Vec<String> = texts_copy(&clusters[i].root_cause_notes);
        proof {
            texts_concat(out@, notes@);
        }
        out.append(&mut notes);
        i += 1;
    }
    assert(clusters@.take(i as int) =~= clusters@);
    out
}

/// The report of a run in Markdown; `values` are its measurements as they are written.
pub open spec fn overview_text(
    run: RagEvalRun,
    values: Seq<Seq<char>>,
    clusters: Seq<FailurePatternCluster>,
) -> Seq<char> {
    "# RAG Eval Overview "@ + run.id@ + "\n\nstatus: "@ + run.status@ + "\n\n## Metrics\n"@
        + metric_lines(metric_names(), values) + "\n## Failure Patterns\n"@ + (
    if clusters.len() == 0 {
        "- none\n"@
    } else {
        pattern_lines(clusters)
    }) + "\n## Suggested Target Component\n"@ + target_of(clusters) + "\n"@
}

/// Whether `o` is the report of a run.
pub open spec fn is_overview(
    o: RagEvalOverview,
    run: RagEvalRun,
    results: Seq<RagEvalCaseResult>,
    values: Seq<Seq<char>>,
    now: i64,
) -> bool {
    let clusters = o.failure_patterns@;
    &&& o.tenant_id == run.tenant_id
    &&& o.run_id == run.id
    &&& o.status == run.status
    &&& o.metrics == run.metrics
    &&& exists|all: Seq<FailurePatternCluster>| #[trigger]
        are_clusters(all, results) && clusters == sorted_by(all, greatest_first())
    &&& o.suggested_target_component@ == target_of(clusters)
    &&& texts(o.root_cause_notes@) == all_notes(clusters)
    &&& o.overview_markdown@ == overview_text(run, values, clusters)
    &&& o.case_report_uris@.len() == 0
    &&& o.overview_source_document_uri is None
    &&& o.generated_at == now
}

/// The report of a run; `values` are its measurements as they are written, in the order of their
/// names.
pub fn build_eval_overview(
    run: &RagEvalRun,
    results: &Vec<RagEvalCaseResult>,
    values: &Vec<String>,
    now: i64,
) -> (r: RagEvalOverview)
    requires
        values@.len() == metric_names().len(),
    ensures
        is_overview(r, *run, results@, texts(values@), now),
{
    let clusters: Vec<FailurePatternCluster> = failure_pattern_clusters(results);
    let target: String = if clusters.len() > 0 {
        clusters[0].suggested_target_component.clone()
    } else {
        "retrieval.context_search".to_owned()
    };
    let notes: Vec<String> = collect_notes(&clusters);
    let mut text: String = "# RAG Eval Overview ".to_owned();
    text.append(run.id.as_str());
    text.append("\n\nstatus: ");
    text.append(run.status.as_str());
    text.append("\n\n## Metrics\n");
    text.append(metrics_markdown(values).as_str());
    text.append("\n## Failure Patterns\n");
    if clusters.len() == 0 {
        text.append("- none\n");
    } else {
        text.append(patterns_markdown(&clusters).as_str());
    }
    text.append("\n## Suggested Target Component\n");
    text.append(target.as_str());
    text.append("\n");
    RagEvalOverview {
        tenant_id: run.tenant_id.clone(),
        run_id: run.id.clone(),
        status: run.status.clone(),
        metrics: run.metrics.clone(),
        failure_patterns: std::sync::Arc::new(clusters),
        suggested_target_component: target,
        root_cause_notes: std::sync::Arc::new(notes),
        overview_markdown: text,
        case_report_uris: std::sync::Arc::new(Vec::new()),
        overview_source_document_uri: None,
        generated_at: now,
    }
}

} // verus!
