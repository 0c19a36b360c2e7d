//! Evaluating an answer: what was retrieved, what was cited, and what went wrong.

use vstd::prelude::*;
use vstd::string::*;

use crate::data::StoreData;
use crate::documents::readable_document;
use crate::history_search::limited;
use crate::hits::ContextHit;
use crate::model::harness::{CaseMetrics, RagEvalCase, RagEvalCaseResult, Rate};
use crate::model::knowledge::ContextNode;
use crate::nodes::{is_candidate, retrieval_candidate};
use crate::order::{any_where, deduped, find_where};
use crate::reading::{active_at_uri, document_uri_of, matching, readable_node, traceback};
use crate::resolver::EventIndexResolver;
use crate::search::{hit_uris, ContextSearchOutcome, RagAnswerResponse};
use crate::text::{
    as_deref, blank, chars_of, contains_text, dedup_texts, has_part, is_whitespace, opt_str,
    opt_text, sort_texts, sorted_texts, text_eq, texts, texts_contain, texts_copy, texts_push,
};

verus! {

/// Whether a node should not have been retrieved by default: it is no fragment, or a whole
/// document.
pub open spec fn leaks() -> spec_fn(ContextNode) -> bool {
    |node: ContextNode|
        node.node_kind@ != "fragment"@ || node.retrieval_role@ != "fragment"@ || opt_text(
            node.source_document_uri,
        ) == Some(node.uri@)
}

/// Whether a node is of an owner other than the one that was asked for.
pub open spec fn of_another(owner: Option<Seq<char>>) -> spec_fn(ContextNode) -> bool {
    |node: ContextNode| node.owner_user_id is Some && opt_text(node.owner_user_id) != owner
}

/// Whether a node is no longer to be retrieved.
pub open spec fn is_stale() -> spec_fn(ContextNode) -> bool {
    |node: ContextNode| !is_candidate(node)
}

fn any_leaks(nodes: &Vec<ContextNode>) -> (r: bool)
    ensures
        r == any_where(nodes@, leaks()),
{
    let ghost p = leaks();
    let bad = |node: &ContextNode| -> (b: bool)
        ensures
            b == p(*node),
        {
            !text_eq(node.node_kind.as_str(), "fragment") || !text_eq(
                node.retrieval_role.as_str(),
                "fragment",
            ) || match &node.source_document_uri {
                Some(uri) => text_eq(uri.as_str(), node.uri.as_str()),
                None => false,
            }
        };
    find_where(nodes, bad, Ghost(p)) < nodes.len()
}

fn any_of_another(nodes: &Vec<ContextNode>, owner: Option<&str>) -> (r: bool)
    ensures
        r == any_where(nodes@, of_another(opt_str(owner))),
{
    let ghost p = of_another(opt_str(owner));
    let bad = |node: &ContextNode| -> (b: bool)
        ensures
            b == p(*node),
        {
            match &node.owner_user_id {
                Some(o) => match owner {
                    Some(wanted) => !text_eq(o.as_str(), wanted),
                    None => true,
                },
                None => false,
            }
        };
    find_where(nodes, bad, Ghost(p)) < nodes.len()
}

fn any_stale(nodes: &Vec<ContextNode>) -> (r: bool)
    ensures
        r == any_where(nodes@, is_stale()),
{
    let ghost p = is_stale();
    let bad = |node: &ContextNode| -> (b: bool)
        ensures
            b == p(*node),
        { !retrieval_candidate(node) };
    find_where(nodes, bad, Ghost(p)) < nodes.len()
}

/// The document to which a caller can trace a URI back.
pub open spec fn traced(
    d: StoreData,
    resolver: EventIndexResolver,
    tenant_id: Seq<char>,
    owner: Option<Seq<char>>,
    uri: Seq<char>,
) -> Option<Seq<char>> {
    if blank(uri) {
        None
    } else {
        match readable_node(
            matching(d, resolver, tenant_id, owner, false, active_at_uri(uri)),
            owner,
            false,
        ) {
            Some(fragment) => if fragment.node_kind@ != "fragment"@ {
                None
            } else {
                match document_uri_of(d, tenant_id, fragment) {
                    Some(document_uri) => match readable_document(
                        d,
                        tenant_id,
                        document_uri,
                        owner,
                        false,
                    ) {
                        Some(document) => Some(document.uri@),
                        None => None,
                    },
                    None => None,
                }
            },
            None => None,
        }
    }
}

/// The documents to which hits can be traced back, hit by hit.
pub open spec fn traced_all(
    d: StoreData,
    resolver: EventIndexResolver,
    tenant_id: Seq<char>,
    owner: Option<Seq<char>>,
    uris: Seq<Seq<char>>,
) -> Seq<Seq<char>>
    decreases uris.len(),
{
    if uris.len() == 0 {
        Seq::empty()
    } else {
        let front = traced_all(d, resolver, tenant_id, owner, uris.drop_last());
        match traced(d, resolver, tenant_id, owner, uris.last()) {
            Some(uri) => front.push(uri),
            None => front,
        }
    }
}

fn trace_hits(
    data: &StoreData,
    resolver: &EventIndexResolver,
    tenant_id: &str,
    owner: Option<&str>,
    hits: &Vec<ContextHit>,
) -> (r: Vec<String>)
    ensures
        texts(r@) == traced_all(*data, *resolver, tenant_id@, opt_str(owner), hit_uris(hits@)),
        r@.len() <= hits@.len(),
{
    let ghost uris = hit_uris(hits@);
    let mut out: Vec<String> = Vec::new();
    let mut i: usize = 0;
    assert(texts(out@) =~= traced_all(
        *data,
        *resolver,
        tenant_id@,
        opt_str(owner),
        uris.take(0),
    ));
    while i < hits.len()
        invariant
            i <= hits.len(),
            uris == hit_uris(hits@),
            out@.len() <= i,
            texts(out@) == traced_all(
                *data,
                *resolver,
                tenant_id@,
                opt_str(owner),
                uris.take(i as int),
            ),
        decreases hits.len() - i,
    {
        assert(uris.take(i + 1).drop_last() =~= uris.take(i as int));
        assert(uris.take(i + 1).last() == hits@[i as int].uri@);
        match traceback(
            data,
            resolver,
            tenant_id,
            Some(hits[i].uri.as_str()),
            owner,
            false,
        ) {
            Ok(found) => {
                proof {
                    texts_push(out@, found.source_document_uri);
                }
                out.push(found.source_document_uri);
            },
            Err(_) => {},
        }
        i += 1;
    }
    assert(uris.take(i as int) =~= uris);
    out
}

/// How many of the first texts are among the others.
pub open spec fn count_among(s: Seq<Seq<char>>, others: Seq<Seq<char>>) -> nat
    decreases s.len(),
{
    if s.len() == 0 {
        0
    } else {
        count_among(s.drop_last(), others) + (if others.contains(s.last()) {
            1nat
        } else {
            0
        })
    }
}

fn count_common(v: &Vec<String>, others: &Vec<String>) -> (r: usize)
    ensures
        r == count_among(texts(v@), texts(others@)),
        r <= v@.len(),
{
    let ghost s = texts(v@);
    let mut n: usize = 0;
    let mut i: usize = 0;
    while i < v.len()
        invariant
            i <= v.len(),
            s == texts(v@),
            n <= i,
            n == count_among(s.take(i as int), texts(others@)),
        decreases v.len() - i,
    {
        assert(s.take(i + 1).drop_last() =~= s.take(i as int));
        assert(s.take(i + 1).last() == v@[i as int]@);
        if texts_contain(others, v[i].as_str()) {
            n += 1;
        }
        i += 1;
    }
    assert(s.take(i as int) =~= s);
    n
}

/// How many words a text has.
pub open spec fn word_count(s: Seq<char>) -> nat
    decreases s.len(),
{
    if s.len() == 0 {
        0
    } else {
        let front = s.drop_last();
        word_count(front) + (if !crate::text::char_is_whitespace(s.last()) && (front.len() == 0
            || crate::text::char_is_whitespace(front.last())) {
            1nat
        } else {
            0
        })
    }
}

/// How many words a text has.
pub fn count_words(text: &str) -> (r: u64)
    ensures
        r == word_count(text@),
{
    let x: Vec<char> = chars_of(text);
    let mut n: u64 = 0;
    let mut apart: bool = true;
    let mut i: usize = 0;
    while i < x.len()
        invariant
            i <= x@.len(),
            x@ == text@,
            n <= i,
            n == word_count(x@.take(i as int)),
            apart == (i == 0 || crate::text::char_is_whitespace(x@[i - 1])),
        decreases x.len() - i,
    {
        assert(x@.take(i + 1).drop_last() =~= x@.take(i as int));
        let space: bool = is_whitespace(x[i]);
        if !space && apart {
            n = n + 1;
        }
        apart = space;
        i += 1;
    }
    assert(x@.take(i as int) =~= x@);
    n
}

/// What was found of a case, by content.
pub struct CaseFindings {
    pub retrieved: Seq<Seq<char>>,
    pub cited_documents: Seq<Seq<char>>,
    pub documents: Seq<Seq<char>>,
    pub hits: nat,
    pub citations: nat,
    pub leak: bool,
    pub violation: bool,
    pub stale: bool,
    pub answer: Seq<char>,
}

/// The most hits by which retrieval is judged.
pub const JUDGED_HITS: usize = 5;

/// What was found of a case.
pub open spec fn findings(
    d: StoreData,
    resolver: EventIndexResolver,
    tenant_id: Seq<char>,
    case: RagEvalCase,
    outcome: ContextSearchOutcome,
    answer: RagAnswerResponse,
) -> CaseFindings {
    let owner = opt_text(case.owner_user_id);
    let hits = outcome.response.hits@;
    let cited_documents = traced_all(d, resolver, tenant_id, owner, hit_uris(hits));
    CaseFindings {
        retrieved: hit_uris(limited(hits, JUDGED_HITS as nat)),
        cited_documents,
        documents: deduped(sorted_texts(cited_documents)),
        hits: hits.len(),
        citations: answer.citations@.len(),
        leak: any_where(outcome.nodes@, leaks()),
        violation: any_where(outcome.nodes@, of_another(owner)),
        stale: any_where(outcome.nodes@, is_stale()),
        answer: answer.answer@,
    }
}

/// A fraction by value.
pub open spec fn is_rate(r: Rate, part: nat, whole: nat) -> bool {
    r.part == part && r.whole == whole
}

/// Whether `r` is the part of what was expected that was retrieved.
pub open spec fn is_recall(r: Rate, case: RagEvalCase, f: CaseFindings) -> bool {
    let uris = texts(case.expected_context_uris@);
    let documents = texts(case.expected_source_document_uris@);
    if uris.len() + documents.len() == 0 {
        is_rate(r, 1, 1)
    } else {
        is_rate(
            r,
            count_among(uris, f.retrieved) + count_among(documents, f.documents),
            uris.len() + documents.len(),
        )
    }
}

/// Whether `r` is the part of the citations that lead to an expected document.
pub open spec fn is_precision(r: Rate, case: RagEvalCase, f: CaseFindings) -> bool {
    let documents = texts(case.expected_source_document_uris@);
    if f.citations == 0 {
        if documents.len() == 0 {
            is_rate(r, 1, 1)
        } else {
            is_rate(r, 0, 1)
        }
    } else if documents.len() == 0 {
        if !f.leak && f.cited_documents.len() == f.hits {
            is_rate(r, 1, 1)
        } else {
            is_rate(r, 0, 1)
        }
    } else {
        is_rate(r, count_among(f.cited_documents, documents), f.citations)
    }
}

/// Whether `r` is the part of the hits that can be traced back.
pub open spec fn is_traceback_rate(r: Rate, f: CaseFindings) -> bool {
    if f.hits == 0 {
        is_rate(r, 1, 1)
    } else {
        is_rate(r, f.cited_documents.len(), f.hits)
    }
}

/// Whether an answer holds all that is expected of it.
pub open spec fn answers_all(answer: Seq<char>, expected: Seq<Seq<char>>) -> bool {
    forall|i: int| 0 <= i < expected.len() ==> has_part(answer, #[trigger] expected[i])
}

fn check_answers_all(answer: &str, expected: &Vec<String>) -> (r: bool)
    ensures
        r == answers_all(answer@, texts(expected@)),
{
    let ghost all = texts(expected@);
    let mut i: usize = 0;
    while i < expected.len()
        invariant
            i <= expected.len(),
            all == texts(expected@),
            forall|j: int| 0 <= j < i ==> has_part(answer@, #[trigger] all[j]),
        decreases expected.len() - i,
    {
        assert(all[i as int] == expected@[i as int]@);
        if !contains_text(answer, expected[i].as_str()) {
            assert(!has_part(answer@, all[i as int]));
            return false;
        }
        i += 1;
    }
    true
}

/// A name where it applies.
pub open spec fn name_if(applies: bool, name: Seq<char>) -> Seq<Seq<char>> {
    if applies {
        seq![name]
    } else {
        Seq::empty()
    }
}

/// What went wrong with a case, by name.
pub open spec fn failures_of(
    recall: Rate,
    precision: Rate,
    f: CaseFindings,
    case: RagEvalCase,
) -> Seq<Seq<char>> {
    deduped(
        sorted_texts(
            name_if(recall.part < recall.whole, "retrieval_recall"@) + name_if(
                precision.part < precision.whole,
                "citation_precision"@,
            ) + name_if(f.cited_documents.len() < f.hits, "traceback_missing"@) + name_if(
                f.leak,
                "source_doc_leak"@,
            ) + name_if(f.violation, "acl_violation"@) + name_if(f.stale, "stale_fragment"@)
                + name_if(
                !answers_all(f.answer, texts(case.expected_answer_contains@)),
                "answer_expectation"@,
            ),
        ),
    )
}

fn push_if(v: &mut Vec<String>, applies: bool, name: &str)
    ensures
        texts(final(v)@) == texts(old(v)@) + name_if(applies, name@),
{
    if applies {
        let n: String = name.to_owned();
        proof {
            texts_push(v@, n);
            assert(texts(v@).push(name@) =~= texts(v@) + seq![name@]);
        }
        v.push(n);
    } else {
        assert(texts(v@) + Seq::<Seq<char>>::empty() =~= texts(v@));
    }
}

/// The guard that a failure breaks.
pub open spec fn broken_guard(failure: Seq<char>) -> Option<Seq<char>> {
    if failure == "source_doc_leak"@ {
        Some("source_doc_not_default_retrieved"@)
    } else if failure == "traceback_missing"@ {
        Some("fragment_traceback_required"@)
    } else if failure == "acl_violation"@ {
        Some("owner_acl_never_leaks"@)
    } else if failure == "stale_fragment"@ {
        Some("superseded_fragments_not_active"@)
    } else {
        None
    }
}

/// The guard that a failure breaks.
pub fn guard_name_for_failure(failure: &str) -> (r: Option<&'static str>)
    ensures
        opt_str(r) == broken_guard(failure@),
{
    if text_eq(failure, "source_doc_leak") {
        Some("source_doc_not_default_retrieved")
    } else if text_eq(failure, "traceback_missing") {
        Some("fragment_traceback_required")
    } else if text_eq(failure, "acl_violation") {
        Some("owner_acl_never_leaks")
    } else if text_eq(failure, "stale_fragment") {
        Some("superseded_fragments_not_active")
    } else {
        None
    }
}

/// The guards that failures break, one by one.
pub open spec fn broken_guards(failures: Seq<Seq<char>>) -> Seq<Seq<char>>
    decreases failures.len(),
{
    if failures.len() == 0 {
        Seq::empty()
    } else {
        let front = broken_guards(failures.drop_last());
        match broken_guard(failures.last()) {
            Some(name) => front.push(name),
            None => front,
        }
    }
}

fn guards_of(failures: &Vec<String>) -> (r: Vec<String>)
    ensures
        texts(r@) == broken_guards(texts(failures@)),
{
    let ghost all = texts(failures@);
    let mut out: Vec<String> = Vec::new();
    let mut i: usize = 0;
    assert(texts(out@) =~= broken_guards(all.take(0)));
    while i < failures.len()
        invariant
            i <= failures.len(),
            all == texts(failures@),
            texts(out@) == broken_guards(all.take(i as int)),
        decreases failures.len() - i,
    {
        assert(all.take(i + 1).drop_last() =~= all.take(i as int));
        assert(all.take(i + 1).last() == failures@[i as int]@);
        match guard_name_for_failure(failures[i].as_str()) {
            Some(name) => {
                let n: String = name.to_owned();
                proof {
                    texts_push(out@, n);
                }
                out.push(n);
            },
            None => {},
        }
        i += 1;
    }
    assert(all.take(i as int) =~= all);
    out
}

/// Whether `r` tells how a case went.
pub open spec fn is_case_result(
    r: RagEvalCaseResult,
    f: CaseFindings,
    tenant_id: Seq<char>,
    run_id: Seq<char>,
    case: RagEvalCase,
    answer: RagAnswerResponse,
    latency_ms: u64,
    result_id: Seq<char>,
    now: i64,
) -> bool {
    &&& r.id@ == result_id
    &&& r.tenant_id@ == tenant_id
    &&& r.run_id@ == run_id
    &&& r.case_id == case.id
    &&& r.owner_user_id == case.owner_user_id
    &&& r.question == case.question
    &&& r.trace_id == answer.trace_id
    &&& r.answer == answer.answer
    &&& r.citations == answer.citations
    &&& texts(r.retrieved_uris@) == f.retrieved
    &&& texts(r.source_document_uris@) == f.documents
    &&& r.metrics.retrieval_recall_at_5 is Some
    &&& is_recall(r.metrics.retrieval_recall_at_5->0, case, f)
    &&& r.metrics.citation_precision is Some
    &&& is_precision(r.metrics.citation_precision->0, case, f)
    &&& r.metrics.traceback_success_rate is Some
    &&& is_traceback_rate(r.metrics.traceback_success_rate->0, f)
    &&& r.metrics.source_doc_leak == Some(f.leak)
    &&& r.metrics.acl_violation == Some(f.violation)
    &&& r.metrics.stale_fragment == Some(f.stale)
    &&& r.metrics.tokens is Some
    &&& r.metrics.tokens->0 == word_count(f.answer)
    &&& texts(r.failures@) == failures_of(
        r.metrics.retrieval_recall_at_5->0,
        r.metrics.citation_precision->0,
        f,
        case,
    )
    &&& texts(r.guard_failures@) == broken_guards(texts(r.failures@))
    &&& r.status@ == (if r.failures@.len() == 0 {
        "passed"@
    } else {
        "failed"@
    })
    &&& r.latency_ms == latency_ms
    &&& r.created_at == now
}

fn first_uris(hits: &Vec<ContextHit>) -> (r: Vec<String>)
    ensures
        texts(r@) == hit_uris(limited(hits@, JUDGED_HITS as nat)),
{
    let n: usize = if hits.len() < JUDGED_HITS {
        hits.len()
    } else {
        JUDGED_HITS
    };
    assert(limited(hits@, JUDGED_HITS as nat) =~= hits@.take(n as int));
    let mut out: Vec<String> = Vec::new();
    let mut i: usize = 0;
    while i < n
        invariant
            i <= n <= hits@.len(),
            out@.len() == i,
            forall|j: int| 0 <= j < i ==> (#[trigger] out@[j])@ == hits@[j].uri@,
        decreases n - i,
    {
        out.push(hits[i].uri.clone());
        i += 1;
    }
    assert(texts(out@) =~= hit_uris(hits@.take(n as int)));
    out
}

/// Judges what was retrieved and answered for a case.
pub fn evaluate_case_result(
    data: &StoreData,
    resolver: &EventIndexResolver,
    tenant_id: &str,
    run_id: &str,
    case: &RagEvalCase,
    outcome: &ContextSearchOutcome,
    answer: &RagAnswerResponse,
    latency_ms: u64,
    result_id: &str,
    now: i64,
) -> (r: RagEvalCaseResult)
    requires
        case.expected_context_uris@.len() + case.expected_source_document_uris@.len() <= u64::MAX,
    ensures
        is_case_result(
            r,
            findings(*data, *resolver, tenant_id@, *case, *outcome, *answer),
            tenant_id@,
            run_id@,
            *case,
            *answer,
            latency_ms,
            result_id@,
            now,
        ),
{
    let ghost f = findings(*data, *resolver, tenant_id@, *case, *outcome, *answer);
    let owner: Option<&str> = as_deref(&case.owner_user_id);
    let hits: &Vec<ContextHit> = &outcome.response.hits;
    let retrieved: Vec<String> = first_uris(hits);
    let leak: bool = any_leaks(&outcome.nodes);
    let violation: bool = any_of_another(&outcome.nodes, owner);
    let stale: bool = any_stale(&outcome.nodes);
    let cited: Vec<String> = trace_hits(data, resolver, tenant_id, owner, hits);
    let documents: Vec<String> = dedup_texts(sort_texts(texts_copy(&cited)));
    assert(texts(documents@) == f.documents);
    let uri_matches: usize = count_common(&case.expected_context_uris, &retrieved);
    let document_matches: usize = count_common(&case.expected_source_document_uris, &documents);
    let total: u64 = case.expected_context_uris.len() as u64
        + case.expected_source_document_uris.len() as u64;
    let recall: Rate = if total == 0 {
        Rate { part: 1, whole: 1 }
    } else {
        Rate { part: uri_matches as u64 + document_matches as u64, whole: total }
    };
    assert(is_recall(recall, *case, f));
    let traced_back: bool = cited.len() == hits.len();
    let expects_documents: bool = case.expected_source_document_uris.len() > 0;
    let precision: Rate = if answer.citations.len() == 0 {
        if expects_documents {
            Rate { part: 0, whole: 1 }
        } else {
            Rate { part: 1, whole: 1 }
        }
    } else if !expects_documents {
        if !leak && traced_back {
            Rate { part: 1, whole: 1 }
        } else {
            Rate { part: 0, whole: 1 }
        }
    } else {
        Rate {
            part: count_common(&cited, &case.expected_source_document_uris) as u64,
            whole: answer.citations.len() as u64,
        }
    };
    assert(is_precision(precision, *case, f));
    let traceback_rate: Rate = if hits.len() == 0 {
        Rate { part: 1, whole: 1 }
    } else {
        Rate { part: cited.len() as u64, whole: hits.len() as u64 }
    };
    assert(is_traceback_rate(traceback_rate, f));
    let complete: bool = check_answers_all(
        answer.answer.as_str(),
        &case.expected_answer_contains,
    );
    let mut raw: Vec<String> = Vec::new();
    assert(texts(raw@) =~= Seq::<Seq<char>>::empty());
    push_if(&mut raw, recall.part < recall.whole, "retrieval_recall");
    assert(texts(raw@) =~= name_if(recall.part < recall.whole, "retrieval_recall"@));
    push_if(&mut raw, precision.part < precision.whole, "citation_precision");
    push_if(&mut raw, !traced_back, "traceback_missing");
    push_if(&mut raw, leak, "source_doc_leak");
    push_if(&mut raw, violation, "acl_violation");
    push_if(&mut raw, stale, "stale_fragment");
    push_if(&mut raw, !complete, "answer_expectation");
    let failures: Vec<String> = dedup_texts(sort_texts(raw));
    assert(texts(failures@) == failures_of(recall, precision, f, *case));
    let guard_failures: Vec<String> = guards_of(&failures);
    let status: String = if failures.len() == 0 {
        "passed".to_owned()
    } else {
        "failed".to_owned()
    };
    RagEvalCaseResult {
        id: result_id.to_owned(),
        tenant_id: tenant_id.to_owned(),
        run_id: run_id.to_owned(),
        case_id: case.id.clone(),
        owner_user_id: case.owner_user_id.clone(),
        status,
        question: case.question.clone(),
        trace_id: answer.trace_id.clone(),
        answer: answer.answer.clone(),
        citations: answer.citations.clone(),
        retrieved_uris: std::sync::Arc::new(retrieved),
        source_document_uris: std::sync::Arc::new(documents),
        failures: std::sync::Arc::new(failures),
        guard_failures: std::sync::Arc::new(guard_failures),
        metrics: CaseMetrics {
            retrieval_recall_at_5: Some(recall),
            citation_precision: Some(precision),
            traceback_success_rate: Some(traceback_rate),
            source_doc_leak: Some(leak),
            acl_violation: Some(violation),
            stale_fragment: Some(stale),
            tokens: Some(count_words(answer.answer.as_str())),
        },
        latency_ms,
        created_at: now,
    }
}

proof fn lemma_count_bounded(s: Seq<Seq<char>>, others: Seq<Seq<char>>)
    ensures
        count_among(s, others) <= s.len(),
    decreases s.len(),
{
    if s.len() > 0 {
        lemma_count_bounded(s.drop_last(), others);
    }
}

/// What was retrieved of what was expected is never more than that.
pub proof fn recall_is_at_most_one(r: Rate, case: RagEvalCase, f: CaseFindings)
    requires
        is_recall(r, case, f),
    ensures
        r.part <= r.whole,
        r.whole > 0,
{
    lemma_count_bounded(texts(case.expected_context_uris@), f.retrieved);
    lemma_count_bounded(texts(case.expected_source_document_uris@), f.documents);
}

/// A case that passed found all it expected, leaked nothing, and saw nothing of another owner.
pub proof fn a_passed_case_failed_in_nothing(
    r: RagEvalCaseResult,
    f: CaseFindings,
    tenant_id: Seq<char>,
    run_id: Seq<char>,
    case: RagEvalCase,
    answer: RagAnswerResponse,
    latency_ms: u64,
    result_id: Seq<char>,
    now: i64,
)
    requires
        is_case_result(
            r,
            f,
            tenant_id,
            run_id,
            case,
            answer,
            latency_ms,
            result_id,
            now,
        ),
        r.status@ == "passed"@,
    ensures
        r.metrics.retrieval_recall_at_5->0.part >= r.metrics.retrieval_recall_at_5->0.whole,
        r.metrics.citation_precision->0.part >= r.metrics.citation_precision->0.whole,
        f.cited_documents.len() >= f.hits,
        !f.leak,
        !f.violation,
        !f.stale,
        answers_all(f.answer, texts(case.expected_answer_contains@)),
{
    reveal_strlit("passed");
    reveal_strlit("failed");
    assert("passed"@[0] != "failed"@[0]);
    assert(r.failures@.len() == 0);
    assert(texts(r.failures@).len() == 0);
    let recall = r.metrics.retrieval_recall_at_5->0;
    let precision = r.metrics.citation_precision->0;
    let raw = name_if(recall.part < recall.whole, "retrieval_recall"@) + name_if(
        precision.part < precision.whole,
        "citation_precision"@,
    ) + name_if(f.cited_documents.len() < f.hits, "traceback_missing"@) + name_if(
        f.leak,
        "source_doc_leak"@,
    ) + name_if(f.violation, "acl_violation"@) + name_if(f.stale, "stale_fragment"@) + name_if(
        !answers_all(f.answer, texts(case.expected_answer_contains@)),
        "answer_expectation"@,
    );
    let lt = |a: Seq<char>, b: Seq<char>| crate::text::text_lt(a, b);
    crate::order::deduped_keeps_contents(sorted_texts(raw));
    crate::order::sorted_by_keeps_elements(raw, lt);
    broadcast use vstd::seq_lib::group_to_multiset_ensures;

    if raw.len() > 0 {
        assert(sorted_texts(raw).len() == raw.len());
        assert(deduped(sorted_texts(raw)).len() > 0);
    }
}

} // verus!
