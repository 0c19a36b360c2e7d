//! What the evaluation of retrieval can be relied on for.

use vstd::prelude::*;

use crate::data::StoreData;
use crate::evaluation::{
    answers_all, broken_guard, broken_guards, count_among, failures_of, findings, is_case_result,
    is_stale, leaks, name_if, of_another, traced, traced_all, word_count, CaseFindings,
};
use crate::laws::choosing::sorting_keeps_members;
use crate::model::harness::{RagEvalCase, RagEvalCaseResult};
use crate::model::knowledge::ContextNode;
use crate::order::{any_where, deduped, deduped_keeps_contents};
use crate::resolver::EventIndexResolver;
use crate::search::{hit_uris, ContextSearchOutcome, RagAnswerResponse};
use crate::text::{has_part, opt_text, sorted_texts, text_lt, texts};

verus! {

/// Whether a URI is among those of the first five hits.
pub open spec fn hit_early(outcome: ContextSearchOutcome, uri: Seq<char>) -> bool {
    exists|j: int|
        0 <= j < 5 && j < outcome.response.hits@.len() && (
        #[trigger] outcome.response.hits@[j]).uri@ == uri
}

/// Whether some hit can be traced back to a document.
pub open spec fn hit_leads_to(
    d: StoreData,
    resolver: EventIndexResolver,
    tenant_id: Seq<char>,
    case: RagEvalCase,
    outcome: ContextSearchOutcome,
    document_uri: Seq<char>,
) -> bool {
    exists|j: int|
        0 <= j < outcome.response.hits@.len() && traced(
            d,
            resolver,
            tenant_id,
            opt_text(case.owner_user_id),
            (#[trigger] outcome.response.hits@[j]).uri@,
        ) == Some(document_uri)
}

/// As many are found as are among the others: all where each is, none where none is.
pub proof fn a_count_tells_all_and_none(s: Seq<Seq<char>>, others: Seq<Seq<char>>)
    ensures
        count_among(s, others) <= s.len(),
        count_among(s, others) == s.len() <==> forall|i: int|
            0 <= i < s.len() ==> others.contains(#[trigger] s[i]),
        count_among(s, others) == 0 <==> forall|i: int|
            0 <= i < s.len() ==> !others.contains(#[trigger] s[i]),
    decreases s.len(),
{
    if s.len() > 0 {
        let front = s.drop_last();
        a_count_tells_all_and_none(front, others);
        assert(s.last() == s[s.len() - 1]);
        if count_among(front, others) == front.len() && others.contains(s.last()) {
            assert forall|i: int| 0 <= i < s.len() implies others.contains(#[trigger] s[i]) by {
                if i < front.len() {
                    assert(front[i] == s[i]);
                }
            }
        }
        if forall|i: int| 0 <= i < s.len() ==> others.contains(#[trigger] s[i]) {
            assert forall|i: int| 0 <= i < front.len() implies others.contains(
                #[trigger] front[i],
            ) by {
                assert(front[i] == s[i]);
            }
        }
        if count_among(front, others) == 0 && !others.contains(s.last()) {
            assert forall|i: int| 0 <= i < s.len() implies !others.contains(#[trigger] s[i]) by {
                if i < front.len() {
                    assert(front[i] == s[i]);
                }
            }
        }
        if forall|i: int| 0 <= i < s.len() ==> !others.contains(#[trigger] s[i]) {
            assert forall|i: int| 0 <= i < front.len() implies !others.contains(
                #[trigger] front[i],
            ) by {
                assert(front[i] == s[i]);
            }
        }
    }
}

proof fn lemma_early(
    d: StoreData,
    resolver: EventIndexResolver,
    tenant_id: Seq<char>,
    case: RagEvalCase,
    outcome: ContextSearchOutcome,
    answer: RagAnswerResponse,
    uri: Seq<char>,
)
    ensures
        findings(d, resolver, tenant_id, case, outcome, answer).retrieved.contains(uri)
            <==> hit_early(outcome, uri),
{
    let r = findings(d, resolver, tenant_id, case, outcome, answer).retrieved;
    if r.contains(uri) {
        let j = choose|j: int| 0 <= j < r.len() && r[j] == uri;
        assert(outcome.response.hits@[j].uri@ == uri);
    }
    if hit_early(outcome, uri) {
        let j = choose|j: int|
            0 <= j < 5 && j < outcome.response.hits@.len() && (
            #[trigger] outcome.response.hits@[j]).uri@ == uri;
        assert(r[j] == uri);
    }
}

proof fn lemma_traced_all(
    d: StoreData,
    resolver: EventIndexResolver,
    tenant_id: Seq<char>,
    owner: Option<Seq<char>>,
    uris: Seq<Seq<char>>,
    x: Seq<char>,
)
    ensures
        traced_all(d, resolver, tenant_id, owner, uris).contains(x) <==> exists|j: int|
            0 <= j < uris.len() && traced(d, resolver, tenant_id, owner, #[trigger] uris[j])
                == Some(x),
        traced_all(d, resolver, tenant_id, owner, uris).len() <= uris.len(),
        traced_all(d, resolver, tenant_id, owner, uris).len() == uris.len() <==> forall|j: int|
            0 <= j < uris.len() ==> traced(d, resolver, tenant_id, owner, #[trigger] uris[j])
                is Some,
    decreases uris.len(),
{
    if uris.len() > 0 {
        let front = uris.drop_last();
        lemma_traced_all(d, resolver, tenant_id, owner, front, x);
        let f = traced_all(d, resolver, tenant_id, owner, front);
        let r = traced_all(d, resolver, tenant_id, owner, uris);
        assert(uris[uris.len() - 1] == uris.last());
        assert(forall|j: int| 0 <= j < front.len() ==> #[trigger] uris[j] == front[j]);
        if r.contains(x) {
            let k = choose|k: int| 0 <= k < r.len() && r[k] == x;
            if k < f.len() {
                assert(f[k] == x);
                let j = choose|j: int|
                    0 <= j < front.len() && traced(
                        d,
                        resolver,
                        tenant_id,
                        owner,
                        #[trigger] front[j],
                    ) == Some(x);
                assert(uris[j] == front[j]);
            }
        }
        if exists|j: int|
            0 <= j < uris.len() && traced(d, resolver, tenant_id, owner, #[trigger] uris[j])
                == Some(x) {
            let j = choose|j: int|
                0 <= j < uris.len() && traced(d, resolver, tenant_id, owner, #[trigger] uris[j])
                    == Some(x);
            if j < front.len() {
                assert(front[j] == uris[j]);
                assert(f.contains(x));
                let k = choose|k: int| 0 <= k < f.len() && f[k] == x;
                assert(r[k] == x);
            } else {
                assert(r[f.len() as int] == x);
            }
        }
        if r.len() == uris.len() {
            assert forall|j: int| 0 <= j < uris.len() implies traced(
                d,
                resolver,
                tenant_id,
                owner,
                #[trigger] uris[j],
            ) is Some by {
                if j < front.len() {
                    assert(front[j] == uris[j]);
                }
            }
        }
        if forall|j: int|
            0 <= j < uris.len() ==> traced(d, resolver, tenant_id, owner, #[trigger] uris[j])
                is Some {
            assert forall|j: int| 0 <= j < front.len() implies traced(
                d,
                resolver,
                tenant_id,
                owner,
                #[trigger] front[j],
            ) is Some by {
                assert(uris[j] == front[j]);
            }
        }
    }
}

proof fn lemma_listed_once(s: Seq<Seq<char>>, x: Seq<char>)
    ensures
        deduped(sorted_texts(s)).contains(x) <==> s.contains(x),
{
    let lt = |a: Seq<char>, b: Seq<char>| text_lt(a, b);
    sorting_keeps_members(s, lt, x);
    deduped_keeps_contents(sorted_texts(s));
}

proof fn lemma_leads(
    d: StoreData,
    resolver: EventIndexResolver,
    tenant_id: Seq<char>,
    case: RagEvalCase,
    outcome: ContextSearchOutcome,
    answer: RagAnswerResponse,
    uri: Seq<char>,
)
    ensures
        findings(d, resolver, tenant_id, case, outcome, answer).documents.contains(uri)
            <==> hit_leads_to(d, resolver, tenant_id, case, outcome, uri),
        findings(d, resolver, tenant_id, case, outcome, answer).cited_documents.contains(uri)
            <==> hit_leads_to(d, resolver, tenant_id, case, outcome, uri),
{
    let owner = opt_text(case.owner_user_id);
    let uris = hit_uris(outcome.response.hits@);
    lemma_traced_all(d, resolver, tenant_id, owner, uris, uri);
    lemma_listed_once(traced_all(d, resolver, tenant_id, owner, uris), uri);
    if exists|j: int|
        0 <= j < uris.len() && traced(d, resolver, tenant_id, owner, #[trigger] uris[j]) == Some(
            uri,
        ) {
        let j = choose|j: int|
            0 <= j < uris.len() && traced(d, resolver, tenant_id, owner, #[trigger] uris[j])
                == Some(uri);
        assert(outcome.response.hits@[j].uri@ == uris[j]);
    }
    if hit_leads_to(d, resolver, tenant_id, case, outcome, uri) {
        let j = choose|j: int|
            0 <= j < outcome.response.hits@.len() && traced(
                d,
                resolver,
                tenant_id,
                owner,
                (#[trigger] outcome.response.hits@[j]).uri@,
            ) == Some(uri);
        assert(uris[j] == outcome.response.hits@[j].uri@);
    }
}

proof fn lemma_in_either(a: Seq<Seq<char>>, b: Seq<Seq<char>>, x: Seq<char>)
    ensures
        (a + b).contains(x) <==> a.contains(x) || b.contains(x),
{
    if (a + b).contains(x) {
        let i = choose|i: int| 0 <= i < (a + b).len() && (a + b)[i] == x;
        if i < a.len() {
            assert(a[i] == x);
        } else {
            assert(b[i - a.len()] == x);
        }
    }
    if a.contains(x) {
        let i = choose|i: int| 0 <= i < a.len() && a[i] == x;
        assert((a + b)[i] == x);
    }
    if b.contains(x) {
        let i = choose|i: int| 0 <= i < b.len() && b[i] == x;
        assert((a + b)[a.len() + i] == x);
    }
}

proof fn lemma_name_if(applies: bool, name: Seq<char>, x: Seq<char>)
    ensures
        name_if(applies, name).contains(x) <==> applies && x == name,
{
    if applies {
        assert(name_if(applies, name)[0] == name);
    }
}

proof fn lemma_failures(
    recall: crate::model::harness::Rate,
    precision: crate::model::harness::Rate,
    f: CaseFindings,
    case: RagEvalCase,
    x: Seq<char>,
)
    ensures
        failures_of(recall, precision, f, case).contains(x) <==> {
            ||| recall.part < recall.whole && x == "retrieval_recall"@
            ||| precision.part < precision.whole && x == "citation_precision"@
            ||| f.cited_documents.len() < f.hits && x == "traceback_missing"@
            ||| f.leak && x == "source_doc_leak"@
            ||| f.violation && x == "acl_violation"@
            ||| f.stale && x == "stale_fragment"@
            ||| !answers_all(f.answer, texts(case.expected_answer_contains@)) && x
                == "answer_expectation"@
        },
{
    let a = name_if(recall.part < recall.whole, "retrieval_recall"@);
    let b = name_if(precision.part < precision.whole, "citation_precision"@);
    let c = name_if(f.cited_documents.len() < f.hits, "traceback_missing"@);
    let e = name_if(f.leak, "source_doc_leak"@);
    let g = name_if(f.violation, "acl_violation"@);
    let h = name_if(f.stale, "stale_fragment"@);
    let incomplete = !answers_all(f.answer, texts(case.expected_answer_contains@));
    let i = name_if(incomplete, "answer_expectation"@);
    lemma_name_if(recall.part < recall.whole, "retrieval_recall"@, x);
    lemma_name_if(precision.part < precision.whole, "citation_precision"@, x);
    lemma_name_if(f.cited_documents.len() < f.hits, "traceback_missing"@, x);
    lemma_name_if(f.leak, "source_doc_leak"@, x);
    lemma_name_if(f.violation, "acl_violation"@, x);
    lemma_name_if(f.stale, "stale_fragment"@, x);
    lemma_name_if(incomplete, "answer_expectation"@, x);
    lemma_in_either(a, b, x);
    lemma_in_either(a + b, c, x);
    lemma_in_either(a + b + c, e, x);
    lemma_in_either(a + b + c + e, g, x);
    lemma_in_either(a + b + c + e + g, h, x);
    lemma_in_either(a + b + c + e + g + h, i, x);
    lemma_listed_once(a + b + c + e + g + h + i, x);
}

proof fn lemma_names_differ()
    ensures
        "retrieval_recall"@ != "citation_precision"@,
        "retrieval_recall"@ != "traceback_missing"@,
        "retrieval_recall"@ != "source_doc_leak"@,
        "retrieval_recall"@ != "acl_violation"@,
        "retrieval_recall"@ != "stale_fragment"@,
        "retrieval_recall"@ != "answer_expectation"@,
        "citation_precision"@ != "traceback_missing"@,
        "citation_precision"@ != "source_doc_leak"@,
        "citation_precision"@ != "acl_violation"@,
        "citation_precision"@ != "stale_fragment"@,
        "citation_precision"@ != "answer_expectation"@,
        "traceback_missing"@ != "source_doc_leak"@,
        "traceback_missing"@ != "acl_violation"@,
        "traceback_missing"@ != "stale_fragment"@,
        "traceback_missing"@ != "answer_expectation"@,
        "source_doc_leak"@ != "acl_violation"@,
        "source_doc_leak"@ != "stale_fragment"@,
        "source_doc_leak"@ != "answer_expectation"@,
        "acl_violation"@ != "stale_fragment"@,
        "acl_violation"@ != "answer_expectation"@,
        "stale_fragment"@ != "answer_expectation"@,
        "passed"@ != "failed"@,
{
    reveal_strlit("retrieval_recall");
    reveal_strlit("citation_precision");
    reveal_strlit("traceback_missing");
    reveal_strlit("source_doc_leak");
    reveal_strlit("acl_violation");
    reveal_strlit("stale_fragment");
    reveal_strlit("answer_expectation");
    reveal_strlit("passed");
    reveal_strlit("failed");
    assert("retrieval_recall"@[0] == 'r' && "citation_precision"@[0] == 'c');
    assert("traceback_missing"@[0] == 't' && "source_doc_leak"@[0] == 's');
    assert("acl_violation"@[0] == 'a' && "stale_fragment"@[0] == 's');
    assert("answer_expectation"@[0] == 'a');
    assert("source_doc_leak"@[1] == 'o' && "stale_fragment"@[1] == 't');
    assert("acl_violation"@[1] == 'c' && "answer_expectation"@[1] == 'n');
    assert("passed"@[0] == 'p' && "failed"@[0] == 'f');
}

/// The recall of a case with something expected is whole exactly where every expected URI is among
/// those of the first five hits and every expected document is one that a hit leads to; it is zero
/// exactly where none is.
pub proof fn recall_tells_what_was_found(
    r: RagEvalCaseResult,
    d: StoreData,
    resolver: EventIndexResolver,
    tenant_id: Seq<char>,
    run_id: Seq<char>,
    case: RagEvalCase,
    outcome: ContextSearchOutcome,
    answer: RagAnswerResponse,
    latency_ms: u64,
    result_id: Seq<char>,
    now: i64,
)
    requires
        is_case_result(
            r,
            findings(d, resolver, tenant_id, case, outcome, answer),
            tenant_id,
            run_id,
            case,
            answer,
            latency_ms,
            result_id,
            now,
        ),
    ensures
        r.metrics.retrieval_recall_at_5 is Some,
        ({
            let recall = r.metrics.retrieval_recall_at_5->0;
            let expected = case.expected_context_uris@.len()
                + case.expected_source_document_uris@.len();
            &&& recall.part <= recall.whole
            &&& expected > 0 ==> recall.whole == expected
            &&& recall.part == recall.whole <==> {
                &&& forall|i: int|
                    0 <= i < case.expected_context_uris@.len() ==> hit_early(
                        outcome,
                        (#[trigger] case.expected_context_uris@[i])@,
                    )
                &&& forall|i: int|
                    0 <= i < case.expected_source_document_uris@.len() ==> hit_leads_to(
                        d,
                        resolver,
                        tenant_id,
                        case,
                        outcome,
                        (#[trigger] case.expected_source_document_uris@[i])@,
                    )
            }
            &&& expected > 0 ==> (recall.part == 0 <==> {
                &&& forall|i: int|
                    0 <= i < case.expected_context_uris@.len() ==> !hit_early(
                        outcome,
                        (#[trigger] case.expected_context_uris@[i])@,
                    )
                &&& forall|i: int|
                    0 <= i < case.expected_source_document_uris@.len() ==> !hit_leads_to(
                        d,
                        resolver,
                        tenant_id,
                        case,
                        outcome,
                        (#[trigger] case.expected_source_document_uris@[i])@,
                    )
            })
        }),
{
    let f = findings(d, resolver, tenant_id, case, outcome, answer);
    let uris = texts(case.expected_context_uris@);
    let documents = texts(case.expected_source_document_uris@);
    a_count_tells_all_and_none(uris, f.retrieved);
    a_count_tells_all_and_none(documents, f.documents);
    assert forall|x: Seq<char>| #[trigger] f.retrieved.contains(x) == hit_early(outcome, x) by {
        lemma_early(d, resolver, tenant_id, case, outcome, answer, x);
    }
    assert forall|x: Seq<char>| #[trigger] f.documents.contains(x) == hit_leads_to(
        d,
        resolver,
        tenant_id,
        case,
        outcome,
        x,
    ) by {
        lemma_leads(d, resolver, tenant_id, case, outcome, answer, x);
    }
    assert(forall|i: int|
        0 <= i < uris.len() ==> #[trigger] uris[i] == case.expected_context_uris@[i]@);
    assert(forall|i: int|
        0 <= i < uris.len() ==> (#[trigger] case.expected_context_uris@[i])@ == uris[i]);
    assert(forall|i: int|
        0 <= i < documents.len() ==> #[trigger] documents[i]
            == case.expected_source_document_uris@[i]@);
    assert(forall|i: int|
        0 <= i < documents.len() ==> (#[trigger] case.expected_source_document_uris@[i])@
            == documents[i]);
}

/// What went wrong with a case is named, and nothing else is: what was expected and not retrieved,
/// hits that lead to no document, nodes that should not have been retrieved, nodes of another owner,
/// nodes that are out of use, and an answer that lacks what was expected of it.
pub proof fn what_went_wrong_is_named(
    r: RagEvalCaseResult,
    d: StoreData,
    resolver: EventIndexResolver,
    tenant_id: Seq<char>,
    run_id: Seq<char>,
    case: RagEvalCase,
    outcome: ContextSearchOutcome,
    answer: RagAnswerResponse,
    latency_ms: u64,
    result_id: Seq<char>,
    now: i64,
)
    requires
        is_case_result(
            r,
            findings(d, resolver, tenant_id, case, outcome, answer),
            tenant_id,
            run_id,
            case,
            answer,
            latency_ms,
            result_id,
            now,
        ),
    ensures
        texts(r.failures@).contains("retrieval_recall"@)
            <==> r.metrics.retrieval_recall_at_5->0.part < r.metrics.retrieval_recall_at_5->0.whole,
        texts(r.failures@).contains("citation_precision"@)
            <==> r.metrics.citation_precision->0.part < r.metrics.citation_precision->0.whole,
        texts(r.failures@).contains("traceback_missing"@) <==> exists|j: int|
            0 <= j < outcome.response.hits@.len() && traced(
                d,
                resolver,
                tenant_id,
                opt_text(case.owner_user_id),
                (#[trigger] outcome.response.hits@[j]).uri@,
            ) is None,
        texts(r.failures@).contains("source_doc_leak"@) <==> exists|j: int|
            0 <= j < outcome.nodes@.len() && ((#[trigger] outcome.nodes@[j]).node_kind@
                != "fragment"@ || outcome.nodes@[j].retrieval_role@ != "fragment"@ || opt_text(
                outcome.nodes@[j].source_document_uri,
            ) == Some(outcome.nodes@[j].uri@)),
        texts(r.failures@).contains("acl_violation"@) <==> exists|j: int|
            0 <= j < outcome.nodes@.len() && (#[trigger] outcome.nodes@[j]).owner_user_id is Some
                && opt_text(outcome.nodes@[j].owner_user_id) != opt_text(case.owner_user_id),
        texts(r.failures@).contains("stale_fragment"@) <==> exists|j: int|
            0 <= j < outcome.nodes@.len() && ((#[trigger] outcome.nodes@[j]).status@ != "active"@
                || !outcome.nodes@[j].retrieval_enabled || outcome.nodes@[j].retrieval_role@
                != "fragment"@),
        texts(r.failures@).contains("answer_expectation"@) <==> exists|j: int|
            0 <= j < case.expected_answer_contains@.len() && !has_part(
                answer.answer@,
                (#[trigger] case.expected_answer_contains@[j])@,
            ),
        r.status@ == "passed"@ <==> r.failures@.len() == 0,
        r.status@ == "failed"@ <==> r.failures@.len() > 0,
{
    let f = findings(d, resolver, tenant_id, case, outcome, answer);
    let recall = r.metrics.retrieval_recall_at_5->0;
    let precision = r.metrics.citation_precision->0;
    lemma_names_differ();
    lemma_failures(recall, precision, f, case, "retrieval_recall"@);
    lemma_failures(recall, precision, f, case, "citation_precision"@);
    lemma_failures(recall, precision, f, case, "traceback_missing"@);
    lemma_failures(recall, precision, f, case, "source_doc_leak"@);
    lemma_failures(recall, precision, f, case, "acl_violation"@);
    lemma_failures(recall, precision, f, case, "stale_fragment"@);
    lemma_failures(recall, precision, f, case, "answer_expectation"@);
    let owner = opt_text(case.owner_user_id);
    let uris = hit_uris(outcome.response.hits@);
    lemma_traced_all(d, resolver, tenant_id, owner, uris, Seq::empty());
    assert(forall|j: int|
        0 <= j < uris.len() ==> (#[trigger] outcome.response.hits@[j]).uri@ == uris[j]);
    assert(forall|j: int|
        0 <= j < uris.len() ==> #[trigger] uris[j] == outcome.response.hits@[j].uri@);
    let p = leaks();
    assert(forall|n: ContextNode| #[trigger]
        p(n) == (n.node_kind@ != "fragment"@ || n.retrieval_role@ != "fragment"@ || opt_text(
            n.source_document_uri,
        ) == Some(n.uri@)));
    let q = of_another(owner);
    let s = is_stale();
    assert(f.leak == any_where(outcome.nodes@, p));
    assert(f.violation == any_where(outcome.nodes@, q));
    assert(f.stale == any_where(outcome.nodes@, s));
    let expected = texts(case.expected_answer_contains@);
    assert(forall|j: int|
        0 <= j < expected.len() ==> (#[trigger] case.expected_answer_contains@[j])@
            == expected[j]);
    assert(forall|j: int|
        0 <= j < expected.len() ==> #[trigger] expected[j]
            == case.expected_answer_contains@[j]@);
}

/// A case that passed found every expected URI among the first five hits, and every expected
/// document through some hit.
pub proof fn a_passed_case_found_all_it_expected(
    r: RagEvalCaseResult,
    d: StoreData,
    resolver: EventIndexResolver,
    tenant_id: Seq<char>,
    run_id: Seq<char>,
    case: RagEvalCase,
    outcome: ContextSearchOutcome,
    answer: RagAnswerResponse,
    latency_ms: u64,
    result_id: Seq<char>,
    now: i64,
    i: int,
)
    requires
        is_case_result(
            r,
            findings(d, resolver, tenant_id, case, outcome, answer),
            tenant_id,
            run_id,
            case,
            answer,
            latency_ms,
            result_id,
            now,
        ),
        r.status@ == "passed"@,
    ensures
        0 <= i < case.expected_context_uris@.len() ==> hit_early(
            outcome,
            case.expected_context_uris@[i]@,
        ),
        0 <= i < case.expected_source_document_uris@.len() ==> hit_leads_to(
            d,
            resolver,
            tenant_id,
            case,
            outcome,
            case.expected_source_document_uris@[i]@,
        ),
        0 <= i < case.expected_answer_contains@.len() ==> has_part(
            answer.answer@,
            case.expected_answer_contains@[i]@,
        ),
        0 <= i < outcome.response.hits@.len() ==> traced(
            d,
            resolver,
            tenant_id,
            opt_text(case.owner_user_id),
            outcome.response.hits@[i].uri@,
        ) is Some,
        0 <= i < outcome.nodes@.len() ==> {
            &&& outcome.nodes@[i].status@ == "active"@
            &&& outcome.nodes@[i].node_kind@ == "fragment"@
            &&& outcome.nodes@[i].owner_user_id is None || opt_text(
                outcome.nodes@[i].owner_user_id,
            ) == opt_text(case.owner_user_id)
        },
{
    recall_tells_what_was_found(
        r,
        d,
        resolver,
        tenant_id,
        run_id,
        case,
        outcome,
        answer,
        latency_ms,
        result_id,
        now,
    );
    what_went_wrong_is_named(
        r,
        d,
        resolver,
        tenant_id,
        run_id,
        case,
        outcome,
        answer,
        latency_ms,
        result_id,
        now,
    );
    let none = texts(r.failures@);
    assert(none.len() == 0);
    assert(!none.contains("retrieval_recall"@));
    assert(!none.contains("traceback_missing"@));
    assert(!none.contains("source_doc_leak"@));
    assert(!none.contains("acl_violation"@));
    assert(!none.contains("stale_fragment"@));
    assert(!none.contains("answer_expectation"@));
}

/// Where documents are expected, precision is whole only where every hit that leads somewhere leads
/// to one of them, as many as there are citations; and it is zero where none does.
pub proof fn precision_tells_what_was_cited(
    r: RagEvalCaseResult,
    d: StoreData,
    resolver: EventIndexResolver,
    tenant_id: Seq<char>,
    run_id: Seq<char>,
    case: RagEvalCase,
    outcome: ContextSearchOutcome,
    answer: RagAnswerResponse,
    latency_ms: u64,
    result_id: Seq<char>,
    now: i64,
)
    requires
        is_case_result(
            r,
            findings(d, resolver, tenant_id, case, outcome, answer),
            tenant_id,
            run_id,
            case,
            answer,
            latency_ms,
            result_id,
            now,
        ),
    ensures
        r.metrics.citation_precision is Some,
        ({
            let precision = r.metrics.citation_precision->0;
            let documents = case.expected_source_document_uris@;
            &&& precision.whole > 0
            &&& documents.len() > 0 && answer.citations@.len() > 0 ==> {
                &&& precision.whole == answer.citations@.len()
                &&& precision.part == 0 <==> forall|i: int|
                    0 <= i < documents.len() ==> !hit_leads_to(
                        d,
                        resolver,
                        tenant_id,
                        case,
                        outcome,
                        (#[trigger] documents[i])@,
                    )
            }
            &&& documents.len() > 0 && answer.citations@.len() == 0 ==> precision.part == 0
            &&& documents.len() == 0 && answer.citations@.len() == 0 ==> precision.part
                == precision.whole
        }),
{
    let f = findings(d, resolver, tenant_id, case, outcome, answer);
    let documents = texts(case.expected_source_document_uris@);
    a_count_tells_all_and_none(f.cited_documents, documents);
    assert forall|x: Seq<char>| #[trigger] f.cited_documents.contains(x) == hit_leads_to(
        d,
        resolver,
        tenant_id,
        case,
        outcome,
        x,
    ) by {
        lemma_leads(d, resolver, tenant_id, case, outcome, answer, x);
    }
    let none = forall|i: int|
        0 <= i < f.cited_documents.len() ==> !documents.contains(#[trigger] f.cited_documents[i]);
    let led = forall|i: int|
        0 <= i < documents.len() ==> !hit_leads_to(
            d,
            resolver,
            tenant_id,
            case,
            outcome,
            (#[trigger] case.expected_source_document_uris@[i])@,
        );
    if none {
        assert forall|i: int| 0 <= i < documents.len() implies !hit_leads_to(
            d,
            resolver,
            tenant_id,
            case,
            outcome,
            (#[trigger] case.expected_source_document_uris@[i])@,
        ) by {
            let x = documents[i];
            if f.cited_documents.contains(x) {
                let k = choose|k: int| 0 <= k < f.cited_documents.len() && f.cited_documents[k] == x;
                assert(documents.contains(f.cited_documents[k]));
            }
        }
    }
    if led {
        assert forall|i: int| 0 <= i < f.cited_documents.len() implies !documents.contains(
            #[trigger] f.cited_documents[i],
        ) by {
            let x = f.cited_documents[i];
            assert(f.cited_documents.contains(x));
            if documents.contains(x) {
                let k = choose|k: int| 0 <= k < documents.len() && documents[k] == x;
                assert(case.expected_source_document_uris@[k]@ == x);
            }
        }
    }
}

/// A failure of a case breaks the guard that it stands for, and no other guard is broken.
pub proof fn a_broken_guard_has_a_failure(failures: Seq<Seq<char>>, guard: Seq<char>)
    ensures
        broken_guards(failures).contains(guard) <==> {
            ||| guard == "source_doc_not_default_retrieved"@ && failures.contains(
                "source_doc_leak"@,
            )
            ||| guard == "fragment_traceback_required"@ && failures.contains("traceback_missing"@)
            ||| guard == "owner_acl_never_leaks"@ && failures.contains("acl_violation"@)
            ||| guard == "superseded_fragments_not_active"@ && failures.contains(
                "stale_fragment"@,
            )
        },
    decreases failures.len(),
{
    lemma_names_differ();
    if failures.len() > 0 {
        let front = failures.drop_last();
        let last = failures.last();
        a_broken_guard_has_a_failure(front, guard);
        assert(failures =~= front + seq![last]);
        lemma_in_either(front, seq![last], "source_doc_leak"@);
        lemma_in_either(front, seq![last], "traceback_missing"@);
        lemma_in_either(front, seq![last], "acl_violation"@);
        lemma_in_either(front, seq![last], "stale_fragment"@);
        assert forall|x: Seq<char>| #[trigger] seq![last].contains(x) == (x == last) by {
            assert(seq![last][0] == last);
        }
        let was = broken_guards(front);
        match broken_guard(last) {
            Some(name) => {
                assert(broken_guards(failures) =~= was + seq![name]);
                lemma_in_either(was, seq![name], guard);
                assert(seq![name].contains(guard) == (guard == name)) by {
                    assert(seq![name][0] == name);
                }
            },
            None => {},
        }
    }
}

/// A text has as many words as its parts on both sides of a space.
pub proof fn words_are_counted_between_spaces(a: Seq<char>, b: Seq<char>)
    ensures
        word_count(a + " "@ + b) == word_count(a) + word_count(b),
    decreases b.len(),
{
    reveal_strlit(" ");
    let gap = a + " "@;
    assert(crate::text::char_is_whitespace(' '));
    assert(gap.last() == ' ');
    assert(gap.drop_last() =~= a);
    if b.len() == 0 {
        assert(gap + b =~= gap);
    } else {
        let front = b.drop_last();
        words_are_counted_between_spaces(a, front);
        assert((gap + b).drop_last() =~= gap + front);
        assert((gap + b).last() == b.last());
        if front.len() > 0 {
            assert((gap + front).last() == front.last());
        } else {
            assert(gap + front =~= gap);
        }
    }
}

/// A text without spaces is one word.
pub proof fn a_text_without_spaces_is_one_word(s: Seq<char>)
    requires
        s.len() > 0,
        forall|i: int|
            0 <= i < s.len() ==> !crate::text::char_is_whitespace(#[trigger] s[i]),
    ensures
        word_count(s) == 1,
    decreases s.len(),
{
    let front = s.drop_last();
    assert(!crate::text::char_is_whitespace(s[s.len() - 1]));
    if front.len() > 0 {
        assert forall|i: int| 0 <= i < front.len() implies !crate::text::char_is_whitespace(
            #[trigger] front[i],
        ) by {
            assert(front[i] == s[i]);
        }
        a_text_without_spaces_is_one_word(front);
        assert(!crate::text::char_is_whitespace(front[front.len() - 1]));
    } else {
        assert(word_count(front) == 0);
    }
}

} // verus!
