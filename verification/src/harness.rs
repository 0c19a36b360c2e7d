//! The built-in harness components.

use vstd::prelude::*;
use vstd::string::*;

use crate::data::StoreData;
use crate::json::{is_text, Json};
use crate::model::harness::{HarnessComponent, HarnessComponentRevision};
use crate::naming::{sanitize_slug, slug};
use crate::order::{any_where, find_where};
use crate::table::{list_at, lists, lists_replaced, take_list};
use crate::text::{opt_text, text_eq};

verus! {

/// A built-in component by id, name, kind and description.
pub type ComponentView = (Seq<char>, Seq<char>, Seq<char>, Seq<char>);

/// Components by content.
pub open spec fn component_views(
    s: Seq<(&'static str, &'static str, &'static str, &'static str)>,
) -> Seq<ComponentView> {
    Seq::new(s.len(), |i: int| (s[i].0@, s[i].1@, s[i].2@, s[i].3@))
}

/// The built-in components.
pub open spec fn default_components() -> Seq<ComponentView> {
    seq![
        (
            "retrieval.context_search"@,
            "Context Search"@,
            "retrieval"@,
            "Ranks active fragments for default RAG context retrieval."@,
        ),
        (
            "retrieval.traceback"@,
            "Traceback"@,
            "retrieval"@,
            "Maps fragments back to source documents and parse artifacts."@,
        ),
        (
            "ingestion.fragmenter"@,
            "Fragmenter"@,
            "ingestion"@,
            "Turns parsed documents into retrievable fragment nodes."@,
        ),
        (
            "ingestion.parser_adapter"@,
            "Parser Adapter"@,
            "ingestion"@,
            "Normalizes parser output into blocks and artifacts."@,
        ),
        (
            "llm.rag_answer_prompt"@,
            "RAG Answer Prompt"@,
            "llm"@,
            "Builds grounded answer prompts over retrieved citations."@,
        ),
        (
            "llm.analysis_prompt"@,
            "Analysis Prompt"@,
            "llm"@,
            "Builds grounded analysis prompts for insight generation."@,
        ),
        (
            "memory.insight_policy"@,
            "Insight Policy"@,
            "memory"@,
            "Controls insight extraction and update decisions."@,
        ),
        (
            "memory.state_materialization_policy"@,
            "State Materialization Policy"@,
            "memory"@,
            "Controls current-state writes and history evidence."@,
        ),
        (
            "safety.owner_acl"@,
            "Owner ACL"@,
            "safety"@,
            "Prevents cross-owner private context leakage."@,
        ),
        (
            "safety.source_doc_retrieval_guard"@,
            "Source Document Retrieval Guard"@,
            "safety"@,
            "Keeps source documents out of default context retrieval."@,
        ),
        (
            "health.llm_probe"@,
            "LLM Probe"@,
            "health"@,
            "Controls LLM health and readiness evidence."@,
        ),
    ]
}

/// The built-in components.
pub fn default_harness_components() -> (r: Vec<
    (&'static str, &'static str, &'static str, &'static str),
>)
    ensures
        component_views(r@) == default_components(),
{
    let mut out: Vec<(&'static str, &'static str, &'static str, &'static str)> = Vec::new();
    out.push(
        (
            "retrieval.context_search",
            "Context Search",
            "retrieval",
            "Ranks active fragments for default RAG context retrieval.",
        ),
    );
    out.push(
        (
            "retrieval.traceback",
            "Traceback",
            "retrieval",
            "Maps fragments back to source documents and parse artifacts.",
        ),
    );
    out.push(
        (
            "ingestion.fragmenter",
            "Fragmenter",
            "ingestion",
            "Turns parsed documents into retrievable fragment nodes.",
        ),
    );
    out.push(
        (
            "ingestion.parser_adapter",
            "Parser Adapter",
            "ingestion",
            "Normalizes parser output into blocks and artifacts.",
        ),
    );
    out.push(
        (
            "llm.rag_answer_prompt",
            "RAG Answer Prompt",
            "llm",
            "Builds grounded answer prompts over retrieved citations.",
        ),
    );
    out.push(
        (
            "llm.analysis_prompt",
            "Analysis Prompt",
            "llm",
            "Builds grounded analysis prompts for insight generation.",
        ),
    );
    out.push(
        (
            "memory.insight_policy",
            "Insight Policy",
            "memory",
            "Controls insight extraction and update decisions.",
        ),
    );
    out.push(
        (
            "memory.state_materialization_policy",
            "State Materialization Policy",
            "memory",
            "Controls current-state writes and history evidence.",
        ),
    );
    out.push(
        ("safety.owner_acl", "Owner ACL", "safety", "Prevents cross-owner private context leakage."),
    );
    out.push(
        (
            "safety.source_doc_retrieval_guard",
            "Source Document Retrieval Guard",
            "safety",
            "Keeps source documents out of default context retrieval.",
        ),
    );
    out.push(
        ("health.llm_probe", "LLM Probe", "health", "Controls LLM health and readiness evidence."),
    );
    assert(component_views(out@) =~= default_components());
    out
}

/// The ids of the built-in components.
pub open spec fn default_ids() -> Seq<Seq<char>> {
    Seq::new(default_components().len(), |i: int| default_components()[i].0)
}

/// Whether a component is built in.
pub fn is_default_component(component_id: &str) -> (r: bool)
    ensures
        r == default_ids().contains(component_id@),
{
    let all: Vec<(&'static str, &'static str, &'static str, &'static str)> =
        default_harness_components();
    let mut i: usize = 0;
    while i < all.len()
        invariant
            i <= all.len(),
            component_views(all@) == default_components(),
            forall|j: int| 0 <= j < i ==> #[trigger] default_ids()[j] != component_id@,
        decreases all.len() - i,
    {
        assert(component_views(all@)[i as int].0 == all@[i as int].0@);
        assert(default_ids()[i as int] == all@[i as int].0@);
        if text_eq(all[i].0, component_id) {
            return true;
        }
        i += 1;
    }
    assert(default_ids().len() == component_views(all@).len());
    false
}

/// The id of the first revision of a built-in component.
pub open spec fn bootstrap_id(component_id: Seq<char>) -> Seq<char> {
    "hrev_bootstrap_"@ + slug(component_id)
}

/// The id of the first revision of a built-in component.
pub fn bootstrap_harness_revision_id(component_id: &str) -> (r: String)
    ensures
        r@ == bootstrap_id(component_id@),
{
    "hrev_bootstrap_".to_owned().concat(sanitize_slug(component_id).as_str())
}

/// Whether `c` is a built-in component as it is first stored.
pub open spec fn is_bootstrap_component(
    c: HarnessComponent,
    what: ComponentView,
    tenant_id: Seq<char>,
    created_at: i64,
) -> bool {
    &&& c.id@ == what.0
    &&& c.tenant_id@ == tenant_id
    &&& c.display_name@ == what.1
    &&& c.component_kind@ == what.2
    &&& c.description@ == what.3
    &&& c.status@ == "active"@
    &&& opt_text(c.current_revision_id) == Some(bootstrap_id(what.0))
    &&& c.created_at == created_at
    &&& c.updated_at == created_at
}

/// Whether `j` is what the first revision of every built-in component holds.
pub open spec fn is_bootstrap_content(j: Json) -> bool {
    match j {
        Json::Object(members) => {
            &&& members@.len() == 2
            &&& members@[0].0@ == "invariants"@
            &&& match members@[0].1 {
                Json::Array(items) => {
                    &&& items@.len() == 3
                    &&& is_text(items@[0], "preserve public API behavior"@)
                    &&& is_text(items@[1], "preserve fragment-first retrieval"@)
                    &&& is_text(items@[2], "preserve source-document traceback"@)
                },
                _ => false,
            }
            &&& members@[1].0@ == "source"@
            &&& is_text(members@[1].1, "built_in_registry"@)
        },
        _ => false,
    }
}

fn bootstrap_content() -> (r: Json)
    ensures
        is_bootstrap_content(r),
{
    let mut invariants: Vec<Json> = Vec::new();
    invariants.push(Json::Text("preserve public API behavior".to_owned()));
    invariants.push(Json::Text("preserve fragment-first retrieval".to_owned()));
    invariants.push(Json::Text("preserve source-document traceback".to_owned()));
    let mut members: Vec<(String, Json)> = Vec::new();
    members.push(("invariants".to_owned(), Json::Array(std::sync::Arc::new(invariants))));
    members.push(("source".to_owned(), Json::Text("built_in_registry".to_owned())));
    Json::Object(std::sync::Arc::new(members))
}

/// Whether `r` is the first revision of a built-in component.
pub open spec fn is_bootstrap_revision(
    r: HarnessComponentRevision,
    component_id: Seq<char>,
    tenant_id: Seq<char>,
    created_at: i64,
) -> bool {
    &&& r.id@ == bootstrap_id(component_id)
    &&& r.tenant_id@ == tenant_id
    &&& r.component_id@ == component_id
    &&& r.iteration == 0
    &&& r.manifest_id@ == "bootstrap"@
    &&& r.files@.len() == 0
    &&& is_bootstrap_content(r.content)
    &&& r.status@ == "active"@
    &&& r.created_by@ == "system_bootstrap"@
    &&& r.created_at == created_at
}

/// Whether a tenant has the first revision of a built-in component.
pub open spec fn has_bootstrap(
    revisions: Seq<HarnessComponentRevision>,
    component_id: Seq<char>,
    tenant_id: Seq<char>,
) -> bool {
    any_where(
        revisions,
        |r: HarnessComponentRevision| r.tenant_id@ == tenant_id && r.id@ == bootstrap_id(
            component_id,
        ),
    )
}

/// The components after the first `n` built-in ones were stored where they were missing.
pub open spec fn components_seeded(
    before: Map<Seq<char>, HarnessComponent>,
    after: Map<Seq<char>, HarnessComponent>,
    n: int,
    tenant_id: Seq<char>,
    created_at: i64,
) -> bool {
    &&& forall|k: Seq<char>| #[trigger]
        after.dom().contains(k) <==> before.dom().contains(k) || default_ids().take(n).contains(k)
    &&& forall|k: Seq<char>| #[trigger] before.dom().contains(k) ==> after[k] == before[k]
    &&& forall|k: Seq<char>| #[trigger]
        after.dom().contains(k) && !before.dom().contains(k) ==> exists|i: int|
            0 <= i < n && is_bootstrap_component(
                after[k],
                #[trigger] default_components()[i],
                tenant_id,
                created_at,
            ) && default_components()[i].0 == k
}

/// A revision list after the first revision of its component was added where it was missing.
pub open spec fn list_seeded(
    before: Seq<HarnessComponentRevision>,
    after: Seq<HarnessComponentRevision>,
    component_id: Seq<char>,
    tenant_id: Seq<char>,
    created_at: i64,
) -> bool {
    if has_bootstrap(before, component_id, tenant_id) {
        after == before
    } else {
        &&& after.len() == before.len() + 1
        &&& after.drop_last() == before
        &&& is_bootstrap_revision(after.last(), component_id, tenant_id, created_at)
    }
}

/// The revision lists after the first revisions of `n` built-in components were added where they
/// were missing.
pub open spec fn revisions_seeded(
    before: Map<Seq<char>, Seq<HarnessComponentRevision>>,
    after: Map<Seq<char>, Seq<HarnessComponentRevision>>,
    n: int,
    tenant_id: Seq<char>,
    created_at: i64,
) -> bool {
    &&& forall|k: Seq<char>| #[trigger]
        after.dom().contains(k) <==> before.dom().contains(k) || default_ids().take(n).contains(k)
    &&& forall|k: Seq<char>| #[trigger]
        after.dom().contains(k) ==> if default_ids().take(n).contains(k) {
            list_seeded(list_at(before, k), after[k], k, tenant_id, created_at)
        } else {
            after[k] == before[k]
        }
}

/// Everything after the built-in components were stored where they were missing.
pub open spec fn seeded(
    before: StoreData,
    after: StoreData,
    tenant_id: Seq<char>,
    created_at: i64,
) -> bool {
    &&& after == (StoreData {
        harness_components: after.harness_components,
        harness_revisions: after.harness_revisions,
        ..before
    })
    &&& components_seeded(
        before.harness_components@,
        after.harness_components@,
        default_components().len() as int,
        tenant_id,
        created_at,
    )
    &&& revisions_seeded(
        lists(before.harness_revisions@),
        lists(after.harness_revisions@),
        default_components().len() as int,
        tenant_id,
        created_at,
    )
}

proof fn lemma_ids_step(n: int, k: Seq<char>)
    requires
        0 <= n < default_components().len(),
    ensures
        default_ids().take(n + 1).contains(k) <==> default_ids().take(n).contains(k)
            || default_components()[n].0 == k,
{
    let a = default_ids().take(n + 1);
    let b = default_ids().take(n);
    assert(default_ids()[n] == default_components()[n].0);
    if a.contains(k) {
        let i = choose|i: int| 0 <= i < a.len() && a[i] == k;
        if i < n {
            assert(b[i] == k);
        }
    }
    if b.contains(k) {
        let i = choose|i: int| 0 <= i < b.len() && b[i] == k;
        assert(a[i] == k);
    }
    if default_components()[n].0 == k {
        assert(a[n] == k);
    }
}

impl StoreData {
    /// Stores the built-in components and their first revisions where they are missing.
    #[verifier::rlimit(60)]
    pub fn seed_harness_components(&mut self, tenant_id: &str, created_at: i64)
        ensures
            seeded(*old(self), *final(self), tenant_id@, created_at),
    {
        let all: Vec<(&'static str, &'static str, &'static str, &'static str)> =
            default_harness_components();
        let ghost m0 = self.harness_components@;
        let ghost l0 = lists(self.harness_revisions@);
        let ghost total = default_components().len() as int;
        let mut i: usize = 0;
        assert(default_ids().take(0) =~= Seq::<Seq<char>>::empty());
        while i < all.len()
            invariant
                i <= all.len() == total,
                total == default_components().len(),
                component_views(all@) == default_components(),
                m0 == old(self).harness_components@,
                l0 == lists(old(self).harness_revisions@),
                *self == (StoreData {
                    harness_components: self.harness_components,
                    harness_revisions: self.harness_revisions,
                    ..*old(self)
                }),
                components_seeded(m0, self.harness_components@, i as int, tenant_id@, created_at),
                revisions_seeded(
                    l0,
                    lists(self.harness_revisions@),
                    i as int,
                    tenant_id@,
                    created_at,
                ),
            decreases all.len() - i,
        {
            let what: (&'static str, &'static str, &'static str, &'static str) = all[i];
            let ghost w = default_components()[i as int];
            assert(component_views(all@)[i as int] == w);
            let ghost id = w.0;
            let component_id: String = what.0.to_owned();
            let ghost m1 = self.harness_components@;
            let ghost l1 = lists(self.harness_revisions@);
            if !self.harness_components.contains_key(&component_id) {
                let component: HarnessComponent = HarnessComponent {
                    id: what.0.to_owned(),
                    tenant_id: tenant_id.to_owned(),
                    display_name: what.1.to_owned(),
                    component_kind: what.2.to_owned(),
                    description: what.3.to_owned(),
                    status: "active".to_owned(),
                    current_revision_id: Some(bootstrap_harness_revision_id(what.0)),
                    created_at,
                    updated_at: created_at,
                };
                self.harness_components.insert(component_id.clone(), component);
            }
            proof {
                lemma_components_step(
                    m0,
                    m1,
                    self.harness_components@,
                    i as int,
                    tenant_id@,
                    created_at,
                );
            }
            let ghost raw = self.harness_revisions@;
            let mut list: Vec<HarnessComponentRevision> = take_list(
                &mut self.harness_revisions,
                &component_id,
            );
            let ghost list0 = list@;
            let revision_id: String = bootstrap_harness_revision_id(what.0);
            let ghost p = |r: HarnessComponentRevision|
                r.tenant_id@ == tenant_id@ && r.id@ == bootstrap_id(id);
            let accept = |r: &HarnessComponentRevision| -> (b: bool)
                ensures
                    b == p(*r),
                {
                    text_eq(r.tenant_id.as_str(), tenant_id) && text_eq(
                        r.id.as_str(),
                        revision_id.as_str(),
                    )
                };
            let at: usize = find_where(&list, accept, Ghost(p));
            assert(has_bootstrap(list0, id, tenant_id@) == any_where(list0, p));
            if at == list.len() {
                list.push(
                    HarnessComponentRevision {
                        id: bootstrap_harness_revision_id(what.0),
                        tenant_id: tenant_id.to_owned(),
                        component_id: what.0.to_owned(),
                        iteration: 0,
                        manifest_id: "bootstrap".to_owned(),
                        files: std::sync::Arc::new(Vec::new()),
                        content: bootstrap_content(),
                        status: "active".to_owned(),
                        created_by: "system_bootstrap".to_owned(),
                        created_at,
                    },
                );
                assert(list@.drop_last() =~= list0);
            }
            proof {
                assert(list_seeded(list0, list@, id, tenant_id@, created_at));
                lists_replaced(raw, id, list);
                lemma_revisions_step(l0, l1, i as int, list@, tenant_id@, created_at);
            }
            self.harness_revisions.insert(component_id, list);
            i += 1;
        }
    }
}

proof fn lemma_components_step(
    m0: Map<Seq<char>, HarnessComponent>,
    m1: Map<Seq<char>, HarnessComponent>,
    m2: Map<Seq<char>, HarnessComponent>,
    n: int,
    tenant_id: Seq<char>,
    created_at: i64,
)
    requires
        0 <= n < default_components().len(),
        components_seeded(m0, m1, n, tenant_id, created_at),
        ({
            let w = default_components()[n];
            if m1.dom().contains(w.0) {
                m2 == m1
            } else {
                &&& m2.dom().contains(w.0)
                &&& m2 == m1.insert(w.0, m2[w.0])
                &&& is_bootstrap_component(m2[w.0], w, tenant_id, created_at)
            }
        }),
    ensures
        components_seeded(m0, m2, n + 1, tenant_id, created_at),
{
    let w = default_components()[n];
    assert forall|k: Seq<char>| #[trigger]
        m2.dom().contains(k) <==> m0.dom().contains(k) || default_ids().take(n + 1).contains(
            k,
        ) by {
        lemma_ids_step(n, k);
        assert(m1.dom().contains(k) <==> m0.dom().contains(k) || default_ids().take(n).contains(k));
    }
    assert forall|k: Seq<char>| #[trigger] m0.dom().contains(k) implies m2[k] == m0[k] by {
        assert(m1.dom().contains(k));
    }
    assert forall|k: Seq<char>| #[trigger]
        m2.dom().contains(k) && !m0.dom().contains(k) implies exists|i: int|
        0 <= i < n + 1 && is_bootstrap_component(
            m2[k],
            #[trigger] default_components()[i],
            tenant_id,
            created_at,
        ) && default_components()[i].0 == k by {
        if m1.dom().contains(k) {
            let i = choose|i: int|
                0 <= i < n && is_bootstrap_component(
                    m1[k],
                    #[trigger] default_components()[i],
                    tenant_id,
                    created_at,
                ) && default_components()[i].0 == k;
            assert(m2[k] == m1[k]);
            assert(is_bootstrap_component(m2[k], default_components()[i], tenant_id, created_at));
        } else {
            assert(is_bootstrap_component(m2[k], default_components()[n], tenant_id, created_at));
        }
    }
}

proof fn lemma_revisions_step(
    l0: Map<Seq<char>, Seq<HarnessComponentRevision>>,
    l1: Map<Seq<char>, Seq<HarnessComponentRevision>>,
    n: int,
    list: Seq<HarnessComponentRevision>,
    tenant_id: Seq<char>,
    created_at: i64,
)
    requires
        0 <= n < default_components().len(),
        revisions_seeded(l0, l1, n, tenant_id, created_at),
        list_seeded(
            list_at(l1, default_components()[n].0),
            list,
            default_components()[n].0,
            tenant_id,
            created_at,
        ),
    ensures
        revisions_seeded(
            l0,
            l1.insert(default_components()[n].0, list),
            n + 1,
            tenant_id,
            created_at,
        ),
{
    let id = default_components()[n].0;
    let l2 = l1.insert(id, list);
    assert forall|k: Seq<char>| #[trigger]
        l2.dom().contains(k) <==> l0.dom().contains(k) || default_ids().take(n + 1).contains(
            k,
        ) by {
        lemma_ids_step(n, k);
        assert(l1.dom().contains(k) <==> l0.dom().contains(k) || default_ids().take(n).contains(k));
    }
    assert forall|k: Seq<char>| #[trigger]
        l2.dom().contains(k) implies if default_ids().take(n + 1).contains(k) {
        list_seeded(list_at(l0, k), l2[k], k, tenant_id, created_at)
    } else {
        l2[k] == l0[k]
    } by {
        lemma_ids_step(n, k);
        assert(l1.dom().contains(k) <==> l0.dom().contains(k) || default_ids().take(n).contains(k));
        if k == id {
            if default_ids().take(n).contains(k) {
                assert(l1.dom().contains(k));
                assert(list_seeded(list_at(l0, k), l1[k], k, tenant_id, created_at));
                if !has_bootstrap(list_at(l0, k), k, tenant_id) {
                    let p = |r: HarnessComponentRevision|
                        r.tenant_id@ == tenant_id && r.id@ == bootstrap_id(k);
                    assert(p(l1[k][l1[k].len() - 1]));
                    assert(any_where(l1[k], p));
                    assert(has_bootstrap(l1[k], k, tenant_id));
                }
            } else {
                assert(list_at(l1, k) == list_at(l0, k));
            }
        }
    }
}

/// Storing the built-in components never touches a component that is there, nor the revisions of
/// another tenant or of a component that is not built in.
pub proof fn seeding_keeps_what_is_there(
    before: StoreData,
    after: StoreData,
    tenant_id: Seq<char>,
    created_at: i64,
    component_id: Seq<char>,
    i: int,
)
    requires
        seeded(before, after, tenant_id, created_at),
        0 <= i < list_at(lists(before.harness_revisions@), component_id).len(),
    ensures
        before.harness_components@.dom().contains(component_id)
            ==> after.harness_components@.dom().contains(component_id)
            && after.harness_components@[component_id] == before.harness_components@[component_id],
        i < list_at(lists(after.harness_revisions@), component_id).len(),
        list_at(lists(after.harness_revisions@), component_id)[i] == list_at(
            lists(before.harness_revisions@),
            component_id,
        )[i],
{
    let b = lists(before.harness_revisions@);
    let a = lists(after.harness_revisions@);
    assert(b.dom().contains(component_id));
    assert(a.dom().contains(component_id));
    let n = default_components().len() as int;
    if default_ids().take(n).contains(component_id) {
        assert(list_seeded(b[component_id], a[component_id], component_id, tenant_id, created_at));
        if !has_bootstrap(b[component_id], component_id, tenant_id) {
            assert(a[component_id].drop_last()[i] == b[component_id][i]);
        }
    }
}

} // verus!
