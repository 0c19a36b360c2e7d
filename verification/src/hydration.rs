//! What is loaded when the store starts, and how the loading is reported.

use vstd::prelude::*;
use vstd::string::*;

use crate::data::StoreData;
use crate::error::{fails_with, ApiError, ErrorView};
use crate::json::Json;
use crate::model::harness::{
    HarnessChangeManifest, HarnessChangeVerdict, HarnessComponent, HarnessComponentRevision,
    RagEvalCase, RagEvalCaseResult, RagEvalOverview, RagEvalRun,
};
use crate::model::ingest::{
    CompanySource, IngestTask, IngestTaskResult, ParseArtifact, SourceRevision,
};
use crate::model::knowledge::{
    ContextNode, DatasetRecord, InsightRecord, KnowledgeLink, SessionRecord, StateItem,
    StructuredSnapshot, TraceRecord, UserEventIndex,
};
use crate::model::operation::{
    OperationRecord, OperationResource, OperationStep, OperationStepStatus, ResourceView,
};
use crate::naming::{index_id, user_event_index_id};
use crate::operations::{find_progress, has_progress, plan_steps, progress_of};
use crate::record::List;
use crate::resolver::{
    context_index_uid, context_uid, event_index_uid, event_uid, EVENT_INDEX_SCHEMA_VERSION,
    EVENT_SETTINGS_HASH,
};
use crate::text::{opt_str, opt_text, text_eq};

verus! {

/// How much depends on a domain of rows.
#[derive(Clone, Copy, Debug, PartialEq, Eq, Structural)]
pub enum DurabilityClass {
    DurableCanonical,
    DerivedDurable,
    Ephemeral,
}

/// When a domain of rows is loaded.
#[derive(Clone, Copy, Debug, PartialEq, Eq, Structural)]
pub enum HydrationStrategy {
    Startup,
    ReadThrough,
    LazySnapshot,
    Regenerate,
    Ephemeral,
}

/// How far the loading has come.
#[derive(Clone, Copy, Debug, PartialEq, Eq, Structural)]
pub enum HydrationStatus {
    NotRequired,
    Pending,
    Complete,
    Incomplete,
}

/// What holds of a domain of rows.
pub struct DomainContract {
    pub name: &'static str,
    pub durability: DurabilityClass,
    pub strategy: HydrationStrategy,
    pub mandatory: bool,
}

/// What holds of a domain of rows, by content.
pub struct DomainView {
    pub name: Seq<char>,
    pub durability: DurabilityClass,
    pub strategy: HydrationStrategy,
    pub mandatory: bool,
}

impl View for DomainContract {
    type V = DomainView;

    open spec fn view(&self) -> DomainView {
        domain(self.name@, self.durability, self.strategy, self.mandatory)
    }
}

/// A domain of rows.
pub open spec fn domain(
    name: Seq<char>,
    durability: DurabilityClass,
    strategy: HydrationStrategy,
    mandatory: bool,
) -> DomainView {
    DomainView { name, durability, strategy, mandatory }
}

/// The domains by content.
pub open spec fn domain_views(s: Seq<DomainContract>) -> Seq<DomainView> {
    Seq::new(s.len(), |i: int| s[i]@)
}

/// Every domain of rows, by name.
pub open spec fn domains() -> Seq<DomainView> {
    seq![
        domain("company_context_nodes"@, DurabilityClass::DerivedDurable, HydrationStrategy::Startup, true),
        domain("company_sources"@, DurabilityClass::DurableCanonical, HydrationStrategy::Startup, true),
        domain("datasets"@, DurabilityClass::DurableCanonical, HydrationStrategy::Startup, true),
        domain("eval_case_results"@, DurabilityClass::DurableCanonical, HydrationStrategy::Startup, true),
        domain("eval_cases"@, DurabilityClass::DurableCanonical, HydrationStrategy::Startup, true),
        domain("eval_overviews"@, DurabilityClass::DerivedDurable, HydrationStrategy::Startup, true),
        domain("eval_runs"@, DurabilityClass::DurableCanonical, HydrationStrategy::Startup, true),
        domain("harness_changes"@, DurabilityClass::DurableCanonical, HydrationStrategy::Startup, true),
        domain("harness_components"@, DurabilityClass::DurableCanonical, HydrationStrategy::Startup, true),
        domain("harness_revisions"@, DurabilityClass::DurableCanonical, HydrationStrategy::Startup, true),
        domain("harness_verdicts"@, DurabilityClass::DurableCanonical, HydrationStrategy::Startup, true),
        domain("ingest_results"@, DurabilityClass::DurableCanonical, HydrationStrategy::Startup, true),
        domain("ingest_tasks"@, DurabilityClass::DurableCanonical, HydrationStrategy::Startup, true),
        domain("insights"@, DurabilityClass::DurableCanonical, HydrationStrategy::Startup, true),
        domain("links"@, DurabilityClass::DurableCanonical, HydrationStrategy::Startup, true),
        domain("operations"@, DurabilityClass::DurableCanonical, HydrationStrategy::Startup, true),
        domain("parse_artifacts"@, DurabilityClass::DerivedDurable, HydrationStrategy::Startup, true),
        domain("parsed_blocks"@, DurabilityClass::Ephemeral, HydrationStrategy::Ephemeral, false),
        domain("personal_context"@, DurabilityClass::DerivedDurable, HydrationStrategy::ReadThrough, false),
        domain("preflight_decisions"@, DurabilityClass::Ephemeral, HydrationStrategy::Ephemeral, false),
        domain("provider_health"@, DurabilityClass::Ephemeral, HydrationStrategy::Regenerate, false),
        domain("queue_permits"@, DurabilityClass::Ephemeral, HydrationStrategy::Ephemeral, false),
        domain("sessions"@, DurabilityClass::DurableCanonical, HydrationStrategy::Startup, true),
        domain("source_documents"@, DurabilityClass::DurableCanonical, HydrationStrategy::ReadThrough, false),
        domain("source_revisions"@, DurabilityClass::DurableCanonical, HydrationStrategy::Startup, true),
        domain("state_items"@, DurabilityClass::DurableCanonical, HydrationStrategy::Startup, true),
        domain("structured_rows"@, DurabilityClass::DurableCanonical, HydrationStrategy::LazySnapshot, false),
        domain("structured_snapshots"@, DurabilityClass::DurableCanonical, HydrationStrategy::Startup, true),
        domain("structured_summaries"@, DurabilityClass::DerivedDurable, HydrationStrategy::Startup, true),
        domain("traces"@, DurabilityClass::DurableCanonical, HydrationStrategy::Startup, true),
        domain("user_event_indexes"@, DurabilityClass::DurableCanonical, HydrationStrategy::Startup, true),
        domain("user_events"@, DurabilityClass::DurableCanonical, HydrationStrategy::ReadThrough, false),
        domain("vector_embeddings"@, DurabilityClass::Ephemeral, HydrationStrategy::Regenerate, false),
    ]
}

/// Every domain of rows, by name.
pub fn durability_contract() -> (r: Vec<DomainContract>)
    ensures
        domain_views(r@) == domains(),
{
    let mut out: Vec<DomainContract> = Vec::new();
    out.push(
        DomainContract {
            name: "company_context_nodes",
            durability: DurabilityClass::DerivedDurable,
            strategy: HydrationStrategy::Startup,
            mandatory: true,
        },
    );
    out.push(
        DomainContract {
            name: "company_sources",
            durability: DurabilityClass::DurableCanonical,
            strategy: HydrationStrategy::Startup,
            mandatory: true,
        },
    );
    out.push(
        DomainContract {
            name: "datasets",
            durability: DurabilityClass::DurableCanonical,
            strategy: HydrationStrategy::Startup,
            mandatory: true,
        },
    );
    out.push(
        DomainContract {
            name: "eval_case_results",
            durability: DurabilityClass::DurableCanonical,
            strategy: HydrationStrategy::Startup,
            mandatory: true,
        },
    );
    out.push(
        DomainContract {
            name: "eval_cases",
            durability: DurabilityClass::DurableCanonical,
            strategy: HydrationStrategy::Startup,
            mandatory: true,
        },
    );
    out.push(
        DomainContract {
            name: "eval_overviews",
            durability: DurabilityClass::DerivedDurable,
            strategy: HydrationStrategy::Startup,
            mandatory: true,
        },
    );
    out.push(
        DomainContract {
            name: "eval_runs",
            durability: DurabilityClass::DurableCanonical,
            strategy: HydrationStrategy::Startup,
            mandatory: true,
        },
    );
    out.push(
        DomainContract {
            name: "harness_changes",
            durability: DurabilityClass::DurableCanonical,
            strategy: HydrationStrategy::Startup,
            mandatory: true,
        },
    );
    out.push(
        DomainContract {
            name: "harness_components",
            durability: DurabilityClass::DurableCanonical,
            strategy: HydrationStrategy::Startup,
            mandatory: true,
        },
    );
    out.push(
        DomainContract {
            name: "harness_revisions",
            durability: DurabilityClass::DurableCanonical,
            strategy: HydrationStrategy::Startup,
            mandatory: true,
        },
    );
    out.push(
        DomainContract {
            name: "harness_verdicts",
            durability: DurabilityClass::DurableCanonical,
            strategy: HydrationStrategy::Startup,
            mandatory: true,
        },
    );
    out.push(
        DomainContract {
            name: "ingest_results",
            durability: DurabilityClass::DurableCanonical,
            strategy: HydrationStrategy::Startup,
            mandatory: true,
        },
    );
    out.push(
        DomainContract {
            name: "ingest_tasks",
            durability: DurabilityClass::DurableCanonical,
            strategy: HydrationStrategy::Startup,
            mandatory: true,
        },
    );
    out.push(
        DomainContract {
            name: "insights",
            durability: DurabilityClass::DurableCanonical,
            strategy: HydrationStrategy::Startup,
            mandatory: true,
        },
    );
    out.push(
        DomainContract {
            name: "links",
            durability: DurabilityClass::DurableCanonical,
            strategy: HydrationStrategy::Startup,
            mandatory: true,
        },
    );
    out.push(
        DomainContract {
            name: "operations",
            durability: DurabilityClass::DurableCanonical,
            strategy: HydrationStrategy::Startup,
            mandatory: true,
        },
    );
    out.push(
        DomainContract {
            name: "parse_artifacts",
            durability: DurabilityClass::DerivedDurable,
            strategy: HydrationStrategy::Startup,
            mandatory: true,
        },
    );
    out.push(
        DomainContract {
            name: "parsed_blocks",
            durability: DurabilityClass::Ephemeral,
            strategy: HydrationStrategy::Ephemeral,
            mandatory: false,
        },
    );
    out.push(
        DomainContract {
            name: "personal_context",
            durability: DurabilityClass::DerivedDurable,
            strategy: HydrationStrategy::ReadThrough,
            mandatory: false,
        },
    );
    out.push(
        DomainContract {
            name: "preflight_decisions",
            durability: DurabilityClass::Ephemeral,
            strategy: HydrationStrategy::Ephemeral,
            mandatory: false,
        },
    );
    out.push(
        DomainContract {
            name: "provider_health",
            durability: DurabilityClass::Ephemeral,
            strategy: HydrationStrategy::Regenerate,
            mandatory: false,
        },
    );
    out.push(
        DomainContract {
            name: "queue_permits",
            durability: DurabilityClass::Ephemeral,
            strategy: HydrationStrategy::Ephemeral,
            mandatory: false,
        },
    );
    out.push(
        DomainContract {
            name: "sessions",
            durability: DurabilityClass::DurableCanonical,
            strategy: HydrationStrategy::Startup,
            mandatory: true,
        },
    );
    out.push(
        DomainContract {
            name: "source_documents",
            durability: DurabilityClass::DurableCanonical,
            strategy: HydrationStrategy::ReadThrough,
            mandatory: false,
        },
    );
    out.push(
        DomainContract {
            name: "source_revisions",
            durability: DurabilityClass::DurableCanonical,
            strategy: HydrationStrategy::Startup,
            mandatory: true,
        },
    );
    out.push(
        DomainContract {
            name: "state_items",
            durability: DurabilityClass::DurableCanonical,
            strategy: HydrationStrategy::Startup,
            mandatory: true,
        },
    );
    out.push(
        DomainContract {
            name: "structured_rows",
            durability: DurabilityClass::DurableCanonical,
            strategy: HydrationStrategy::LazySnapshot,
            mandatory: false,
        },
    );
    out.push(
        DomainContract {
            name: "structured_snapshots",
            durability: DurabilityClass::DurableCanonical,
            strategy: HydrationStrategy::Startup,
            mandatory: true,
        },
    );
    out.push(
        DomainContract {
            name: "structured_summaries",
            durability: DurabilityClass::DerivedDurable,
            strategy: HydrationStrategy::Startup,
            mandatory: true,
        },
    );
    out.push(
        DomainContract {
            name: "traces",
            durability: DurabilityClass::DurableCanonical,
            strategy: HydrationStrategy::Startup,
            mandatory: true,
        },
    );
    out.push(
        DomainContract {
            name: "user_event_indexes",
            durability: DurabilityClass::DurableCanonical,
            strategy: HydrationStrategy::Startup,
            mandatory: true,
        },
    );
    out.push(
        DomainContract {
            name: "user_events",
            durability: DurabilityClass::DurableCanonical,
            strategy: HydrationStrategy::ReadThrough,
            mandatory: false,
        },
    );
    out.push(
        DomainContract {
            name: "vector_embeddings",
            durability: DurabilityClass::Ephemeral,
            strategy: HydrationStrategy::Regenerate,
            mandatory: false,
        },
    );
    assert(domain_views(out@) =~= domains());
    out
}

/// How the loading of a domain went.
#[derive(Debug, PartialEq, Eq)]
pub struct HydrationDomainReport {
    pub name: String,
    pub durability: DurabilityClass,
    pub strategy: HydrationStrategy,
    pub mandatory: bool,
    pub status: String,
    pub expected: usize,
    pub loaded: usize,
    pub skipped: usize,
    pub quarantined: usize,
    pub recovered: usize,
    pub error_category: Option<String>,
    pub error_fingerprint: Option<String>,
}

/// How the loading went; the domains are in the order of their names.
#[derive(Debug, PartialEq, Eq)]
pub struct HydrationReport {
    pub tenant_id: String,
    pub backend: String,
    pub status: HydrationStatus,
    pub ready: bool,
    pub started_at: i64,
    pub completed_at: Option<i64>,
    pub domains: List<HydrationDomainReport>,
}

impl Clone for HydrationReport {
    fn clone(&self) -> (r: Self)
        ensures
            r == *self,
    {
        HydrationReport {
            tenant_id: self.tenant_id.clone(),
            backend: self.backend.clone(),
            status: self.status,
            ready: self.ready,
            started_at: self.started_at,
            completed_at: self.completed_at,
            domains: self.domains.clone(),
        }
    }
}

/// The backend whose rows have to be loaded before the store is ready.
pub const DURABLE_BACKEND: &'static str = "meili";

/// How a domain stands before anything is loaded.
pub open spec fn initial_status(required: bool, strategy: HydrationStrategy) -> Seq<char> {
    if !required {
        "not_required"@
    } else {
        match strategy {
            HydrationStrategy::Startup => "pending"@,
            HydrationStrategy::ReadThrough => "read_through"@,
            HydrationStrategy::LazySnapshot => "lazy"@,
            HydrationStrategy::Regenerate => "regenerable"@,
            HydrationStrategy::Ephemeral => "ephemeral"@,
        }
    }
}

/// Whether `r` is the report on a domain before anything is loaded.
pub open spec fn is_initial_domain(r: HydrationDomainReport, d: DomainView, required: bool) -> bool {
    &&& r.name@ == d.name
    &&& r.durability == d.durability
    &&& r.strategy == d.strategy
    &&& r.mandatory == d.mandatory
    &&& r.status@ == initial_status(required, d.strategy)
    &&& r.expected == 0
    &&& r.loaded == 0
    &&& r.skipped == (if required {
        0int
    } else {
        1int
    })
    &&& r.quarantined == 0
    &&& r.recovered == 0
    &&& r.error_category is None
    &&& r.error_fingerprint is None
}

/// Whether `r` is the report before anything is loaded.
pub open spec fn is_initial(
    r: HydrationReport,
    tenant_id: Seq<char>,
    backend: Seq<char>,
    now: i64,
) -> bool {
    let required = backend == DURABLE_BACKEND@;
    &&& r.tenant_id@ == tenant_id
    &&& r.backend@ == backend
    &&& r.status == (if required {
        HydrationStatus::Pending
    } else {
        HydrationStatus::NotRequired
    })
    &&& r.ready == !required
    &&& r.started_at == now
    &&& r.completed_at == (if required {
        None
    } else {
        Some(now)
    })
    &&& r.domains@.len() == domains().len()
    &&& forall|i: int|
        0 <= i < domains().len() ==> is_initial_domain(
            #[trigger] r.domains@[i],
            domains()[i],
            required,
        )
}

fn initial_domain(d: &DomainContract, required: bool) -> (r: HydrationDomainReport)
    ensures
        is_initial_domain(r, d@, required),
{
    let status: &'static str = if !required {
        "not_required"
    } else {
        match d.strategy {
            HydrationStrategy::Startup => "pending",
            HydrationStrategy::ReadThrough => "read_through",
            HydrationStrategy::LazySnapshot => "lazy",
            HydrationStrategy::Regenerate => "regenerable",
            HydrationStrategy::Ephemeral => "ephemeral",
        }
    };
    HydrationDomainReport {
        name: d.name.to_owned(),
        durability: d.durability,
        strategy: d.strategy,
        mandatory: d.mandatory,
        status: status.to_owned(),
        expected: 0,
        loaded: 0,
        skipped: if required {
            0
        } else {
            1
        },
        quarantined: 0,
        recovered: 0,
        error_category: None,
        error_fingerprint: None,
    }
}

/// The report before anything is loaded.
pub fn initial_hydration_report(tenant_id: &str, backend: &str, now: i64) -> (r: HydrationReport)
    ensures
        is_initial(r, tenant_id@, backend@, now),
{
    let required: bool = text_eq(backend, DURABLE_BACKEND);
    let all: Vec<DomainContract> = durability_contract();
    let mut out: Vec<HydrationDomainReport> = Vec::new();
    let mut i: usize = 0;
    while i < all.len()
        invariant
            i <= all.len(),
            domain_views(all@) == domains(),
            all@.len() == domains().len(),
            out@.len() == i,
            forall|j: int|
                0 <= j < i ==> is_initial_domain(#[trigger] out@[j], domains()[j], required),
        decreases all.len() - i,
    {
        assert(domain_views(all@)[i as int] == all@[i as int]@);
        out.push(initial_domain(&all[i], required));
        i += 1;
    }
    HydrationReport {
        tenant_id: tenant_id.to_owned(),
        backend: backend.to_owned(),
        status: if required {
            HydrationStatus::Pending
        } else {
            HydrationStatus::NotRequired
        },
        ready: !required,
        started_at: now,
        completed_at: if required {
            None
        } else {
            Some(now)
        },
        domains: std::sync::Arc::new(out),
    }
}

/// Everything that was loaded for a tenant.
pub struct HydrationStage {
    pub operations: Vec<OperationRecord>,
    pub user_indexes: Vec<UserEventIndex>,
    pub company_context: Vec<ContextNode>,
    pub state_items: Vec<StateItem>,
    pub insights: Vec<InsightRecord>,
    pub links: Vec<KnowledgeLink>,
    pub sources: Vec<CompanySource>,
    pub source_revisions: Vec<SourceRevision>,
    pub datasets: Vec<DatasetRecord>,
    pub snapshots: Vec<StructuredSnapshot>,
    pub structured_summaries: Vec<Json>,
    pub sessions: Vec<SessionRecord>,
    pub traces: Vec<TraceRecord>,
    pub harness_components: Vec<HarnessComponent>,
    pub harness_revisions: Vec<HarnessComponentRevision>,
    pub harness_changes: Vec<HarnessChangeManifest>,
    pub harness_verdicts: Vec<HarnessChangeVerdict>,
    pub eval_cases: Vec<RagEvalCase>,
    pub eval_runs: Vec<RagEvalRun>,
    pub eval_case_results: Vec<RagEvalCaseResult>,
    pub eval_overviews: Vec<RagEvalOverview>,
    pub ingest_tasks: Vec<IngestTask>,
    pub ingest_results: Vec<IngestTaskResult>,
    pub parse_artifacts: Vec<ParseArtifact>,
    pub recovered_ingest_tasks: usize,
    pub recovered_parse_artifacts: usize,
}

/// How many rows of a domain a stage holds, and how many of them were recovered.
pub open spec fn rows_loaded(stage: HydrationStage, name: Seq<char>) -> Option<(nat, nat)> {
    if name == "operations"@ {
        Some((stage.operations@.len(), 0nat))
    } else if name == "user_event_indexes"@ {
        Some((stage.user_indexes@.len(), 0nat))
    } else if name == "company_context_nodes"@ {
        Some((stage.company_context@.len(), 0nat))
    } else if name == "state_items"@ {
        Some((stage.state_items@.len(), 0nat))
    } else if name == "insights"@ {
        Some((stage.insights@.len(), 0nat))
    } else if name == "links"@ {
        Some((stage.links@.len(), 0nat))
    } else if name == "company_sources"@ {
        Some((stage.sources@.len(), 0nat))
    } else if name == "source_revisions"@ {
        Some((stage.source_revisions@.len(), 0nat))
    } else if name == "datasets"@ {
        Some((stage.datasets@.len(), 0nat))
    } else if name == "structured_snapshots"@ {
        Some((stage.snapshots@.len(), 0nat))
    } else if name == "structured_summaries"@ {
        Some((stage.structured_summaries@.len(), 0nat))
    } else if name == "sessions"@ {
        Some((stage.sessions@.len(), 0nat))
    } else if name == "traces"@ {
        Some((stage.traces@.len(), 0nat))
    } else if name == "harness_components"@ {
        Some((stage.harness_components@.len(), 0nat))
    } else if name == "harness_revisions"@ {
        Some((stage.harness_revisions@.len(), 0nat))
    } else if name == "harness_changes"@ {
        Some((stage.harness_changes@.len(), 0nat))
    } else if name == "harness_verdicts"@ {
        Some((stage.harness_verdicts@.len(), 0nat))
    } else if name == "eval_cases"@ {
        Some((stage.eval_cases@.len(), 0nat))
    } else if name == "eval_runs"@ {
        Some((stage.eval_runs@.len(), 0nat))
    } else if name == "eval_case_results"@ {
        Some((stage.eval_case_results@.len(), 0nat))
    } else if name == "eval_overviews"@ {
        Some((stage.eval_overviews@.len(), 0nat))
    } else if name == "ingest_tasks"@ {
        Some((stage.ingest_tasks@.len(), stage.recovered_ingest_tasks as nat))
    } else if name == "ingest_results"@ {
        Some((stage.ingest_results@.len(), 0nat))
    } else if name == "parse_artifacts"@ {
        Some((stage.parse_artifacts@.len(), stage.recovered_parse_artifacts as nat))
    } else {
        None
    }
}

fn loaded_rows(stage: &HydrationStage, name: &str) -> (r: Option<(usize, usize)>)
    ensures
        match r {
            Some(n) => rows_loaded(*stage, name@) == Some((n.0 as nat, n.1 as nat)),
            None => rows_loaded(*stage, name@) is None,
        },
{
    if text_eq(name, "operations") {
        Some((stage.operations.len(), 0))
    } else if text_eq(name, "user_event_indexes") {
        Some((stage.user_indexes.len(), 0))
    } else if text_eq(name, "company_context_nodes") {
        Some((stage.company_context.len(), 0))
    } else if text_eq(name, "state_items") {
        Some((stage.state_items.len(), 0))
    } else if text_eq(name, "insights") {
        Some((stage.insights.len(), 0))
    } else if text_eq(name, "links") {
        Some((stage.links.len(), 0))
    } else if text_eq(name, "company_sources") {
        Some((stage.sources.len(), 0))
    } else if text_eq(name, "source_revisions") {
        Some((stage.source_revisions.len(), 0))
    } else if text_eq(name, "datasets") {
        Some((stage.datasets.len(), 0))
    } else if text_eq(name, "structured_snapshots") {
        Some((stage.snapshots.len(), 0))
    } else if text_eq(name, "structured_summaries") {
        Some((stage.structured_summaries.len(), 0))
    } else if text_eq(name, "sessions") {
        Some((stage.sessions.len(), 0))
    } else if text_eq(name, "traces") {
        Some((stage.traces.len(), 0))
    } else if text_eq(name, "harness_components") {
        Some((stage.harness_components.len(), 0))
    } else if text_eq(name, "harness_revisions") {
        Some((stage.harness_revisions.len(), 0))
    } else if text_eq(name, "harness_changes") {
        Some((stage.harness_changes.len(), 0))
    } else if text_eq(name, "harness_verdicts") {
        Some((stage.harness_verdicts.len(), 0))
    } else if text_eq(name, "eval_cases") {
        Some((stage.eval_cases.len(), 0))
    } else if text_eq(name, "eval_runs") {
        Some((stage.eval_runs.len(), 0))
    } else if text_eq(name, "eval_case_results") {
        Some((stage.eval_case_results.len(), 0))
    } else if text_eq(name, "eval_overviews") {
        Some((stage.eval_overviews.len(), 0))
    } else if text_eq(name, "ingest_tasks") {
        Some((stage.ingest_tasks.len(), stage.recovered_ingest_tasks))
    } else if text_eq(name, "ingest_results") {
        Some((stage.ingest_results.len(), 0))
    } else if text_eq(name, "parse_artifacts") {
        Some((stage.parse_artifacts.len(), stage.recovered_parse_artifacts))
    } else {
        None
    }
}

/// Whether `r` is the report on a domain after a stage was loaded.
pub open spec fn is_completed_domain(
    r: HydrationDomainReport,
    d: DomainView,
    required: bool,
    stage: HydrationStage,
) -> bool {
    match rows_loaded(stage, d.name) {
        Some(n) => {
            &&& r.name@ == d.name
            &&& r.durability == d.durability
            &&& r.strategy == d.strategy
            &&& r.mandatory == d.mandatory
            &&& r.status@ == "complete"@
            &&& r.expected == n.0
            &&& r.loaded == n.0
            &&& r.skipped == (if required {
                0int
            } else {
                1int
            })
            &&& r.quarantined == 0
            &&& r.recovered == n.1
            &&& r.error_category is None
            &&& r.error_fingerprint is None
        },
        None => is_initial_domain(r, d, required),
    }
}

/// The report after a stage was loaded.
pub fn completed_hydration_report(
    backend: &str,
    tenant_id: &str,
    stage: &HydrationStage,
    now: i64,
) -> (r: HydrationReport)
    ensures
        r.tenant_id@ == tenant_id@,
        r.backend@ == backend@,
        r.status == HydrationStatus::Complete,
        r.ready,
        r.started_at == now,
        r.completed_at == Some(now),
        r.domains@.len() == domains().len(),
        forall|i: int|
            0 <= i < domains().len() ==> is_completed_domain(
                #[trigger] r.domains@[i],
                domains()[i],
                backend@ == DURABLE_BACKEND@,
                *stage,
            ),
{
    let required: bool = text_eq(backend, DURABLE_BACKEND);
    let all: Vec<DomainContract> = durability_contract();
    let mut out: Vec<HydrationDomainReport> = Vec::new();
    let mut i: usize = 0;
    while i < all.len()
        invariant
            i <= all.len(),
            domain_views(all@) == domains(),
            all@.len() == domains().len(),
            out@.len() == i,
            forall|j: int|
                0 <= j < i ==> is_completed_domain(
                    #[trigger] out@[j],
                    domains()[j],
                    required,
                    *stage,
                ),
        decreases all.len() - i,
    {
        assert(domain_views(all@)[i as int] == all@[i as int]@);
        let mut report: HydrationDomainReport = initial_domain(&all[i], required);
        match loaded_rows(stage, all[i].name) {
            Some(n) => {
                report.status = "complete".to_owned();
                report.expected = n.0;
                report.loaded = n.0;
                report.recovered = n.1;
            },
            None => {},
        }
        out.push(report);
        i += 1;
    }
    HydrationReport {
        tenant_id: tenant_id.to_owned(),
        backend: backend.to_owned(),
        status: HydrationStatus::Complete,
        ready: true,
        started_at: now,
        completed_at: Some(now),
        domains: std::sync::Arc::new(out),
    }
}

/// What a caller is answered about the loading.
pub struct HydrationResponse {
    /// How many rows of each domain were loaded.
    pub loaded: Vec<(String, usize)>,
    pub interrupted_ingest_tasks: usize,
    pub hydration: HydrationReport,
}

/// How many rows of the domain called `name` were recovered; none where no domain has the name.
pub open spec fn recovered_in(s: Seq<HydrationDomainReport>, name: Seq<char>) -> usize
    decreases s.len(),
{
    if s.len() == 0 {
        0
    } else if s[0].name@ == name {
        s[0].recovered
    } else {
        recovered_in(s.drop_first(), name)
    }
}

/// What a caller is answered about the loading.
pub fn hydration_response(report: &HydrationReport) -> (r: HydrationResponse)
    ensures
        r.hydration == *report,
        r.loaded@.len() == report.domains@.len(),
        forall|i: int|
            0 <= i < report.domains@.len() ==> (#[trigger] r.loaded@[i]).0@
                == report.domains@[i].name@ && r.loaded@[i].1 == report.domains@[i].loaded,
        r.interrupted_ingest_tasks == recovered_in(report.domains@, "ingest_tasks"@),
{
    let mut loaded: Vec<(String, usize)> = Vec::new();
    let mut interrupted: usize = 0;
    let mut found: bool = false;
    let mut i: usize = 0;
    let ghost all = report.domains@;
    assert(all.skip(0) =~= all);
    while i < report.domains.len()
        invariant
            i <= report.domains@.len(),
            all == report.domains@,
            loaded@.len() == i,
            forall|j: int|
                0 <= j < i ==> (#[trigger] loaded@[j]).0@ == all[j].name@ && loaded@[j].1
                    == all[j].loaded,
            recovered_in(all, "ingest_tasks"@) == (if found {
                interrupted
            } else {
                recovered_in(all.skip(i as int), "ingest_tasks"@)
            }),
            !found ==> interrupted == 0,
        decreases report.domains@.len() - i,
    {
        let d: &HydrationDomainReport = &report.domains[i];
        assert(all.skip(i as int)[0] == *d);
        assert(all.skip(i as int).drop_first() =~= all.skip(i + 1));
        loaded.push((d.name.clone(), d.loaded));
        if !found && text_eq(d.name.as_str(), "ingest_tasks") {
            interrupted = d.recovered;
            found = true;
        }
        i += 1;
    }
    HydrationResponse { loaded, interrupted_ingest_tasks: interrupted, hydration: report.clone() }
}

/// Why a domain could not be loaded.
pub struct HydrationFailure {
    pub domain: &'static str,
    pub error: ApiError,
}

/// Whether `r` says that `domain` failed with the error `e`.
pub open spec fn domain_fails<T>(
    r: Result<T, HydrationFailure>,
    domain: Seq<char>,
    e: ErrorView,
) -> bool {
    match r {
        Ok(_) => false,
        Err(failure) => failure.domain@ == domain && failure.error@ == e,
    }
}

/// The rows of a domain that a backend has to have.
pub fn required_hydration_rows<T>(
    domain: &'static str,
    result: Result<Option<Vec<T>>, ApiError>,
) -> (r: Result<Vec<T>, HydrationFailure>)
    ensures
        match result {
            Ok(Some(rows)) => r == Ok::<Vec<T>, HydrationFailure>(rows),
            Ok(None) => domain_fails(
                r,
                domain@,
                ErrorView::Internal(
                    "mandatory hydration domain "@ + domain@
                        + " is unavailable for the configured backend"@,
                ),
            ),
            Err(error) => domain_fails(r, domain@, error@),
        },
{
    match result {
        Ok(Some(rows)) => Ok(rows),
        Ok(None) => {
            let mut message: String = "mandatory hydration domain ".to_owned();
            message.append(domain);
            message.append(" is unavailable for the configured backend");
            Err(HydrationFailure { domain, error: ApiError::Internal(message) })
        },
        Err(error) => Err(HydrationFailure { domain, error }),
    }
}

/// The result of a call that belongs to a domain.
pub fn hydration_result<T>(domain: &'static str, result: Result<T, ApiError>) -> (r: Result<
    T,
    HydrationFailure,
>)
    ensures
        match result {
            Ok(value) => r == Ok::<T, HydrationFailure>(value),
            Err(error) => domain_fails(r, domain@, error@),
        },
{
    match result {
        Ok(value) => Ok(value),
        Err(error) => Err(HydrationFailure { domain, error }),
    }
}

/// Whether an index of the registry belongs to its tenant and is named by its hashes.
pub open spec fn in_tenant_scope(
    index: UserEventIndex,
    tenant_id: Seq<char>,
    tenant_hash: Seq<char>,
) -> bool {
    let owner_hash = index.owner_user_id_hash@;
    &&& index.tenant_id@ == tenant_id
    &&& index.tenant_hash@ == tenant_hash
    &&& index.id@ == index_id(tenant_hash, owner_hash)
    &&& index.event_index_uid@ == event_uid(tenant_hash, owner_hash)
    &&& index.personal_context_index_uid@ == context_uid(tenant_hash, owner_hash)
}

/// An index of the registry with the present schema and settings; one that does not belong to the
/// tenant is refused.
pub fn reconciled_user_index(index: UserEventIndex, tenant_id: &str, tenant_hash: &str) -> (r:
    Result<UserEventIndex, HydrationFailure>)
    ensures
        if in_tenant_scope(index, tenant_id@, tenant_hash@) {
            &&& r is Ok
            &&& r->Ok_0 == (UserEventIndex {
                schema_version: EVENT_INDEX_SCHEMA_VERSION,
                settings_hash: r->Ok_0.settings_hash,
                ..index
            })
            &&& r->Ok_0.settings_hash@ == EVENT_SETTINGS_HASH@
        } else {
            domain_fails(
                r,
                "user_event_indexes"@,
                ErrorView::Internal(
                    "user event-index registry identity does not match its tenant scope"@,
                ),
            )
        },
{
    let owner_hash: &str = index.owner_user_id_hash.as_str();
    if !text_eq(index.tenant_id.as_str(), tenant_id) || !text_eq(
        index.tenant_hash.as_str(),
        tenant_hash,
    ) || !text_eq(index.id.as_str(), user_event_index_id(tenant_hash, owner_hash).as_str())
        || !text_eq(
        index.event_index_uid.as_str(),
        event_index_uid(tenant_hash, owner_hash).as_str(),
    ) || !text_eq(
        index.personal_context_index_uid.as_str(),
        context_index_uid(tenant_hash, owner_hash).as_str(),
    ) {
        return Err(
            HydrationFailure {
                domain: "user_event_indexes",
                error: ApiError::internal(
                    "user event-index registry identity does not match its tenant scope",
                ),
            },
        );
    }
    Ok(
        UserEventIndex {
            schema_version: EVENT_INDEX_SCHEMA_VERSION,
            settings_hash: EVENT_SETTINGS_HASH.to_owned(),
            ..index
        },
    )
}

/// The domain that a failed step of a recovery belongs to.
pub open spec fn failed_domain(record: OperationRecord, step: OperationStep) -> Option<Seq<char>> {
    if has_progress(record, step.id@) && progress_of(record, step.id@).status
        == OperationStepStatus::Failed {
        match step.resource@ {
            ResourceView::IngestTask { .. } => Some("ingest_tasks"@),
            ResourceView::IngestTasks { .. } => Some("ingest_tasks"@),
            ResourceView::ParseArtifacts { .. } => Some("parse_artifacts"@),
            ResourceView::IngestResult { .. } => Some("ingest_results"@),
            _ => None,
        }
    } else {
        None
    }
}

/// The domain of the first failed step that belongs to one.
pub open spec fn first_failed_domain(record: OperationRecord, steps: Seq<OperationStep>) -> Option<
    Seq<char>,
>
    decreases steps.len(),
{
    if steps.len() == 0 {
        None
    } else if failed_domain(record, steps[0]) is Some {
        failed_domain(record, steps[0])
    } else {
        first_failed_domain(record, steps.drop_first())
    }
}

fn failed_step_domain(record: &OperationRecord, step: &OperationStep) -> (r: Option<&'static str>)
    ensures
        opt_str(r) == failed_domain(*record, *step),
{
    let failed: bool = match find_progress(record, step.id.as_str()) {
        Some(progress) => progress.status == OperationStepStatus::Failed,
        None => false,
    };
    if !failed {
        return None;
    }
    match &step.resource {
        OperationResource::IngestTask { .. } => Some("ingest_tasks"),
        OperationResource::IngestTasks { .. } => Some("ingest_tasks"),
        OperationResource::ParseArtifacts { .. } => Some("parse_artifacts"),
        OperationResource::IngestResult { .. } => Some("ingest_results"),
        _ => None,
    }
}

/// The domain in which a recovery failed.
pub fn failed_ingest_recovery_domain(record: &OperationRecord) -> (r: Option<&'static str>)
    ensures
        opt_str(r) == first_failed_domain(*record, plan_steps(record.plan)),
{
    let ghost all = plan_steps(record.plan);
    let first: Option<&'static str> = failed_step_domain(record, &record.plan.primary);
    assert(all[0] == record.plan.primary);
    assert(all.drop_first() =~= record.plan.side_effects@);
    if first.is_some() {
        return first;
    }
    let ghost rest = record.plan.side_effects@;
    assert(rest.skip(0) =~= rest);
    let mut i: usize = 0;
    while i < record.plan.side_effects.len()
        invariant
            i <= rest.len(),
            rest == record.plan.side_effects@,
            first_failed_domain(*record, all) == first_failed_domain(*record, rest.skip(i as int)),
            all == plan_steps(record.plan),
        decreases rest.len() - i,
    {
        assert(rest.skip(i as int)[0] == rest[i as int]);
        assert(rest.skip(i as int).drop_first() =~= rest.skip(i + 1));
        let found: Option<&'static str> = failed_step_domain(
            record,
            &record.plan.side_effects[i],
        );
        if found.is_some() {
            return found;
        }
        i += 1;
    }
    None
}

/// Whether `r` is the report on a domain after the loading failed in `failed`.
pub open spec fn is_failed_domain(
    r: HydrationDomainReport,
    d: DomainView,
    required: bool,
    failed: Seq<char>,
    category: Seq<char>,
    fingerprint: Seq<char>,
) -> bool {
    if d.name == failed {
        &&& r.name@ == d.name
        &&& r.durability == d.durability
        &&& r.strategy == d.strategy
        &&& r.mandatory == d.mandatory
        &&& r.status@ == "incomplete"@
        &&& r.expected == 0
        &&& r.loaded == 0
        &&& r.skipped == (if required {
            0int
        } else {
            1int
        })
        &&& r.quarantined == 0
        &&& r.recovered == 0
        &&& opt_text(r.error_category) == Some(category)
        &&& opt_text(r.error_fingerprint) == Some(fingerprint)
    } else {
        is_initial_domain(r, d, required)
    }
}

/// Whether `r` is the report after the loading failed in `failed`.
pub open spec fn is_failed(
    r: HydrationReport,
    tenant_id: Seq<char>,
    backend: Seq<char>,
    failed: Seq<char>,
    category: Seq<char>,
    fingerprint: Seq<char>,
    now: i64,
) -> bool {
    &&& r.tenant_id@ == tenant_id
    &&& r.backend@ == backend
    &&& r.status == HydrationStatus::Incomplete
    &&& !r.ready
    &&& r.started_at == now
    &&& r.completed_at == Some(now)
    &&& r.domains@.len() == domains().len()
    &&& forall|i: int|
        0 <= i < domains().len() ==> is_failed_domain(
            #[trigger] r.domains@[i],
            domains()[i],
            backend == DURABLE_BACKEND@,
            failed,
            category,
            fingerprint,
        )
}

/// Reports that the loading failed in `failed`; only a diagnostic of the cause is kept.
pub fn publish_hydration_failure(
    data: &mut StoreData,
    tenant_id: &str,
    backend: &str,
    failed: &str,
    category: &str,
    fingerprint: &str,
    now: i64,
)
    ensures
        *final(data) == (StoreData {
            hydration_report: final(data).hydration_report,
            ..*old(data)
        }),
        final(data).hydration_report is Some,
        is_failed(
            final(data).hydration_report->Some_0,
            tenant_id@,
            backend@,
            failed@,
            category@,
            fingerprint@,
            now,
        ),
{
    let required: bool = text_eq(backend, DURABLE_BACKEND);
    let all: Vec<DomainContract> = durability_contract();
    let mut out: Vec<HydrationDomainReport> = Vec::new();
    let mut i: usize = 0;
    while i < all.len()
        invariant
            i <= all.len(),
            domain_views(all@) == domains(),
            all@.len() == domains().len(),
            out@.len() == i,
            forall|j: int|
                0 <= j < i ==> is_failed_domain(
                    #[trigger] out@[j],
                    domains()[j],
                    required,
                    failed@,
                    category@,
                    fingerprint@,
                ),
        decreases all.len() - i,
    {
        assert(domain_views(all@)[i as int] == all@[i as int]@);
        let mut report: HydrationDomainReport = initial_domain(&all[i], required);
        if text_eq(all[i].name, failed) {
            report.status = "incomplete".to_owned();
            report.error_category = Some(category.to_owned());
            report.error_fingerprint = Some(fingerprint.to_owned());
        }
        out.push(report);
        i += 1;
    }
    data.hydration_report = Some(
        HydrationReport {
            tenant_id: tenant_id.to_owned(),
            backend: backend.to_owned(),
            status: HydrationStatus::Incomplete,
            ready: false,
            started_at: now,
            completed_at: Some(now),
            domains: std::sync::Arc::new(out),
        },
    );
}

/// The store is ready exactly when nothing has to be loaded or everything was.
pub proof fn readiness_follows_the_report(
    initial: HydrationReport,
    failed: HydrationReport,
    tenant_id: Seq<char>,
    backend: Seq<char>,
    domain: Seq<char>,
    category: Seq<char>,
    fingerprint: Seq<char>,
    now: i64,
)
    requires
        is_initial(initial, tenant_id, backend, now),
        is_failed(failed, tenant_id, backend, domain, category, fingerprint, now),
    ensures
        initial.ready <==> initial.status == HydrationStatus::NotRequired,
        initial.ready <==> backend != DURABLE_BACKEND@,
        !failed.ready,
{
}

/// The report of the last loading.
pub fn hydration_report(data: &StoreData) -> (r: Result<HydrationReport, ApiError>)
    ensures
        match data.hydration_report {
            Some(report) => r == Ok::<HydrationReport, ApiError>(report),
            None => fails_with(r, ErrorView::Internal("hydration report is unavailable"@)),
        },
{
    match &data.hydration_report {
        Some(report) => Ok(report.clone()),
        None => Err(ApiError::internal("hydration report is unavailable")),
    }
}

/// Whether the last loading left the store ready.
pub fn hydration_ready(data: &StoreData) -> (r: bool)
    ensures
        r == (match data.hydration_report {
            Some(report) => report.ready,
            None => false,
        }),
{
    match &data.hydration_report {
        Some(report) => report.ready,
        None => false,
    }
}

} // verus!
