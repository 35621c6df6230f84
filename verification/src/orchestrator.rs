//! The run orchestrator: authenticate, fetch the catalog, fan the catalog out
//! to provider pipelines under a fixed concurrency cap, and report the run.
//!
//! The orchestrator is a state machine over phases
//! `Idle → Authenticating → FetchingCatalog → Scraping → ReportingRun → Idle`.
//! Each step consumes the outcome of the previous outside operation and names
//! the next one. While scraping, at most [`MAX_IN_FLIGHT`] pipelines are in
//! flight at once; the rest queue, in catalog order, until a slot frees. The
//! orchestrator waits for every dispatched pipeline to finish — failures are
//! collected, never short-circuited — and only then either surfaces the first
//! pipeline failure (skipping the run report) or reports the run.

use crate::credentials::auth_header_value;
use crate::credentials::Credentials;
use crate::credentials::Token;
use crate::pipeline::PipelineError;
use crate::pipeline::PipelineOutcome;
use crate::pipeline::ProviderRef;
use vstd::prelude::*;

verus! {

/// The fixed parallelism cap: at most this many pipelines in flight at once.
pub const MAX_IN_FLIGHT: usize = 10;

/// One run's bookkeeping record, bounded by its start and end instants
/// (milliseconds of some external clock).
#[derive(Clone, Copy, Debug, PartialEq, Eq, Structural)]
pub struct RunRecord {
    pub start_time: u64,
    pub end_time: u64,
}

impl RunRecord {
    /// A run never ends before it starts.
    pub open spec fn wf(self) -> bool {
        self.start_time <= self.end_time
    }
}

/// The later of two instants.
pub open spec fn later_of(a: u64, b: u64) -> u64 {
    if a >= b {
        a
    } else {
        b
    }
}

/// Failures that are fatal to a run.
#[derive(Clone, Copy, Debug, PartialEq, Eq, Structural)]
pub enum RunError {
    /// Authentication was rejected or unreachable: the run is abandoned
    /// without a run report.
    Auth,
    /// The catalog was unreachable or malformed: abandoned the same way.
    Catalog,
    /// The first infrastructure-level pipeline failure, surfaced only after
    /// every pipeline finished; the run report is then skipped.
    Pipeline { error: PipelineError },
    /// The run report itself failed: the top-level bookkeeping write.
    RunReport,
}

/// The phases of one run.
#[derive(Clone, Copy, Debug, PartialEq, Eq, Structural)]
pub enum RunPhase {
    Idle,
    Authenticating,
    FetchingCatalog,
    Scraping,
    ReportingRun,
}

/// What the outside world answered.
pub enum RunEvent {
    /// Authentication succeeded with this (non-empty) token.
    AuthSucceeded { token: Token },
    /// Authentication failed: transport failure or non-success status.
    AuthFailed,
    /// The catalog endpoint returned these provider references.
    CatalogFetched { refs: Vec<ProviderRef> },
    /// The catalog was unreachable or malformed.
    CatalogFailed,
    /// One dispatched pipeline ran to completion, with this outcome.
    PipelineCompleted { outcome: PipelineOutcome },
    /// The run report was accepted.
    RunReported,
    /// The run report failed.
    RunReportFailed,
}

/// What the runner must do next.
pub enum RunAction {
    /// Authenticate with these credentials.
    Authenticate { client_id: String, client_secret: String },
    /// Fetch the catalog, sending exactly this `Authorization` header value.
    FetchCatalog { auth_header: String },
    /// Start one pipeline per listed provider id, now.
    Dispatch { provider_ids: Vec<u64> },
    /// Report the run's record.
    ReportRun { record: RunRecord },
    /// Keep waiting for pipelines already in flight.
    Wait,
    /// The run is over: `Ok` or its first fatal failure.
    RunFinished { result: Result<(), RunError> },
}

/// The ids of a catalog's provider references, in catalog order.
pub open spec fn ref_ids(refs: Seq<ProviderRef>) -> Seq<u64> {
    refs.map_values(|r: ProviderRef| r.id)
}

/// Spec-level picture of the fan-out bookkeeping while a run is scraping.
pub struct ScrapeModel {
    /// Provider ids not yet dispatched, in catalog order.
    pub pending: Seq<u64>,
    /// Pipelines dispatched and not yet completed.
    pub in_flight: nat,
    /// Pipelines completed, with any outcome.
    pub completed: nat,
    /// All pipelines of this run's catalog.
    pub total: nat,
    /// The first infrastructure-level failure seen, if any.
    pub first_failure: Option<PipelineError>,
}

impl ScrapeModel {
    /// The fan-out bookkeeping always balances, never exceeds the cap, keeps
    /// every slot busy while work queues, and keeps at least one pipeline in
    /// flight until all have completed.
    pub open spec fn wf(self) -> bool {
        &&& self.in_flight <= MAX_IN_FLIGHT
        &&& self.in_flight + self.completed + self.pending.len() == self.total
        &&& (self.pending.len() > 0 ==> self.in_flight == MAX_IN_FLIGHT)
        &&& (self.completed < self.total ==> self.in_flight > 0)
    }
}

/// How completing one pipeline advances the fan-out bookkeeping: one slot
/// frees; the next pending pipeline, if any, takes it at once; the first
/// infrastructure failure is recorded. Nothing else changes.
pub open spec fn spec_complete_one(m: ScrapeModel, outcome: PipelineOutcome) -> ScrapeModel {
    ScrapeModel {
        pending: if m.pending.len() > 0 {
            m.pending.drop_first()
        } else {
            m.pending
        },
        in_flight: if m.pending.len() > 0 {
            m.in_flight
        } else {
            (m.in_flight - 1) as nat
        },
        completed: m.completed + 1,
        total: m.total,
        first_failure: if m.first_failure is Some {
            m.first_failure
        } else {
            match outcome {
                PipelineOutcome::Failed { error, .. } => Some(error),
                _ => None,
            }
        },
    }
}

/// Failure containment: a pipeline that fails advances the run exactly as one
/// that succeeds — the same pipelines stay queued, the same slots stay busy,
/// the same count completes — it only records the failure. No sibling
/// pipeline is abandoned.
pub proof fn lemma_failure_isolated(m: ScrapeModel, failed: PipelineOutcome, ok: PipelineOutcome)
    requires
        failed is Failed,
        !(ok is Failed),
    ensures
        spec_complete_one(m, failed).pending == spec_complete_one(m, ok).pending,
        spec_complete_one(m, failed).in_flight == spec_complete_one(m, ok).in_flight,
        spec_complete_one(m, failed).completed == spec_complete_one(m, ok).completed,
        spec_complete_one(m, failed).total == spec_complete_one(m, ok).total,
{
}

/// The concurrency cap holds at every step of the fan-out: completing one
/// pipeline keeps the bookkeeping well formed and the in-flight count at or
/// under [`MAX_IN_FLIGHT`].
pub proof fn lemma_cap_preserved(m: ScrapeModel, outcome: PipelineOutcome)
    requires
        m.wf(),
        m.completed < m.total,
    ensures
        spec_complete_one(m, outcome).wf(),
        spec_complete_one(m, outcome).in_flight <= MAX_IN_FLIGHT,
{
}

/// The run orchestrator's state.
pub struct Orchestrator {
    pub credentials: Credentials,
    pub phase: RunPhase,
    /// When the current run started (set on `start_run`).
    pub run_start: u64,
    /// Provider ids not yet dispatched, in catalog order.
    pub pending: Vec<u64>,
    pub in_flight: usize,
    pub completed: usize,
    pub total: usize,
    pub first_failure: Option<PipelineError>,
}

impl Orchestrator {
    /// The fan-out bookkeeping, as a spec-level model.
    pub open spec fn scrape_model(self) -> ScrapeModel {
        ScrapeModel {
            pending: self.pending@,
            in_flight: self.in_flight as nat,
            completed: self.completed as nat,
            total: self.total as nat,
            first_failure: self.first_failure,
        }
    }

    /// While scraping, the fan-out bookkeeping is well formed and incomplete.
    pub open spec fn wf(self) -> bool {
        self.phase is Scraping ==> self.scrape_model().wf() && self.completed < self.total
    }

    /// The events each phase accepts. A successful authentication always
    /// carries a token with both fields non-empty.
    pub open spec fn accepts(self, event: RunEvent) -> bool {
        match (self.phase, event) {
            (RunPhase::Authenticating, RunEvent::AuthSucceeded { token }) => token.is_set(),
            (RunPhase::Authenticating, RunEvent::AuthFailed) => true,
            (RunPhase::FetchingCatalog, RunEvent::CatalogFetched { .. }) => true,
            (RunPhase::FetchingCatalog, RunEvent::CatalogFailed) => true,
            (RunPhase::Scraping, RunEvent::PipelineCompleted { .. }) => true,
            (RunPhase::ReportingRun, RunEvent::RunReported) => true,
            (RunPhase::ReportingRun, RunEvent::RunReportFailed) => true,
            _ => false,
        }
    }

    /// A fresh, idle orchestrator.
    pub fn new(credentials: Credentials) -> (s: Orchestrator)
        ensures
            s.phase == RunPhase::Idle,
            s.credentials == credentials,
            s.wf(),
    {
        Orchestrator {
            credentials,
            phase: RunPhase::Idle,
            run_start: 0,
            pending: Vec::new(),
            in_flight: 0,
            completed: 0,
            total: 0,
            first_failure: None,
        }
    }

    /// `Idle → Authenticating`: record the run's start and ask for an
    /// authentication with the stored credentials.
    pub fn start_run(&mut self, now: u64) -> (action: RunAction)
        requires
            old(self).phase == RunPhase::Idle,
        ensures
            final(self).phase == RunPhase::Authenticating,
            final(self).run_start == now,
            final(self).credentials == old(self).credentials,
            final(self).wf(),
            action == (RunAction::Authenticate {
                client_id: old(self).credentials.client_id,
                client_secret: old(self).credentials.client_secret,
            }),
    {
        self.phase = RunPhase::Authenticating;
        self.run_start = now;
        RunAction::Authenticate {
            client_id: self.credentials.client_id.clone(),
            client_secret: self.credentials.client_secret.clone(),
        }
    }

    /// One step of the run. `now` is the clock reading at the time of the
    /// event; it only matters for the step that closes the run's record.
    ///
    /// Every emitted `ReportRun` record starts at `run_start` and ends no
    /// earlier than it starts. The stored token changes only on
    /// `AuthSucceeded`, before any pipeline is dispatched.
    pub fn step(&mut self, event: RunEvent, now: u64) -> (action: RunAction)
        requires
            old(self).wf(),
            old(self).accepts(event),
        ensures
            final(self).wf(),
            final(self).run_start == old(self).run_start,
            final(self).credentials.client_id == old(self).credentials.client_id,
            final(self).credentials.client_secret == old(self).credentials.client_secret,
            !(event is AuthSucceeded) ==> final(self).credentials == old(self).credentials,
            match (old(self).phase, event) {
                (RunPhase::Authenticating, RunEvent::AuthSucceeded { token }) => {
                    &&& final(self).credentials.token == token
                    &&& final(self).phase == RunPhase::FetchingCatalog
                    &&& match action {
                        RunAction::FetchCatalog { auth_header } => auth_header@
                            == token.token_type@ + " "@ + token.access_token@,
                        _ => false,
                    }
                },
                (RunPhase::Authenticating, RunEvent::AuthFailed) => {
                    // The run is abandoned: no run report for it is ever asked.
                    &&& final(self).phase == RunPhase::Idle
                    &&& action == (RunAction::RunFinished {
                        result: Err::<(), RunError>(RunError::Auth),
                    })
                },
                (RunPhase::FetchingCatalog, RunEvent::CatalogFetched { refs }) => {
                    let ids = ref_ids(refs@);
                    let k = if refs@.len() <= MAX_IN_FLIGHT as int {
                        refs@.len() as int
                    } else {
                        MAX_IN_FLIGHT as int
                    };
                    if refs@.len() == 0 {
                        &&& final(self).phase == RunPhase::ReportingRun
                        &&& match action {
                            RunAction::ReportRun { record } => record == (RunRecord {
                                start_time: old(self).run_start,
                                end_time: later_of(old(self).run_start, now),
                            }) && record.wf(),
                            _ => false,
                        }
                    } else {
                        &&& final(self).phase == RunPhase::Scraping
                        &&& final(self).scrape_model() == (ScrapeModel {
                            pending: ids.skip(k),
                            in_flight: k as nat,
                            completed: 0,
                            total: ids.len(),
                            first_failure: None::<PipelineError>,
                        })
                        &&& match action {
                            RunAction::Dispatch { provider_ids } => provider_ids@ == ids.take(k),
                            _ => false,
                        }
                    }
                },
                (RunPhase::FetchingCatalog, RunEvent::CatalogFailed) => {
                    &&& final(self).phase == RunPhase::Idle
                    &&& action == (RunAction::RunFinished {
                        result: Err::<(), RunError>(RunError::Catalog),
                    })
                },
                (RunPhase::Scraping, RunEvent::PipelineCompleted { outcome }) => {
                    let m2 = spec_complete_one(old(self).scrape_model(), outcome);
                    if m2.completed < m2.total {
                        &&& final(self).phase == RunPhase::Scraping
                        &&& final(self).scrape_model() == m2
                        &&& match action {
                            RunAction::Dispatch { provider_ids } => old(self).pending@.len() > 0
                                && provider_ids@ == seq![old(self).pending@.first()],
                            RunAction::Wait => old(self).pending@.len() == 0,
                            _ => false,
                        }
                    } else {
                        match m2.first_failure {
                            Some(error) => {
                                &&& final(self).phase == RunPhase::Idle
                                &&& action == (RunAction::RunFinished {
                                    result: Err::<(), RunError>(RunError::Pipeline { error }),
                                })
                            },
                            None => {
                                &&& final(self).phase == RunPhase::ReportingRun
                                &&& match action {
                                    RunAction::ReportRun { record } => record == (RunRecord {
                                        start_time: old(self).run_start,
                                        end_time: later_of(old(self).run_start, now),
                                    }) && record.wf(),
                                    _ => false,
                                }
                            },
                        }
                    }
                },
                (RunPhase::ReportingRun, RunEvent::RunReported) => {
                    &&& final(self).phase == RunPhase::Idle
                    &&& action == (RunAction::RunFinished { result: Ok::<(), RunError>(()) })
                },
                (RunPhase::ReportingRun, RunEvent::RunReportFailed) => {
                    &&& final(self).phase == RunPhase::Idle
                    &&& action == (RunAction::RunFinished {
                        result: Err::<(), RunError>(RunError::RunReport),
                    })
                },
                _ => true,
            },
    {
        match (self.phase, event) {
            (RunPhase::Authenticating, RunEvent::AuthSucceeded { token }) => {
                let header = auth_header_value(&token);
                self.credentials.token = token;
                self.phase = RunPhase::FetchingCatalog;
                RunAction::FetchCatalog { auth_header: header }
            },
            (RunPhase::Authenticating, RunEvent::AuthFailed) => {
                self.phase = RunPhase::Idle;
                RunAction::RunFinished { result: Err(RunError::Auth) }
            },
            (RunPhase::FetchingCatalog, RunEvent::CatalogFetched { refs }) => {
                if refs.len() == 0 {
                    self.phase = RunPhase::ReportingRun;
                    let record = self.close_record(now);
                    RunAction::ReportRun { record }
                } else {
                    let k = if refs.len() <= MAX_IN_FLIGHT {
                        refs.len()
                    } else {
                        MAX_IN_FLIGHT
                    };
                    let ghost ids = ref_ids(refs@);
                    let mut dispatch_now: Vec<u64> = Vec::new();
                    let mut queued: Vec<u64> = Vec::new();
                    let mut j: usize = 0;
                    while j < refs.len()
                        invariant
                            k <= refs.len(),
                            j <= refs.len(),
                            ids == ref_ids(refs@),
                            j <= k ==> dispatch_now@ == ids.take(j as int) && queued@.len() == 0,
                            j > k ==> dispatch_now@ == ids.take(k as int) && queued@
                                == ids.subrange(k as int, j as int),
                        decreases refs.len() - j,
                    {
                        proof {
                            assert(ids[j as int] == refs@[j as int].id);
                        }
                        if j < k {
                            dispatch_now.push(refs[j].id);
                            proof {
                                assert(dispatch_now@ =~= ids.take(j + 1));
                            }
                        } else {
                            queued.push(refs[j].id);
                            proof {
                                assert(queued@ =~= ids.subrange(k as int, j + 1));
                            }
                        }
                        j += 1;
                    }
                    self.pending = queued;
                    self.in_flight = k;
                    self.completed = 0;
                    self.total = refs.len();
                    self.first_failure = None;
                    self.phase = RunPhase::Scraping;
                    proof {
                        assert(self.pending@ =~= ids.skip(k as int));
                        assert(dispatch_now@ =~= ids.take(k as int));
                    }
                    RunAction::Dispatch { provider_ids: dispatch_now }
                }
            },
            (RunPhase::FetchingCatalog, RunEvent::CatalogFailed) => {
                self.phase = RunPhase::Idle;
                RunAction::RunFinished { result: Err(RunError::Catalog) }
            },
            (RunPhase::Scraping, RunEvent::PipelineCompleted { outcome }) => {
                self.completed += 1;
                if self.first_failure.is_none() {
                    match outcome {
                        PipelineOutcome::Failed { provider_id: _, error } => {
                            self.first_failure = Some(error);
                        },
                        _ => {},
                    }
                }
                if self.pending.len() > 0 {
                    let id = self.pending.remove(0);
                    let mut ids: Vec<u64> = Vec::new();
                    ids.push(id);
                    proof {
                        assert(self.pending@ =~= old(self).pending@.drop_first());
                        assert(ids@ =~= seq![old(self).pending@.first()]);
                    }
                    RunAction::Dispatch { provider_ids: ids }
                } else {
                    self.in_flight -= 1;
                    if self.completed < self.total {
                        RunAction::Wait
                    } else {
                        match self.first_failure {
                            Some(error) => {
                                self.phase = RunPhase::Idle;
                                RunAction::RunFinished {
                                    result: Err(RunError::Pipeline { error }),
                                }
                            },
                            None => {
                                self.phase = RunPhase::ReportingRun;
                                let record = self.close_record(now);
                                RunAction::ReportRun { record }
                            },
                        }
                    }
                }
            },
            (RunPhase::ReportingRun, RunEvent::RunReported) => {
                self.phase = RunPhase::Idle;
                RunAction::RunFinished { result: Ok(()) }
            },
            (RunPhase::ReportingRun, RunEvent::RunReportFailed) => {
                self.phase = RunPhase::Idle;
                RunAction::RunFinished { result: Err(RunError::RunReport) }
            },
            _ => RunAction::Wait,
        }
    }

    /// The record that closes the current run: it starts at `run_start` and
    /// ends at `now`, or at `run_start` itself if the clock stepped back.
    fn close_record(&self, now: u64) -> (record: RunRecord)
        ensures
            record == (RunRecord {
                start_time: self.run_start,
                end_time: later_of(self.run_start, now),
            }),
            record.wf(),
    {
        let end_time = if now >= self.run_start {
            now
        } else {
            self.run_start
        };
        RunRecord { start_time: self.run_start, end_time }
    }
}

} // verus!
