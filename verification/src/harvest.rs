//! The harvest of a province, as a state machine.
//!
//! A `Harvest` walks the counties in their order. For each it asks for one
//! search, keeps the rural settlements among the results, and asks for the
//! details of each in turn: what was fetched is written out, what could not
//! be fetched goes into the failure ledger. After the last county it sweeps
//! the ledger a bounded number of times. The machine itself does nothing but
//! decide: `Harvest::advance` takes what happened and hands back the next
//! command for the caller to carry out.

use vstd::prelude::*;
use crate::ledger::{
    lemma_next_pending, next_pending, without_ids, FailedRequest, FailedRequestView, Ledger,
};
use crate::pacing::Pacing;
use crate::retry::ATTEMPT_CEILING;
use crate::search::{Record, RecordView, SearchParams, SearchParamsView};
use crate::settlement::{
    collect_targets, county_search, spec_county_search, spec_targets, Settlement, SettlementView,
};

verus! {

/// The limits of a harvest.
#[derive(Debug, Clone, Copy, PartialEq, Eq, Structural)]
pub struct HarvestConfig {
    /// The number of attempts at the search of one county.
    pub search_attempts: u32,
    /// The number of attempts at one detail request.
    pub detail_attempts: u32,
    /// The number of records asked for in a search. It has to cover a whole
    /// county, since only the first page is fetched.
    pub page_size: usize,
    /// The number of retry sweeps over the ledger.
    pub max_sweeps: u32,
    /// The number of sweeps in which one request may fail before it is
    /// abandoned.
    pub entry_cap: u32,
}

impl HarvestConfig {
    /// Both attempt ceilings are ones that a `Retry` accepts.
    pub open spec fn wf(self) -> bool {
        &&& self.search_attempts <= ATTEMPT_CEILING
        &&& self.detail_attempts <= ATTEMPT_CEILING
    }

    /// Whether both attempt ceilings are ones that a `Retry` accepts.
    pub fn is_valid(&self) -> (valid: bool)
        ensures
            valid == self.wf(),
    {
        self.search_attempts <= ATTEMPT_CEILING && self.detail_attempts <= ATTEMPT_CEILING
    }
}

impl Default for HarvestConfig {
    fn default() -> (config: Self)
        ensures
            config == (HarvestConfig {
                search_attempts: 5,
                detail_attempts: 3,
                page_size: 1000,
                max_sweeps: 5,
                entry_cap: 3,
            }),
            config.wf(),
    {
        HarvestConfig {
            search_attempts: 5,
            detail_attempts: 3,
            page_size: 1000,
            max_sweeps: 5,
            entry_cap: 3,
        }
    }
}

/// The totals of a harvest.
#[derive(Debug, Clone, Copy, PartialEq, Eq, Structural)]
pub struct Summary {
    /// The number of rural settlements found, over all counties.
    pub total_settlements: u128,
    /// The number of counties whose search was asked for.
    pub counties_processed: usize,
    /// The number of requests left in the ledger.
    pub failures_remaining: usize,
}

/// What a harvest is waiting for.
#[derive(Debug, Clone, Copy, PartialEq, Eq, Structural)]
pub enum Phase {
    /// Nothing was asked for yet.
    Ready,
    /// The search of a county was asked for.
    Searching,
    /// A pause after a search that ran out of attempts.
    SearchBackoff,
    /// The details of a settlement were asked for.
    Fetching,
    /// The details of a settlement are being written out.
    Writing,
    /// The ledger is being written out after a new failure.
    Recording,
    /// A pause after a settlement.
    RecordPause,
    /// The ledger is being written out at the end of a county.
    CountyPersist,
    /// A pause after a county.
    CountyPause,
    /// The details of a request in the ledger were asked for.
    SweepFetching,
    /// The details of a request in the ledger are being written out.
    SweepWriting,
    /// A pause after a request of a sweep.
    SweepPause,
    /// The ledger is being written out at the end of a sweep.
    SweepPersist,
    /// A pause after a sweep.
    SweepRest,
    /// The ledger is being written out for the last time.
    FinalPersist,
    /// The harvest is over.
    Finished,
}

/// What happened to the last command. `D` is the type of a detail record,
/// which the harvest passes on without looking into it.
#[derive(Debug, PartialEq, Eq)]
pub enum Event<D> {
    /// The caller is ready to start.
    Begin,
    /// The search has ended: with the records found, or with `None` where it
    /// ran out of attempts.
    SearchFinished(Option<Vec<Record>>),
    /// The detail request has ended: with the record fetched, or with `None`
    /// where it ran out of attempts.
    DetailFinished(Option<D>),
    /// The write or the pause that was asked for has been carried out.
    Done,
}

/// What an `Event` holds.
pub enum EventView<D> {
    Begin,
    SearchFinished(Option<Seq<RecordView>>),
    DetailFinished(Option<D>),
    Done,
}

impl<D> View for Event<D> {
    type V = EventView<D>;

    open spec fn view(&self) -> EventView<D> {
        match self {
            Event::Begin => EventView::Begin,
            Event::SearchFinished(found) => EventView::SearchFinished(found.deep_view()),
            Event::DetailFinished(fetched) => EventView::DetailFinished(*fetched),
            Event::Done => EventView::Done,
        }
    }
}

/// What the caller is to do next.
#[derive(Debug)]
pub enum Command<D> {
    /// Run this search, with at most `attempts` attempts, and report
    /// `Event::SearchFinished`.
    Search { params: SearchParams, attempts: u32 },
    /// Fetch the details of the place `id`, with at most `attempts`
    /// attempts, and report `Event::DetailFinished`.
    FetchDetail { id: String, name: String, attempts: u32 },
    /// Append `record`, the details of the place `id`, to the output and
    /// flush it, then report `Event::Done`.
    WriteRow { id: String, record: D },
    /// Replace the ledger's snapshot by `entries`, then report
    /// `Event::Done`.
    PersistLedger { entries: Vec<FailedRequest> },
    /// Sleep for a time drawn with `Pacing::draw_ms`, then report
    /// `Event::Done`.
    Pause { pacing: Pacing },
    /// Stop: the harvest is over.
    Finish { summary: Summary },
}

/// What a `Command` holds.
pub enum CommandView<D> {
    Search { params: SearchParamsView, attempts: u32 },
    FetchDetail { id: Seq<char>, name: Seq<char>, attempts: u32 },
    WriteRow { id: Seq<char>, record: D },
    PersistLedger { entries: Seq<FailedRequestView> },
    Pause { pacing: Pacing },
    Finish { summary: Summary },
}

impl<D> View for Command<D> {
    type V = CommandView<D>;

    open spec fn view(&self) -> CommandView<D> {
        match self {
            Command::Search { params, attempts } => CommandView::Search {
                params: params@,
                attempts: *attempts,
            },
            Command::FetchDetail { id, name, attempts } => CommandView::FetchDetail {
                id: id@,
                name: name@,
                attempts: *attempts,
            },
            Command::WriteRow { id, record } => CommandView::WriteRow { id: id@, record: *record },
            Command::PersistLedger { entries } => CommandView::PersistLedger {
                entries: entries.deep_view(),
            },
            Command::Pause { pacing } => CommandView::Pause { pacing: *pacing },
            Command::Finish { summary } => CommandView::Finish { summary: *summary },
        }
    }
}

/// The state of a harvest.
pub struct HarvestView {
    /// The limits of the harvest.
    pub config: HarvestConfig,
    /// The county codes, in the order in which they are harvested.
    pub counties: Seq<Seq<char>>,
    /// The number of counties whose search was asked for.
    pub county: nat,
    /// The rural settlements of the county at hand.
    pub queue: Seq<SettlementView>,
    /// The number of settlements of `queue` that were dealt with.
    pub cursor: nat,
    /// The failure ledger.
    pub ledger: Seq<FailedRequestView>,
    /// The number of rural settlements found so far.
    pub total: nat,
    /// The number of sweeps begun.
    pub sweep: nat,
    /// The position in the ledger that the sweep at hand has reached.
    pub sweep_at: nat,
    /// The identifiers of the requests that the sweep at hand has fetched.
    pub resolved: Seq<Seq<char>>,
    /// What the harvest is waiting for.
    pub phase: Phase,
}

impl HarvestView {
    /// The state of a harvest before it begins.
    pub open spec fn initial(
        config: HarvestConfig,
        counties: Seq<Seq<char>>,
        ledger: Seq<FailedRequestView>,
    ) -> HarvestView {
        HarvestView {
            config,
            counties,
            county: 0,
            queue: Seq::empty(),
            cursor: 0,
            ledger,
            total: 0,
            sweep: 0,
            sweep_at: 0,
            resolved: Seq::empty(),
            phase: Phase::Ready,
        }
    }

    /// The counters stay within their sequences.
    pub open spec fn bounded(self) -> bool {
        &&& self.config.wf()
        &&& self.county <= self.counties.len()
        &&& self.cursor <= self.queue.len()
        &&& self.sweep_at <= self.ledger.len()
        &&& self.sweep <= self.config.max_sweeps
    }

    /// The counters stay within their sequences, and each phase has what it
    /// works on.
    pub open spec fn wf(self) -> bool {
        &&& self.bounded()
        &&& (self.in_county() ==> self.county >= 1)
        &&& (!self.in_record() ==> self.cursor == self.queue.len())
        &&& (self.phase == Phase::Fetching ==> self.cursor < self.queue.len())
        &&& (self.phase == Phase::SweepFetching ==> self.sweep_at < self.ledger.len()
            && self.ledger[self.sweep_at as int].pending(self.config.entry_cap))
    }

    /// Whether the harvest is at work on a county.
    pub open spec fn in_county(self) -> bool {
        self.phase == Phase::Searching || self.phase == Phase::SearchBackoff || self.phase
            == Phase::Fetching || self.phase == Phase::Writing || self.phase == Phase::Recording
            || self.phase == Phase::RecordPause || self.phase == Phase::CountyPersist
            || self.phase == Phase::CountyPause
    }

    /// Whether the harvest is at work on a settlement of a county.
    pub open spec fn in_record(self) -> bool {
        self.phase == Phase::Fetching || self.phase == Phase::Writing || self.phase
            == Phase::Recording || self.phase == Phase::RecordPause
    }

    /// Whether `event` is what the harvest is waiting for.
    pub open spec fn accepts<D>(self, event: EventView<D>) -> bool {
        match event {
            EventView::Begin => self.phase == Phase::Ready,
            EventView::SearchFinished(_) => self.phase == Phase::Searching,
            EventView::DetailFinished(_) => self.phase == Phase::Fetching || self.phase
                == Phase::SweepFetching,
            EventView::Done => self.phase == Phase::SearchBackoff || self.phase == Phase::Writing
                || self.phase == Phase::Recording || self.phase == Phase::RecordPause
                || self.phase == Phase::CountyPersist || self.phase == Phase::CountyPause
                || self.phase == Phase::SweepWriting || self.phase == Phase::SweepPause
                || self.phase == Phase::SweepPersist || self.phase == Phase::SweepRest
                || self.phase == Phase::FinalPersist,
        }
    }

    /// The totals of the harvest as it stands.
    pub open spec fn summary(self) -> Summary {
        Summary {
            total_settlements: self.total as u128,
            counties_processed: self.county as usize,
            failures_remaining: self.ledger.len() as usize,
        }
    }

    /// Turns to the next county: its search is asked for. After the last
    /// county the sweeps begin.
    pub open spec fn open_county<D>(self) -> (HarvestView, CommandView<D>) {
        let cleared = HarvestView { queue: Seq::empty(), cursor: 0, ..self };
        if self.county < self.counties.len() {
            (
                HarvestView { county: self.county + 1, phase: Phase::Searching, ..cleared },
                CommandView::Search {
                    params: spec_county_search(
                        self.counties[self.county as int],
                        self.config.page_size,
                    ),
                    attempts: self.config.search_attempts,
                },
            )
        } else {
            cleared.open_sweep()
        }
    }

    /// Turns to the next settlement of the county: its details are asked
    /// for. After the last settlement the ledger is written out if it holds
    /// anything, and the pause after the county follows.
    pub open spec fn next_record<D>(self) -> (HarvestView, CommandView<D>) {
        if self.cursor < self.queue.len() {
            (
                HarvestView { phase: Phase::Fetching, ..self },
                CommandView::FetchDetail {
                    id: self.queue[self.cursor as int].id,
                    name: self.queue[self.cursor as int].name,
                    attempts: self.config.detail_attempts,
                },
            )
        } else if self.ledger.len() > 0 {
            (
                HarvestView { phase: Phase::CountyPersist, ..self },
                CommandView::PersistLedger { entries: self.ledger },
            )
        } else {
            (
                HarvestView { phase: Phase::CountyPause, ..self },
                CommandView::Pause { pacing: Pacing::BetweenCounties },
            )
        }
    }

    /// Begins the next sweep, if the ledger holds anything and a sweep is
    /// left. Otherwise the harvest ends: a ledger that still holds requests
    /// is written out a last time.
    pub open spec fn open_sweep<D>(self) -> (HarvestView, CommandView<D>) {
        if self.ledger.len() > 0 && self.sweep < self.config.max_sweeps {
            (HarvestView {
                sweep: self.sweep + 1,
                sweep_at: 0,
                resolved: Seq::empty(),
                ..self
            }).next_retry()
        } else if self.ledger.len() > 0 {
            (
                HarvestView { phase: Phase::FinalPersist, ..self },
                CommandView::PersistLedger { entries: self.ledger },
            )
        } else {
            (
                HarvestView { phase: Phase::Finished, ..self },
                CommandView::Finish { summary: self.summary() },
            )
        }
    }

    /// Turns to the next request of the sweep that is still retried: its
    /// details are asked for. After the last one the requests that were
    /// fetched leave the ledger, which is then written out.
    pub open spec fn next_retry<D>(self) -> (HarvestView, CommandView<D>) {
        let at = next_pending(self.ledger, self.sweep_at, self.config.entry_cap);
        if at < self.ledger.len() {
            (
                HarvestView { sweep_at: at, phase: Phase::SweepFetching, ..self },
                CommandView::FetchDetail {
                    id: self.ledger[at as int].id,
                    name: self.ledger[at as int].name,
                    attempts: self.config.detail_attempts,
                },
            )
        } else {
            let kept = without_ids(self.ledger, self.resolved);
            (
                HarvestView {
                    ledger: kept,
                    sweep_at: 0,
                    resolved: Seq::empty(),
                    phase: Phase::SweepPersist,
                    ..self
                },
                CommandView::PersistLedger { entries: kept },
            )
        }
    }

    /// The failure that is recorded for the settlement at the cursor.
    pub open spec fn failure_at_cursor(self) -> FailedRequestView {
        FailedRequestView {
            id: self.queue[self.cursor as int].id,
            name: self.queue[self.cursor as int].name,
            county_code: self.counties[self.county - 1],
            retry_count: 0,
        }
    }

    /// The state after `event` and the command that answers it, or `None`
    /// where the harvest is not waiting for `event`.
    pub open spec fn step<D>(self, event: EventView<D>) -> Option<(HarvestView, CommandView<D>)> {
        if !self.accepts(event) {
            None
        } else {
            Some(
                match event {
                    EventView::Begin => self.open_county(),
                    EventView::SearchFinished(None) => (
                        HarvestView { phase: Phase::SearchBackoff, ..self },
                        CommandView::Pause { pacing: Pacing::AfterFailedSearch },
                    ),
                    EventView::SearchFinished(Some(records)) => {
                        let queue = spec_targets(records);
                        (HarvestView {
                            queue,
                            cursor: 0,
                            total: self.total + queue.len(),
                            ..self
                        }).next_record()
                    },
                    EventView::DetailFinished(Some(record)) => if self.phase == Phase::Fetching {
                        (
                            HarvestView { cursor: self.cursor + 1, phase: Phase::Writing, ..self },
                            CommandView::WriteRow {
                                id: self.queue[self.cursor as int].id,
                                record,
                            },
                        )
                    } else {
                        (
                            HarvestView {
                                resolved: self.resolved.push(self.ledger[self.sweep_at as int].id),
                                sweep_at: self.sweep_at + 1,
                                phase: Phase::SweepWriting,
                                ..self
                            },
                            CommandView::WriteRow {
                                id: self.ledger[self.sweep_at as int].id,
                                record,
                            },
                        )
                    },
                    EventView::DetailFinished(None) => if self.phase == Phase::Fetching {
                        let ledger = self.ledger.push(self.failure_at_cursor());
                        (
                            HarvestView {
                                ledger,
                                cursor: self.cursor + 1,
                                phase: Phase::Recording,
                                ..self
                            },
                            CommandView::PersistLedger { entries: ledger },
                        )
                    } else {
                        (
                            HarvestView {
                                ledger: self.ledger.update(
                                    self.sweep_at as int,
                                    self.ledger[self.sweep_at as int].failed_again(),
                                ),
                                sweep_at: self.sweep_at + 1,
                                phase: Phase::SweepPause,
                                ..self
                            },
                            CommandView::Pause { pacing: Pacing::BetweenRetries },
                        )
                    },
                    EventView::Done => match self.phase {
                        Phase::SearchBackoff | Phase::CountyPause => self.open_county(),
                        Phase::Writing | Phase::Recording => (
                            HarvestView { phase: Phase::RecordPause, ..self },
                            CommandView::Pause { pacing: Pacing::BetweenRecords },
                        ),
                        Phase::RecordPause => self.next_record(),
                        Phase::CountyPersist => (
                            HarvestView { phase: Phase::CountyPause, ..self },
                            CommandView::Pause { pacing: Pacing::BetweenCounties },
                        ),
                        Phase::SweepWriting => (
                            HarvestView { phase: Phase::SweepPause, ..self },
                            CommandView::Pause { pacing: Pacing::BetweenRetries },
                        ),
                        Phase::SweepPause => self.next_retry(),
                        Phase::SweepPersist => (
                            HarvestView { phase: Phase::SweepRest, ..self },
                            CommandView::Pause { pacing: Pacing::BetweenSweeps },
                        ),
                        Phase::SweepRest => self.open_sweep(),
                        _ => (
                            HarvestView { phase: Phase::Finished, ..self },
                            CommandView::Finish { summary: self.summary() },
                        ),
                    },
                },
            )
        }
    }
}

/// Turning to the next request of a sweep keeps a harvest well formed.
proof fn lemma_next_retry_wf<D>(state: HarvestView)
    requires
        state.bounded(),
        state.cursor == state.queue.len(),
    ensures
        state.next_retry::<D>().0.wf(),
{
    lemma_next_pending(state.ledger, state.sweep_at, state.config.entry_cap);
}

/// Beginning a sweep, or ending the harvest, keeps a harvest well formed.
proof fn lemma_open_sweep_wf<D>(state: HarvestView)
    requires
        state.bounded(),
        state.cursor == state.queue.len(),
    ensures
        state.open_sweep::<D>().0.wf(),
{
    if state.ledger.len() > 0 && state.sweep < state.config.max_sweeps {
        lemma_next_retry_wf::<D>(
            HarvestView {
                sweep: state.sweep + 1,
                sweep_at: 0,
                resolved: Seq::empty(),
                ..state
            },
        );
    }
}

/// Turning to the next county keeps a harvest well formed.
proof fn lemma_open_county_wf<D>(state: HarvestView)
    requires
        state.bounded(),
    ensures
        state.open_county::<D>().0.wf(),
{
    if state.county >= state.counties.len() {
        lemma_open_sweep_wf::<D>(HarvestView { queue: Seq::empty(), cursor: 0, ..state });
    }
}

/// Every step keeps a harvest well formed.
pub proof fn lemma_step_wf<D>(state: HarvestView, event: EventView<D>)
    requires
        state.wf(),
    ensures
        match state.step(event) {
            Some((next, _)) => next.wf(),
            None => true,
        },
{
    if state.accepts(event) {
        match event {
            EventView::Begin => {
                lemma_open_county_wf::<D>(state);
            },
            EventView::Done => {
                if state.phase == Phase::SearchBackoff || state.phase == Phase::CountyPause {
                    lemma_open_county_wf::<D>(state);
                } else if state.phase == Phase::SweepPause {
                    lemma_next_retry_wf::<D>(state);
                } else if state.phase == Phase::SweepRest {
                    lemma_open_sweep_wf::<D>(state);
                }
            },
            _ => {},
        }
    }
}

/// A harvest in progress.
#[derive(Debug)]
pub struct Harvest {
    config: HarvestConfig,
    counties: Vec<String>,
    county: usize,
    queue: Vec<Settlement>,
    cursor: usize,
    ledger: Ledger,
    total: u128,
    sweep: u32,
    sweep_at: usize,
    resolved: Vec<String>,
    phase: Phase,
}

impl View for Harvest {
    type V = HarvestView;

    closed spec fn view(&self) -> HarvestView {
        HarvestView {
            config: self.config,
            counties: self.counties.deep_view(),
            county: self.county as nat,
            queue: self.queue.deep_view(),
            cursor: self.cursor as nat,
            ledger: self.ledger@,
            total: self.total as nat,
            sweep: self.sweep as nat,
            sweep_at: self.sweep_at as nat,
            resolved: self.resolved.deep_view(),
            phase: self.phase,
        }
    }
}

impl Harvest {
    /// The state is well formed, and the settlements counted are no more
    /// than the counties searched can have held.
    pub closed spec fn wf(&self) -> bool {
        &&& self@.wf()
        &&& if self.phase == Phase::Searching {
            self.total <= (self.county - 1) * usize::MAX
        } else {
            self.counted()
        }
    }

    /// The settlements counted are no more than the counties searched can
    /// have held.
    closed spec fn counted(&self) -> bool {
        self.total <= self.county * usize::MAX
    }

    /// A harvest of `counties`, in their order, that starts from the ledger
    /// that the last run left.
    pub fn new(config: HarvestConfig, counties: Vec<String>, ledger: Ledger) -> (harvest: Harvest)
        requires
            config.wf(),
        ensures
            harvest@ == HarvestView::initial(config, counties.deep_view(), ledger@),
            harvest.wf(),
    {
        let harvest = Harvest {
            config,
            counties,
            county: 0,
            queue: Vec::new(),
            cursor: 0,
            ledger,
            total: 0,
            sweep: 0,
            sweep_at: 0,
            resolved: Vec::new(),
            phase: Phase::Ready,
        };
        assert(harvest@.queue =~= Seq::empty());
        assert(harvest@.resolved =~= Seq::empty());
        harvest
    }

    /// What the harvest is waiting for.
    pub fn phase(&self) -> (phase: Phase)
        ensures
            phase == self@.phase,
    {
        self.phase
    }

    /// Whether the harvest is over.
    pub fn is_finished(&self) -> (over: bool)
        ensures
            over == (self@.phase == Phase::Finished),
    {
        self.phase == Phase::Finished
    }

    /// The failure ledger as it stands.
    pub fn ledger(&self) -> (ledger: &Ledger)
        ensures
            ledger@ == self@.ledger,
    {
        &self.ledger
    }

    /// The totals of the harvest as it stands.
    pub fn summary(&self) -> (summary: Summary)
        ensures
            summary == self@.summary(),
    {
        Summary {
            total_settlements: self.total,
            counties_processed: self.county,
            failures_remaining: self.ledger.len(),
        }
    }

    fn next_retry<D>(&mut self) -> (command: Command<D>)
        requires
            old(self)@.bounded(),
            old(self)@.cursor == old(self)@.queue.len(),
            old(self).counted(),
        ensures
            (final(self)@, command@) == old(self)@.next_retry::<D>(),
            final(self).wf(),
    {
        proof {
            lemma_next_retry_wf::<D>(self@);
        }
        let at = self.ledger.next_pending(self.sweep_at, self.config.entry_cap);
        if at < self.ledger.len() {
            let entry = self.ledger.get(at);
            let command = Command::FetchDetail {
                id: entry.id.clone(),
                name: entry.name.clone(),
                attempts: self.config.detail_attempts,
            };
            self.sweep_at = at;
            self.phase = Phase::SweepFetching;
            command
        } else {
            self.ledger.resolve(&self.resolved);
            self.resolved = Vec::new();
            self.sweep_at = 0;
            self.phase = Phase::SweepPersist;
            assert(self@.resolved =~= Seq::empty());
            Command::PersistLedger { entries: self.ledger.snapshot() }
        }
    }

    fn open_sweep<D>(&mut self) -> (command: Command<D>)
        requires
            old(self)@.bounded(),
            old(self)@.cursor == old(self)@.queue.len(),
            old(self).counted(),
        ensures
            (final(self)@, command@) == old(self)@.open_sweep::<D>(),
            final(self).wf(),
    {
        proof {
            lemma_open_sweep_wf::<D>(self@);
        }
        if self.ledger.len() > 0 && self.sweep < self.config.max_sweeps {
            self.sweep = self.sweep + 1;
            self.sweep_at = 0;
            self.resolved = Vec::new();
            assert(self@.resolved =~= Seq::empty());
            assert((self.county - 1) * usize::MAX <= self.county * usize::MAX)
                by (nonlinear_arith);
            self.next_retry()
        } else if self.ledger.len() > 0 {
            self.phase = Phase::FinalPersist;
            Command::PersistLedger { entries: self.ledger.snapshot() }
        } else {
            let summary = self.summary();
            self.phase = Phase::Finished;
            Command::Finish { summary }
        }
    }

    fn open_county<D>(&mut self) -> (command: Command<D>)
        requires
            old(self)@.bounded(),
            old(self).counted(),
        ensures
            (final(self)@, command@) == old(self)@.open_county::<D>(),
            final(self).wf(),
    {
        proof {
            lemma_open_county_wf::<D>(self@);
        }
        self.queue = Vec::new();
        self.cursor = 0;
        assert(self@.queue =~= Seq::empty());
        if self.county < self.counties.len() {
            let params = county_search(self.counties[self.county].as_str(), self.config.page_size);
            self.county = self.county + 1;
            self.phase = Phase::Searching;
            Command::Search { params, attempts: self.config.search_attempts }
        } else {
            self.open_sweep()
        }
    }

    fn next_record<D>(&mut self) -> (command: Command<D>)
        requires
            old(self)@.bounded(),
            old(self).counted(),
            old(self).county >= 1,
        ensures
            (final(self)@, command@) == old(self)@.next_record::<D>(),
            final(self).wf(),
    {
        if self.cursor < self.queue.len() {
            let target = &self.queue[self.cursor];
            let command = Command::FetchDetail {
                id: target.id.clone(),
                name: target.name.clone(),
                attempts: self.config.detail_attempts,
            };
            self.phase = Phase::Fetching;
            command
        } else if self.ledger.len() > 0 {
            self.phase = Phase::CountyPersist;
            Command::PersistLedger { entries: self.ledger.snapshot() }
        } else {
            self.phase = Phase::CountyPause;
            Command::Pause { pacing: Pacing::BetweenCounties }
        }
    }

    fn pause<D>(&mut self, phase: Phase, pacing: Pacing) -> (command: Command<D>)
        requires
            old(self)@.bounded(),
            old(self).counted(),
            phase == Phase::RecordPause || phase == Phase::CountyPause || phase
                == Phase::SweepPause || phase == Phase::SweepRest,
            (phase == Phase::RecordPause || phase == Phase::CountyPause) ==> old(self).county >= 1,
            phase != Phase::RecordPause ==> old(self)@.cursor == old(self)@.queue.len(),
        ensures
            final(self)@ == (HarvestView { phase, ..old(self)@ }),
            command@ == (CommandView::<D>::Pause { pacing }),
            final(self).wf(),
    {
        self.phase = phase;
        Command::Pause { pacing }
    }

    /// Takes what happened to the last command and hands back the next one.
    /// An event that the harvest is not waiting for changes nothing and is
    /// answered with `None`.
    pub fn advance<D>(&mut self, event: Event<D>) -> (command: Option<Command<D>>)
        requires
            old(self).wf(),
        ensures
            final(self).wf(),
            match old(self)@.step(event@) {
                Some((next, expected)) => final(self)@ == next && command is Some
                    && command->0@ == expected,
                None => final(self)@ == old(self)@ && command is None,
            },
    {
        proof {
            lemma_step_wf(self@, event@);
        }
        match event {
            Event::Begin => {
                if self.phase == Phase::Ready {
                    Some(self.open_county())
                } else {
                    None
                }
            },
            Event::SearchFinished(found) => {
                if self.phase != Phase::Searching {
                    return None;
                }
                match found {
                    None => {
                        self.phase = Phase::SearchBackoff;
                        assert((self.county - 1) * usize::MAX <= self.county * usize::MAX)
                            by (nonlinear_arith);
                        Some(Command::Pause { pacing: Pacing::AfterFailedSearch })
                    },
                    Some(records) => {
                        let queue = collect_targets(&records);
                        assert(self.total + queue.len() <= self.county * usize::MAX
                            && self.county * usize::MAX <= u128::MAX) by (nonlinear_arith)
                            requires
                                self.total <= (self.county - 1) * usize::MAX,
                                queue.len() <= usize::MAX,
                                1 <= self.county <= usize::MAX,
                                usize::MAX <= u64::MAX,
                        ;
                        self.total = self.total + queue.len() as u128;
                        self.queue = queue;
                        self.cursor = 0;
                        Some(self.next_record())
                    },
                }
            },
            Event::DetailFinished(fetched) => {
                if self.phase == Phase::Fetching {
                    let queued = self.queue.len();
                    assert(self.cursor < queued);
                    let target = &self.queue[self.cursor];
                    match fetched {
                        Some(record) => {
                            let id = target.id.clone();
                            self.cursor = self.cursor + 1;
                            self.phase = Phase::Writing;
                            Some(Command::WriteRow { id, record })
                        },
                        None => {
                            let entry = FailedRequest {
                                id: target.id.clone(),
                                name: target.name.clone(),
                                county_code: self.counties[self.county - 1].clone(),
                                retry_count: 0,
                            };
                            self.ledger.append(entry);
                            self.cursor = self.cursor + 1;
                            self.phase = Phase::Recording;
                            Some(Command::PersistLedger { entries: self.ledger.snapshot() })
                        },
                    }
                } else if self.phase == Phase::SweepFetching {
                    let listed = self.ledger.len();
                    assert(self.sweep_at < listed);
                    match fetched {
                        Some(record) => {
                            let id = self.ledger.get(self.sweep_at).id.clone();
                            let ghost before = self.resolved.deep_view();
                            self.resolved.push(id.clone());
                            assert(self.resolved.deep_view() =~= before.push(id@));
                            self.sweep_at = self.sweep_at + 1;
                            self.phase = Phase::SweepWriting;
                            Some(Command::WriteRow { id, record })
                        },
                        None => {
                            self.ledger.mark_failed_again(self.sweep_at);
                            self.sweep_at = self.sweep_at + 1;
                            self.phase = Phase::SweepPause;
                            Some(Command::Pause { pacing: Pacing::BetweenRetries })
                        },
                    }
                } else {
                    None
                }
            },
            Event::Done => {
                match self.phase {
                    Phase::SearchBackoff | Phase::CountyPause => Some(self.open_county()),
                    Phase::Writing | Phase::Recording => Some(
                        self.pause(Phase::RecordPause, Pacing::BetweenRecords),
                    ),
                    Phase::RecordPause => Some(self.next_record()),
                    Phase::CountyPersist => Some(
                        self.pause(Phase::CountyPause, Pacing::BetweenCounties),
                    ),
                    Phase::SweepWriting => Some(
                        self.pause(Phase::SweepPause, Pacing::BetweenRetries),
                    ),
                    Phase::SweepPause => Some(self.next_retry()),
                    Phase::SweepPersist => Some(
                        self.pause(Phase::SweepRest, Pacing::BetweenSweeps),
                    ),
                    Phase::SweepRest => Some(self.open_sweep()),
                    Phase::FinalPersist => {
                        let summary = self.summary();
                        self.phase = Phase::Finished;
                        Some(Command::Finish { summary })
                    },
                    _ => None,
                }
            },
        }
    }
}

} // verus!
