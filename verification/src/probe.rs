//! The harvest of a single county, for trying things out.
//!
//! A `Probe` searches one county and asks for the details of each rural
//! settlement found. It keeps no ledger: a request that runs out of
//! attempts is counted and given up.

use vstd::prelude::*;
use crate::harvest::{Command, CommandView, Event, EventView, HarvestConfig, Summary};
use crate::pacing::Pacing;
use crate::settlement::{
    collect_targets, county_search, spec_county_search, spec_targets, Settlement, SettlementView,
};

verus! {

/// What a probe is waiting for.
#[derive(Debug, Clone, Copy, PartialEq, Eq, Structural)]
pub enum ProbePhase {
    /// Nothing was asked for yet.
    Ready,
    /// The search of the county was asked for.
    Searching,
    /// The details of a settlement were asked for.
    Fetching,
    /// The details of a settlement are being written out.
    Writing,
    /// A pause after a settlement.
    Pausing,
    /// The probe is over.
    Finished,
}

/// The state of a probe.
pub struct ProbeView {
    /// The limits of the probe. The limits on sweeps do not apply.
    pub config: HarvestConfig,
    /// The code of the county.
    pub county: Seq<char>,
    /// The rural settlements of the county.
    pub queue: Seq<SettlementView>,
    /// The number of settlements of `queue` that were dealt with.
    pub cursor: nat,
    /// The number of settlements whose details could not be fetched.
    pub failed: nat,
    /// What the probe is waiting for.
    pub phase: ProbePhase,
}

impl ProbeView {
    /// The state of a probe before it begins.
    pub open spec fn initial(config: HarvestConfig, county: Seq<char>) -> ProbeView {
        ProbeView {
            config,
            county,
            queue: Seq::empty(),
            cursor: 0,
            failed: 0,
            phase: ProbePhase::Ready,
        }
    }

    /// The counters stay within the queue, and a settlement is at hand
    /// while its details are asked for.
    pub open spec fn wf(self) -> bool {
        &&& self.config.wf()
        &&& self.failed <= self.cursor <= self.queue.len()
        &&& (self.phase == ProbePhase::Fetching ==> self.cursor < self.queue.len())
    }

    /// Whether `event` is what the probe is waiting for.
    pub open spec fn accepts<D>(self, event: EventView<D>) -> bool {
        match event {
            EventView::Begin => self.phase == ProbePhase::Ready,
            EventView::SearchFinished(_) => self.phase == ProbePhase::Searching,
            EventView::DetailFinished(_) => self.phase == ProbePhase::Fetching,
            EventView::Done => self.phase == ProbePhase::Writing || self.phase
                == ProbePhase::Pausing,
        }
    }

    /// The totals of the probe as it stands: the settlements found, the one
    /// county, and the requests that were given up.
    pub open spec fn summary(self) -> Summary {
        Summary {
            total_settlements: self.queue.len() as u128,
            counties_processed: 1,
            failures_remaining: self.failed as usize,
        }
    }

    /// Turns to the next settlement: its details are asked for. After the
    /// last settlement the probe ends.
    pub open spec fn next_record<D>(self) -> (ProbeView, CommandView<D>) {
        if self.cursor < self.queue.len() {
            (
                ProbeView { phase: ProbePhase::Fetching, ..self },
                CommandView::FetchDetail {
                    id: self.queue[self.cursor as int].id,
                    name: self.queue[self.cursor as int].name,
                    attempts: self.config.detail_attempts,
                },
            )
        } else {
            (
                ProbeView { phase: ProbePhase::Finished, ..self },
                CommandView::Finish { summary: self.summary() },
            )
        }
    }

    /// The state after `event` and the command that answers it, or `None`
    /// where the probe is not waiting for `event`. A search that ran out of
    /// attempts ends the probe at once. What was fetched is written out,
    /// what could not be fetched is counted, and a pause follows either.
    pub open spec fn step<D>(self, event: EventView<D>) -> Option<(ProbeView, CommandView<D>)> {
        if !self.accepts(event) {
            None
        } else {
            Some(
                match event {
                    EventView::Begin => (
                        ProbeView { phase: ProbePhase::Searching, ..self },
                        CommandView::Search {
                            params: spec_county_search(self.county, self.config.page_size),
                            attempts: self.config.search_attempts,
                        },
                    ),
                    EventView::SearchFinished(None) => (
                        ProbeView { phase: ProbePhase::Finished, ..self },
                        CommandView::Finish { summary: self.summary() },
                    ),
                    EventView::SearchFinished(Some(records)) => (ProbeView {
                        queue: spec_targets(records),
                        cursor: 0,
                        failed: 0,
                        ..self
                    }).next_record(),
                    EventView::DetailFinished(Some(record)) => (
                        ProbeView { cursor: self.cursor + 1, phase: ProbePhase::Writing, ..self },
                        CommandView::WriteRow { id: self.queue[self.cursor as int].id, record },
                    ),
                    EventView::DetailFinished(None) => (
                        ProbeView {
                            cursor: self.cursor + 1,
                            failed: self.failed + 1,
                            phase: ProbePhase::Pausing,
                            ..self
                        },
                        CommandView::Pause { pacing: Pacing::BetweenRecords },
                    ),
                    EventView::Done => if self.phase == ProbePhase::Writing {
                        (
                            ProbeView { phase: ProbePhase::Pausing, ..self },
                            CommandView::Pause { pacing: Pacing::BetweenRecords },
                        )
                    } else {
                        self.next_record()
                    },
                },
            )
        }
    }
}

/// A probe in progress.
#[derive(Debug)]
pub struct Probe {
    config: HarvestConfig,
    county: String,
    queue: Vec<Settlement>,
    cursor: usize,
    failed: usize,
    phase: ProbePhase,
}

impl View for Probe {
    type V = ProbeView;

    closed spec fn view(&self) -> ProbeView {
        ProbeView {
            config: self.config,
            county: self.county@,
            queue: self.queue.deep_view(),
            cursor: self.cursor as nat,
            failed: self.failed as nat,
            phase: self.phase,
        }
    }
}

impl Probe {
    /// A probe of the county `county_code`.
    pub fn new(config: HarvestConfig, county_code: &str) -> (probe: Probe)
        requires
            config.wf(),
        ensures
            probe@ == ProbeView::initial(config, county_code@),
            probe@.wf(),
    {
        let probe = Probe {
            config,
            county: county_code.to_owned(),
            queue: Vec::new(),
            cursor: 0,
            failed: 0,
            phase: ProbePhase::Ready,
        };
        assert(probe@.queue =~= Seq::empty());
        probe
    }

    /// What the probe is waiting for.
    pub fn phase(&self) -> (phase: ProbePhase)
        ensures
            phase == self@.phase,
    {
        self.phase
    }

    /// The totals of the probe as it stands.
    pub fn summary(&self) -> (summary: Summary)
        ensures
            summary == self@.summary(),
    {
        Summary {
            total_settlements: self.queue.len() as u128,
            counties_processed: 1,
            failures_remaining: self.failed,
        }
    }

    fn next_record<D>(&mut self) -> (command: Command<D>)
        requires
            old(self)@.config.wf(),
            old(self)@.failed <= old(self)@.cursor <= old(self)@.queue.len(),
        ensures
            (final(self)@, command@) == old(self)@.next_record::<D>(),
            final(self)@.wf(),
    {
        if self.cursor < self.queue.len() {
            let target = &self.queue[self.cursor];
            let command = Command::FetchDetail {
                id: target.id.clone(),
                name: target.name.clone(),
                attempts: self.config.detail_attempts,
            };
            self.phase = ProbePhase::Fetching;
            command
        } else {
            let summary = self.summary();
            self.phase = ProbePhase::Finished;
            Command::Finish { summary }
        }
    }

    /// Takes what happened to the last command and hands back the next one.
    /// An event that the probe is not waiting for changes nothing and is
    /// answered with `None`.
    pub fn advance<D>(&mut self, event: Event<D>) -> (command: Option<Command<D>>)
        requires
            old(self)@.wf(),
        ensures
            final(self)@.wf(),
            match old(self)@.step(event@) {
                Some((next, expected)) => final(self)@ == next && command is Some
                    && command->0@ == expected,
                None => final(self)@ == old(self)@ && command is None,
            },
    {
        match event {
            Event::Begin => {
                if self.phase != ProbePhase::Ready {
                    return None;
                }
                let params = county_search(self.county.as_str(), self.config.page_size);
                self.phase = ProbePhase::Searching;
                Some(Command::Search { params, attempts: self.config.search_attempts })
            },
            Event::SearchFinished(found) => {
                if self.phase != ProbePhase::Searching {
                    return None;
                }
                match found {
                    None => {
                        let summary = self.summary();
                        self.phase = ProbePhase::Finished;
                        Some(Command::Finish { summary })
                    },
                    Some(records) => {
                        self.queue = collect_targets(&records);
                        self.cursor = 0;
                        self.failed = 0;
                        Some(self.next_record())
                    },
                }
            },
            Event::DetailFinished(fetched) => {
                if self.phase != ProbePhase::Fetching {
                    return None;
                }
                let queued = self.queue.len();
                assert(self.cursor < queued);
                match fetched {
                    Some(record) => {
                        let id = self.queue[self.cursor].id.clone();
                        self.cursor = self.cursor + 1;
                        self.phase = ProbePhase::Writing;
                        Some(Command::WriteRow { id, record })
                    },
                    None => {
                        self.cursor = self.cursor + 1;
                        self.failed = self.failed + 1;
                        self.phase = ProbePhase::Pausing;
                        Some(Command::Pause { pacing: Pacing::BetweenRecords })
                    },
                }
            },
            Event::Done => {
                if self.phase == ProbePhase::Writing {
                    self.phase = ProbePhase::Pausing;
                    Some(Command::Pause { pacing: Pacing::BetweenRecords })
                } else if self.phase == ProbePhase::Pausing {
                    Some(self.next_record())
                } else {
                    None
                }
            },
        }
    }
}

} // verus!
