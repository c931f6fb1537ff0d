//! Runs of a harvest: what holds of the states it passes through and of the
//! rows it writes, whatever the registry answers.

use vstd::prelude::*;
use vstd::seq_lib::seq_to_set_distributes_over_add;
use crate::harvest::{lemma_step_wf, CommandView, EventView, HarvestConfig, HarvestView, Phase};
use crate::ledger::{
    ledger_ids, lemma_next_pending, lemma_pending_from_covers, lemma_pending_from_next,
    next_pending, pending_from, without_ids, FailedRequestView,
};
use crate::settlement::{spec_targets, SettlementView};

verus! {

/// The identifiers of settlements, in their order.
pub open spec fn settlement_ids(settlements: Seq<SettlementView>) -> Seq<Seq<char>> {
    settlements.map_values(|settlement: SettlementView| settlement.id)
}

impl HarvestView {
    /// The state after `event`. An event that the harvest is not waiting
    /// for leaves the state as it is.
    pub open spec fn after<D>(self, event: EventView<D>) -> HarvestView {
        match self.step(event) {
            Some((next, _)) => next,
            None => self,
        }
    }

    /// The row that the answer to `event` has the caller write, if any: the
    /// identifier of the place and its record.
    pub open spec fn row_written<D>(self, event: EventView<D>) -> Seq<(Seq<char>, D)> {
        match self.step(event) {
            Some((_, CommandView::WriteRow { id, record })) => seq![(id, record)],
            _ => Seq::empty(),
        }
    }

    /// The identifiers of the rural settlements that `event` brings in: those
    /// of a search that has ended with records.
    pub open spec fn found<D>(self, event: EventView<D>) -> Seq<Seq<char>> {
        match event {
            EventView::SearchFinished(Some(records)) if self.phase == Phase::Searching => {
                settlement_ids(spec_targets(records))
            },
            _ => Seq::empty(),
        }
    }

    /// The identifiers that the harvest still has to deal with: those in the
    /// ledger, and those of the settlements of the county at hand that are
    /// yet to be fetched.
    pub open spec fn owed(self) -> Set<Seq<char>> {
        ledger_ids(self.ledger).to_set() + settlement_ids(
            self.queue.skip(self.cursor as int),
        ).to_set()
    }
}

/// The state that a harvest reaches from `start` when `events` happen one
/// after the other.
pub open spec fn run<D>(start: HarvestView, events: Seq<EventView<D>>) -> HarvestView
    decreases events.len(),
{
    if events.len() == 0 {
        start
    } else {
        run(start.after(events[0]), events.skip(1))
    }
}

/// The rows that the caller is told to write during a run, in their order.
pub open spec fn rows<D>(start: HarvestView, events: Seq<EventView<D>>) -> Seq<(Seq<char>, D)>
    decreases events.len(),
{
    if events.len() == 0 {
        Seq::empty()
    } else {
        start.row_written(events[0]) + rows(start.after(events[0]), events.skip(1))
    }
}

/// The identifiers of rows, in their order.
pub open spec fn row_ids<D>(rows: Seq<(Seq<char>, D)>) -> Seq<Seq<char>> {
    rows.map_values(|row: (Seq<char>, D)| row.0)
}

/// The identifiers of the rows of a run.
pub open spec fn written_ids<D>(start: HarvestView, events: Seq<EventView<D>>) -> Seq<Seq<char>> {
    row_ids(rows(start, events))
}

/// The identifiers of the rural settlements that the searches of a run have
/// found.
pub open spec fn matched_ids<D>(start: HarvestView, events: Seq<EventView<D>>) -> Seq<Seq<char>>
    decreases events.len(),
{
    if events.len() == 0 {
        Seq::empty()
    } else {
        start.found(events[0]) + matched_ids(start.after(events[0]), events.skip(1))
    }
}

/// Every run keeps a harvest well formed.
pub proof fn lemma_run_wf<D>(start: HarvestView, events: Seq<EventView<D>>)
    requires
        start.wf(),
    ensures
        run(start, events).wf(),
    decreases events.len(),
{
    if events.len() > 0 {
        lemma_step_wf(start, events[0]);
        lemma_run_wf(start.after(events[0]), events.skip(1));
    }
}

/// A run over two stretches of events is the run over the second from where
/// the first has led, and its rows are those of both.
pub proof fn lemma_run_concat<D>(
    start: HarvestView,
    first: Seq<EventView<D>>,
    second: Seq<EventView<D>>,
)
    ensures
        run(start, first + second) == run(run(start, first), second),
        rows(start, first + second) == rows(start, first) + rows(run(start, first), second),
    decreases first.len(),
{
    if first.len() == 0 {
        assert(first + second =~= second);
    } else {
        assert((first + second)[0] == first[0]);
        assert((first + second).skip(1) =~= first.skip(1) + second);
        lemma_run_concat(start.after(first[0]), first.skip(1), second);
        assert(rows(start, first + second) =~= rows(start, first) + rows(
            run(start, first),
            second,
        ));
    }
}

/// Taking resolved requests out of a ledger removes no identifier but
/// those resolved, and adds none.
proof fn lemma_without_ids_keeps_rest(
    entries: Seq<FailedRequestView>,
    ids: Seq<Seq<char>>,
    id: Seq<char>,
)
    ensures
        ledger_ids(without_ids(entries, ids)).contains(id) ==> ledger_ids(entries).contains(id),
        ledger_ids(entries).contains(id) ==> ledger_ids(without_ids(entries, ids)).contains(id)
            || ids.contains(id),
{
    let kept = without_ids(entries, ids);
    let unresolved = |entry: FailedRequestView| !ids.contains(entry.id);
    if ledger_ids(kept).contains(id) {
        let k = choose|k: int| 0 <= k < ledger_ids(kept).len() && ledger_ids(kept)[k] == id;
        assert(kept.contains(kept[k]));
        entries.lemma_filter_contains_rev(unresolved, kept[k]);
        let j = choose|j: int| 0 <= j < entries.len() && entries[j] == kept[k];
        assert(ledger_ids(entries)[j] == id);
    }
    if ledger_ids(entries).contains(id) && !ids.contains(id) {
        let j = choose|j: int| 0 <= j < ledger_ids(entries).len() && ledger_ids(entries)[j] == id;
        entries.lemma_filter_contains(unresolved, j);
        let k = choose|k: int| 0 <= k < kept.len() && kept[k] == entries[j];
        assert(ledger_ids(kept)[k] == id);
    }
}

/// Turning to the next request of a sweep leaves what is owed or written
/// as it is: the requests that leave the ledger at the end of the sweep
/// were written.
proof fn lemma_next_retry_owes<D>(state: HarvestView, written: Set<Seq<char>>)
    requires
        state.bounded(),
        state.resolved.to_set().subset_of(written),
    ensures
        state.next_retry::<D>().0.resolved.to_set().subset_of(written),
        state.next_retry::<D>().0.owed() + written == state.owed() + written,
{
    let next = state.next_retry::<D>().0;
    lemma_next_pending(state.ledger, state.sweep_at, state.config.entry_cap);
    if next_pending(state.ledger, state.sweep_at, state.config.entry_cap) >= state.ledger.len() {
        assert(next.resolved.to_set() =~= Set::empty());
        assert forall|id: Seq<char>|
            (next.owed() + written).contains(id) == (state.owed() + written).contains(id) by {
            lemma_without_ids_keeps_rest(state.ledger, state.resolved, id);
            if state.resolved.contains(id) {
                assert(state.resolved.to_set().contains(id));
            }
        }
        assert(next.owed() + written =~= state.owed() + written);
    } else {
        assert(next.owed() =~= state.owed());
    }
}

/// Beginning a sweep, or ending the harvest, leaves what is owed or written
/// as it is.
proof fn lemma_open_sweep_owes<D>(state: HarvestView, written: Set<Seq<char>>)
    requires
        state.bounded(),
    ensures
        state.open_sweep::<D>().0.resolved.to_set().subset_of(written)
            || state.open_sweep::<D>().0.resolved == state.resolved,
        state.open_sweep::<D>().0.owed() + written == state.owed() + written,
{
    if state.ledger.len() > 0 && state.sweep < state.config.max_sweeps {
        let begun = HarvestView {
            sweep: state.sweep + 1,
            sweep_at: 0,
            resolved: Seq::empty(),
            ..state
        };
        assert(begun.resolved.to_set() =~= Set::empty());
        lemma_next_retry_owes::<D>(begun, written);
        assert(begun.owed() =~= state.owed());
    }
}

/// Turning to the next county, once the queue of the last is used up,
/// leaves what is owed or written as it is.
proof fn lemma_open_county_owes<D>(state: HarvestView, written: Set<Seq<char>>)
    requires
        state.bounded(),
        state.cursor == state.queue.len(),
    ensures
        state.open_county::<D>().0.resolved.to_set().subset_of(written)
            || state.open_county::<D>().0.resolved == state.resolved,
        state.open_county::<D>().0.owed() + written == state.owed() + written,
{
    let cleared = HarvestView { queue: Seq::empty(), cursor: 0, ..state };
    assert(cleared.queue.skip(0) =~= Seq::empty());
    assert(state.queue.skip(state.cursor as int) =~= Seq::empty());
    assert(cleared.owed() =~= state.owed());
    if state.county >= state.counties.len() {
        lemma_open_sweep_owes::<D>(cleared, written);
    } else {
        assert(state.open_county::<D>().0.owed() =~= cleared.owed());
    }
}

/// The identifiers from the cursor on are the one at the cursor and those
/// after it.
proof fn lemma_skip_one_id(queue: Seq<SettlementView>, cursor: int)
    requires
        0 <= cursor < queue.len(),
    ensures
        settlement_ids(queue.skip(cursor)).to_set() == settlement_ids(
            queue.skip(cursor + 1),
        ).to_set().insert(queue[cursor].id),
{
    let here = settlement_ids(queue.skip(cursor));
    let rest = settlement_ids(queue.skip(cursor + 1));
    assert(here =~= seq![queue[cursor].id] + rest);
    seq_to_set_distributes_over_add(seq![queue[cursor].id], rest);
    assert(seq![queue[cursor].id].to_set() =~= Set::empty().insert(queue[cursor].id)) by {
        assert(seq![queue[cursor].id][0] == queue[cursor].id);
    }
    assert(here.to_set() =~= rest.to_set().insert(queue[cursor].id));
}

/// One step neither loses an identifier nor makes one up: what is owed or
/// written after it is what was owed or written before, and what the step
/// has found.
proof fn lemma_step_owes<D>(state: HarvestView, event: EventView<D>, written: Set<Seq<char>>)
    requires
        state.wf(),
        state.resolved.to_set().subset_of(written),
    ensures
        ({
            let next = state.after(event);
            let now_written = written + row_ids(state.row_written(event)).to_set();
            &&& next.wf()
            &&& next.resolved.to_set().subset_of(now_written)
            &&& next.owed() + now_written == state.owed() + written + state.found(event).to_set()
        }),
{
    let next = state.after(event);
    let row_ids = row_ids(state.row_written(event));
    let now_written = written + row_ids.to_set();
    lemma_step_wf(state, event);
    if !state.accepts(event) {
        assert(row_ids.to_set() =~= Set::empty());
        assert(state.found(event).to_set() =~= Set::empty());
        assert(next.owed() + now_written =~= state.owed() + written + state.found(event).to_set());
    } else {
        match event {
            EventView::Begin => {
                lemma_open_county_owes::<D>(state, written);
                assert(row_ids =~= Seq::empty()) by {
                    lemma_no_row_without_record::<D>(state);
                }
                assert(row_ids.to_set() =~= Set::empty());
                assert(state.found(event).to_set() =~= Set::empty());
                assert(next.owed() + now_written =~= state.owed() + written + state.found(
                    event,
                ).to_set());
            },
            EventView::SearchFinished(None) => {
                assert(row_ids.to_set() =~= Set::empty());
                assert(state.found(event).to_set() =~= Set::empty());
                assert(next.owed() =~= state.owed());
                assert(next.owed() + now_written =~= state.owed() + written + state.found(
                    event,
                ).to_set());
            },
            EventView::SearchFinished(Some(records)) => {
                let queue = spec_targets(records);
                assert(row_ids =~= Seq::empty());
                assert(row_ids.to_set() =~= Set::empty());
                assert(state.queue.skip(state.cursor as int) =~= Seq::empty());
                assert(settlement_ids(Seq::<SettlementView>::empty()).to_set() =~= Set::empty());
                assert(queue.skip(0) =~= queue);
                assert(next.queue == queue && next.cursor == 0 && next.ledger == state.ledger);
                assert(next.owed() =~= state.owed() + settlement_ids(queue).to_set());
                assert(next.owed() + now_written =~= state.owed() + written + state.found(
                    event,
                ).to_set());
            },
            EventView::DetailFinished(Some(record)) => {
                if state.phase == Phase::Fetching {
                    let id = state.queue[state.cursor as int].id;
                    lemma_skip_one_id(state.queue, state.cursor as int);
                    assert(row_ids =~= seq![id]);
                    assert(row_ids.to_set() =~= Set::empty().insert(id)) by {
                        assert(row_ids[0] == id);
                    }
                    assert(state.found(event).to_set() =~= Set::empty());
                    assert(next.owed() + now_written =~= state.owed() + written + state.found(
                        event,
                    ).to_set());
                } else {
                    let id = state.ledger[state.sweep_at as int].id;
                    assert(row_ids =~= seq![id]);
                    assert(row_ids.to_set() =~= Set::empty().insert(id)) by {
                        assert(row_ids[0] == id);
                    }
                    assert(ledger_ids(state.ledger)[state.sweep_at as int] == id);
                    assert(state.owed().contains(id));
                    assert(next.owed() =~= state.owed());
                    assert(state.found(event).to_set() =~= Set::empty());
                    assert(next.resolved.to_set() =~= state.resolved.to_set().insert(id)) by {
                        vstd::seq_lib::lemma_seq_contains_after_push(state.resolved, id, id);
                        assert forall|x: Seq<char>|
                            next.resolved.to_set().contains(x) == state.resolved.to_set().insert(
                                id,
                            ).contains(x) by {
                            vstd::seq_lib::lemma_seq_contains_after_push(state.resolved, id, x);
                        }
                    }
                    assert(next.owed() + now_written =~= state.owed() + written + state.found(
                        event,
                    ).to_set());
                }
            },
            EventView::DetailFinished(None) => {
                assert(row_ids =~= Seq::empty());
                assert(row_ids.to_set() =~= Set::empty());
                assert(state.found(event).to_set() =~= Set::empty());
                if state.phase == Phase::Fetching {
                    let id = state.queue[state.cursor as int].id;
                    lemma_skip_one_id(state.queue, state.cursor as int);
                    assert(ledger_ids(next.ledger) =~= ledger_ids(state.ledger).push(id));
                    assert(ledger_ids(next.ledger).to_set() =~= ledger_ids(
                        state.ledger,
                    ).to_set().insert(id)) by {
                        assert forall|x: Seq<char>|
                            ledger_ids(next.ledger).to_set().contains(x) == ledger_ids(
                                state.ledger,
                            ).to_set().insert(id).contains(x) by {
                            vstd::seq_lib::lemma_seq_contains_after_push(
                                ledger_ids(state.ledger),
                                id,
                                x,
                            );
                        }
                    }
                    assert(next.owed() =~= state.owed());
                } else {
                    assert(ledger_ids(next.ledger) =~= ledger_ids(state.ledger));
                    assert(next.owed() =~= state.owed());
                }
                assert(next.owed() + now_written =~= state.owed() + written + state.found(
                    event,
                ).to_set());
            },
            EventView::Done => {
                assert(state.found(event).to_set() =~= Set::empty());
                if state.phase == Phase::SearchBackoff || state.phase == Phase::CountyPause {
                    lemma_open_county_owes::<D>(state, written);
                    lemma_no_row_without_record::<D>(state);
                } else if state.phase == Phase::SweepPause {
                    lemma_next_retry_owes::<D>(state, written);
                } else if state.phase == Phase::SweepRest {
                    lemma_open_sweep_owes::<D>(state, written);
                } else {
                    assert(next.owed() =~= state.owed());
                }
                assert(row_ids =~= Seq::empty());
                assert(row_ids.to_set() =~= Set::empty());
                assert(next.owed() + now_written =~= state.owed() + written + state.found(
                    event,
                ).to_set());
            },
        }
    }
}

/// Turning to a county, a settlement, a sweep or a request asks for no
/// row.
proof fn lemma_no_row_without_record<D>(state: HarvestView)
    ensures
        !(state.open_county::<D>().1 is WriteRow),
        !(state.open_sweep::<D>().1 is WriteRow),
        !(state.next_retry::<D>().1 is WriteRow),
        !(state.next_record::<D>().1 is WriteRow),
{
}

/// A run neither loses an identifier nor makes one up.
proof fn lemma_run_owes<D>(start: HarvestView, events: Seq<EventView<D>>, written: Set<Seq<char>>)
    requires
        start.wf(),
        start.resolved.to_set().subset_of(written),
    ensures
        run(start, events).owed() + written + written_ids(start, events).to_set() == start.owed()
            + written + matched_ids(start, events).to_set(),
    decreases events.len(),
{
    if events.len() == 0 {
        assert(written_ids(start, events).to_set() =~= Set::empty());
        assert(matched_ids(start, events).to_set() =~= Set::empty());
        assert(run(start, events).owed() + written + written_ids(start, events).to_set()
            =~= start.owed() + written + matched_ids(start, events).to_set());
    } else {
        let next = start.after(events[0]);
        let rest = events.skip(1);
        let row_ids = row_ids(start.row_written(events[0]));
        let now_written = written + row_ids.to_set();
        lemma_step_owes(start, events[0], written);
        lemma_run_owes(next, rest, now_written);
        assert(written_ids(start, events) =~= row_ids + written_ids(next, rest));
        seq_to_set_distributes_over_add(row_ids, written_ids(next, rest));
        seq_to_set_distributes_over_add(start.found(events[0]), matched_ids(next, rest));
        let end = run(start, events);
        assert(end == run(next, rest));
        assert(written_ids(start, events).to_set() == row_ids.to_set() + written_ids(
            next,
            rest,
        ).to_set());
        assert(matched_ids(start, events).to_set() == start.found(events[0]).to_set()
            + matched_ids(next, rest).to_set());
        assert(end.owed() + written + written_ids(start, events).to_set() =~= end.owed()
            + now_written + written_ids(next, rest).to_set());
        assert(next.owed() + now_written + matched_ids(next, rest).to_set() =~= start.owed()
            + written + start.found(events[0]).to_set() + matched_ids(next, rest).to_set());
        assert(start.owed() + written + start.found(events[0]).to_set() + matched_ids(
            next,
            rest,
        ).to_set() =~= start.owed() + written + matched_ids(start, events).to_set());
    }
}

/// No settlement is dropped. At every point of a harvest, the identifiers
/// written out together with those still owed are the identifiers that were
/// in the ledger at the start together with those of the rural settlements
/// that the searches have found. Once the harvest is over, what is owed is
/// what the ledger holds: every identifier found or carried over has been
/// written out or stands in the ledger, and no other has.
pub proof fn lemma_no_settlement_dropped<D>(
    config: HarvestConfig,
    counties: Seq<Seq<char>>,
    ledger: Seq<FailedRequestView>,
    events: Seq<EventView<D>>,
)
    requires
        config.wf(),
    ensures
        ({
            let start = HarvestView::initial(config, counties, ledger);
            let end = run(start, events);
            &&& end.owed() + written_ids(start, events).to_set() == ledger_ids(ledger).to_set()
                + matched_ids(start, events).to_set()
            &&& end.phase == Phase::Finished ==> end.owed() == ledger_ids(end.ledger).to_set()
            &&& end.phase == Phase::Finished ==> ledger_ids(end.ledger).to_set() + written_ids(
                start,
                events,
            ).to_set() == ledger_ids(ledger).to_set() + matched_ids(start, events).to_set()
        }),
{
    let start = HarvestView::initial(config, counties, ledger);
    let end = run(start, events);
    assert(start.resolved.to_set() =~= Set::empty());
    lemma_run_owes(start, events, Set::empty());
    lemma_run_wf(start, events);
    assert(start.queue.skip(0) =~= Seq::empty());
    assert(settlement_ids(Seq::<SettlementView>::empty()).to_set() =~= Set::empty());
    assert(start.owed() =~= ledger_ids(ledger).to_set());
    assert(end.owed() + Set::empty() + written_ids(start, events).to_set() =~= end.owed()
        + written_ids(start, events).to_set());
    assert(start.owed() + Set::empty() + matched_ids(start, events).to_set() =~= ledger_ids(
        ledger,
    ).to_set() + matched_ids(start, events).to_set());
    assert(end.owed() + written_ids(start, events).to_set() =~= ledger_ids(ledger).to_set()
        + matched_ids(start, events).to_set());
    if end.phase == Phase::Finished {
        assert(end.queue.skip(end.cursor as int) =~= Seq::empty());
        assert(end.owed() =~= ledger_ids(end.ledger).to_set());
    }
}

/// The events of one request of a sweep that is fetched: its details
/// arrive, its row is written, and the pause after it is over.
pub open spec fn fetched_round<D>(record: D) -> Seq<EventView<D>> {
    seq![EventView::DetailFinished(Some(record)), EventView::Done, EventView::Done]
}

/// The events of a stretch of a sweep in which every request is fetched,
/// with `records` as the details that arrive.
pub open spec fn clean_sweep<D>(records: Seq<D>) -> Seq<EventView<D>>
    decreases records.len(),
{
    if records.len() == 0 {
        Seq::empty()
    } else {
        fetched_round(records[0]) + clean_sweep(records.skip(1))
    }
}

/// One row for each of the requests `due`, in their order, with the record
/// that was fetched for it.
pub open spec fn rows_of<D>(due: Seq<FailedRequestView>, records: Seq<D>) -> Seq<(Seq<char>, D)> {
    Seq::new(due.len(), |i: int| (due[i].id, records[i]))
}

/// From any request of a sweep on, if every request still to come is
/// fetched, the sweep ends with one row for each of them, and the requests
/// fetched in the whole sweep leave the ledger.
proof fn lemma_clean_sweep_from<D>(state: HarvestView, records: Seq<D>)
    requires
        state.wf(),
        state.phase == Phase::SweepFetching,
        records.len() == pending_from(
            state.ledger,
            state.sweep_at,
            state.config.entry_cap,
        ).len(),
    ensures
        ({
            let due = pending_from(state.ledger, state.sweep_at, state.config.entry_cap);
            &&& run(state, clean_sweep(records)) == (HarvestView {
                ledger: without_ids(state.ledger, state.resolved + ledger_ids(due)),
                sweep_at: 0,
                resolved: Seq::empty(),
                phase: Phase::SweepPersist,
                ..state
            })
            &&& rows(state, clean_sweep(records)) == rows_of(due, records)
        }),
    decreases records.len(),
{
    let cap = state.config.entry_cap;
    let at = state.sweep_at;
    let entry = state.ledger[at as int];
    let due = pending_from(state.ledger, at, cap);
    let later = pending_from(state.ledger, at + 1, cap);
    assert(due == seq![entry] + later);
    let round = fetched_round(records[0]);
    let rest = clean_sweep(records.skip(1));
    let fetched = state.after(round[0]);
    let written = fetched.after(round[1]);
    let paused = written.after(round[2]);
    assert(run(state, round) == paused && rows(state, round) == seq![(entry.id, records[0])]) by {
        reveal_with_fuel(run, 4);
        reveal_with_fuel(rows, 4);
        assert(round.skip(1) =~= seq![round[1], round[2]]);
        assert(round.skip(1).skip(1) =~= seq![round[2]]);
        assert(round.skip(1).skip(1).skip(1) =~= Seq::empty());
        assert(round.skip(1)[0] == round[1]);
        assert(round.skip(1).skip(1)[0] == round[2]);
        assert(state.row_written(round[0]) =~= seq![(entry.id, records[0])]);
        assert(fetched.row_written(round[1]) =~= Seq::empty());
        assert(written.row_written(round[2]) =~= Seq::empty());
        assert(rows(state, round) =~= seq![(entry.id, records[0])]);
    }
    lemma_run_concat(state, round, rest);
    lemma_step_wf(state, round[0]);
    lemma_step_wf(fetched, round[1]);
    lemma_step_wf(written, round[2]);
    lemma_next_pending(state.ledger, at + 1, cap);
    lemma_pending_from_next(state.ledger, at + 1, cap);
    let found = next_pending(state.ledger, at + 1, cap);
    assert(ledger_ids(due) =~= seq![entry.id] + ledger_ids(later));
    assert(state.resolved.push(entry.id) + ledger_ids(later) =~= state.resolved + ledger_ids(due));
    if found < state.ledger.len() {
        lemma_pending_from_next(state.ledger, found, cap);
        assert(pending_from(state.ledger, found, cap) == later);
        lemma_clean_sweep_from(paused, records.skip(1));
        assert(rows(state, clean_sweep(records)) =~= rows_of(due, records));
    } else {
        assert(records.skip(1).len() == 0);
        assert(rest =~= Seq::empty());
        assert(ledger_ids(later) =~= Seq::empty());
        assert(rows(state, clean_sweep(records)) =~= rows_of(due, records));
    }
}

/// A sweep in which every request that is still retried is fetched writes
/// one row for each of them, in the order of the ledger, and leaves in the
/// ledger only requests that are abandoned. Where none was abandoned, it
/// leaves the ledger empty, and the harvest ends after the pause that
/// follows the sweep, without another one.
pub proof fn lemma_clean_sweep_settles_ledger<D>(state: HarvestView, records: Seq<D>)
    requires
        state.wf(),
        state.phase == Phase::SweepFetching,
        state.resolved.len() == 0,
        state.sweep_at == next_pending(state.ledger, 0, state.config.entry_cap),
        records.len() == pending_from(state.ledger, 0, state.config.entry_cap).len(),
    ensures
        ({
            let due = pending_from(state.ledger, 0, state.config.entry_cap);
            let end = run(state, clean_sweep(records));
            &&& end.phase == Phase::SweepPersist
            &&& rows(state, clean_sweep(records)) == rows_of(due, records)
            &&& end.ledger == without_ids(state.ledger, ledger_ids(due))
            &&& forall|i: int|
                0 <= i < end.ledger.len() ==> !(#[trigger] end.ledger[i]).pending(
                    state.config.entry_cap,
                )
            &&& (forall|i: int|
                0 <= i < state.ledger.len() ==> (#[trigger] state.ledger[i]).pending(
                    state.config.entry_cap,
                )) ==> end.ledger.len() == 0
            &&& end.ledger.len() == 0 ==> end.after(EventView::<D>::Done).after(
                EventView::<D>::Done,
            ).phase == Phase::Finished
        }),
{
    let cap = state.config.entry_cap;
    let due = pending_from(state.ledger, 0, cap);
    let end = run(state, clean_sweep(records));
    let unresolved = |entry: FailedRequestView| !ledger_ids(due).contains(entry.id);
    lemma_pending_from_next(state.ledger, 0, cap);
    lemma_pending_from_next(state.ledger, state.sweep_at, cap);
    assert(pending_from(state.ledger, state.sweep_at, cap) == due);
    lemma_clean_sweep_from(state, records);
    assert(state.resolved + ledger_ids(due) =~= ledger_ids(due));
    assert forall|i: int| 0 <= i < end.ledger.len() implies !(#[trigger] end.ledger[i]).pending(
        cap,
    ) by {
        let entry = end.ledger[i];
        state.ledger.lemma_filter_pred(unresolved, i);
        assert(end.ledger.contains(entry));
        state.ledger.lemma_filter_contains_rev(unresolved, entry);
        let j = choose|j: int| 0 <= j < state.ledger.len() && state.ledger[j] == entry;
        if entry.pending(cap) {
            lemma_pending_from_covers(state.ledger, 0, cap, j);
        }
    }
    if end.ledger.len() > 0 && (forall|i: int|
        0 <= i < state.ledger.len() ==> (#[trigger] state.ledger[i]).pending(cap)) {
        let entry = end.ledger[0];
        assert(end.ledger.contains(entry));
        state.ledger.lemma_filter_contains_rev(unresolved, entry);
        let j = choose|j: int| 0 <= j < state.ledger.len() && state.ledger[j] == entry;
        assert(state.ledger[j].pending(cap));
    }
}

/// What is fetched is written once, and nothing else is written: a step
/// has the caller write a row exactly when it takes in a record that was
/// fetched, and the row holds that record.
pub proof fn lemma_rows_are_fetched_records<D>(state: HarvestView, event: EventView<D>)
    ensures
        state.row_written(event).len() == (if state.accepts(event) && event
            is DetailFinished && event->DetailFinished_0 is Some {
            1nat
        } else {
            0nat
        }),
        state.row_written(event).len() == 1 ==> state.row_written(event)[0].1
            == event->DetailFinished_0->0,
{
    lemma_no_row_without_record::<D>(state);
}

impl HarvestView {
    /// The county whose search the answer to `event` asks for, if it asks
    /// for one.
    pub open spec fn search_asked<D>(self, event: EventView<D>) -> Seq<Seq<char>> {
        match self.step(event) {
            Some((_, CommandView::Search { params, .. })) => match params.code {
                Some(code) => seq![code],
                None => Seq::empty(),
            },
            _ => Seq::empty(),
        }
    }
}

/// The counties whose search is asked for during a run, in their order.
pub open spec fn searched<D>(start: HarvestView, events: Seq<EventView<D>>) -> Seq<Seq<char>>
    decreases events.len(),
{
    if events.len() == 0 {
        Seq::empty()
    } else {
        start.search_asked(events[0]) + searched(start.after(events[0]), events.skip(1))
    }
}

/// A step asks for the search of the next county of the list and counts
/// it, or asks for no search and counts none.
proof fn lemma_step_searches_next_county<D>(state: HarvestView, event: EventView<D>)
    requires
        state.wf(),
    ensures
        state.after(event).counties == state.counties,
        state.after(event).config == state.config,
        state.county <= state.after(event).county <= state.counties.len(),
        state.counties.take(state.county as int) + state.search_asked(event)
            == state.counties.take(state.after(event).county as int),
{
    let next = state.after(event);
    lemma_step_wf(state, event);
    let opens = state.accepts(event) && (event is Begin || (event is Done && (state.phase
        == Phase::SearchBackoff || state.phase == Phase::CountyPause)));
    if opens && state.county < state.counties.len() {
        assert(state.search_asked(event) =~= seq![state.counties[state.county as int]]);
        assert(state.counties.take(state.county as int) + state.search_asked(event)
            =~= state.counties.take(next.county as int));
    } else {
        assert(state.search_asked(event) =~= Seq::empty());
        assert(state.counties.take(state.county as int) + state.search_asked(event)
            =~= state.counties.take(next.county as int));
    }
}

/// The counties are searched in the order of the list, each once, none left
/// out: the counties whose search a harvest has asked for are the first of
/// its list, as many as it counts as processed.
pub proof fn lemma_counties_searched_in_order<D>(start: HarvestView, events: Seq<EventView<D>>)
    requires
        start.wf(),
    ensures
        run(start, events).counties == start.counties,
        start.county <= run(start, events).county <= start.counties.len(),
        start.counties.take(start.county as int) + searched(start, events)
            == start.counties.take(run(start, events).county as int),
    decreases events.len(),
{
    if events.len() == 0 {
        assert(start.counties.take(start.county as int) + searched(start, events)
            =~= start.counties.take(start.county as int));
    } else {
        let next = start.after(events[0]);
        lemma_step_searches_next_county(start, events[0]);
        lemma_step_wf(start, events[0]);
        lemma_counties_searched_in_order(next, events.skip(1));
        assert(start.counties.take(start.county as int) + searched(start, events)
            =~= start.counties.take(start.county as int) + start.search_asked(events[0])
            + searched(next, events.skip(1)));
    }
}

} // verus!
