//! The failure ledger: the detail requests that could not be fetched, kept
//! for later retry sweeps and written out after every change.

use vstd::prelude::*;
use crate::text::text_eq;

verus! {

/// A detail request that ran out of attempts.
#[derive(Debug, PartialEq, Eq)]
pub struct FailedRequest {
    /// The identifier of the place whose details were asked for.
    pub id: String,
    /// The name of the place.
    pub name: String,
    /// The county in whose search the place was found.
    pub county_code: String,
    /// The number of retry sweeps in which the request failed again.
    pub retry_count: u32,
}

/// What a `FailedRequest` holds.
pub struct FailedRequestView {
    pub id: Seq<char>,
    pub name: Seq<char>,
    pub county_code: Seq<char>,
    pub retry_count: u32,
}

impl View for FailedRequest {
    type V = FailedRequestView;

    open spec fn view(&self) -> FailedRequestView {
        FailedRequestView {
            id: self.id@,
            name: self.name@,
            county_code: self.county_code@,
            retry_count: self.retry_count,
        }
    }
}

impl DeepView for FailedRequest {
    type V = FailedRequestView;

    open spec fn deep_view(&self) -> FailedRequestView {
        self@
    }
}

impl Clone for FailedRequest {
    fn clone(&self) -> (copy: Self)
        ensures
            copy@ == self@,
    {
        FailedRequest {
            id: self.id.clone(),
            name: self.name.clone(),
            county_code: self.county_code.clone(),
            retry_count: self.retry_count,
        }
    }
}

impl FailedRequestView {
    /// Whether the request is still retried under the given cap. A request
    /// that has failed in as many sweeps as the cap allows is abandoned: it
    /// stays in the ledger and is not tried again.
    pub open spec fn pending(self, cap: u32) -> bool {
        self.retry_count < cap
    }

    /// The same request after one more failed sweep.
    pub open spec fn failed_again(self) -> FailedRequestView {
        FailedRequestView { retry_count: (self.retry_count + 1) as u32, ..self }
    }
}

/// The identifiers of the requests in a ledger, in its order.
pub open spec fn ledger_ids(entries: Seq<FailedRequestView>) -> Seq<Seq<char>> {
    entries.map_values(|entry: FailedRequestView| entry.id)
}

/// The position of the first request at or after `from` that is still
/// retried under `cap`, or the length of the ledger if there is none.
pub open spec fn next_pending(entries: Seq<FailedRequestView>, from: nat, cap: u32) -> nat
    decreases entries.len() - from,
{
    if from >= entries.len() {
        entries.len()
    } else if entries[from as int].pending(cap) {
        from
    } else {
        next_pending(entries, from + 1, cap)
    }
}

/// `next_pending` finds the first request at or after `from` that is still
/// retried: every request before it, from `from` on, is abandoned.
pub proof fn lemma_next_pending(entries: Seq<FailedRequestView>, from: nat, cap: u32)
    ensures
        next_pending(entries, from, cap) <= entries.len(),
        from <= entries.len() ==> from <= next_pending(entries, from, cap),
        next_pending(entries, from, cap) < entries.len() ==> entries[next_pending(
            entries,
            from,
            cap,
        ) as int].pending(cap),
        forall|i: int|
            from <= i < next_pending(entries, from, cap) ==> !(#[trigger] entries[i]).pending(cap),
    decreases entries.len() - from,
{
    if from < entries.len() && !entries[from as int].pending(cap) {
        lemma_next_pending(entries, from + 1, cap);
    }
}

/// The requests at or after `from` that are still retried under `cap`, in
/// their order.
pub open spec fn pending_from(entries: Seq<FailedRequestView>, from: nat, cap: u32) -> Seq<
    FailedRequestView,
>
    decreases entries.len() - from,
{
    if from >= entries.len() {
        Seq::empty()
    } else if entries[from as int].pending(cap) {
        seq![entries[from as int]] + pending_from(entries, from + 1, cap)
    } else {
        pending_from(entries, from + 1, cap)
    }
}

/// The requests still retried from `from` on begin with the one that
/// `next_pending` finds, if it finds one.
pub proof fn lemma_pending_from_next(entries: Seq<FailedRequestView>, from: nat, cap: u32)
    ensures
        pending_from(entries, from, cap) == if next_pending(entries, from, cap) < entries.len() {
            seq![entries[next_pending(entries, from, cap) as int]] + pending_from(
                entries,
                next_pending(entries, from, cap) + 1,
                cap,
            )
        } else {
            Seq::empty()
        },
    decreases entries.len() - from,
{
    if from < entries.len() && !entries[from as int].pending(cap) {
        lemma_pending_from_next(entries, from + 1, cap);
    }
}

/// Every request at or after `from` that is still retried has its
/// identifier among those of `pending_from`.
pub proof fn lemma_pending_from_covers(
    entries: Seq<FailedRequestView>,
    from: nat,
    cap: u32,
    at: int,
)
    requires
        from <= at < entries.len(),
        entries[at].pending(cap),
    ensures
        ledger_ids(pending_from(entries, from, cap)).contains(entries[at].id),
    decreases entries.len() - from,
{
    let rest = pending_from(entries, from + 1, cap);
    if from == at {
        assert(ledger_ids(pending_from(entries, from, cap))[0] == entries[at].id);
    } else {
        lemma_pending_from_covers(entries, from + 1, cap, at);
        let k = choose|k: int| 0 <= k < ledger_ids(rest).len() && ledger_ids(rest)[k] == entries[at].id;
        if entries[from as int].pending(cap) {
            assert(ledger_ids(pending_from(entries, from, cap))[k + 1] == entries[at].id);
        }
    }
}

/// The ledger without the requests whose identifier is among `ids`.
pub open spec fn without_ids(entries: Seq<FailedRequestView>, ids: Seq<Seq<char>>) -> Seq<
    FailedRequestView,
> {
    entries.filter(|entry: FailedRequestView| !ids.contains(entry.id))
}

/// What a ledger holds after it was loaded: the requests of the snapshot
/// that was read, or nothing where no snapshot could be read.
pub open spec fn loaded(snapshot: Option<Seq<FailedRequestView>>) -> Seq<FailedRequestView> {
    match snapshot {
        Some(entries) => entries,
        None => Seq::empty(),
    }
}

/// A ledger that is loaded from the snapshot of another holds the same
/// requests in the same order.
pub proof fn lemma_snapshot_round_trip(entries: Seq<FailedRequestView>)
    ensures
        loaded(Some(entries)) == entries,
        loaded(Some(loaded(Some(entries)))) == entries,
{
}

/// Whether `id` is among `ids`.
pub fn contains_id(ids: &Vec<String>, id: &str) -> (found: bool)
    ensures
        found == ids.deep_view().contains(id@),
{
    let mut i: usize = 0;
    while i < ids.len()
        invariant
            i <= ids.len(),
            forall|j: int| 0 <= j < i ==> ids.deep_view()[j] != id@,
        decreases ids.len() - i,
    {
        if text_eq(ids[i].as_str(), id) {
            assert(ids.deep_view()[i as int] == id@);
            return true;
        }
        i = i + 1;
    }
    false
}

/// The requests that failed, in the order in which they were recorded.
#[derive(Debug, PartialEq, Eq)]
pub struct Ledger {
    entries: Vec<FailedRequest>,
}

impl View for Ledger {
    type V = Seq<FailedRequestView>;

    closed spec fn view(&self) -> Seq<FailedRequestView> {
        self.entries.deep_view()
    }
}

impl Ledger {
    /// An empty ledger.
    pub fn new() -> (ledger: Ledger)
        ensures
            ledger@ == Seq::<FailedRequestView>::empty(),
    {
        let ledger = Ledger { entries: Vec::new() };
        assert(ledger@ =~= Seq::empty());
        ledger
    }

    /// The ledger as the last run left it. `snapshot` holds the requests
    /// read from the snapshot file, or `None` where the file is absent,
    /// empty or unreadable: the run then starts with an empty ledger.
    pub fn load(snapshot: Option<Vec<FailedRequest>>) -> (ledger: Ledger)
        ensures
            ledger@ == loaded(snapshot.deep_view()),
    {
        match snapshot {
            Some(entries) => Ledger { entries },
            None => Ledger::new(),
        }
    }

    /// The number of requests in the ledger.
    pub fn len(&self) -> (n: usize)
        ensures
            n == self@.len(),
    {
        self.entries.len()
    }

    /// Whether the ledger holds no request.
    pub fn is_empty(&self) -> (empty: bool)
        ensures
            empty == (self@.len() == 0),
    {
        self.entries.len() == 0
    }

    /// The request at position `at`.
    pub fn get(&self, at: usize) -> (entry: &FailedRequest)
        requires
            at < self@.len(),
        ensures
            entry@ == self@[at as int],
    {
        &self.entries[at]
    }

    /// A copy of the requests, to be written out as the ledger's snapshot.
    pub fn snapshot(&self) -> (entries: Vec<FailedRequest>)
        ensures
            entries.deep_view() == self@,
    {
        let mut entries: Vec<FailedRequest> = Vec::new();
        let mut i: usize = 0;
        assert(entries.deep_view() =~= self@.take(0));
        while i < self.entries.len()
            invariant
                i <= self.entries.len(),
                entries.deep_view() == self@.take(i as int),
            decreases self.entries.len() - i,
        {
            let ghost before = entries.deep_view();
            entries.push(self.entries[i].clone());
            assert(entries.deep_view() =~= before.push(self.entries[i as int]@));
            i = i + 1;
            assert(entries.deep_view() =~= self@.take(i as int));
        }
        assert(self@.take(self@.len() as int) =~= self@);
        entries
    }

    /// Records a new failure at the end of the ledger.
    pub fn append(&mut self, entry: FailedRequest)
        ensures
            final(self)@ == old(self)@.push(entry@),
    {
        let ghost before = self@;
        self.entries.push(entry);
        assert(self@ =~= before.push(entry@));
    }

    /// The position of the first request at or after `from` that is still
    /// retried under `cap`, or the length of the ledger if there is none.
    pub fn next_pending(&self, from: usize, cap: u32) -> (at: usize)
        ensures
            at == next_pending(self@, from as nat, cap),
    {
        let mut at: usize = from;
        while at < self.entries.len() && self.entries[at].retry_count >= cap
            invariant
                next_pending(self@, at as nat, cap) == next_pending(self@, from as nat, cap),
            decreases self.entries.len() - at,
        {
            at = at + 1;
        }
        if at >= self.entries.len() {
            self.entries.len()
        } else {
            at
        }
    }

    /// Counts one more failed sweep for the request at position `at`.
    pub fn mark_failed_again(&mut self, at: usize)
        requires
            at < old(self)@.len(),
            old(self)@[at as int].retry_count < u32::MAX,
        ensures
            final(self)@ == old(self)@.update(at as int, old(self)@[at as int].failed_again()),
    {
        let ghost before = self@;
        let entry = &self.entries[at];
        let bumped = FailedRequest {
            id: entry.id.clone(),
            name: entry.name.clone(),
            county_code: entry.county_code.clone(),
            retry_count: entry.retry_count + 1,
        };
        self.entries[at] = bumped;
        assert(self@ =~= before.update(at as int, before[at as int].failed_again()));
    }

    /// Removes every request whose identifier is among `ids`: those requests
    /// are resolved.
    pub fn resolve(&mut self, ids: &Vec<String>)
        ensures
            final(self)@ == without_ids(old(self)@, ids.deep_view()),
    {
        broadcast use vstd::seq_lib::group_seq_properties;

        let ghost before = self@;
        let ghost unresolved = |entry: FailedRequestView| !ids.deep_view().contains(entry.id);
        let mut kept: Vec<FailedRequest> = Vec::new();
        let mut i: usize = 0;
        assert(kept.deep_view() =~= Seq::empty());
        assert(before.take(0).filter(unresolved) =~= Seq::empty()) by {
            reveal(Seq::filter);
        }
        while i < self.entries.len()
            invariant
                i <= self.entries.len(),
                self@ == before,
                unresolved == |entry: FailedRequestView| !ids.deep_view().contains(entry.id),
                kept.deep_view() == before.take(i as int).filter(unresolved),
            decreases self.entries.len() - i,
        {
            let ghost so_far = kept.deep_view();
            let ghost seen = before.take(i as int);
            if !contains_id(ids, self.entries[i].id.as_str()) {
                kept.push(self.entries[i].clone());
                assert(kept.deep_view() =~= so_far.push(before[i as int]));
            }
            proof {
                assert(before.take(i + 1) =~= seen.push(before[i as int]));
                seen.lemma_filter_push(before[i as int], unresolved);
            }
            i = i + 1;
        }
        assert(before.take(before.len() as int) =~= before);
        self.entries = kept;
    }
}

} // verus!
