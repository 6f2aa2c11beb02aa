//! Fetching many pages, a wave at a time.
//!
//! A batch is an ordered list of locators and a limit on how many may be in
//! flight at once. The pages are requested in consecutive waves of at most
//! that many; a wave is issued as a whole, and the next one is not issued
//! until every page of the current one has resolved, well or badly. A slow
//! page therefore holds up the pages after its wave, which is the price of a
//! schedule this simple. Results are filed under the index of their page, so
//! the order in which they arrive leaves no trace in what the batch returns.
//!
//! [`BatchFetcher`] makes these decisions and nothing else: the caller sends
//! the requests it hands out and reports each result back.

use super::fetch::{FetchRequest, RequestView};
use super::page::{PageResult, PageView};
use vstd::prelude::*;
use vstd::set_lib::*;

verus! {

/// Why a batch was not started.
#[derive(Clone, Copy, Debug, PartialEq, Eq, Structural)]
pub enum ConfigurationError {
    /// The concurrency limit is zero.
    InvalidConcurrencyLimit,
    /// The locator at `index` is empty. It is the first such.
    MalformedLocator { index: usize },
}

/// Where the fetch of one page stands.
#[derive(Clone, Copy, Debug, PartialEq, Eq, Structural)]
pub enum FetchState {
    /// Not requested yet.
    Pending,
    /// Requested, not resolved.
    InFlight,
    Succeeded,
    Failed,
}

/// A locator that can be requested: it is not empty.
pub open spec fn well_formed_locator(locator: Seq<char>) -> bool {
    locator.len() > 0
}

/// What contracts say of a [`BatchFetcher`].
pub struct BatchView {
    /// The locators, in the caller's order.
    pub locators: Seq<Seq<char>>,
    /// How many pages may be in flight at once.
    pub limit: nat,
    /// Whether attempts are reported.
    pub report: bool,
    /// The current wave is the pages from `wave_start` up to `wave_end`.
    pub wave_start: nat,
    pub wave_end: nat,
    /// For each page, its result once it has resolved.
    pub slots: Seq<Option<PageView>>,
}

impl BatchView {
    /// The number of pages in the batch.
    pub open spec fn total(self) -> nat {
        self.locators.len()
    }

    /// What holds of every batch at every moment.
    pub open spec fn inv(self) -> bool {
        &&& self.limit >= 1
        &&& self.slots.len() == self.locators.len()
        &&& self.wave_start <= self.wave_end <= self.total()
        &&& self.wave_end - self.wave_start <= self.limit
        &&& forall|i: int| 0 <= i < self.total() ==> well_formed_locator(#[trigger] self.locators[i])
        &&& forall|i: int| 0 <= i < self.wave_start ==> (#[trigger] self.slots[i]) is Some
        &&& forall|i: int| self.wave_end <= i < self.total() ==> (#[trigger] self.slots[i]) is None
        &&& forall|i: int|
            0 <= i < self.total() ==> (#[trigger] self.slots[i] matches Some(r) ==> r.page_index == i
                && r.consistent())
    }

    /// A batch before its first wave.
    pub open spec fn initial(locators: Seq<Seq<char>>, limit: nat, report: bool) -> BatchView {
        BatchView {
            locators,
            limit,
            report,
            wave_start: 0,
            wave_end: 0,
            slots: Seq::new(locators.len(), |i: int| None),
        }
    }

    /// Where the fetch of page `i` stands.
    pub open spec fn state_of(self, i: int) -> FetchState {
        if i >= self.wave_end {
            FetchState::Pending
        } else {
            match self.slots[i] {
                None => FetchState::InFlight,
                Some(r) => if r.outcome is Success {
                    FetchState::Succeeded
                } else {
                    FetchState::Failed
                },
            }
        }
    }

    /// The pages that are in flight.
    pub open spec fn in_flight(self) -> Set<int> {
        Set::new(|i: int| 0 <= i < self.total() && self.state_of(i) is InFlight)
    }

    /// Every page of the current wave has resolved.
    pub open spec fn drained(self) -> bool {
        forall|i: int| self.wave_start <= i < self.wave_end ==> (#[trigger] self.slots[i]) is Some
    }

    /// Every page of the batch has resolved.
    pub open spec fn done(self) -> bool {
        self.drained() && self.wave_end == self.total()
    }

    /// A new wave may be issued: the current one has drained and pages remain.
    pub open spec fn may_advance(self) -> bool {
        self.drained() && self.wave_end < self.total()
    }

    /// Where the wave after the current one ends: `limit` pages on, or at the
    /// end of the batch if that comes first.
    pub open spec fn next_end(self) -> nat {
        if self.wave_end + self.limit < self.total() {
            self.wave_end + self.limit
        } else {
            self.total()
        }
    }

    /// The batch after the next wave was asked for. Where no wave may be
    /// issued, nothing changes.
    pub open spec fn advanced(self) -> BatchView {
        if self.may_advance() {
            BatchView { wave_start: self.wave_end, wave_end: self.next_end(), ..self }
        } else {
            self
        }
    }

    /// The request for page `i`.
    pub open spec fn request(self, i: int) -> RequestView {
        RequestView { locator: self.locators[i], page_index: i as nat, report: self.report }
    }

    /// The requests of the current wave, in page order.
    pub open spec fn wave_requests(self) -> Seq<RequestView> {
        Seq::new(
            (self.wave_end - self.wave_start) as nat,
            |k: int| self.request(self.wave_start + k),
        )
    }

    /// The batch takes `result` in: its page is in flight.
    pub open spec fn accepts(self, result: PageView) -> bool {
        &&& self.wave_start <= result.page_index < self.wave_end
        &&& self.slots[result.page_index as int] is None
    }

    /// The batch after `result` was handed in. A result that is not accepted
    /// changes nothing.
    pub open spec fn completed(self, result: PageView) -> BatchView {
        if self.accepts(result) {
            BatchView { slots: self.slots.update(result.page_index as int, Some(result)), ..self }
        } else {
            self
        }
    }

    /// The results of a batch that is done, in page order.
    pub open spec fn results(self) -> Seq<PageView> {
        Seq::new(self.total(), |i: int| self.slots[i]->0)
    }

    /// The same batch but, perhaps, for whether attempts are reported.
    pub open spec fn same_schedule(self, other: BatchView) -> bool {
        self == (BatchView { report: self.report, ..other })
    }
}

/// A batch starts out as it must be, with nothing requested.
pub proof fn lemma_initial(locators: Seq<Seq<char>>, limit: nat, report: bool)
    requires
        limit >= 1,
        forall|i: int| 0 <= i < locators.len() ==> well_formed_locator(#[trigger] locators[i]),
    ensures
        BatchView::initial(locators, limit, report).inv(),
        BatchView::initial(locators, limit, report).in_flight() =~= Set::<int>::empty(),
        forall|i: int|
            0 <= i < locators.len() ==> BatchView::initial(locators, limit, report).state_of(i)
                is Pending,
{
}

/// An empty batch is done from the start: no wave is ever issued, and its
/// results are empty.
pub proof fn lemma_empty_batch(limit: nat, report: bool)
    requires
        limit >= 1,
    ensures
        BatchView::initial(Seq::empty(), limit, report).done(),
        !BatchView::initial(Seq::empty(), limit, report).may_advance(),
        BatchView::initial(Seq::empty(), limit, report).results() =~= Seq::<PageView>::empty(),
{
}

/// Asking for the next wave keeps a batch as it must be. Where a wave is
/// issued, exactly its pages go from pending to in flight.
pub proof fn lemma_advanced(v: BatchView)
    requires
        v.inv(),
    ensures
        v.advanced().inv(),
        v.may_advance() ==> v.advanced().wave_end > v.wave_end,
        v.may_advance() ==> v.advanced().in_flight() =~= set_int_range(
            v.wave_end as int,
            v.next_end() as int,
        ),
        forall|i: int|
            0 <= i < v.total() && !(v.may_advance() && v.wave_end <= i < v.next_end())
                ==> v.advanced().state_of(i) == v.state_of(i),
{
}

/// Handing in a result keeps a batch as it must be, and touches no page but
/// its own: the outcome of one fetch, good or bad, never reaches another.
pub proof fn lemma_completed(v: BatchView, result: PageView)
    requires
        v.inv(),
        result.consistent(),
    ensures
        v.completed(result).inv(),
        v.accepts(result) ==> v.completed(result).in_flight() =~= v.in_flight().remove(
            result.page_index as int,
        ),
        v.accepts(result) <==> 0 <= result.page_index < v.total() && v.state_of(
            result.page_index as int,
        ) is InFlight,
        forall|j: int|
            0 <= j < v.total() && j != result.page_index ==> v.completed(result).slots[j]
                == v.slots[j],
{
}

/// At most `limit` pages are in flight at any moment, all of them in the
/// current wave.
pub proof fn lemma_concurrency_bound(v: BatchView)
    requires
        v.inv(),
    ensures
        v.in_flight().finite(),
        v.in_flight().len() <= v.limit,
        v.in_flight().subset_of(set_int_range(v.wave_start as int, v.wave_end as int)),
        v.drained() <==> v.in_flight().len() == 0,
{
    let wave = set_int_range(v.wave_start as int, v.wave_end as int);
    lemma_int_range(v.wave_start as int, v.wave_end as int);
    assert forall|i: int| v.in_flight().contains(i) implies wave.contains(i) by {
        if i < v.wave_start {
            assert(v.slots[i] is Some);
        }
    }
    lemma_len_subset(v.in_flight(), wave);
    if v.drained() {
        assert(v.in_flight() =~= Set::<int>::empty());
    } else {
        let i = choose|i: int| v.wave_start <= i < v.wave_end && !(#[trigger] v.slots[i] is Some);
        assert(v.in_flight().contains(i));
        if v.in_flight().len() == 0 {
            v.in_flight().lemma_len0_is_empty();
        }
    }
}

/// No page of a later wave is requested while a page of the current wave is
/// unresolved: asking for the next wave then changes nothing, and every page
/// past the current wave is still pending.
pub proof fn lemma_wave_barrier(v: BatchView)
    requires
        v.inv(),
    ensures
        !v.drained() ==> v.advanced() == v,
        forall|i: int| v.wave_end <= i < v.total() ==> v.state_of(i) is Pending,
        forall|i: int| 0 <= i < v.wave_start ==> !(v.state_of(i) is InFlight) && !(v.state_of(i) is Pending),
{
    assert forall|i: int| 0 <= i < v.wave_start implies !(v.state_of(i) is InFlight) && !(
    v.state_of(i) is Pending) by {
        assert(v.slots[i] is Some);
    }
}

/// A batch that is done returns one result for each locator, each at the
/// index of its page, in ascending order: whatever the order in which the
/// results came in.
pub proof fn lemma_order_preserved(v: BatchView)
    requires
        v.inv(),
        v.done(),
    ensures
        v.results().len() == v.total(),
        forall|i: int| 0 <= i < v.total() ==> (#[trigger] v.results()[i]).page_index == i,
        forall|i: int| 0 <= i < v.total() ==> v.slots[i] == Some(#[trigger] v.results()[i]),
        forall|i: int|
            0 <= i < v.total() ==> (v.state_of(i) is Succeeded || v.state_of(i) is Failed),
{
    assert forall|i: int| 0 <= i < v.total() implies (#[trigger] v.slots[i]) is Some by {
        if i >= v.wave_start {
            assert(v.wave_start <= i < v.wave_end);
        }
    }
    assert forall|i: int| 0 <= i < v.total() implies (#[trigger] v.results()[i]).page_index
        == i by {
        assert(v.slots[i] is Some);
    }
}

/// Whether attempts are reported has no part in the schedule or the results:
/// two batches that differ in nothing else stay so through every step.
pub proof fn lemma_report_immaterial(a: BatchView, b: BatchView, result: PageView)
    requires
        a.same_schedule(b),
    ensures
        a.advanced().same_schedule(b.advanced()),
        a.completed(result).same_schedule(b.completed(result)),
        a.accepts(result) == b.accepts(result),
        a.done() == b.done(),
        a.results() == b.results(),
        a.in_flight() == b.in_flight(),
{
    assert(a.in_flight() =~= b.in_flight());
    assert(a.results() =~= b.results());
}

/// One step in the run of a batch: the next wave is asked for, or a result
/// is handed in.
pub enum Event {
    NextWave,
    Completed(PageView),
}

impl BatchView {
    /// The batch after `event`.
    pub open spec fn after(self, event: Event) -> BatchView {
        match event {
            Event::NextWave => self.advanced(),
            Event::Completed(result) => self.completed(result),
        }
    }

    /// The batch after the events in `events`, in turn.
    pub open spec fn after_all(self, events: Seq<Event>) -> BatchView
        decreases events.len(),
    {
        if events.len() == 0 {
            self
        } else {
            self.after(events[0]).after_all(events.drop_first())
        }
    }

    /// Every page that has resolved holds the outcome that `outcomes` has
    /// for it.
    pub open spec fn agrees_with(self, outcomes: Seq<PageView>) -> bool {
        &&& outcomes.len() == self.total()
        &&& forall|i: int|
            0 <= i < self.total() ==> (#[trigger] self.slots[i] matches Some(r) ==> r == outcomes[i])
    }
}

/// One outcome for each page of a batch, each under its page's index.
pub open spec fn outcomes_of_pages(outcomes: Seq<PageView>) -> bool {
    forall|i: int|
        0 <= i < outcomes.len() ==> (#[trigger] outcomes[i]).page_index == i
            && outcomes[i].consistent()
}

/// Whatever result the events hand in for a page is the outcome that
/// `outcomes` has for that page.
pub open spec fn delivers(events: Seq<Event>, outcomes: Seq<PageView>) -> bool {
    forall|k: int|
        0 <= k < events.len() ==> (#[trigger] events[k] matches Event::Completed(r) ==> (
        r.page_index < outcomes.len() ==> r == outcomes[r.page_index as int]))
}

/// A run of a batch keeps the batch as it must be, with the locators, the
/// limit and the choice of reporting it was made with, and never files under
/// a page anything but that page's outcome. So at every moment of a run no
/// more pages are in flight than the limit the batch was made with.
pub proof fn lemma_run_agrees(v: BatchView, events: Seq<Event>, outcomes: Seq<PageView>)
    requires
        v.inv(),
        v.agrees_with(outcomes),
        outcomes_of_pages(outcomes),
        delivers(events, outcomes),
    ensures
        v.after_all(events).inv(),
        v.after_all(events).agrees_with(outcomes),
        v.after_all(events).locators == v.locators,
        v.after_all(events).limit == v.limit,
        v.after_all(events).report == v.report,
        v.after_all(events).in_flight().finite(),
        v.after_all(events).in_flight().len() <= v.limit,
    decreases events.len(),
{
    if events.len() == 0 {
        lemma_concurrency_bound(v);
    } else {
        let next = v.after(events[0]);
        match events[0] {
            Event::NextWave => {
                lemma_advanced(v);
            },
            Event::Completed(r) => {
                if v.accepts(r) {
                    assert(r == outcomes[r.page_index as int]);
                    lemma_completed(v, r);
                }
            },
        }
        assert(next.agrees_with(outcomes));
        let rest = events.drop_first();
        assert forall|k: int| 0 <= k < rest.len() implies (#[trigger] rest[k] matches Event::Completed(
            r,
        ) ==> (r.page_index < outcomes.len() ==> r == outcomes[r.page_index as int])) by {
            assert(rest[k] == events[k + 1]);
        }
        lemma_run_agrees(next, rest, outcomes);
    }
}

/// The order in which results arrive leaves no trace: two runs of the same
/// batch in which each page has the same outcome, however their waves and
/// results are interleaved, end with the same results, which are the
/// outcomes of the pages in page order.
pub proof fn lemma_arrival_order_immaterial(
    locators: Seq<Seq<char>>,
    limit: nat,
    report: bool,
    outcomes: Seq<PageView>,
    one: Seq<Event>,
    other: Seq<Event>,
)
    requires
        limit >= 1,
        forall|i: int| 0 <= i < locators.len() ==> well_formed_locator(#[trigger] locators[i]),
        outcomes.len() == locators.len(),
        outcomes_of_pages(outcomes),
        delivers(one, outcomes),
        delivers(other, outcomes),
        BatchView::initial(locators, limit, report).after_all(one).done(),
        BatchView::initial(locators, limit, report).after_all(other).done(),
    ensures
        BatchView::initial(locators, limit, report).after_all(one).results()
            == BatchView::initial(locators, limit, report).after_all(other).results(),
        BatchView::initial(locators, limit, report).after_all(one).results() == outcomes,
{
    let start = BatchView::initial(locators, limit, report);
    lemma_initial(locators, limit, report);
    lemma_run_agrees(start, one, outcomes);
    lemma_run_agrees(start, other, outcomes);
    let a = start.after_all(one);
    let b = start.after_all(other);
    lemma_order_preserved(a);
    lemma_order_preserved(b);
    assert(a.results() =~= outcomes);
    assert(b.results() =~= outcomes);
}

/// Schedules the fetches of one batch and files their results.
#[derive(Debug)]
pub struct BatchFetcher {
    locators: Vec<String>,
    limit: usize,
    report: bool,
    wave_start: usize,
    wave_end: usize,
    /// How many pages of the current wave have not resolved.
    unresolved: usize,
    slots: Vec<Option<PageResult>>,
}

/// The locators as contracts see them.
pub open spec fn locator_views(locators: Seq<String>) -> Seq<Seq<char>> {
    Seq::new(locators.len(), |i: int| locators[i]@)
}

/// The result slots as contracts see them.
pub open spec fn slot_views(slots: Seq<Option<PageResult>>) -> Seq<Option<PageView>> {
    Seq::new(
        slots.len(),
        |i: int|
            match slots[i] {
                Some(r) => Some(r@),
                None => None,
            },
    )
}

impl View for BatchFetcher {
    type V = BatchView;

    closed spec fn view(&self) -> BatchView {
        BatchView {
            locators: locator_views(self.locators@),
            limit: self.limit as nat,
            report: self.report,
            wave_start: self.wave_start as nat,
            wave_end: self.wave_end as nat,
            slots: slot_views(self.slots@),
        }
    }
}

/// Files `result` in its slot and counts it off the wave.
fn file_result(
    slots: &mut Vec<Option<PageResult>>,
    unresolved: &mut usize,
    index: usize,
    result: PageResult,
    Ghost(v): Ghost<BatchView>,
)
    requires
        v.inv(),
        index == result@.page_index,
        v.slots == slot_views(old(slots)@),
        *old(unresolved) == v.in_flight().len(),
        v.accepts(result@),
        result@.consistent(),
    ensures
        slot_views(final(slots)@) == v.completed(result@).slots,
        *final(unresolved) == v.completed(result@).in_flight().len(),
        v.completed(result@).inv(),
    no_unwind
{
    proof {
        lemma_completed(v, result@);
        lemma_concurrency_bound(v);
        assert(v.in_flight().contains(index as int));
        assert(slot_views(slots@.update(index as int, Some(result))) =~= v.slots.update(
            index as int,
            Some(result@),
        ));
    }
    slots[index] = Some(result);
    *unresolved = *unresolved - 1;
}

/// Makes the pages from `start` up to `end` the current wave.
fn open_wave(
    wave_start: &mut usize,
    wave_end: &mut usize,
    unresolved: &mut usize,
    end: usize,
    Ghost(v): Ghost<BatchView>,
)
    requires
        v.inv(),
        v.may_advance(),
        *old(wave_start) == v.wave_start,
        *old(wave_end) == v.wave_end,
        end == v.next_end(),
    ensures
        *final(wave_start) == v.advanced().wave_start,
        *final(wave_end) == v.advanced().wave_end,
        *final(unresolved) == v.advanced().in_flight().len(),
        v.advanced().inv(),
    no_unwind
{
    proof {
        lemma_advanced(v);
        lemma_int_range(v.wave_end as int, v.next_end() as int);
    }
    *unresolved = end - *wave_end;
    *wave_start = *wave_end;
    *wave_end = end;
}

impl BatchFetcher {
    #[verifier::type_invariant]
    spec fn well_formed(self) -> bool {
        &&& self@.inv()
        &&& self.unresolved == self@.in_flight().len()
    }

    /// A batch over `locators` with at most `concurrency_limit` pages in
    /// flight at once. Nothing is requested yet.
    ///
    /// A limit of zero is refused; so is an empty locator, and the first such
    /// is named. A refused batch requests nothing.
    pub fn new(locators: Vec<String>, concurrency_limit: usize, report: bool) -> (r: Result<
        BatchFetcher,
        ConfigurationError,
    >)
        ensures
            match r {
                Ok(fetcher) => {
                    &&& concurrency_limit >= 1
                    &&& forall|i: int|
                        0 <= i < locators.len() ==> well_formed_locator(#[trigger] locators[i]@)
                    &&& fetcher@ == BatchView::initial(
                        locator_views(locators@),
                        concurrency_limit as nat,
                        report,
                    )
                    &&& fetcher@.inv()
                },
                Err(ConfigurationError::InvalidConcurrencyLimit) => concurrency_limit == 0,
                Err(ConfigurationError::MalformedLocator { index }) => {
                    &&& concurrency_limit >= 1
                    &&& index < locators.len()
                    &&& !well_formed_locator(locators[index as int]@)
                    &&& forall|i: int| 0 <= i < index ==> well_formed_locator(#[trigger] locators[i]@)
                },
            },
    {
        if concurrency_limit == 0 {
            return Err(ConfigurationError::InvalidConcurrencyLimit);
        }
        let total = locators.len();
        let mut slots: Vec<Option<PageResult>> = Vec::new();
        let mut i: usize = 0;
        while i < total
            invariant
                concurrency_limit >= 1,
                i <= total,
                total == locators.len(),
                slots.len() == i,
                forall|j: int| 0 <= j < i ==> well_formed_locator(#[trigger] locators[j]@),
                forall|j: int| 0 <= j < i ==> (#[trigger] slots[j]) is None,
            decreases total - i,
        {
            if locators[i].as_str().is_empty() {
                return Err(ConfigurationError::MalformedLocator { index: i });
            }
            slots.push(None);
            i = i + 1;
        }
        proof {
            let views = locator_views(locators@);
            let v = BatchView::initial(views, concurrency_limit as nat, report);
            assert(slot_views(slots@) =~= v.slots);
            lemma_initial(views, concurrency_limit as nat, report);
        }
        Ok(
            BatchFetcher {
                locators,
                limit: concurrency_limit,
                report,
                wave_start: 0,
                wave_end: 0,
                unresolved: 0,
                slots,
            },
        )
    }

    /// The number of pages in the batch.
    pub fn total(&self) -> (n: usize)
        ensures
            n == self@.total(),
            self@.inv(),
    {
        proof {
            use_type_invariant(self);
        }
        self.locators.len()
    }

    /// How many pages may be in flight at once.
    pub fn concurrency_limit(&self) -> (n: usize)
        ensures
            n == self@.limit,
            n >= 1,
    {
        proof {
            use_type_invariant(self);
        }
        self.limit
    }

    /// How many pages are in flight: never more than the limit.
    pub fn in_flight(&self) -> (n: usize)
        ensures
            n == self@.in_flight().len(),
            n <= self@.limit,
            self@.inv(),
    {
        proof {
            use_type_invariant(self);
            lemma_concurrency_bound(self@);
        }
        self.unresolved
    }

    /// Whether every page of the current wave has resolved.
    pub fn is_drained(&self) -> (b: bool)
        ensures
            b == self@.drained(),
            self@.inv(),
    {
        proof {
            use_type_invariant(self);
            lemma_concurrency_bound(self@);
        }
        self.unresolved == 0
    }

    /// Whether every page of the batch has resolved.
    pub fn is_done(&self) -> (b: bool)
        ensures
            b == self@.done(),
            self@.inv(),
    {
        proof {
            use_type_invariant(self);
            lemma_concurrency_bound(self@);
        }
        self.unresolved == 0 && self.wave_end == self.locators.len()
    }

    /// Where the fetch of page `index` stands; `None` where the batch has no
    /// such page.
    pub fn state_of(&self, index: usize) -> (s: Option<FetchState>)
        ensures
            self@.inv(),
            index < self@.total() ==> s == Some(self@.state_of(index as int)),
            index >= self@.total() ==> s is None,
    {
        proof {
            use_type_invariant(self);
        }
        if index >= self.locators.len() {
            None
        } else if index >= self.wave_end {
            Some(FetchState::Pending)
        } else {
            match &self.slots[index] {
                None => Some(FetchState::InFlight),
                Some(r) => if r.is_success() {
                    Some(FetchState::Succeeded)
                } else {
                    Some(FetchState::Failed)
                },
            }
        }
    }

    /// Issues the next wave and returns its requests, in page order: the next
    /// `limit` pages, or those that are left. While a page of the current wave
    /// is unresolved, and once no page is left, nothing is issued and nothing
    /// changes.
    pub fn next_wave(&mut self) -> (requests: Vec<FetchRequest>)
        ensures
            old(self)@.inv(),
            final(self)@ == old(self)@.advanced(),
            final(self)@.inv(),
            old(self)@.may_advance() ==> requests@.map_values(|r: FetchRequest| r@)
                == final(self)@.wave_requests(),
            old(self)@.may_advance() ==> requests@.len() == old(self)@.next_end() - old(
                self,
            )@.wave_end,
            forall|k: int|
                0 <= k < requests@.len() ==> (#[trigger] requests@[k])@ == old(self)@.request(
                    old(self)@.wave_end + k,
                ),
            !old(self)@.may_advance() ==> requests@.len() == 0,
    {
        proof {
            use_type_invariant(&*self);
            lemma_concurrency_bound(self@);
        }
        let total = self.locators.len();
        let mut requests: Vec<FetchRequest> = Vec::new();
        if self.unresolved != 0 || self.wave_end >= total {
            return requests;
        }
        let start = self.wave_end;
        let room = total - start;
        let end = if self.limit < room {
            start + self.limit
        } else {
            total
        };
        let ghost v = self@;
        let mut i: usize = start;
        while i < end
            invariant
                start <= i <= end <= total,
                total == self.locators.len(),
                self@ == v,
                requests.len() == i - start,
                forall|k: int|
                    0 <= k < i - start ==> (#[trigger] requests[k])@ == v.request(start + k),
            decreases end - i,
        {
            requests.push(
                FetchRequest { locator: self.locators[i].clone(), page_index: i, report: self.report },
            );
            i = i + 1;
        }
        open_wave(&mut self.wave_start, &mut self.wave_end, &mut self.unresolved, end, Ghost(v));
        proof {
            assert(requests@.map_values(|r: FetchRequest| r@) =~= v.advanced().wave_requests());
        }
        requests
    }

    /// Hands in the result of a fetch. It is accepted, and filed under its
    /// page index, where that page is in flight; any other result is refused
    /// and changes nothing.
    pub fn complete(&mut self, result: PageResult) -> (accepted: bool)
        ensures
            old(self)@.inv(),
            accepted == old(self)@.accepts(result@),
            final(self)@ == old(self)@.completed(result@),
            final(self)@.inv(),
    {
        proof {
            use_type_invariant(&*self);
        }
        let index = result.page_index();
        if index < self.wave_start || index >= self.wave_end {
            return false;
        }
        if self.slots[index].is_some() {
            return false;
        }
        let ghost v = self@;
        file_result(&mut self.slots, &mut self.unresolved, index, result, Ghost(v));
        true
    }

    /// The results of the batch, one for each locator, each at the index of
    /// its page. A batch that is not done is handed back as it is.
    pub fn into_results(self) -> (r: Result<Vec<PageResult>, BatchFetcher>)
        ensures
            self@.inv(),
            match r {
                Ok(results) => {
                    &&& self@.done()
                    &&& results@.map_values(|p: PageResult| p@) == self@.results()
                    &&& results@.len() == self@.total()
                    &&& forall|i: int|
                        0 <= i < results@.len() ==> self@.slots[i] == Some(
                            (#[trigger] results@[i])@,
                        )
                    &&& forall|i: int|
                        0 <= i < results@.len() ==> (#[trigger] results@[i])@.page_index == i
                },
                Err(fetcher) => !self@.done() && fetcher@ == self@,
            },
    {
        proof {
            use_type_invariant(&self);
            lemma_concurrency_bound(self@);
        }
        if self.unresolved != 0 || self.wave_end != self.locators.len() {
            return Err(self);
        }
        proof {
            lemma_order_preserved(self@);
        }
        let ghost v = self@;
        let mut slots = self.slots;
        let total = slots.len();
        let mut results: Vec<PageResult> = Vec::new();
        let mut i: usize = 0;
        while i < total
            invariant
                i <= total,
                total == slots.len(),
                total == v.total(),
                results.len() == i,
                forall|j: int| 0 <= j < i ==> (#[trigger] results[j])@ == v.results()[j],
                forall|j: int| i <= j < total ==> slot_views(slots@)[j] == v.slots[j],
                forall|j: int| 0 <= j < total ==> (#[trigger] v.slots[j]) is Some,
            decreases total - i,
        {
            assert(slot_views(slots@)[i as int] == v.slots[i as int]);
            let slot = slots[i].take();
            match slot {
                Some(result) => {
                    results.push(result);
                },
                None => {
                    assert(false);
                },
            }
            i = i + 1;
        }
        proof {
            assert(results@.map_values(|p: PageResult| p@) =~= v.results());
        }
        Ok(results)
    }
}

} // verus!
