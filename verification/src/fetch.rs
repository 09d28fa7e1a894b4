//! Paginated fetching: the planner that turns a channel's declared length
//! into page requests, and the bounded-concurrency fetch state machine that
//! collects per-page outcomes and merges them in page order.
//!
//! The state machine is the decision core of the concurrent fetcher: the
//! caller asks it which page to start next, performs the network call
//! itself, and hands the outcome back.  At most `cap` pages are ever in
//! flight, pages are started in ascending order, outcomes may arrive in any
//! order, and the final merge concatenates the per-page item lists by page
//! number, a failed page contributing nothing.

use vstd::prelude::*;

use crate::headers::{ChannelThumb, Content, ContentDaddy};

verus! {

/// The order a page's items are requested in.
#[derive(Debug, Clone, Copy, PartialEq, Eq)]
pub enum Direction {
    Asc,
    Desc,
}

/// One planned page request.
#[derive(Debug, Clone, PartialEq, Eq)]
pub struct PageRequest {
    pub slug: String,
    pub page: u32,
    pub per: u32,
    pub direction: Direction,
}

/// How many pages of size `per` cover `length` items: `ceil(length / per)`.
pub open spec fn num_pages(length: nat, per: nat) -> int
    recommends
        per >= 1,
{
    (length + per - 1) / (per as int)
}

/// Plans the page requests for a channel: one request per page of size
/// `per`, numbered `1..=ceil(length / per)` in ascending order, all with the
/// channel's slug and descending direction.  A zero-length channel needs no
/// request at all.
pub fn plan(channel: &ChannelThumb, per: u32) -> (r: Vec<PageRequest>)
    requires
        per >= 1,
    ensures
        r@.len() == num_pages(channel.length as nat, per as nat),
        forall|i: int|
            0 <= i < r@.len() ==> {
                &&& (#[trigger] r@[i]).page == i + 1
                &&& r@[i].per == per
                &&& r@[i].slug@ == channel.slug@
                &&& r@[i].direction == Direction::Desc
            },
{
    let length = channel.length;
    let q = length / per;
    let rem = length % per;
    proof {
        let l = length as int;
        let p = per as int;
        let qq = l / p;
        let rr = l % p;
        vstd::arithmetic::div_mod::lemma_fundamental_div_mod(l, p);
        vstd::arithmetic::div_mod::lemma_mod_bound(l, p);
        assert(qq * p == p * qq) by (nonlinear_arith);
        assert(l == qq * p + rr);
        assert(qq >= 0) by (nonlinear_arith)
            requires
                0 <= l,
                1 <= p,
                l == qq * p + rr,
                0 <= rr < p,
        ;
        assert(qq <= qq * p) by (nonlinear_arith)
            requires
                qq >= 0,
                1 <= p,
        ;
        if rr == 0 {
            vstd::arithmetic::div_mod::lemma_fundamental_div_mod_converse(l + p - 1, p, qq, p - 1);
        } else {
            assert((qq + 1) * p == qq * p + p) by (nonlinear_arith);
            vstd::arithmetic::div_mod::lemma_fundamental_div_mod_converse(
                l + p - 1,
                p,
                qq + 1,
                rr - 1,
            );
        }
    }
    let pages = if rem != 0 {
        q + 1
    } else {
        q
    };
    let mut reqs: Vec<PageRequest> = Vec::new();
    let mut i: u32 = 0;
    while i < pages
        invariant
            i <= pages,
            pages == num_pages(channel.length as nat, per as nat),
            reqs@.len() == i,
            forall|j: int|
                0 <= j < i ==> {
                    &&& (#[trigger] reqs@[j]).page == j + 1
                    &&& reqs@[j].per == per
                    &&& reqs@[j].slug@ == channel.slug@
                    &&& reqs@[j].direction == Direction::Desc
                },
        decreases pages - i,
    {
        reqs.push(
            PageRequest {
                slug: channel.slug.clone(),
                page: i + 1,
                per,
                direction: Direction::Desc,
            },
        );
        i = i + 1;
    }
    reqs
}

/// What one page request came to: its items in wire order, or a failure
/// (a non-success status or a malformed body).
#[derive(Debug, Clone, PartialEq, Eq)]
pub enum PageOutcome {
    Success(Vec<Content>),
    Failure,
}

/// The items a page outcome contributes to the merge: its own items on
/// success, nothing on failure.
pub open spec fn outcome_items(o: PageOutcome) -> Seq<Content> {
    match o {
        PageOutcome::Success(v) => v@,
        PageOutcome::Failure => Seq::empty(),
    }
}

/// The items a page slot contributes: nothing while the page is pending.
pub open spec fn slot_items(s: Option<PageOutcome>) -> Seq<Content> {
    match s {
        Some(o) => outcome_items(o),
        None => Seq::empty(),
    }
}

/// The merge of a per-page table: the concatenation of every page's
/// contribution, in page order.
pub open spec fn merged(slots: Seq<Option<PageOutcome>>) -> Seq<Content>
    decreases slots.len(),
{
    if slots.len() == 0 {
        Seq::empty()
    } else {
        slot_items(slots.first()) + merged(slots.drop_first())
    }
}

/// How many pages of the table have an outcome recorded.
pub open spec fn count_done(slots: Seq<Option<PageOutcome>>) -> nat
    decreases slots.len(),
{
    if slots.len() == 0 {
        0
    } else {
        count_done(slots.drop_last()) + if slots.last() is Some {
            1nat
        } else {
            0nat
        }
    }
}

proof fn lemma_count_done_le_len(s: Seq<Option<PageOutcome>>)
    ensures
        count_done(s) <= s.len(),
    decreases s.len(),
{
    if s.len() > 0 {
        lemma_count_done_le_len(s.drop_last());
    }
}

proof fn lemma_count_done_with_none(s: Seq<Option<PageOutcome>>, i: int)
    requires
        0 <= i < s.len(),
        s[i] is None,
    ensures
        count_done(s) < s.len(),
    decreases s.len(),
{
    if i == s.len() - 1 {
        lemma_count_done_le_len(s.drop_last());
    } else {
        lemma_count_done_with_none(s.drop_last(), i);
    }
}

proof fn lemma_count_done_update_some(s: Seq<Option<PageOutcome>>, i: int, o: PageOutcome)
    requires
        0 <= i < s.len(),
        s[i] is None,
    ensures
        count_done(s.update(i, Some(o))) == count_done(s) + 1,
    decreases s.len(),
{
    let t = s.update(i, Some(o));
    if i == s.len() - 1 {
        assert(t.drop_last() =~= s.drop_last());
    } else {
        lemma_count_done_update_some(s.drop_last(), i, o);
        assert(t.drop_last() =~= s.drop_last().update(i, Some(o)));
    }
}

proof fn lemma_count_done_ignores_pending_tail(s: Seq<Option<PageOutcome>>, st: int)
    requires
        0 <= st <= s.len(),
        forall|i: int| st <= i < s.len() ==> s[i] is None,
    ensures
        count_done(s) == count_done(s.take(st)),
    decreases s.len(),
{
    if s.len() > st {
        lemma_count_done_ignores_pending_tail(s.drop_last(), st);
        assert(s.drop_last().take(st) =~= s.take(st));
    } else {
        assert(s.take(st) =~= s);
    }
}

proof fn lemma_count_done_full(s: Seq<Option<PageOutcome>>)
    requires
        count_done(s) == s.len(),
    ensures
        forall|i: int| 0 <= i < s.len() ==> s[i] is Some,
    decreases s.len(),
{
    if s.len() > 0 {
        lemma_count_done_le_len(s.drop_last());
        lemma_count_done_full(s.drop_last());
        assert forall|i: int| 0 <= i < s.len() implies s[i] is Some by {
            if i < s.len() - 1 {
                assert(s.drop_last()[i] == s[i]);
            }
        }
    }
}

/// The fetch state machine.  Pages are started in ascending order, at most
/// `cap` at a time; each started page's outcome is recorded exactly once, in
/// whatever order the transport completes them; `finish` merges the table in
/// page order.  Slot `i` of `slots` is page `i + 1` of the plan.
#[derive(Debug, Clone, PartialEq, Eq)]
pub struct Fetcher {
    pub slug: String,
    pub cap: usize,
    pub started: usize,
    pub completed: usize,
    pub slots: Vec<Option<PageOutcome>>,
}

impl Fetcher {
    /// How many started pages still lack an outcome.
    pub open spec fn in_flight(self) -> int {
        self.started - self.completed
    }

    /// Well-formedness: counters consistent with the table, never more than
    /// `cap` pages in flight, and no outcome recorded for an unstarted page.
    pub open spec fn wf(self) -> bool {
        &&& self.cap >= 1
        &&& self.completed <= self.started <= self.slots@.len()
        &&& self.in_flight() <= self.cap
        &&& count_done(self.slots@) == self.completed
        &&& forall|i: int| self.started <= i < self.slots@.len() ==> self.slots@[i] is None
    }

    /// A fresh fetcher for `total` pages with concurrency window `cap`:
    /// nothing started, every page pending.
    pub fn new(slug: String, total: usize, cap: usize) -> (r: Fetcher)
        requires
            cap >= 1,
        ensures
            r.wf(),
            r.slug == slug,
            r.cap == cap,
            r.started == 0,
            r.completed == 0,
            r.slots@.len() == total,
            forall|i: int| 0 <= i < total ==> r.slots@[i] is None,
    {
        let mut slots: Vec<Option<PageOutcome>> = Vec::new();
        let mut i: usize = 0;
        while i < total
            invariant
                i <= total,
                slots@.len() == i,
                count_done(slots@) == 0,
                forall|j: int| 0 <= j < i ==> slots@[j] is None,
            decreases total - i,
        {
            let ghost before = slots@;
            slots.push(None);
            proof {
                assert(slots@.drop_last() =~= before);
            }
            i = i + 1;
        }
        Fetcher { slug, cap, started: 0, completed: 0, slots }
    }

    /// Whether another page may be started: one is left and the concurrency
    /// window is not full.
    pub fn can_start(&self) -> (r: bool)
        requires
            self.wf(),
        ensures
            r == (self.started < self.slots@.len() && self.in_flight() < self.cap),
    {
        self.started < self.slots.len() && self.started - self.completed < self.cap
    }

    /// Whether any started page still lacks an outcome.
    pub fn has_in_flight(&self) -> (r: bool)
        requires
            self.wf(),
        ensures
            r == (self.in_flight() > 0),
    {
        self.started - self.completed > 0
    }

    /// Whether every page has an outcome recorded.
    pub fn is_done(&self) -> (r: bool)
        ensures
            r == (self.completed == self.slots@.len()),
    {
        self.completed == self.slots.len()
    }

    /// Starts the next page, keeping the concurrency window at or under
    /// `cap`.  Returns the slot index of the page to fetch (page number
    /// minus one); only the started counter moves.
    pub fn start(&mut self) -> (slot: usize)
        requires
            old(self).wf(),
            old(self).started < old(self).slots@.len(),
            old(self).in_flight() < old(self).cap,
        ensures
            final(self).wf(),
            slot == old(self).started,
            (*final(self) == Fetcher { started: (old(self).started + 1) as usize, ..*old(self) }),
            final(self).in_flight() == old(self).in_flight() + 1,
            final(self).in_flight() <= final(self).cap,
    {
        proof {
            broadcast use vstd::std_specs::vec::axiom_spec_len;

            assert(self.slots.len() == self.slots@.len());
        }
        let slot = self.started;
        self.started = self.started + 1;
        slot
    }

    /// Records the outcome of a started, still-pending page, in whatever
    /// order the transport completed it.
    pub fn complete(&mut self, slot: usize, outcome: PageOutcome)
        requires
            old(self).wf(),
            slot < old(self).started,
            old(self).slots@[slot as int] is None,
        ensures
            final(self).wf(),
            final(self).slots@ == old(self).slots@.update(slot as int, Some(outcome)),
            final(self).slug == old(self).slug,
            final(self).cap == old(self).cap,
            final(self).started == old(self).started,
            final(self).completed == old(self).completed + 1,
            final(self).in_flight() == old(self).in_flight() - 1,
    {
        proof {
            let s = self.slots@;
            let st = self.started as int;
            lemma_count_done_ignores_pending_tail(s, st);
            lemma_count_done_with_none(s.take(st), slot as int);
            lemma_count_done_update_some(s, slot as int, outcome);
        }
        self.slots.set(slot, Some(outcome));
        self.completed = self.completed + 1;
    }

    /// Merges every page's contribution in page order, wrapped with the
    /// channel slug.  A failed page contributes an empty list; the fetch as
    /// a whole always yields a result.
    pub fn finish(self) -> (r: ContentDaddy)
        requires
            self.wf(),
            self.completed == self.slots@.len(),
        ensures
            r.slug == self.slug,
            r.contents@ == merged(self.slots@),
    {
        proof {
            lemma_count_done_full(self.slots@);
        }
        let Fetcher { slug, mut slots, .. } = self;
        let ghost all = slots@;
        let mut contents: Vec<Content> = Vec::new();
        proof {
            assert(contents@ + merged(slots@) =~= merged(all));
        }
        while slots.len() > 0
            invariant
                contents@ + merged(slots@) == merged(all),
                forall|k: int| 0 <= k < slots@.len() ==> slots@[k] is Some,
            decreases slots@.len(),
        {
            let ghost before = slots@;
            let ghost contents_before = contents@;
            let slot = slots.remove(0);
            proof {
                assert(before.remove(0) =~= before.drop_first());
            }
            match slot {
                Some(PageOutcome::Success(mut v)) => {
                    let ghost items = v@;
                    contents.append(&mut v);
                    proof {
                        assert((contents_before + items) + merged(slots@) =~= contents_before + (
                        items + merged(slots@)));
                    }
                },
                Some(PageOutcome::Failure) => {
                    proof {
                        assert(contents_before + (Seq::<Content>::empty() + merged(slots@))
                            =~= contents_before + merged(slots@));
                    }
                },
                None => unreached(),
            }
        }
        proof {
            assert(contents@ + merged(slots@) =~= contents@);
        }
        ContentDaddy { slug, contents }
    }
}

/// The per-page table after a run of completion events, each recording one
/// page's outcome at its slot — exactly what a run of `complete` calls does.
pub open spec fn apply_events(
    s: Seq<Option<PageOutcome>>,
    evs: Seq<(int, PageOutcome)>,
) -> Seq<Option<PageOutcome>>
    decreases evs.len(),
{
    if evs.len() == 0 {
        s
    } else {
        apply_events(s.update(evs.first().0, Some(evs.first().1)), evs.drop_first())
    }
}

/// The outcome a run of events records for slot `i`: that of the first
/// event naming `i`, if any does.
pub open spec fn event_for(evs: Seq<(int, PageOutcome)>, i: int) -> Option<PageOutcome>
    decreases evs.len(),
{
    if evs.len() == 0 {
        None
    } else if evs.first().0 == i {
        Some(evs.first().1)
    } else {
        event_for(evs.drop_first(), i)
    }
}

/// No two events of the run name the same slot: each page completes once.
pub open spec fn distinct_slots(evs: Seq<(int, PageOutcome)>) -> bool {
    forall|j: int, k: int| 0 <= j < k < evs.len() ==> (#[trigger] evs[j]).0 != (#[trigger] evs[k]).0
}

proof fn lemma_apply_events_len(s: Seq<Option<PageOutcome>>, evs: Seq<(int, PageOutcome)>)
    requires
        forall|k: int| 0 <= k < evs.len() ==> 0 <= (#[trigger] evs[k]).0 < s.len(),
    ensures
        apply_events(s, evs).len() == s.len(),
    decreases evs.len(),
{
    if evs.len() > 0 {
        let s1 = s.update(evs.first().0, Some(evs.first().1));
        let rest = evs.drop_first();
        assert(s1.len() == s.len());
        assert(forall|k: int| 0 <= k < rest.len() ==> 0 <= (#[trigger] rest[k]).0 < s1.len());
        lemma_apply_events_len(s1, rest);
    }
}

proof fn lemma_event_for_absent(evs: Seq<(int, PageOutcome)>, i: int)
    requires
        forall|k: int| 0 <= k < evs.len() ==> (#[trigger] evs[k]).0 != i,
    ensures
        event_for(evs, i) is None,
    decreases evs.len(),
{
    if evs.len() > 0 {
        assert(forall|k: int|
            0 <= k < evs.drop_first().len() ==> (#[trigger] evs.drop_first()[k]).0 != i);
        lemma_event_for_absent(evs.drop_first(), i);
    }
}

proof fn lemma_event_for_contains(evs: Seq<(int, PageOutcome)>, i: int, o: PageOutcome)
    requires
        event_for(evs, i) == Some(o),
    ensures
        evs.contains((i, o)),
    decreases evs.len(),
{
    if evs.first().0 == i {
        assert(evs[0] == (i, o));
    } else {
        lemma_event_for_contains(evs.drop_first(), i, o);
        let k = choose|k: int| 0 <= k < evs.drop_first().len() && evs.drop_first()[k] == (i, o);
        assert(evs[k + 1] == (i, o));
    }
}

proof fn lemma_event_for_from_contains(evs: Seq<(int, PageOutcome)>, i: int, o: PageOutcome)
    requires
        distinct_slots(evs),
        evs.contains((i, o)),
    ensures
        event_for(evs, i) == Some(o),
    decreases evs.len(),
{
    let k = choose|k: int| 0 <= k < evs.len() && evs[k] == (i, o);
    if evs.first().0 == i {
        if k != 0 {
            assert(evs[0].0 == evs[k].0);
        }
    } else {
        assert(evs.drop_first()[k - 1] == (i, o));
        assert(evs.drop_first().contains((i, o)));
        assert(forall|j: int, l: int|
            0 <= j < l < evs.drop_first().len() ==> (#[trigger] evs.drop_first()[j]).0 != (
            #[trigger] evs.drop_first()[l]).0);
        lemma_event_for_from_contains(evs.drop_first(), i, o);
    }
}

proof fn lemma_apply_events_pointwise(
    s: Seq<Option<PageOutcome>>,
    evs: Seq<(int, PageOutcome)>,
    i: int,
)
    requires
        distinct_slots(evs),
        forall|k: int| 0 <= k < evs.len() ==> 0 <= (#[trigger] evs[k]).0 < s.len(),
        0 <= i < s.len(),
    ensures
        apply_events(s, evs)[i] == match event_for(evs, i) {
            Some(o) => Some(o),
            None => s[i],
        },
    decreases evs.len(),
{
    if evs.len() > 0 {
        let e0 = evs.first();
        let s1 = s.update(e0.0, Some(e0.1));
        let rest = evs.drop_first();
        assert(forall|j: int, l: int|
            0 <= j < l < rest.len() ==> (#[trigger] rest[j]).0 != (#[trigger] rest[l]).0);
        assert(forall|k: int| 0 <= k < rest.len() ==> 0 <= (#[trigger] rest[k]).0 < s1.len());
        lemma_apply_events_pointwise(s1, rest, i);
        if e0.0 == i {
            assert(forall|k: int| 0 <= k < rest.len() ==> (#[trigger] rest[k]).0 != i);
            lemma_event_for_absent(rest, i);
        }
    }
}

/// Completion order is irrelevant: two runs that record the same set of
/// per-page outcomes — each page at most once, in whatever order the
/// transport finished them — leave the same per-page table, and therefore
/// the same merged item sequence.
pub proof fn lemma_events_any_order(
    s: Seq<Option<PageOutcome>>,
    evs1: Seq<(int, PageOutcome)>,
    evs2: Seq<(int, PageOutcome)>,
)
    requires
        distinct_slots(evs1),
        distinct_slots(evs2),
        forall|k: int| 0 <= k < evs1.len() ==> 0 <= (#[trigger] evs1[k]).0 < s.len(),
        forall|k: int| 0 <= k < evs2.len() ==> 0 <= (#[trigger] evs2[k]).0 < s.len(),
        forall|e: (int, PageOutcome)| #[trigger] evs1.contains(e) <==> #[trigger] evs2.contains(e),
    ensures
        apply_events(s, evs1) == apply_events(s, evs2),
        merged(apply_events(s, evs1)) == merged(apply_events(s, evs2)),
{
    lemma_apply_events_len(s, evs1);
    lemma_apply_events_len(s, evs2);
    assert forall|i: int| 0 <= i < s.len() implies apply_events(s, evs1)[i] == apply_events(
        s,
        evs2,
    )[i] by {
        lemma_apply_events_pointwise(s, evs1, i);
        lemma_apply_events_pointwise(s, evs2, i);
        match event_for(evs1, i) {
            Some(o) => {
                lemma_event_for_contains(evs1, i, o);
                lemma_event_for_from_contains(evs2, i, o);
            },
            None => {
                match event_for(evs2, i) {
                    Some(o2) => {
                        lemma_event_for_contains(evs2, i, o2);
                        lemma_event_for_from_contains(evs1, i, o2);
                    },
                    None => {
                    },
                }
            },
        }
    }
    assert(apply_events(s, evs1) =~= apply_events(s, evs2));
}

/// Degradation: a failed page contributes nothing to the merge — the merged
/// sequence equals that of the table with the failed page left out entirely.
pub proof fn lemma_failed_page_adds_nothing(s: Seq<Option<PageOutcome>>, i: int)
    requires
        0 <= i < s.len(),
        s[i] == Some(PageOutcome::Failure),
    ensures
        merged(s) == merged(s.remove(i)),
    decreases s.len(),
{
    if i == 0 {
        assert(s.remove(0) =~= s.drop_first());
        assert(slot_items(s.first()) + merged(s.drop_first()) =~= merged(s.drop_first()));
    } else {
        lemma_failed_page_adds_nothing(s.drop_first(), i - 1);
        assert(s.remove(i).drop_first() =~= s.drop_first().remove(i - 1));
        assert(s.remove(i).first() == s.first());
    }
}

/// Bounded concurrency: a well-formed fetcher never has more pages in
/// flight than its concurrency window allows.
pub proof fn lemma_bounded_in_flight(f: &Fetcher)
    requires
        f.wf(),
    ensures
        f.in_flight() <= f.cap,
{
}

} // verus!
