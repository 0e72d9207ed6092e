//! The requests that run: what is shown of each, and how long a finished one
//! stays.

pub mod scroll;

use crate::clock;
use crate::clock::{CivilTime, Timestamp};
use crate::double;
use crate::float64::Double;
use crate::number;
use crate::table::Table;
use crate::text;
use scroll::LiveTailScrollState;
use vstd::prelude::*;

verus! {

/// The slowest scrolling that can be set.
pub const MIN_SCROLL_CHARS_PER_SECOND: u32 = 10;

/// The fastest scrolling that can be set.
pub const MAX_SCROLL_CHARS_PER_SECOND: u32 = 1000;

/// The longest that a finished request can be kept.
pub const MAX_COMPLETED_HOLD_SECONDS: u32 = 300;

/// Nanoseconds between two looks at the rates.
pub const LIVE_RATE_REFRESH_NANOS: u128 = 250_000_000;

/// Milliseconds between two frames while a text scrolls in sight.
pub const LIVE_ANIMATION_MILLIS: u64 = 16;

/// Milliseconds between two frames otherwise.
pub const LIVE_BACKGROUND_MILLIS: u64 = 250;

/// How an answer comes in.
#[derive(Debug, Clone, Copy, PartialEq, Eq, Structural)]
pub enum LiveResponseState {
    AwaitingHeaders,
    NonStreaming,
    Streaming,
}

/// How fast an answer comes in.
#[derive(Debug, Clone, Copy)]
pub struct LiveOutputRate {
    pub estimated_tokens_per_second: Double,
    pub chars_per_second: Double,
}

/// A request that runs, or has just ended.
#[derive(Debug)]
pub struct LiveRequestSnapshot {
    pub id: String,
    pub upstream_name: Option<String>,
    pub endpoint: String,
    pub model: Option<String>,
    pub reasoning_effort: Option<String>,
    pub response_state: LiveResponseState,
    /// The end of the answer.
    pub tail: String,
    /// Where in the answer the tail starts and ends, in characters.
    pub tail_start_char_index: usize,
    pub tail_end_char_index: usize,
    pub hover_output: String,
    pub output_rate: Option<LiveOutputRate>,
    pub started_at: Timestamp,
    pub finished_at: Option<Timestamp>,
    pub terminating: bool,
}

/// How answers are shown.
#[derive(Debug, Clone, Copy, PartialEq, Eq, Structural)]
pub struct LiveOutputSettings {
    pub scroll_limit_enabled: bool,
    pub max_scroll_chars_per_second: u32,
    pub completed_hold_seconds: u32,
}

impl Default for LiveOutputSettings {
    fn default() -> (r: Self)
        ensures
            r == (LiveOutputSettings {
                scroll_limit_enabled: false,
                max_scroll_chars_per_second: 60,
                completed_hold_seconds: 3,
            }),
    {
        LiveOutputSettings {
            scroll_limit_enabled: false,
            max_scroll_chars_per_second: 60,
            completed_hold_seconds: 3,
        }
    }
}

/// A number held between two bounds.
pub open spec fn held_between(n: u32, low: u32, high: u32) -> u32 {
    if n < low {
        low
    } else if n > high {
        high
    } else {
        n
    }
}

impl LiveOutputSettings {
    /// The settings within their bounds.
    pub fn normalized(self) -> (r: Self)
        ensures
            r == (LiveOutputSettings {
                scroll_limit_enabled: self.scroll_limit_enabled,
                max_scroll_chars_per_second: held_between(
                    self.max_scroll_chars_per_second,
                    MIN_SCROLL_CHARS_PER_SECOND,
                    MAX_SCROLL_CHARS_PER_SECOND,
                ),
                completed_hold_seconds: held_between(
                    self.completed_hold_seconds,
                    0,
                    MAX_COMPLETED_HOLD_SECONDS,
                ),
            }),
    {
        let speed: u32 = self.max_scroll_chars_per_second;
        let hold: u32 = self.completed_hold_seconds;
        LiveOutputSettings {
            scroll_limit_enabled: self.scroll_limit_enabled,
            max_scroll_chars_per_second: if speed < MIN_SCROLL_CHARS_PER_SECOND {
                MIN_SCROLL_CHARS_PER_SECOND
            } else if speed > MAX_SCROLL_CHARS_PER_SECOND {
                MAX_SCROLL_CHARS_PER_SECOND
            } else {
                speed
            },
            completed_hold_seconds: if hold > MAX_COMPLETED_HOLD_SECONDS {
                MAX_COMPLETED_HOLD_SECONDS
            } else {
                hold
            },
        }
    }
}

/// The requests that run, with how far each has scrolled.
pub struct LiveConnections {
    pub last_seen_version: u64,
    /// When the requests were last looked at, on the monotonic clock.
    pub refreshed_at: u128,
    pub items: Vec<LiveRequestSnapshot>,
    pub scrolls: Table<LiveTailScrollState>,
}

/// How far each request has scrolled once some of them were looked at, one
/// after the other; a new one starts.
pub open spec fn synced_all(
    scrolls: Map<Seq<char>, LiveTailScrollState>,
    items: Seq<LiveRequestSnapshot>,
    settings: LiveOutputSettings,
    now: u128,
) -> Map<Seq<char>, LiveTailScrollState>
    decreases items.len(),
{
    if items.len() == 0 {
        scrolls
    } else {
        let earlier = synced_all(scrolls, items.drop_last(), settings, now);
        let item = items.last();
        let present = if earlier.contains_key(item.id@) {
            earlier[item.id@]
        } else {
            scroll::fresh(&item, settings, now)
        };
        earlier.insert(item.id@, scroll::synced(present, &item, settings, now))
    }
}

/// How far each request has scrolled once time went on.
pub open spec fn advanced_all(
    scrolls: Map<Seq<char>, LiveTailScrollState>,
    items: Seq<LiveRequestSnapshot>,
    settings: LiveOutputSettings,
    now: u128,
) -> Map<Seq<char>, LiveTailScrollState>
    decreases items.len(),
{
    if items.len() == 0 {
        scrolls
    } else {
        let earlier = advanced_all(scrolls, items.drop_last(), settings, now);
        let item = items.last();
        if earlier.contains_key(item.id@) {
            earlier.insert(
                item.id@,
                scroll::with_reached(
                    scroll::advanced(earlier[item.id@], settings, now),
                    item.finished_at is Some,
                    now,
                ),
            )
        } else {
            earlier
        }
    }
}

/// Whether one of some requests has an identifier.
pub open spec fn has_id(items: Seq<LiveRequestSnapshot>, id: Seq<char>) -> bool {
    exists|i: int| 0 <= i < items.len() && (#[trigger] items[i]).id@ == id
}

/// The entries of the requests that there are.
pub open spec fn kept(
    scrolls: Map<Seq<char>, LiveTailScrollState>,
    items: Seq<LiveRequestSnapshot>,
) -> Map<Seq<char>, LiveTailScrollState> {
    scrolls.restrict(Set::new(|id: Seq<char>| has_id(items, id)))
}

/// The finished requests that were shown to their end for long enough.
pub open spec fn held_ids(
    items: Seq<LiveRequestSnapshot>,
    scrolls: Map<Seq<char>, LiveTailScrollState>,
    now: u128,
    hold_seconds: u32,
) -> Seq<Seq<char>>
    decreases items.len(),
{
    if items.len() == 0 {
        Seq::empty()
    } else {
        let earlier = held_ids(items.drop_last(), scrolls, now, hold_seconds);
        let item = items.last();
        if item.finished_at is Some && scrolls.contains_key(item.id@) && scroll::hold_is_over(
            scrolls[item.id@],
            now,
            hold_seconds,
        ) {
            earlier.push(item.id@)
        } else {
            earlier
        }
    }
}

impl LiveConnections {
    /// The entries are valid.
    pub open spec fn wf(&self) -> bool {
        &&& self.scrolls.wf()
        &&& forall|id: Seq<char>| #[trigger]
            self.scrolls@.contains_key(id) ==> self.scrolls@[id].wf()
    }

    /// No request runs.
    pub fn new(version: u64, now: u128) -> (r: Self)
        ensures
            r.wf(),
            r.last_seen_version == version,
            r.refreshed_at == now,
            r.items@.len() == 0,
            r.scrolls@ == Map::<Seq<char>, LiveTailScrollState>::empty(),
    {
        LiveConnections {
            last_seen_version: version,
            refreshed_at: now,
            items: Vec::new(),
            scrolls: Table::new(),
        }
    }

    /// Whether the requests are to be looked at again: where something was
    /// announced, or where there are any and a while has passed.
    pub fn wants_snapshots(&self, version: u64, now: u128) -> (r: bool)
        ensures
            r == (version != self.last_seen_version || (self.items@.len() > 0 && now
                - self.refreshed_at >= LIVE_RATE_REFRESH_NANOS)),
    {
        let due: bool = now >= self.refreshed_at && now - self.refreshed_at
            >= LIVE_RATE_REFRESH_NANOS;
        version != self.last_seen_version || (self.items.len() > 0 && due)
    }

    fn sync_scrolls(&mut self, items: &Vec<LiveRequestSnapshot>, settings: LiveOutputSettings, now: u128)
        requires
            old(self).wf(),
            clock::is_instant(now),
        ensures
            final(self).wf(),
            final(self).scrolls@ == synced_all(old(self).scrolls@, items@, settings, now),
            *final(self) == (LiveConnections { scrolls: final(self).scrolls, ..*old(self) }),
    {
        let ghost before = self.scrolls@;
        let mut i: usize = 0;
        while i < items.len()
            invariant
                i <= items@.len(),
                clock::is_instant(now),
                self.wf(),
                self.scrolls@ == synced_all(before, items@.take(i as int), settings, now),
                *self == (LiveConnections { scrolls: self.scrolls, ..*old(self) }),
            decreases items@.len() - i,
        {
            proof {
                let longer = items@.take(i as int + 1);
                assert(longer.drop_last() =~= items@.take(i as int));
                assert(longer.last() == items@[i as int]);
            }
            let item: &LiveRequestSnapshot = &items[i];
            let mut state: LiveTailScrollState = match self.scrolls.get(item.id.as_str()) {
                Some(present) => *present,
                None => LiveTailScrollState::new(item, settings, now),
            };
            state.sync(item, settings, now);
            self.scrolls.insert(item.id.clone(), state);
            i = i + 1;
        }
        proof {
            assert(items@.take(items@.len() as int) =~= items@);
        }
    }

    fn keep_scrolls(&mut self, items: &Vec<LiveRequestSnapshot>)
        requires
            old(self).wf(),
        ensures
            final(self).wf(),
            final(self).scrolls@ == kept(old(self).scrolls@, items@),
            *final(self) == (LiveConnections { scrolls: final(self).scrolls, ..*old(self) }),
    {
        let ghost all = self.scrolls@;
        let mut kept_scrolls: Table<LiveTailScrollState> = Table::new();
        let mut i: usize = 0;
        proof {
            assert(kept_scrolls@ =~= kept(all, items@.take(0)));
        }
        while i < items.len()
            invariant
                i <= items@.len(),
                self.wf(),
                all == self.scrolls@,
                *self == *old(self),
                kept_scrolls.wf(),
                kept_scrolls@ == kept(all, items@.take(i as int)),
            decreases items@.len() - i,
        {
            let ghost earlier = kept_scrolls@;
            let ghost shorter = items@.take(i as int);
            let ghost longer = items@.take(i as int + 1);
            let id: &str = items[i].id.as_str();
            proof {
                assert forall|k: Seq<char>| has_id(longer, k) <==> has_id(shorter, k) || k == id@ by {
                    if has_id(longer, k) {
                        let j = choose|j: int| 0 <= j < longer.len() && (#[trigger] longer[j]).id@ == k;
                        if j < i {
                            assert(shorter[j].id@ == k);
                        }
                    }
                    if has_id(shorter, k) {
                        let j = choose|j: int|
                            0 <= j < shorter.len() && (#[trigger] shorter[j]).id@ == k;
                        assert(longer[j].id@ == k);
                    }
                    if k == id@ {
                        assert(longer[i as int].id@ == k);
                    }
                }
            }
            match self.scrolls.get(id) {
                Some(state) => {
                    kept_scrolls.insert(items[i].id.clone(), *state);
                    proof {
                        assert(kept_scrolls@ =~= kept(all, longer));
                    }
                },
                None => {
                    proof {
                        assert(kept_scrolls@ =~= kept(all, longer));
                    }
                },
            }
            i = i + 1;
        }
        proof {
            assert(items@.take(items@.len() as int) =~= items@);
        }
        self.scrolls = kept_scrolls;
    }

    /// Takes in the requests that there are.
    pub fn take_snapshots(
        &mut self,
        version: u64,
        items: Vec<LiveRequestSnapshot>,
        settings: LiveOutputSettings,
        now: u128,
    )
        requires
            old(self).wf(),
            clock::is_instant(now),
        ensures
            final(self).wf(),
            final(self).last_seen_version == version,
            final(self).refreshed_at == now,
            final(self).items == items,
            final(self).scrolls@ == kept(
                synced_all(old(self).scrolls@, items@, settings, now),
                items@,
            ),
    {
        self.last_seen_version = version;
        self.refreshed_at = now;
        self.sync_scrolls(&items, settings, now);
        self.keep_scrolls(&items);
        self.items = items;
    }

    /// Lets the requests scroll on.
    pub fn advance(&mut self, settings: LiveOutputSettings, now: u128)
        requires
            old(self).wf(),
            clock::is_instant(now),
        ensures
            final(self).wf(),
            final(self).scrolls@ == advanced_all(old(self).scrolls@, old(self).items@, settings, now),
            *final(self) == (LiveConnections { scrolls: final(self).scrolls, ..*old(self) }),
    {
        let ghost before = self.scrolls@;
        let ghost items = self.items@;
        let mut i: usize = 0;
        while i < self.items.len()
            invariant
                i <= items.len(),
                items == self.items@,
                clock::is_instant(now),
                self.wf(),
                self.scrolls@ == advanced_all(before, items.take(i as int), settings, now),
                *self == (LiveConnections { scrolls: self.scrolls, ..*old(self) }),
            decreases items.len() - i,
        {
            proof {
                let longer = items.take(i as int + 1);
                assert(longer.drop_last() =~= items.take(i as int));
                assert(longer.last() == items[i as int]);
            }
            let found: Option<LiveTailScrollState> = match self.scrolls.get(
                self.items[i].id.as_str(),
            ) {
                Some(present) => Some(*present),
                None => None,
            };
            if let Some(present) = found {
                let mut state: LiveTailScrollState = present;
                state.advance(settings, now);
                state.update_reached_end(self.items[i].finished_at.is_some(), now);
                let id: String = self.items[i].id.clone();
                self.scrolls.insert(id, state);
            }
            i = i + 1;
        }
        proof {
            assert(items.take(items.len() as int) =~= items);
        }
    }

    fn held(&self, now: u128, hold_seconds: u32) -> (r: Vec<String>)
        requires
            self.wf(),
        ensures
            text::views(r@) == held_ids(self.items@, self.scrolls@, now, hold_seconds),
    {
        let mut ids: Vec<String> = Vec::new();
        let mut i: usize = 0;
        proof {
            assert(text::views(ids@) =~= held_ids(
                self.items@.take(0),
                self.scrolls@,
                now,
                hold_seconds,
            ));
        }
        while i < self.items.len()
            invariant
                i <= self.items@.len(),
                self.wf(),
                text::views(ids@) == held_ids(
                    self.items@.take(i as int),
                    self.scrolls@,
                    now,
                    hold_seconds,
                ),
            decreases self.items@.len() - i,
        {
            let ghost before = text::views(ids@);
            proof {
                let longer = self.items@.take(i as int + 1);
                assert(longer.drop_last() =~= self.items@.take(i as int));
                assert(longer.last() == self.items@[i as int]);
            }
            let item: &LiveRequestSnapshot = &self.items[i];
            if item.finished_at.is_some() {
                if let Some(state) = self.scrolls.get(item.id.as_str()) {
                    if state.hold_finished(now, hold_seconds) {
                        ids.push(item.id.clone());
                        proof {
                            assert(text::views(ids@) =~= before.push(item.id@));
                        }
                    }
                }
            }
            i = i + 1;
        }
        proof {
            assert(self.items@.take(self.items@.len() as int) =~= self.items@);
        }
        ids
    }

    /// Drops the finished requests that were shown to their end for long
    /// enough, and gives their identifiers.
    pub fn drop_held(&mut self, now: u128, hold_seconds: u32) -> (r: Vec<String>)
        requires
            old(self).wf(),
        ensures
            final(self).wf(),
            text::views(r@) == held_ids(
                old(self).items@,
                old(self).scrolls@,
                now,
                hold_seconds,
            ),
            final(self).items@ == old(self).items@.filter(
                |item: LiveRequestSnapshot| !text::views(r@).contains(item.id@),
            ),
            final(self).scrolls@ == old(self).scrolls@.remove_keys(text::views(r@).to_set()),
            final(self).last_seen_version == old(self).last_seen_version,
            final(self).refreshed_at == old(self).refreshed_at,
    {
        let ids: Vec<String> = self.held(now, hold_seconds);
        remove_items(&mut self.items, &ids);
        let ghost all = self.scrolls@;
        let ghost gone = text::views(ids@);
        let mut i: usize = 0;
        proof {
            assert(all.remove_keys(gone.take(0).to_set()) =~= all);
        }
        while i < ids.len()
            invariant
                i <= ids@.len(),
                gone == text::views(ids@),
                self.wf(),
                self.scrolls@ == all.remove_keys(gone.take(i as int).to_set()),
                self.items@ == old(self).items@.filter(
                    |item: LiveRequestSnapshot| !gone.contains(item.id@),
                ),
                self.last_seen_version == old(self).last_seen_version,
                self.refreshed_at == old(self).refreshed_at,
            decreases ids@.len() - i,
        {
            let ghost earlier = self.scrolls@;
            self.scrolls.remove(ids[i].as_str());
            proof {
                let shorter = gone.take(i as int);
                let longer = gone.take(i as int + 1);
                assert(longer =~= shorter.push(ids@[i as int]@));
                assert forall|k: Seq<char>| longer.to_set().contains(k) <==> shorter.to_set().contains(k)
                    || k == ids@[i as int]@ by {
                    if shorter.contains(k) {
                        let j = choose|j: int| 0 <= j < shorter.len() && shorter[j] == k;
                        assert(longer[j] == k);
                    }
                    if k == ids@[i as int]@ {
                        assert(longer[i as int] == k);
                    }
                    if longer.contains(k) {
                        let j = choose|j: int| 0 <= j < longer.len() && longer[j] == k;
                        if j < i {
                            assert(shorter[j] == k);
                        }
                    }
                }
                assert(self.scrolls@ =~= all.remove_keys(longer.to_set()));
                assert forall|id: Seq<char>| #[trigger] self.scrolls@.contains_key(id) implies
                    self.scrolls@[id].wf() by {
                    assert(earlier.contains_key(id));
                }
            }
            i = i + 1;
        }
        proof {
            assert(gone.take(gone.len() as int) =~= gone);
        }
        ids
    }

    /// Whether any text still scrolls.
    pub open spec fn scrolling(&self) -> bool {
        exists|i: int|
            0 <= i < self.scrolls.entries().len() && scroll::lags(
                (#[trigger] self.scrolls.entries()[i]).1,
            )
    }

    fn needs_scroll(&self) -> (r: bool)
        requires
            self.wf(),
        ensures
            r == self.scrolling(),
    {
        let mut i: usize = 0;
        while i < self.scrolls.len()
            invariant
                i <= self.scrolls.entries().len(),
                self.wf(),
                forall|j: int|
                    0 <= j < i ==> !scroll::lags((#[trigger] self.scrolls.entries()[j]).1),
            decreases self.scrolls.entries().len() - i,
        {
            proof {
                self.scrolls.lemma_entry(i as int);
            }
            if self.scrolls.at(i).1.needs_scroll() {
                assert(scroll::lags(self.scrolls.entries()[i as int].1));
                return true;
            }
            i = i + 1;
        }
        false
    }

    /// Whether a request is kept until it was shown long enough.
    pub open spec fn holding(&self) -> bool {
        exists|i: int| 0 <= i < self.items@.len() && (#[trigger] self.items@[i]).finished_at is Some
    }

    /// Whether the rate of a request changes.
    pub open spec fn rating(&self) -> bool {
        exists|i: int| 0 <= i < self.items@.len() && has_rate(&#[trigger] self.items@[i])
    }

    /// The milliseconds until the next frame, where one is needed: few where a
    /// text scrolls in sight.
    pub fn repaint_millis(&self, in_sight: bool) -> (r: Option<u64>)
        requires
            self.wf(),
        ensures
            r == if self.scrolling() || self.holding() || self.rating() {
                Some(
                    if in_sight && self.scrolling() {
                        LIVE_ANIMATION_MILLIS
                    } else {
                        LIVE_BACKGROUND_MILLIS
                    },
                )
            } else {
                None
            },
    {
        let scrolls: bool = self.needs_scroll();
        let mut holds: bool = false;
        let mut rates: bool = false;
        let mut i: usize = 0;
        while i < self.items.len()
            invariant
                i <= self.items@.len(),
                holds == (exists|j: int|
                    0 <= j < i && (#[trigger] self.items@[j]).finished_at is Some),
                rates == (exists|j: int| 0 <= j < i && has_rate(&#[trigger] self.items@[j])),
            decreases self.items@.len() - i,
        {
            let ghost here = self.items@[i as int];
            let item: &LiveRequestSnapshot = &self.items[i];
            if item.finished_at.is_some() {
                assert(self.items@[i as int].finished_at is Some);
                holds = true;
            } else if item.response_state == LiveResponseState::Streaming
                && item.output_rate.is_some() {
                assert(has_rate(&self.items@[i as int]));
                rates = true;
            }
            i = i + 1;
        }
        if scrolls || holds || rates {
            if in_sight && scrolls {
                Some(LIVE_ANIMATION_MILLIS)
            } else {
                Some(LIVE_BACKGROUND_MILLIS)
            }
        } else {
            None
        }
    }
}

/// Whether the rate of a request changes: while its answer comes in.
pub open spec fn has_rate(item: &LiveRequestSnapshot) -> bool {
    item.finished_at is None && item.response_state == LiveResponseState::Streaming
        && item.output_rate is Some
}

fn contains_id(ids: &Vec<String>, id: &str) -> (r: bool)
    ensures
        r == text::views(ids@).contains(id@),
{
    let ghost all = text::views(ids@);
    let mut i: usize = 0;
    while i < ids.len()
        invariant
            i <= ids@.len(),
            all == text::views(ids@),
            forall|j: int| 0 <= j < i ==> (#[trigger] all[j]) != id@,
        decreases ids@.len() - i,
    {
        if text::same(ids[i].as_str(), id) {
            assert(all[i as int] == id@);
            return true;
        }
        assert(all[i as int] == ids@[i as int]@);
        i = i + 1;
    }
    false
}

fn remove_items(items: &mut Vec<LiveRequestSnapshot>, ids: &Vec<String>)
    ensures
        final(items)@ == old(items)@.filter(
            |item: LiveRequestSnapshot| !text::views(ids@).contains(item.id@),
        ),
{
    let ghost all = items@;
    let ghost keeps = |item: LiveRequestSnapshot| !text::views(ids@).contains(item.id@);
    let mut i: usize = items.len();
    proof {
        assert(all.take(i as int) =~= all);
        assert(items@.skip(i as int) =~= Seq::empty());
        assert(all.filter(keeps) + Seq::<LiveRequestSnapshot>::empty() =~= all.filter(keeps));
    }
    while i > 0
        invariant
            i <= all.len(),
            i <= items@.len(),
            keeps == (|item: LiveRequestSnapshot| !text::views(ids@).contains(item.id@)),
            items@.take(i as int) == all.take(i as int),
            all.filter(keeps) == all.take(i as int).filter(keeps) + items@.skip(i as int),
        decreases i,
    {
        let ghost before = items@;
        i = i - 1;
        proof {
            let longer = all.take(i as int + 1);
            assert(longer.drop_last() =~= all.take(i as int));
            assert(before[i as int] == before.take(i as int + 1)[i as int]);
            assert(longer.last() == before[i as int]);
            reveal(Seq::filter);
            assert forall|j: int| 0 <= j < i implies before[j] == all[j] by {
                assert(before.take(i as int + 1)[j] == all.take(i as int + 1)[j]);
            }
        }
        if contains_id(ids, items[i].id.as_str()) {
            items.remove(i);
            proof {
                assert(items@.skip(i as int) =~= before.skip(i as int + 1));
                assert(items@.take(i as int) =~= all.take(i as int));
            }
        } else {
            proof {
                assert(before.skip(i as int) =~= seq![before[i as int]] + before.skip(
                    i as int + 1,
                ));
                assert(all.take(i as int).filter(keeps).push(before[i as int]) + before.skip(
                    i as int + 1,
                ) =~= all.take(i as int).filter(keeps) + before.skip(i as int));
                assert(before.take(i as int) =~= all.take(i as int));
            }
        }
    }
    proof {
        assert(all.take(0) =~= Seq::empty());
        reveal(Seq::filter);
        assert(items@.skip(0) =~= items@);
        assert(all.filter(keeps) =~= items@);
    }
}

/// The number of requests that have not ended, from the front.
pub open spec fn running(items: Seq<LiveRequestSnapshot>) -> nat
    decreases items.len(),
{
    if items.len() == 0 {
        0
    } else {
        running(items.drop_last()) + if items.last().finished_at is None {
            1nat
        } else {
            0
        }
    }
}

/// The number of requests that have not ended.
pub fn active_connection_count(items: &Vec<LiveRequestSnapshot>) -> (r: usize)
    ensures
        r == running(items@),
{
    let mut count: usize = 0;
    let mut i: usize = 0;
    while i < items.len()
        invariant
            i <= items@.len(),
            count <= i,
            count == running(items@.take(i as int)),
        decreases items@.len() - i,
    {
        proof {
            assert(items@.take(i as int + 1).drop_last() =~= items@.take(i as int));
        }
        if items[i].finished_at.is_none() {
            count = count + 1;
        }
        i = i + 1;
    }
    proof {
        assert(items@.take(items@.len() as int) =~= items@);
    }
    count
}

/// The part of an answer that is in sight: up to where it has scrolled, and no
/// longer than the window.
pub open spec fn window_text(
    item: &LiveRequestSnapshot,
    state: LiveTailScrollState,
    max_chars: nat,
) -> Seq<char> {
    let low = item.tail_start_char_index as int;
    let high = item.tail_end_char_index as int;
    let reached = double::whole_of(state.visible_end_char_index, usize::MAX as nat) as int;
    let end = if reached < low {
        low
    } else if reached > high {
        high
    } else {
        reached
    };
    let start = if end - max_chars > low {
        end - max_chars
    } else {
        low
    };
    characters(item.tail@, start - low, end - low)
}

/// The characters of a text from one place to another, as far as there are
/// any.
pub open spec fn characters(s: Seq<char>, from: int, to: int) -> Seq<char> {
    let a = if from > s.len() {
        s.len() as int
    } else {
        from
    };
    let b = if to > s.len() {
        s.len() as int
    } else {
        to
    };
    s.subrange(a, b)
}

/// The characters of a text from one place to another.
pub fn char_slice(s: &str, start: usize, end: usize) -> (r: String)
    requires
        start <= end || s@.len() <= end,
    ensures
        r@ == characters(s@, start as int, end as int),
{
    let chars: Vec<char> = text::to_chars(s);
    let a: usize = if start > chars.len() {
        chars.len()
    } else {
        start
    };
    let b: usize = if end > chars.len() {
        chars.len()
    } else {
        end
    };
    text::slice_chars(&chars, a, b)
}

/// The part of an answer that is in sight.
pub fn visible_tail_window(
    item: &LiveRequestSnapshot,
    state: LiveTailScrollState,
    max_chars: usize,
) -> (r: String)
    requires
        state.wf(),
        item.tail_start_char_index <= item.tail_end_char_index,
    ensures
        r@ == window_text(item, state, max_chars as nat),
{
    let low: usize = item.tail_start_char_index;
    let high: usize = item.tail_end_char_index;
    let reached: usize = state.visible_end_char_index.to_usize();
    let end: usize = if reached < low {
        low
    } else if reached > high {
        high
    } else {
        reached
    };
    let start: usize = if end >= max_chars && end - max_chars > low {
        end - max_chars
    } else {
        low
    };
    char_slice(item.tail.as_str(), start - low, end - low)
}

/// What is shown of an answer.
pub open spec fn tail_text(
    item: &LiveRequestSnapshot,
    state: LiveTailScrollState,
    max_chars: nat,
) -> Seq<char> {
    match item.response_state {
        LiveResponseState::AwaitingHeaders => "请求中"@,
        LiveResponseState::NonStreaming => "非流式"@,
        LiveResponseState::Streaming => if item.tail@.len() == 0 {
            "等待输出"@
        } else {
            window_text(item, state, max_chars)
        },
    }
}

/// What is shown of an answer, and of all of it where the pointer rests.
pub fn live_tail_texts(item: &LiveRequestSnapshot, state: LiveTailScrollState, max_chars: usize) -> (r: (
    String,
    String,
))
    requires
        state.wf(),
        item.tail_start_char_index <= item.tail_end_char_index,
    ensures
        r.0@ == tail_text(item, state, max_chars as nat),
        r.1@ == if item.hover_output@.len() == 0 {
            tail_text(item, state, max_chars as nat)
        } else {
            item.hover_output@
        },
{
    let shown: String = match item.response_state {
        LiveResponseState::AwaitingHeaders => "请求中".to_string(),
        LiveResponseState::NonStreaming => "非流式".to_string(),
        LiveResponseState::Streaming => if text::is_empty(item.tail.as_str()) {
            "等待输出".to_string()
        } else {
            visible_tail_window(item, state, max_chars)
        },
    };
    let hover: String = if text::is_empty(item.hover_output.as_str()) {
        shown.clone()
    } else {
        item.hover_output.clone()
    };
    (shown, hover)
}

/// How fast an answer comes in, and how fast in characters where the pointer
/// rests.
pub fn output_speed_texts(rate: Option<LiveOutputRate>) -> (r: (String, Option<String>))
    requires
        rate matches Some(rate) ==> rate.estimated_tokens_per_second.wf()
            && rate.chars_per_second.wf(),
    ensures
        match rate {
            Some(rate) => r.0@ == "~"@ + double::fixed(rate.estimated_tokens_per_second, 1)
                + " tps"@ && text::opt_view(r.1) == Some(
                "字符速度: "@ + double::fixed(rate.chars_per_second, 1) + " 字符/秒"@,
            ),
            None => r.0@ == "-"@ && r.1 is None,
        },
{
    match rate {
        Some(rate) => {
            let tokens: String = rate.estimated_tokens_per_second.to_fixed(1);
            let chars: String = rate.chars_per_second.to_fixed(1);
            (
                text::concat3("~", tokens.as_str(), " tps"),
                Some(text::concat3("字符速度: ", chars.as_str(), " 字符/秒")),
            )
        },
        None => ("-".to_string(), None),
    }
}

/// The label of the button that ends a request.
pub fn terminate_text(item: &LiveRequestSnapshot) -> (r: &'static str)
    ensures
        r@ == if item.finished_at is Some {
            "已关闭"@
        } else if item.terminating {
            "终止中"@
        } else {
            "终止"@
        },
{
    if item.finished_at.is_some() {
        "已关闭"
    } else if item.terminating {
        "终止中"
    } else {
        "终止"
    }
}

/// What the button that ends a request says where the pointer rests.
pub fn terminate_hover_text(item: &LiveRequestSnapshot) -> (r: &'static str)
    ensures
        r@ == if item.finished_at is Some {
            "连接已经关闭"@
        } else {
            "直接终止该活跃请求"@
        },
{
    if item.finished_at.is_some() {
        "连接已经关闭"
    } else {
        "直接终止该活跃请求"
    }
}

/// Whether a request can be ended.
pub fn can_terminate(item: &LiveRequestSnapshot) -> (r: bool)
    ensures
        r == (!item.terminating && item.finished_at is None),
{
    !item.terminating && item.finished_at.is_none()
}

/// The whole seconds from one point in time to another; none where the second
/// comes first.
pub open spec fn seconds_until(from: Timestamp, to: Timestamp) -> int {
    let whole = to.seconds - from.seconds - if to.nanos < from.nanos {
        1int
    } else {
        0
    };
    if whole > 0 {
        whole
    } else {
        0
    }
}

/// A number of seconds, in minutes from one of them on.
pub open spec fn elapsed_text(seconds: int) -> Seq<char> {
    if seconds < 60 {
        number::int_text(seconds) + "s"@
    } else {
        number::int_text(seconds / 60) + "m "@ + number::int_text(seconds % 60) + "s"@
    }
}

/// The time until which a request has run by some time, or ran.
pub open spec fn ran_until(item: &LiveRequestSnapshot, now: Timestamp) -> Timestamp {
    match item.finished_at {
        Some(at) => at,
        None => now,
    }
}

/// How long a request has run by some time, or ran.
pub fn elapsed_at(item: &LiveRequestSnapshot, now: Timestamp) -> (r: String)
    requires
        !clock::beyond_calendar(item.started_at.seconds),
        !clock::beyond_calendar(ran_until(item, now).seconds),
    ensures
        r@ == elapsed_text(seconds_until(item.started_at, ran_until(item, now))),
{
    let ended: Timestamp = match item.finished_at {
        Some(at) => at,
        None => now,
    };
    let borrowed: i64 = if ended.nanos < item.started_at.nanos {
        1
    } else {
        0
    };
    let whole: i64 = ended.seconds - item.started_at.seconds - borrowed;
    let seconds: i64 = if whole > 0 {
        whole
    } else {
        0
    };
    if seconds < 60 {
        text::concat(number::i64_text(seconds).as_str(), "s")
    } else {
        text::concat4(
            number::i64_text(seconds / 60).as_str(),
            "m ",
            number::i64_text(seconds % 60).as_str(),
            "s",
        )
    }
}

/// How long a request has run by now, or ran.
pub fn format_elapsed(item: &LiveRequestSnapshot) -> (r: String)
    requires
        !clock::beyond_calendar(item.started_at.seconds),
        item.finished_at matches Some(at) ==> !clock::beyond_calendar(at.seconds),
    ensures
        exists|now: Timestamp|
            clock::is_now(now) && r@ == elapsed_text(
                seconds_until(item.started_at, #[trigger] ran_until(item, now)),
            ),
{
    let now: Timestamp = clock::utc_now();
    elapsed_at(item, now)
}

/// A time of day.
pub open spec fn clock_text(t: CivilTime) -> Seq<char> {
    number::padded_text(t.hour as nat, 2) + ":"@ + number::padded_text(t.minute as nat, 2) + ":"@
        + number::padded_text(t.second as nat, 2)
}

/// A time of day.
pub fn format_clock(t: CivilTime) -> (r: String)
    ensures
        r@ == clock_text(t),
{
    let hour: String = number::padded(t.hour as u64, 2);
    let minute: String = number::padded(t.minute as u64, 2);
    let second: String = number::padded(t.second as u64, 2);
    let head: String = text::concat3(hour.as_str(), ":", minute.as_str());
    text::concat3(head.as_str(), ":", second.as_str())
}

/// When a request started, as the machine's time zone shows it.
pub fn format_started_at(item: &LiveRequestSnapshot) -> (r: String)
    requires
        clock::in_calendar(item.started_at.seconds),
        item.started_at.nanos < 1_000_000_000,
    ensures
        exists|t: CivilTime|
            t.wf() && clock::shown_at(t, item.started_at.seconds) && r@ == #[trigger] clock_text(t),
{
    format_clock(clock::utc_to_local(item.started_at))
}

/// What is said after a request was to be ended.
pub fn terminate_status(found: bool) -> (r: &'static str)
    ensures
        r@ == if found {
            "正在终止活跃请求"@
        } else {
            "活跃请求已经结束"@
        },
{
    if found {
        "正在终止活跃请求"
    } else {
        "活跃请求已经结束"
    }
}

/// Only requests that there are have an entry once they were taken in.
pub proof fn law_entries_are_of_requests(
    scrolls: Map<Seq<char>, LiveTailScrollState>,
    items: Seq<LiveRequestSnapshot>,
    settings: LiveOutputSettings,
    now: u128,
    id: Seq<char>,
)
    ensures
        kept(synced_all(scrolls, items, settings, now), items).contains_key(id) <==> has_id(
            items,
            id,
        ),
{
    if has_id(items, id) {
        let i = choose|i: int| 0 <= i < items.len() && (#[trigger] items[i]).id@ == id;
        lemma_synced_has(scrolls, items, settings, now, i);
    }
}

proof fn lemma_synced_has(
    scrolls: Map<Seq<char>, LiveTailScrollState>,
    items: Seq<LiveRequestSnapshot>,
    settings: LiveOutputSettings,
    now: u128,
    i: int,
)
    requires
        0 <= i < items.len(),
    ensures
        synced_all(scrolls, items, settings, now).contains_key(items[i].id@),
    decreases items.len(),
{
    if i < items.len() - 1 {
        lemma_synced_has(scrolls, items.drop_last(), settings, now, i);
        assert(items.drop_last()[i] == items[i]);
    }
}

/// A request that runs is never dropped.
pub proof fn law_running_requests_stay(
    items: Seq<LiveRequestSnapshot>,
    scrolls: Map<Seq<char>, LiveTailScrollState>,
    now: u128,
    hold_seconds: u32,
    id: Seq<char>,
)
    requires
        forall|i: int|
            0 <= i < items.len() && (#[trigger] items[i]).id@ == id ==> items[i].finished_at
                is None,
    ensures
        !held_ids(items, scrolls, now, hold_seconds).contains(id),
    decreases items.len(),
{
    if items.len() > 0 {
        let shorter = items.drop_last();
        assert forall|i: int| 0 <= i < shorter.len() && (#[trigger] shorter[i]).id@ == id implies shorter[i].finished_at
            is None by {
            assert(items[i].id@ == id);
        }
        law_running_requests_stay(shorter, scrolls, now, hold_seconds, id);
        assert(items[items.len() - 1] == items.last());
        let earlier = held_ids(shorter, scrolls, now, hold_seconds);
        let all = held_ids(items, scrolls, now, hold_seconds);
        if all.contains(id) {
            let j = choose|j: int| 0 <= j < all.len() && all[j] == id;
            if j < earlier.len() {
                assert(earlier[j] == id);
            }
        }
    }
}

/// The requests that have not ended are counted, and no others.
pub proof fn law_running_requests_are_counted(
    items: Seq<LiveRequestSnapshot>,
    item: LiveRequestSnapshot,
)
    ensures
        item.finished_at is None ==> running(items.push(item)) == running(items) + 1,
        item.finished_at is Some ==> running(items.push(item)) == running(items),
        items.len() == 0 ==> running(items) == 0,
        running(items) <= items.len(),
    decreases items.len(),
{
    assert(items.push(item).drop_last() =~= items);
    if items.len() > 0 {
        law_running_requests_are_counted(items.drop_last(), item);
    }
}

/// A finished request is dropped exactly where its text stood at its end for as
/// long as it is to be held.
pub proof fn law_finished_requests_are_held(
    items: Seq<LiveRequestSnapshot>,
    item: LiveRequestSnapshot,
    scrolls: Map<Seq<char>, LiveTailScrollState>,
    now: u128,
    hold_seconds: u32,
)
    ensures
        ({
            let before = held_ids(items, scrolls, now, hold_seconds);
            let after = held_ids(items.push(item), scrolls, now, hold_seconds);
            if item.finished_at is Some && scrolls.contains_key(item.id@) && (
            scrolls[item.id@].reached_end_at matches Some(at) && at + hold_seconds * 1_000_000_000
                <= now) {
                after == before.push(item.id@)
            } else if hold_seconds > 0 {
                after == before
            } else {
                true
            }
        }),
{
    assert(items.push(item).drop_last() =~= items);
}

/// What is in sight of an answer is a part of its tail, no longer than the
/// window; a text that has scrolled to its end shows its end.
pub proof fn law_window_shows_a_part_of_the_tail(
    item: &LiveRequestSnapshot,
    state: LiveTailScrollState,
    max_chars: nat,
)
    requires
        item.tail@.len() == item.tail_end_char_index - item.tail_start_char_index,
    ensures
        window_text(item, state, max_chars).len() <= max_chars,
        ({
            let reached = double::whole_of(state.visible_end_char_index, usize::MAX as nat);
            let n = item.tail@.len() as int;
            &&& reached >= item.tail_end_char_index && max_chars <= n ==> window_text(
                item,
                state,
                max_chars,
            ) == item.tail@.skip(n - max_chars)
            &&& reached >= item.tail_end_char_index && max_chars >= n ==> window_text(
                item,
                state,
                max_chars,
            ) == item.tail@
            &&& reached <= item.tail_start_char_index ==> window_text(
                item,
                state,
                max_chars,
            ).len() == 0
            &&& item.tail_start_char_index <= reached <= item.tail_end_char_index && max_chars >= n
                ==> window_text(item, state, max_chars) == item.tail@.take(
                reached - item.tail_start_char_index,
            )
        }),
{
    let reached = double::whole_of(state.visible_end_char_index, usize::MAX as nat);
    let n = item.tail@.len() as int;
    if reached >= item.tail_end_char_index && max_chars <= n {
        assert(window_text(item, state, max_chars) =~= item.tail@.skip(n - max_chars));
    }
    if reached >= item.tail_end_char_index && max_chars >= n {
        assert(window_text(item, state, max_chars) =~= item.tail@);
    }
    if item.tail_start_char_index <= reached <= item.tail_end_char_index && max_chars >= n {
        assert(window_text(item, state, max_chars) =~= item.tail@.take(
            reached - item.tail_start_char_index,
        ));
    }
}

/// The seconds that a request has run are whole seconds that have passed, and
/// the next one has not; none are counted backwards.
pub proof fn law_elapsed_seconds_have_passed(from: Timestamp, to: Timestamp)
    requires
        from.nanos < 1_000_000_000,
        to.nanos < 1_000_000_000,
    ensures
        ({
            let a = from.seconds * 1_000_000_000 + from.nanos;
            let b = to.seconds * 1_000_000_000 + to.nanos;
            &&& a <= b ==> seconds_until(from, to) * 1_000_000_000 <= b - a && b - a < (
            seconds_until(from, to) + 1) * 1_000_000_000
            &&& b <= a ==> seconds_until(from, to) == 0
        }),
{
}

/// Minutes and seconds are shown of a minute or more, seconds of less.
pub proof fn law_elapsed_is_shown_in_minutes(minutes: int, seconds: int)
    requires
        0 <= minutes,
        0 <= seconds < 60,
    ensures
        elapsed_text(seconds) == number::int_text(seconds) + "s"@,
        minutes > 0 ==> elapsed_text(minutes * 60 + seconds) == number::int_text(minutes)
            + "m "@ + number::int_text(seconds) + "s"@,
{
    let t: int = minutes * 60 + seconds;
    assert(t / 60 == minutes && t % 60 == seconds);
}

/// A request that has ended is timed to its end, whatever the time is; one that
/// runs to the present.
pub proof fn law_finished_request_is_timed_to_its_end(
    item: &LiveRequestSnapshot,
    now: Timestamp,
    later: Timestamp,
)
    ensures
        item.finished_at is None ==> ran_until(item, now) == now,
        item.finished_at matches Some(at) ==> ran_until(item, now) == at,
        item.finished_at is Some ==> ran_until(item, now) == ran_until(item, later),
{
}

/// A number is held between its bounds, and stays where it is within them.
pub proof fn law_settings_are_held_within_bounds(n: u32, low: u32, high: u32)
    requires
        low <= high,
    ensures
        low <= held_between(n, low, high) <= high,
        low <= n <= high ==> held_between(n, low, high) == n,
        n <= low ==> held_between(n, low, high) == low,
        n >= high ==> held_between(n, low, high) == high,
{
}

/// Before the answer begins it is said to be asked for; an answer that does not
/// stream is said not to, and a streaming one is shown as far as it has come.
pub proof fn law_answer_is_shown_by_its_state(
    item: &LiveRequestSnapshot,
    state: LiveTailScrollState,
    max_chars: nat,
)
    ensures
        item.response_state == LiveResponseState::AwaitingHeaders ==> tail_text(
            item,
            state,
            max_chars,
        ) == "请求中"@,
        item.response_state == LiveResponseState::NonStreaming ==> tail_text(item, state, max_chars)
            == "非流式"@,
        item.response_state == LiveResponseState::Streaming && item.tail@.len() == 0 ==> tail_text(
            item,
            state,
            max_chars,
        ) == "等待输出"@,
        item.response_state == LiveResponseState::Streaming && item.tail@.len() > 0 ==> tail_text(
            item,
            state,
            max_chars,
        ) == window_text(item, state, max_chars),
        has_rate(item) ==> item.finished_at is None && item.output_rate is Some,
        item.finished_at is Some ==> !has_rate(item),
{
}

} // verus!
