//! Market simulator for backtesting: indexes market events in time
//! order and exposes chronological advancement. Each advancement step
//! returns every event at the next instant together (multi-symbol
//! barrier semantics), never a partial cross-section.

use vstd::prelude::*;
use vstd::string::StringSliceAdditionalSpecFns;

use crate::decimal::{div_m, Dec};
use crate::errors::{DataError, GbError, GbResult};
use crate::host;
use crate::market::{Bar, MarketEvent, MarketHours, Resolution, Symbol, SymbolV};
use crate::symtab::{has_sym_in, keys_unique, tab_get, tab_insert};

verus! {

/// Lexicographic byte order, as `str` comparison orders strings.
pub open spec fn lex_le(a: Seq<u8>, b: Seq<u8>) -> bool
    decreases a.len(),
{
    if a.len() == 0 {
        true
    } else if b.len() == 0 {
        false
    } else if a.first() < b.first() {
        true
    } else if a.first() > b.first() {
        false
    } else {
        lex_le(a.drop_first(), b.drop_first())
    }
}

/// Lexicographic order is total.
pub proof fn lemma_lex_total(a: Seq<u8>, b: Seq<u8>)
    ensures
        lex_le(a, b) || lex_le(b, a),
    decreases a.len(),
{
    if a.len() != 0 && b.len() != 0 && a.first() == b.first() {
        lemma_lex_total(a.drop_first(), b.drop_first());
    }
}

/// Lexicographic order is transitive.
pub proof fn lemma_lex_trans(a: Seq<u8>, b: Seq<u8>, c: Seq<u8>)
    requires
        lex_le(a, b),
        lex_le(b, c),
    ensures
        lex_le(a, c),
    decreases a.len(),
{
    if a.len() != 0 && b.len() != 0 && c.len() != 0 && a.first() == b.first() && b.first()
        == c.first() {
        lemma_lex_trans(a.drop_first(), b.drop_first(), c.drop_first());
    }
}

/// Compare two strings in byte order.
pub fn str_le(a: &str, b: &str) -> (r: bool)
    ensures
        r == lex_le(a.spec_bytes(), b.spec_bytes()),
{
    let ab = a.as_bytes();
    let bb = b.as_bytes();
    let mut i: usize = 0;
    proof {
        assert(ab@.skip(0) =~= ab@);
        assert(bb@.skip(0) =~= bb@);
    }
    while i < ab.len() && i < bb.len()
        invariant
            i <= ab@.len(),
            i <= bb@.len(),
            ab@ == a.spec_bytes(),
            bb@ == b.spec_bytes(),
            lex_le(ab@.skip(i as int), bb@.skip(i as int)) == lex_le(ab@, bb@),
            forall|k: int| 0 <= k < i ==> ab@[k] == bb@[k],
        decreases ab@.len() - i,
    {
        proof {
            assert(ab@.skip(i as int).first() == ab@[i as int]);
            assert(bb@.skip(i as int).first() == bb@[i as int]);
            assert(ab@.skip(i as int).drop_first() =~= ab@.skip(i as int + 1));
            assert(bb@.skip(i as int).drop_first() =~= bb@.skip(i as int + 1));
        }
        if ab[i] < bb[i] {
            return true;
        }
        if ab[i] > bb[i] {
            return false;
        }
        i += 1;
    }
    proof {
        if i >= ab@.len() {
            assert(ab@.skip(i as int).len() == 0);
        } else {
            assert(bb@.skip(i as int).len() == 0);
            assert(ab@.skip(i as int).len() != 0);
        }
    }
    i >= ab.len()
}

/// A market event tagged with its timestamp for ordering.
#[derive(Debug)]
pub struct TimestampedEvent {
    pub timestamp: i64,
    pub symbol: Symbol,
    pub event: MarketEvent,
}

impl Clone for TimestampedEvent {
    fn clone(&self) -> (res: TimestampedEvent)
        ensures
            res == *self,
    {
        TimestampedEvent {
            timestamp: self.timestamp,
            symbol: self.symbol.clone(),
            event: self.event.clone(),
        }
    }
}

/// Chronological order on events, ties broken by ticker for
/// determinism.
pub open spec fn ev_le(a: TimestampedEvent, b: TimestampedEvent) -> bool {
    a.timestamp < b.timestamp || (a.timestamp == b.timestamp && lex_le(
        vstd::utf8::encode_utf8(a.symbol.symbol@),
        vstd::utf8::encode_utf8(b.symbol.symbol@),
    ))
}

/// Event order is total.
pub proof fn lemma_ev_total(a: TimestampedEvent, b: TimestampedEvent)
    ensures
        ev_le(a, b) || ev_le(b, a),
{
    lemma_lex_total(
        vstd::utf8::encode_utf8(a.symbol.symbol@),
        vstd::utf8::encode_utf8(b.symbol.symbol@),
    );
}

/// Event order is transitive.
pub proof fn lemma_ev_trans(a: TimestampedEvent, b: TimestampedEvent, c: TimestampedEvent)
    requires
        ev_le(a, b),
        ev_le(b, c),
    ensures
        ev_le(a, c),
{
    if a.timestamp == b.timestamp && b.timestamp == c.timestamp {
        lemma_lex_trans(
            vstd::utf8::encode_utf8(a.symbol.symbol@),
            vstd::utf8::encode_utf8(b.symbol.symbol@),
            vstd::utf8::encode_utf8(c.symbol.symbol@),
        );
    }
}

/// Compare two events in simulation order.
pub fn event_le(a: &TimestampedEvent, b: &TimestampedEvent) -> (r: bool)
    ensures
        r == ev_le(*a, *b),
{
    if a.timestamp < b.timestamp {
        true
    } else if a.timestamp == b.timestamp {
        str_le(a.symbol.symbol.as_str(), b.symbol.symbol.as_str())
    } else {
        false
    }
}

/// Pairwise sortedness in event order.
pub open spec fn ev_sorted(s: Seq<TimestampedEvent>) -> bool {
    forall|i: int, j: int| 0 <= i < j < s.len() ==> ev_le(#[trigger] s[i], #[trigger] s[j])
}

/// Simulation statistics.
#[derive(Debug, Clone, Copy, PartialEq, Eq, Structural)]
pub struct SimulationStats {
    pub total_symbols: usize,
    pub total_events: usize,
    pub time_span_days: i64,
    pub current_progress: Dec,
    pub is_complete: bool,
}

/// Market simulator: a time-ordered index of all market events with a
/// cursor for chronological advancement.
#[derive(Debug)]
pub struct MarketSimulator {
    events: Vec<TimestampedEvent>,
    current_data: Vec<(Symbol, Bar)>,
    current_time: Option<i64>,
    symbols: Vec<Symbol>,
    resolution: Resolution,
    market_hours: MarketHours,
}

impl MarketSimulator {
    pub closed spec fn events_seq(self) -> Seq<TimestampedEvent> {
        self.events@
    }

    pub closed spec fn time_spec(self) -> Option<i64> {
        self.current_time
    }

    pub closed spec fn data_tab(self) -> Seq<(Symbol, Bar)> {
        self.current_data@
    }

    pub closed spec fn symbols_seq(self) -> Seq<Symbol> {
        self.symbols@
    }

    pub closed spec fn hours_spec(self) -> MarketHours {
        self.market_hours
    }

    pub closed spec fn resolution_spec(self) -> Resolution {
        self.resolution
    }

    pub open spec fn wf(self) -> bool {
        &&& ev_sorted(self.events_seq())
        &&& keys_unique(self.data_tab())
        &&& (forall|i: int|
            0 <= i < self.events_seq().len() ==> 0 <= (#[trigger] self.events_seq()[i]).timestamp)
        &&& (forall|i: int, j: int|
            0 <= i < j < self.symbols_seq().len() ==> (#[trigger] self.symbols_seq()[i])@ != (
            #[trigger] self.symbols_seq()[j])@)
    }

    pub fn new() -> (r: MarketSimulator)
        ensures
            r.wf(),
            r.events_seq().len() == 0,
            r.time_spec() is None,
            r.data_tab().len() == 0,
            r.symbols_seq().len() == 0,
    {
        MarketSimulator {
            events: Vec::new(),
            current_data: Vec::new(),
            current_time: None,
            symbols: Vec::new(),
            resolution: Resolution::Day,
            market_hours: MarketHours::default(),
        }
    }

    /// Configure market hours.
    pub fn with_market_hours(self, market_hours: MarketHours) -> (r: MarketSimulator)
        ensures
            r.hours_spec() == market_hours,
            r.events_seq() == self.events_seq(),
            r.time_spec() == self.time_spec(),
            r.symbols_seq() == self.symbols_seq(),
            r.resolution_spec() == self.resolution_spec(),
            self.wf() ==> r.wf(),
    {
        let r = MarketSimulator { market_hours, ..self };
        proof {
            assert(r.symbols_seq() == self.symbols_seq());
            assert(r.events_seq() == self.events_seq());
            assert(r.data_tab() == self.data_tab());
        }
        r
    }

    /// Set the simulation resolution.
    pub fn with_resolution(self, resolution: Resolution) -> (r: MarketSimulator)
        ensures
            r.resolution_spec() == resolution,
            r.events_seq() == self.events_seq(),
            r.time_spec() == self.time_spec(),
            r.symbols_seq() == self.symbols_seq(),
            r.hours_spec() == self.hours_spec(),
            self.wf() ==> r.wf(),
    {
        let r = MarketSimulator { resolution, ..self };
        proof {
            assert(r.symbols_seq() == self.symbols_seq());
            assert(r.events_seq() == self.events_seq());
            assert(r.data_tab() == self.data_tab());
        }
        r
    }

    /// Add a market data feed: every bar becomes a timestamped event
    /// in the time-ordered index (ties ordered by ticker). An empty
    /// feed is rejected with `InsufficientData`.
    pub fn add_data_feed(&mut self, symbol: Symbol, bars: Vec<Bar>) -> (r: GbResult<()>)
        requires
            old(self).wf(),
            forall|k: int| 0 <= k < bars@.len() ==> 0 <= (#[trigger] bars@[k]).timestamp,
        ensures
            final(self).wf(),
            final(self).time_spec() == old(self).time_spec(),
            if bars@.len() == 0 {
                &&& r is Err
                &&& final(self).events_seq() == old(self).events_seq()
                &&& final(self).symbols_seq() == old(self).symbols_seq()
            } else {
                &&& r is Ok
                &&& final(self).events_seq().len() == old(self).events_seq().len() + bars@.len()
                &&& (has_sym_in(old(self).symbols_seq(), symbol@) ==> final(self).symbols_seq()
                    == old(self).symbols_seq())
                &&& (!has_sym_in(old(self).symbols_seq(), symbol@) ==> final(self).symbols_seq()
                    == old(self).symbols_seq().push(symbol))
                &&& (forall|i: int|
                    0 <= i < old(self).events_seq().len() ==> final(self).events_seq().contains(
                        #[trigger] old(self).events_seq()[i],
                    ))
                &&& forall|i: int|
                    0 <= i < final(self).events_seq().len() ==> old(self).events_seq().contains(
                        #[trigger] final(self).events_seq()[i],
                    ) || exists|k: int|
                        0 <= k < bars@.len() && #[trigger] final(self).events_seq()[i] == (
                        TimestampedEvent {
                            timestamp: bars@[k].timestamp,
                            symbol: bars@[k].symbol,
                            event: MarketEvent::Bar(bars@[k]),
                        })
                &&& forall|k: int|
                    0 <= k < bars@.len() ==> final(self).events_seq().contains(
                        TimestampedEvent {
                            timestamp: (#[trigger] bars@[k]).timestamp,
                            symbol: bars@[k].symbol,
                            event: MarketEvent::Bar(bars@[k]),
                        },
                    )
            },
    {
        if bars.len() == 0 {
            return Err(
                GbError::Data(
                    DataError::InsufficientData {
                        message: "no data provided for symbol".to_owned(),
                    },
                ),
            );
        }

        // Track the symbol: it is registered exactly once across
        // repeated feeds.
        let ghost syms0 = self.symbols@;
        let mut have = false;
        let mut t: usize = 0;
        while t < self.symbols.len()
            invariant
                t <= self.symbols@.len(),
                self.symbols@ == syms0,
                have ==> has_sym_in(syms0, symbol@),
                !have ==> forall|j: int| 0 <= j < t ==> (#[trigger] syms0[j])@ != symbol@,
            decreases self.symbols@.len() - t,
        {
            if self.symbols[t] == symbol {
                proof {
                    assert(syms0[t as int]@ == symbol@);
                }
                have = true;
                t = self.symbols.len();
            } else {
                t += 1;
            }
        }
        if !have {
            proof {
                assert(!has_sym_in(syms0, symbol@));
            }
            self.symbols.push(symbol.clone());
            proof {
                assert(self.symbols@ =~= syms0.push(symbol));
                assert forall|i: int, j: int|
                    0 <= i < j < self.symbols@.len() implies (#[trigger] self.symbols@[i])@ != (
                #[trigger] self.symbols@[j])@ by {
                    assert(syms0 == old(self).symbols_seq());
                    if j < syms0.len() {
                        assert(self.symbols@[i] == syms0[i] && self.symbols@[j] == syms0[j]);
                        assert((old(self).symbols_seq()[i])@ != (old(self).symbols_seq()[j])@);
                    } else {
                        assert(self.symbols@[i] == syms0[i]);
                        assert(self.symbols@[j]@ == symbol@);
                        assert((old(self).symbols_seq()[i])@ != symbol@);
                    }
                }
            }
        }

        let ghost e0 = self.events@;
        let mut k: usize = 0;
        while k < bars.len()
            invariant
                k <= bars@.len(),
                ev_sorted(self.events@),
                forall|i: int|
                    0 <= i < self.events@.len() ==> 0 <= (#[trigger] self.events@[i]).timestamp,
                keys_unique(self.current_data@),
                self.events@.len() == e0.len() + k,
                self.current_time == old(self).current_time,
                self.current_data@ == old(self).current_data@,
                forall|kk: int| 0 <= kk < bars@.len() ==> 0 <= (#[trigger] bars@[kk]).timestamp,
                forall|i: int|
                    0 <= i < self.events@.len() ==> e0.contains(#[trigger] self.events@[i])
                        || exists|kk: int|
                        0 <= kk < k && #[trigger] self.events@[i] == (TimestampedEvent {
                            timestamp: bars@[kk].timestamp,
                            symbol: bars@[kk].symbol,
                            event: MarketEvent::Bar(bars@[kk]),
                        }),
                forall|kk: int|
                    0 <= kk < k ==> self.events@.contains(
                        TimestampedEvent {
                            timestamp: (#[trigger] bars@[kk]).timestamp,
                            symbol: bars@[kk].symbol,
                            event: MarketEvent::Bar(bars@[kk]),
                        },
                    ),
                forall|i: int| 0 <= i < e0.len() ==> self.events@.contains(#[trigger] e0[i]),
                has_sym_in(old(self).symbols_seq(), symbol@) ==> self.symbols@ == old(
                    self,
                ).symbols_seq(),
                !has_sym_in(old(self).symbols_seq(), symbol@) ==> self.symbols@ == old(
                    self,
                ).symbols_seq().push(symbol),
                forall|i: int, j: int|
                    0 <= i < j < self.symbols@.len() ==> (#[trigger] self.symbols@[i])@ != (
                    #[trigger] self.symbols@[j])@,
            decreases bars@.len() - k,
        {
            let ghost pre = self.events@;
            let bar = bars[k].clone();
            let ev = TimestampedEvent {
                timestamp: bar.timestamp,
                symbol: bar.symbol.clone(),
                event: MarketEvent::Bar(bar),
            };
            proof {
                assert(ev == (TimestampedEvent {
                    timestamp: bars@[k as int].timestamp,
                    symbol: bars@[k as int].symbol,
                    event: MarketEvent::Bar(bars@[k as int]),
                }));
            }
            self.insert_event(ev);
            proof {
                assert forall|i: int| 0 <= i < e0.len() implies self.events@.contains(
                    #[trigger] e0[i],
                ) by {
                    assert(pre.contains(e0[i]));
                    let w = choose|w: int| 0 <= w < pre.len() && pre[w] == e0[i];
                    assert(self.events@.contains(pre[w]));
                }
                assert forall|kk: int|
                    0 <= kk < k + 1 implies self.events@.contains(
                    TimestampedEvent {
                        timestamp: (#[trigger] bars@[kk]).timestamp,
                        symbol: bars@[kk].symbol,
                        event: MarketEvent::Bar(bars@[kk]),
                    },
                ) by {
                    let target = TimestampedEvent {
                        timestamp: bars@[kk].timestamp,
                        symbol: bars@[kk].symbol,
                        event: MarketEvent::Bar(bars@[kk]),
                    };
                    if kk < k as int {
                        assert(pre.contains(target));
                        let w = choose|w: int| 0 <= w < pre.len() && pre[w] == target;
                        assert(self.events@.contains(pre[w]));
                    } else {
                        assert(self.events@.contains(ev));
                    }
                }
            }
            k += 1;
        }
        Ok(())
    }

    /// Insert one event at its sorted position.
    fn insert_event(&mut self, ev: TimestampedEvent)
        requires
            ev_sorted(old(self).events@),
            0 <= ev.timestamp,
            forall|i: int|
                0 <= i < old(self).events@.len()
                    ==> 0 <= (#[trigger] old(self).events@[i]).timestamp,
        ensures
            ev_sorted(final(self).events@),
            final(self).events@.len() == old(self).events@.len() + 1,
            forall|i: int|
                0 <= i < final(self).events@.len()
                    ==> 0 <= (#[trigger] final(self).events@[i]).timestamp,
            forall|i: int|
                0 <= i < final(self).events@.len() ==> old(self).events@.contains(
                    #[trigger] final(self).events@[i],
                ) || final(self).events@[i] == ev,
            final(self).events@.contains(ev),
            old(self).events@.len() <= final(self).events@.len(),
            forall|i: int|
                0 <= i < old(self).events@.len() ==> final(self).events@.contains(
                    #[trigger] old(self).events@[i],
                ),
            final(self).current_time == old(self).current_time,
            final(self).current_data@ == old(self).current_data@,
            final(self).symbols@ == old(self).symbols@,
            final(self).market_hours == old(self).market_hours,
    {
        let ghost s = self.events@;
        let mut p: usize = 0;
        while p < self.events.len() && event_le(&self.events[p], &ev)
            invariant
                p <= s.len(),
                self.events@ == s,
                forall|k: int| 0 <= k < p ==> ev_le(#[trigger] s[k], ev),
            decreases s.len() - p,
        {
            p += 1;
        }
        proof {
            if p < s.len() {
                lemma_ev_total(s[p as int], ev);
                assert(ev_le(ev, s[p as int]));
            }
        }
        self.events.insert(p, ev);
        proof {
            let s2 = self.events@;
            assert forall|i: int, j: int| 0 <= i < j < s2.len() implies ev_le(
                #[trigger] s2[i],
                #[trigger] s2[j],
            ) by {
                let pi = p as int;
                if i < pi && j == pi {
                    assert(s2[i] == s[i]);
                } else if i < pi && j > pi {
                    assert(s2[i] == s[i] && s2[j] == s[j - 1]);
                } else if i == pi && j > pi {
                    assert(s2[j] == s[j - 1]);
                    assert(ev_le(ev, s[pi]));
                    if j - 1 > pi {
                        assert(ev_le(s[pi], s[j - 1]));
                        lemma_ev_trans(ev, s[pi], s[j - 1]);
                    }
                } else if i > pi {
                    assert(s2[i] == s[i - 1] && s2[j] == s[j - 1]);
                } else {
                    assert(s2[i] == s[i] && s2[j] == s[j]);
                }
            }
            assert forall|i: int|
                0 <= i < s2.len() implies s.contains(#[trigger] s2[i]) || s2[i] == ev by {
                if i < p as int {
                    assert(s2[i] == s[i]);
                } else if i > p as int {
                    assert(s2[i] == s[i - 1]);
                }
            }
            assert(s2[p as int] == ev);
            assert forall|i: int| 0 <= i < s.len() implies s2.contains(#[trigger] s[i]) by {
                if i < p as int {
                    assert(s2[i] == s[i]);
                } else {
                    assert(s2[i + 1] == s[i]);
                }
            }
        }
    }

    /// Initialize the simulation: the cursor rewinds to just before
    /// the first event. Fails with `InsufficientData` when no feed was
    /// added.
    pub fn initialize(&mut self) -> (r: GbResult<()>)
        requires
            old(self).wf(),
        ensures
            final(self).wf(),
            final(self).events_seq() == old(self).events_seq(),
            if old(self).events_seq().len() == 0 {
                r is Err && final(self).time_spec() == old(self).time_spec()
            } else {
                r is Ok && final(self).time_spec() == Some(
                    (old(self).events_seq()[0].timestamp - 1) as i64,
                )
            },
    {
        if self.events.len() == 0 {
            return Err(
                GbError::Data(
                    DataError::InsufficientData {
                        message: "no market data available for simulation".to_owned(),
                    },
                ),
            );
        }
        let first = self.events[0].timestamp;
        self.current_time = Some(first - 1);
        proof {
            assert(self.symbols_seq() == old(self).symbols_seq());
        }
        Ok(())
    }

    /// Advance to the next instant with events and return all events
    /// at that instant, together. Returns an empty vector once no
    /// later events remain; fails if the simulation was never
    /// initialized. Successive calls observe strictly increasing
    /// timestamps, and no instant's events are ever split across
    /// calls.
    pub fn next_events(&mut self) -> (r: GbResult<Vec<TimestampedEvent>>)
        requires
            old(self).wf(),
        ensures
            final(self).wf(),
            final(self).events_seq() == old(self).events_seq(),
            match old(self).time_spec() {
                None => r is Err && final(self).time_spec() == old(self).time_spec(),
                Some(cur) => match r {
                    Ok(v) => {
                        let s = old(self).events_seq();
                        if v@.len() == 0 {
                            &&& final(self).time_spec() == old(self).time_spec()
                            &&& forall|i: int|
                                0 <= i < s.len() ==> (#[trigger] s[i]).timestamp <= cur
                        } else {
                            let t = v@[0].timestamp;
                            &&& t > cur
                            &&& final(self).time_spec() == Some(t)
                            &&& forall|i: int| 0 <= i < v@.len() ==> (#[trigger] v@[i]).timestamp == t
                            &&& exists|lo: int, hi: int|
                                {
                                    &&& 0 <= lo <= hi <= s.len()
                                    &&& v@ =~= s.subrange(lo, hi)
                                    &&& (forall|i: int|
                                        0 <= i < lo ==> (#[trigger] s[i]).timestamp <= cur)
                                    &&& (forall|i: int|
                                        hi <= i < s.len() ==> (#[trigger] s[i]).timestamp > t)
                                }
                        }
                    },
                    Err(_) => false,
                },
            },
    {
        let cur = match self.current_time {
            Some(c) => c,
            None => {
                return Err(
                    GbError::Data(
                        DataError::LoadingFailed {
                            message: "simulation not initialized".to_owned(),
                        },
                    ),
                );
            },
        };

        let ghost s = self.events@;
        // Find the first event strictly after the cursor.
        let mut lo: usize = 0;
        while lo < self.events.len() && self.events[lo].timestamp <= cur
            invariant
                lo <= s.len(),
                self.events@ == s,
                self.symbols@ == old(self).symbols_seq(),
                forall|k: int| 0 <= k < lo ==> (#[trigger] s[k]).timestamp <= cur,
            decreases s.len() - lo,
        {
            lo += 1;
        }
        if lo == self.events.len() {
            return Ok(Vec::new());
        }
        let t = self.events[lo].timestamp;

        // Collect every event at this instant and surface bar data.
        let mut out: Vec<TimestampedEvent> = Vec::new();
        let mut hi: usize = lo;
        while hi < self.events.len() && self.events[hi].timestamp == t
            invariant
                lo <= hi <= s.len(),
                self.events@ == s,
                self.symbols@ == old(self).symbols_seq(),
                keys_unique(self.current_data@),
                s[lo as int].timestamp == t,
                out@ =~= s.subrange(lo as int, hi as int),
                forall|k: int| lo <= k < hi ==> (#[trigger] s[k]).timestamp == t,
            decreases s.len() - hi,
        {
            let ev = self.events[hi].clone();
            match &ev.event {
                MarketEvent::Bar(bar) => {
                    let mut data: Vec<(Symbol, Bar)> = Vec::new();
                    core::mem::swap(&mut data, &mut self.current_data);
                    tab_insert(&mut data, ev.symbol.clone(), bar.clone());
                    core::mem::swap(&mut data, &mut self.current_data);
                },
                _ => {},
            }
            out.push(ev);
            proof {
                assert(out@ =~= s.subrange(lo as int, hi as int + 1));
            }
            hi += 1;
        }
        proof {
            assert forall|i: int| hi <= i < s.len() implies (#[trigger] s[i]).timestamp > t by {
                assert(ev_le(s[hi as int], s[i]) || i == hi);
                if s[hi as int].timestamp != t {
                    assert(ev_le(s[lo as int], s[hi as int]));
                } else {
                }
            }
            assert(out@[0] == s[lo as int]);
            assert(self.symbols_seq() == old(self).symbols_seq());
        }
        self.current_time = Some(t);
        Ok(out)
    }

    /// The bar most recently surfaced for a symbol.
    pub fn get_current_data(&self, symbol: &Symbol) -> (r: Option<&Bar>)
        requires
            self.wf(),
        ensures
            match r {
                Some(b) => tab_get(self.data_tab(), symbol@) == Some(*b),
                None => tab_get(self.data_tab(), symbol@) is None,
            },
    {
        match crate::symtab::tab_find(&self.current_data, symbol) {
            Some(i) => {
                proof {
                    crate::symtab::lemma_tab_at(self.current_data@, symbol@, i as int);
                }
                Some(&self.current_data[i].1)
            },
            None => None,
        }
    }

    /// The bars most recently surfaced for every symbol.
    pub fn get_all_current_data(&self) -> (r: Vec<(Symbol, Bar)>)
        ensures
            r@ == self.data_tab(),
    {
        let mut out: Vec<(Symbol, Bar)> = Vec::new();
        let mut i: usize = 0;
        while i < self.current_data.len()
            invariant
                i <= self.current_data@.len(),
                out@ =~= self.current_data@.subrange(0, i as int),
            decreases self.current_data@.len() - i,
        {
            let e = &self.current_data[i];
            out.push((e.0.clone(), e.1.clone()));
            i += 1;
        }
        proof {
            assert(out@ =~= self.current_data@);
        }
        out
    }

    /// The current simulation time (epoch milliseconds).
    pub fn current_time(&self) -> (r: Option<i64>)
        ensures
            r == self.time_spec(),
    {
        self.current_time
    }

    /// Whether the cursor has reached the last event's time.
    pub fn is_complete(&self) -> (r: bool)
        ensures
            r == (match self.time_spec() {
                Some(cur) => self.events_seq().len() > 0 && cur >= self.events_seq().last().timestamp,
                None => false,
            }),
    {
        match self.current_time {
            Some(cur) => self.events.len() > 0 && cur >= self.events[self.events.len() - 1].timestamp,
            None => false,
        }
    }

    /// Fraction of the simulated wall-clock span already covered, in
    /// [0, 1].
    pub fn progress(&self) -> (r: Dec)
        requires
            self.wf(),
        ensures
            r.m == (match self.time_spec() {
                Some(cur) => {
                    let s = self.events_seq();
                    if s.len() > 0 && s.last().timestamp > s[0].timestamp {
                        clamp_unit(
                            div_m(
                                cur - s[0].timestamp,
                                s.last().timestamp - s[0].timestamp,
                            ),
                        )
                    } else if s.len() > 0 {
                        crate::decimal::SCALE as int
                    } else {
                        0
                    }
                },
                None => 0,
            }),
    {
        let cur = match self.current_time {
            Some(c) => c,
            None => {
                return Dec::zero();
            },
        };
        if self.events.len() == 0 {
            return Dec::zero();
        }
        let start = self.events[0].timestamp;
        let end = self.events[self.events.len() - 1].timestamp;
        if end <= start {
            return Dec::one();
        }
        let frac = Dec::from_raw((cur as i128) - (start as i128)).div(
            Dec::from_raw((end as i128) - (start as i128)),
        );
        if frac.m < 0 {
            Dec::zero()
        } else if frac.m > crate::decimal::SCALE {
            Dec::one()
        } else {
            frac
        }
    }

    /// Rewind to the start without discarding loaded feeds: the next
    /// advancement returns the first events again.
    pub fn reset(&mut self)
        requires
            old(self).wf(),
        ensures
            final(self).wf(),
            final(self).events_seq() == old(self).events_seq(),
            final(self).symbols_seq() == old(self).symbols_seq(),
            final(self).resolution_spec() == old(self).resolution_spec(),
            final(self).hours_spec() == old(self).hours_spec(),
            final(self).data_tab().len() == 0,
            final(self).time_spec() == if old(self).events_seq().len() > 0 {
                Some((old(self).events_seq()[0].timestamp - 1) as i64)
            } else {
                None::<i64>
            },
    {
        if self.events.len() > 0 {
            let first = self.events[0].timestamp;
            self.current_time = Some(first - 1);
        } else {
            self.current_time = None;
        }
        self.current_data = Vec::new();
        proof {
            assert(self.symbols_seq() == old(self).symbols_seq());
        }
    }

    /// Simulation statistics.
    pub fn get_stats(&self) -> (r: SimulationStats)
        requires
            self.wf(),
        ensures
            r.total_symbols == self.symbols_seq().len(),
            r.total_events == self.events_seq().len(),
    {
        let span: i64 = if self.events.len() > 0 {
            let start = self.events[0].timestamp;
            let end = self.events[self.events.len() - 1].timestamp;
            (((end as i128) - (start as i128)) / 86400000) as i64
        } else {
            0
        };
        SimulationStats {
            total_symbols: self.symbols.len(),
            total_events: self.events.len(),
            time_span_days: span,
            current_progress: self.progress(),
            is_complete: self.is_complete(),
        }
    }

    /// Whether the market is open at `time`: weekdays (unless weekend
    /// trading is enabled) between the configured open and close
    /// hours.
    pub fn is_market_open(&self, time: i64) -> (r: bool)
        requires
            0 <= time <= 253402300799999,
        ensures
            r == ({
                let weekend_ok = self.hours_spec().weekend_trading || !({
                    let d = ((time as int) / 86400000 + 4) % 7;
                    d == 0 || d == 6
                });
                let hour = ((time as int) / 3600000) % 24;
                weekend_ok && self.hours_spec().open_hour <= hour < self.hours_spec().close_hour
            }),
    {
        if !self.market_hours.weekend_trading {
            if host::is_weekend(time) {
                return false;
            }
        }
        let hour = host::utc_hour(time);
        hour >= self.market_hours.open_hour && hour < self.market_hours.close_hour
    }
}

/// Clamp a fraction mantissa into [0, 1].
pub open spec fn clamp_unit(x: int) -> int {
    if x < 0 {
        0
    } else if x > crate::decimal::SCALE {
        crate::decimal::SCALE as int
    } else {
        x
    }
}

impl Default for MarketSimulator {
    fn default() -> (r: MarketSimulator)
        ensures
            r.wf(),
            r.events_seq().len() == 0,
            r.time_spec() is None,
    {
        MarketSimulator::new()
    }
}

} // verus!
