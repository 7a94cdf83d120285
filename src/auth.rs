use vstd::prelude::*;
use crate::scan::{
    contains, contains_bytes, copy_range, find, find_from, line_end, line_end_at, token_end,
    token_end_at,
};

verus! {

/// Outcome of an authentication attempt.
#[derive(Clone, Copy, Debug, PartialEq, Eq, Structural)]
pub enum AuthStatus {
    Success,
    Failed,
}

/// An authentication attempt seen in the log: when it was seen (seconds), where it
/// came from, and how it ended.
#[derive(Debug)]
pub struct AuthEvent {
    pub timestamp: u64,
    pub identifier: Vec<u8>,
    pub status: AuthStatus,
}

pub type EventView = (u64, Seq<u8>, AuthStatus);

impl View for AuthEvent {
    type V = EventView;

    open spec fn view(&self) -> EventView {
        (self.timestamp, self.identifier@, self.status)
    }
}

impl AuthEvent {
    pub fn duplicate(&self) -> (r: AuthEvent)
        ensures
            r@ == self@,
    {
        AuthEvent {
            timestamp: self.timestamp,
            identifier: copy_range(self.identifier.as_slice(), 0, self.identifier.len()),
            status: self.status,
        }
    }
}

/// The durable key of an event: its timestamp and source.
pub open spec fn key_of(e: EventView) -> (u64, Seq<u8>) {
    (e.0, e.1)
}

/// `Failed password`
pub open spec fn failed_marker() -> Seq<u8> {
    seq![70u8, 97, 105, 108, 101, 100, 32, 112, 97, 115, 115, 119, 111, 114, 100]
}

/// `Accepted password`
pub open spec fn accepted_marker() -> Seq<u8> {
    seq![
        65u8, 99, 99, 101, 112, 116, 101, 100, 32, 112, 97, 115, 115, 119,
        111, 114, 100,
    ]
}

/// `from `: the source identifier is the token after it.
pub open spec fn from_marker() -> Seq<u8> {
    seq![102u8, 114, 111, 109, 32]
}

/// `unknown`: the source identifier when the line names none.
pub open spec fn unknown_identifier() -> Seq<u8> {
    seq![117u8, 110, 107, 110, 111, 119, 110]
}

fn failed_marker_bytes() -> (r: Vec<u8>)
    ensures
        r@ == failed_marker(),
{
    let r = vec![70u8, 97, 105, 108, 101, 100, 32, 112, 97, 115, 115, 119, 111, 114, 100];
    assert(r@ =~= failed_marker());
    r
}

fn accepted_marker_bytes() -> (r: Vec<u8>)
    ensures
        r@ == accepted_marker(),
{
    let r = vec![
        65u8, 99, 99, 101, 112, 116, 101, 100, 32, 112, 97, 115, 115, 119,
        111, 114, 100,
    ];
    assert(r@ =~= accepted_marker());
    r
}

fn from_marker_bytes() -> (r: Vec<u8>)
    ensures
        r@ == from_marker(),
{
    let r = vec![102u8, 114, 111, 109, 32];
    assert(r@ =~= from_marker());
    r
}

fn unknown_identifier_bytes() -> (r: Vec<u8>)
    ensures
        r@ == unknown_identifier(),
{
    let r = vec![117u8, 110, 107, 110, 111, 119, 110];
    assert(r@ =~= unknown_identifier());
    r
}

/// The status that a line reports, if it reports one: a failure when it holds the
/// failure marker, else a success when it holds the success marker.
pub open spec fn status_of(line: Seq<u8>) -> Option<AuthStatus> {
    if contains(line, failed_marker()) {
        Some(AuthStatus::Failed)
    } else if contains(line, accepted_marker()) {
        Some(AuthStatus::Success)
    } else {
        None
    }
}

/// The token that follows the first `from ` of a line, or `unknown` when there is no
/// `from ` or nothing follows it.
pub open spec fn identifier_of(line: Seq<u8>) -> Seq<u8> {
    let k = find_from(line, from_marker(), 0);
    if k < 0 {
        unknown_identifier()
    } else {
        let start = k + from_marker().len();
        let end = token_end(line, start);
        if end <= start {
            unknown_identifier()
        } else {
            line.subrange(start, end)
        }
    }
}

/// The event that a log line seen at `now` gives, if any.
pub open spec fn event_of_line(line: Seq<u8>, now: u64) -> Option<EventView> {
    match status_of(line) {
        None => None,
        Some(st) => Some((now, identifier_of(line), st)),
    }
}

/// Reads one log line seen at `now`. Lines with neither marker give no event.
pub fn parse_line(line: &[u8], now: u64) -> (r: Option<AuthEvent>)
    ensures
        r is None <==> event_of_line(line@, now) is None,
        r is Some ==> event_of_line(line@, now) == Some(r->Some_0@),
{
    let failed = failed_marker_bytes();
    let accepted = accepted_marker_bytes();
    let status = if contains_bytes(line, failed.as_slice()) {
        AuthStatus::Failed
    } else if contains_bytes(line, accepted.as_slice()) {
        AuthStatus::Success
    } else {
        return None;
    };
    let from = from_marker_bytes();
    let identifier = match find(line, from.as_slice()) {
        None => unknown_identifier_bytes(),
        Some(k) => {
            proof {
                crate::scan::lemma_find_from_bounds(line@, from_marker(), 0);
            }
            let line_len = line.len();
            let start = k + from.len();
            assert(start <= line_len);
            let end = token_end_at(line, start);
            if end <= start {
                unknown_identifier_bytes()
            } else {
                copy_range(line, start, end)
            }
        },
    };
    Some(AuthEvent { timestamp: now, identifier, status })
}

/// The events of the log text from position `i` on: one for each newline-ended line
/// (the last line needs no newline) that reports one, in the order of the lines.
pub open spec fn events_from(log: Seq<u8>, i: int, now: u64) -> Seq<EventView>
    decreases log.len() + 1 - i,
{
    if i < 0 || i >= log.len() {
        Seq::empty()
    } else {
        let e = line_end(log, i);
        if e < i || e > log.len() {
            Seq::empty()
        } else {
            let rest = events_from(log, e + 1, now);
            match event_of_line(log.subrange(i, e), now) {
                Some(ev) => seq![ev] + rest,
                None => rest,
            }
        }
    }
}

/// The events of a whole log text seen at `now`.
pub open spec fn events_of_log(log: Seq<u8>, now: u64) -> Seq<EventView> {
    events_from(log, 0, now)
}

pub open spec fn views(es: Seq<AuthEvent>) -> Seq<EventView> {
    es.map_values(|e: AuthEvent| e@)
}

/// Reads every line of a log text seen at `now`, and returns the events of those
/// lines that report one, in order.
pub fn parse_log(log: &[u8], now: u64) -> (r: Vec<AuthEvent>)
    ensures
        views(r@) == events_of_log(log@, now),
{
    let n = log.len();
    let mut out: Vec<AuthEvent> = Vec::new();
    let mut i: usize = 0;
    assert(views(out@) + events_from(log@, 0, now) =~= events_from(log@, 0, now));
    while i < n
        invariant
            n == log@.len(),
            i <= n,
            events_of_log(log@, now) == views(out@) + events_from(log@, i as int, now),
        decreases n - i,
    {
        let e = line_end_at(log, i);
        let line = &log[i..e];
        let ev = parse_line(line, now);
        let ghost before = out@;
        assert(events_from(log@, i as int, now) == match event_of_line(log@.subrange(i as int, e as int), now) {
            Some(x) => seq![x] + events_from(log@, e + 1, now),
            None => events_from(log@, e + 1, now),
        });
        match ev {
            Some(x) => {
                out.push(x);
                assert(views(out@) =~= views(before).push(x@));
                assert(views(out@) + events_from(log@, e + 1, now) =~= views(before) + (seq![x@]
                    + events_from(log@, e + 1, now)));
            },
            None => {
                assert(out@ == before);
            },
        }
        if e == n {
            i = n;
        } else {
            i = e + 1;
        }
    }
    out
}

/// The keys that a store holding `k` holds after each event of `es` is offered to it
/// with insert-or-ignore on the key.
pub open spec fn stored_after(k: Set<(u64, Seq<u8>)>, es: Seq<EventView>) -> Set<(u64, Seq<u8>)>
    decreases es.len(),
{
    if es.len() == 0 {
        k
    } else {
        stored_after(k.insert(key_of(es[0])), es.drop_first())
    }
}

/// The events of `es` that a store holding `k` accepts, in order: those whose key it
/// does not hold yet, nor took from an earlier event of `es`.
pub open spec fn newly_stored(k: Set<(u64, Seq<u8>)>, es: Seq<EventView>) -> Seq<EventView>
    decreases es.len(),
{
    if es.len() == 0 {
        Seq::empty()
    } else if k.contains(key_of(es[0])) {
        newly_stored(k, es.drop_first())
    } else {
        seq![es[0]] + newly_stored(k.insert(key_of(es[0])), es.drop_first())
    }
}

/// `s` after `e` is appended to a list that holds at most `max` events: the oldest
/// event leaves when the list would exceed `max`.
pub open spec fn accept_model(s: Seq<EventView>, e: EventView, max: nat) -> Seq<EventView> {
    let t = s.push(e);
    if t.len() > max {
        t.drop_first()
    } else {
        t
    }
}

/// `s` after each event of `es` is appended in turn.
pub open spec fn accept_all(s: Seq<EventView>, es: Seq<EventView>, max: nat) -> Seq<EventView>
    decreases es.len(),
{
    if es.len() == 0 {
        s
    } else {
        accept_all(accept_model(s, es[0], max), es.drop_first(), max)
    }
}

/// The recent authentication events, at most `max_events` of them, oldest first, no
/// two with the same key; and how far the display has scrolled back from the newest.
pub struct EventLog {
    events: Vec<AuthEvent>,
    max_events: usize,
    scroll: usize,
}

impl View for EventLog {
    type V = Seq<EventView>;

    closed spec fn view(&self) -> Seq<EventView> {
        views(self.events@)
    }
}

impl EventLog {
    pub closed spec fn max(&self) -> nat {
        self.max_events as nat
    }

    pub closed spec fn offset(&self) -> nat {
        self.scroll as nat
    }

    pub closed spec fn wf(&self) -> bool {
        &&& self.events@.len() <= self.max_events
    }

    pub fn new(max_events: usize) -> (r: EventLog)
        ensures
            r.wf(),
            r@ == Seq::<EventView>::empty(),
            r.max() == max_events,
            r.offset() == 0,
    {
        let r = EventLog { events: Vec::new(), max_events, scroll: 0 };
        assert(r@ =~= Seq::<EventView>::empty());
        r
    }

    pub fn len(&self) -> (r: usize)
        ensures
            r == self@.len(),
    {
        self.events.len()
    }

    /// Appends an event that the durable store accepted; the oldest event leaves when
    /// the list would exceed its maximum.
    pub fn accept(&mut self, ev: AuthEvent)
        requires
            old(self).wf(),
        ensures
            final(self).wf(),
            final(self)@.len() <= final(self).max(),
            final(self).max() == old(self).max(),
            final(self).offset() == old(self).offset(),
            final(self)@ == accept_model(old(self)@, ev@, old(self).max()),
    {
        let ghost s0 = self@;
        let ghost e = ev@;
        self.events.push(ev);
        assert(self@ =~= s0.push(e));
        if self.events.len() > self.max_events {
            self.events.remove(0);
            assert(self@ =~= s0.push(e).drop_first());
        }
    }

    /// Moves the display one event towards the newest, if it is not there.
    pub fn scroll_up(&mut self)
        ensures
            final(self)@ == old(self)@,
            final(self).max() == old(self).max(),
            final(self).wf() == old(self).wf(),
            final(self).offset() == if old(self).offset() > 0 {
                old(self).offset() - 1
            } else {
                0
            },
    {
        if self.scroll > 0 {
            self.scroll -= 1;
        }
    }

    /// Moves the display one event towards the oldest, while a full page of
    /// `VISIBLE_EVENTS` remains to show.
    pub fn scroll_down(&mut self)
        ensures
            final(self)@ == old(self)@,
            final(self).max() == old(self).max(),
            final(self).wf() == old(self).wf(),
            final(self).offset() == if old(self).offset() + VISIBLE_EVENTS < old(self)@.len() {
                old(self).offset() + 1
            } else {
                old(self).offset()
            },
    {
        let n = self.events.len();
        if n >= VISIBLE_EVENTS && self.scroll < n - VISIBLE_EVENTS {
            self.scroll += 1;
        }
    }

    pub fn scroll_offset(&self) -> (r: usize)
        ensures
            r == self.offset(),
    {
        self.scroll
    }

    /// The events on display: newest first, skipping the `offset` newest, at most
    /// `VISIBLE_EVENTS` of them.
    pub fn visible(&self) -> (r: Vec<AuthEvent>)
        ensures
            views(r@) == visible_model(self@, self.offset(), VISIBLE_EVENTS as nat),
    {
        let n = self.events.len();
        let mut r: Vec<AuthEvent> = Vec::new();
        if self.scroll >= n {
            assert(views(r@) =~= visible_model(self@, self.offset(), VISIBLE_EVENTS as nat));
            return r;
        }
        let count: usize = if n - self.scroll < VISIBLE_EVENTS {
            n - self.scroll
        } else {
            VISIBLE_EVENTS
        };
        let mut j: usize = 0;
        while j < count
            invariant
                n == self.events@.len(),
                self.scroll < n,
                count <= n - self.scroll,
                count == visible_model(self@, self.offset(), VISIBLE_EVENTS as nat).len(),
                j <= count,
                views(r@) =~= visible_model(self@, self.offset(), VISIBLE_EVENTS as nat).take(
                    j as int,
                ),
            decreases count - j,
        {
            let ev = self.events[n - 1 - self.scroll - j].duplicate();
            let ghost before = r@;
            assert(ev@ == self@[n - 1 - self.scroll - j]);
            r.push(ev);
            assert(views(r@) =~= views(before).push(ev@));
            j += 1;
        }
        assert(visible_model(self@, self.offset(), VISIBLE_EVENTS as nat).take(count as int)
            =~= visible_model(self@, self.offset(), VISIBLE_EVENTS as nat));
        r
    }
}

proof fn lemma_stored_after_holds(k: Set<(u64, Seq<u8>)>, es: Seq<EventView>)
    ensures
        k.subset_of(stored_after(k, es)),
        forall|j: int| 0 <= j < es.len() ==> stored_after(k, es).contains(key_of(#[trigger] es[j])),
    decreases es.len(),
{
    if es.len() > 0 {
        let k1 = k.insert(key_of(es[0]));
        let rest = es.drop_first();
        lemma_stored_after_holds(k1, rest);
        assert forall|j: int| 0 <= j < es.len() implies stored_after(k, es).contains(
            key_of(#[trigger] es[j]),
        ) by {
            if j > 0 {
                assert(es[j] == rest[j - 1]);
            }
        }
    }
}

proof fn lemma_known_keys_store_nothing(k: Set<(u64, Seq<u8>)>, es: Seq<EventView>)
    requires
        forall|j: int| 0 <= j < es.len() ==> k.contains(key_of(#[trigger] es[j])),
    ensures
        newly_stored(k, es) == Seq::<EventView>::empty(),
        stored_after(k, es) == k,
    decreases es.len(),
{
    if es.len() > 0 {
        assert(k.contains(key_of(es[0])));
        let rest = es.drop_first();
        assert forall|j: int| 0 <= j < rest.len() implies k.contains(key_of(#[trigger] rest[j])) by {
            assert(es[j + 1] == rest[j]);
        }
        lemma_known_keys_store_nothing(k, rest);
        assert(k.insert(key_of(es[0])) =~= k);
    }
}

/// Reading the same log text at the same second a second time stores nothing: a store
/// that took the first reading accepts none of the events of the second, so its keys
/// stay as they were, and an event list that takes what the store accepts (whatever
/// it holds and however full it is) stays as it was.
pub proof fn lemma_reading_twice_stores_nothing_new(
    k: Set<(u64, Seq<u8>)>,
    s: Seq<EventView>,
    log: Seq<u8>,
    now: u64,
    max: nat,
)
    ensures
        newly_stored(stored_after(k, events_of_log(log, now)), events_of_log(log, now))
            == Seq::<EventView>::empty(),
        stored_after(stored_after(k, events_of_log(log, now)), events_of_log(log, now))
            == stored_after(k, events_of_log(log, now)),
        accept_all(
            s,
            newly_stored(stored_after(k, events_of_log(log, now)), events_of_log(log, now)),
            max,
        ) == s,
{
    let es = events_of_log(log, now);
    lemma_stored_after_holds(k, es);
    lemma_known_keys_store_nothing(stored_after(k, es), es);
}

/// How many events the display shows at once.
pub const VISIBLE_EVENTS: usize = 3;

/// `s` newest first, without its `off` newest, cut to `n` events.
pub open spec fn visible_model(s: Seq<EventView>, off: nat, n: nat) -> Seq<EventView> {
    let avail: int = if off >= s.len() { 0 } else { s.len() - off };
    let count: int = if avail < n { avail } else { n as int };
    Seq::new(count as nat, |j: int| s[s.len() - 1 - off - j])
}

} // verus!
