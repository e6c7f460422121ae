//! Sinks: endpoints that committed events are sent to, or tentative events come from.
use crate::battle::{history_slice, Battle};
use crate::error::{WeaselError, WeaselResult};
use crate::event::{ClientEventPrototype, EventId, EventSinkId, VersionedEventWrapper};
use std::ops::Range;
use vstd::prelude::*;

verus! {

/// An endpoint with an id.
pub trait EventSink {
    /// The id of this sink.
    spec fn spec_id(&self) -> EventSinkId;

    /// Returns the id of this sink.
    fn id(&self) -> (r: EventSinkId)
        ensures
            r == self.spec_id(),
    ;

    /// Invoked once when the sink is disconnected because a send failed.
    fn on_disconnect(&mut self) {
    }
}

/// The events a client sink has taken, in order.
pub type Deliveries = Seq<VersionedEventWrapper>;

/// A sink that takes committed events, to send them to a client.
pub trait ClientSink: EventSink {
    /// The events this sink has taken, in order.
    spec fn delivered(&self) -> Deliveries;

    /// Sends a committed event; on success the sink has taken it.
    fn send(&mut self, event: &VersionedEventWrapper) -> (r: WeaselResult<()>)
        ensures
            r is Ok ==> final(self).delivered() == old(self).delivered().push(*event),
    ;
}

/// A sink that takes tentative events, to send them to a server.
pub trait ServerSink: EventSink {
    /// Sends a client prototype.
    fn send(&mut self, event: &ClientEventPrototype) -> WeaselResult<()>;
}

/// The ids of the entries that stay: those whose flag is true.
pub open spec fn kept(ids: Seq<EventSinkId>, flags: Seq<bool>) -> Seq<EventSinkId>
    decreases ids.len(),
{
    if ids.len() == 0 || flags.len() != ids.len() {
        Seq::empty()
    } else {
        let r = kept(ids.drop_last(), flags.drop_last());
        if flags.last() {
            r.push(ids.last())
        } else {
            r
        }
    }
}

/// The entry is one of `entries` whose flag is true, with `event` added to what it took.
pub open spec fn came_from<S: ClientSink>(
    entry: (EventSinkId, S),
    entries: Seq<(EventSinkId, S)>,
    flags: Seq<bool>,
    event: VersionedEventWrapper,
) -> bool {
    exists|m: int|
        0 <= m < flags.len() && m < entries.len() && #[trigger] flags[m] && entry.0 == entries[m].0
            && entry.1.delivered() == entries[m].1.delivered().push(event)
}

/// Removing an element keeps a sequence free of repetitions.
proof fn lemma_remove_unique(s: Seq<EventSinkId>, k: int)
    requires
        s.no_duplicates(),
        0 <= k < s.len(),
    ensures
        s.remove(k).no_duplicates(),
{
    let r = s.remove(k);
    assert forall|i: int, j: int| 0 <= i < r.len() && 0 <= j < r.len() && i != j implies r[i] != r[j] by {
        let a = if i < k { i } else { i + 1 };
        let b = if j < k { j } else { j + 1 };
        assert(r[i] == s[a] && r[j] == s[b]);
    }
}

/// The registered client sinks, each with the id it had when it was added.
pub struct MultiClientSink<S: ClientSink> {
    pub(crate) sinks: Vec<(EventSinkId, S)>,
}

impl<S: ClientSink> MultiClientSink<S> {
    /// The ids of the sinks, in order of registration.
    pub open(crate) spec fn ids(&self) -> Seq<EventSinkId> {
        self.sinks@.map_values(|p: (EventSinkId, S)| p.0)
    }

    /// The sinks with their ids, in order of registration.
    pub open(crate) spec fn entries(&self) -> Seq<(EventSinkId, S)> {
        self.sinks@
    }

    /// Ids are unique.
    pub open(crate) spec fn wf(&self) -> bool {
        self.ids().no_duplicates()
    }

    /// No sink.
    pub fn new() -> (r: MultiClientSink<S>)
        ensures
            r.wf(),
            r.ids().len() == 0,
    {
        let r = MultiClientSink { sinks: Vec::new() };
        proof {
            assert(r.ids() =~= Seq::<EventSinkId>::empty());
        }
        r
    }

    /// Returns the number of sinks.
    pub fn len(&self) -> (r: usize)
        ensures
            r == self.ids().len(),
    {
        self.sinks.len()
    }

    /// Returns the ids of the sinks, in order of registration.
    pub fn sink_ids(&self) -> (r: Vec<EventSinkId>)
        ensures
            r@ == self.ids(),
    {
        let mut r: Vec<EventSinkId> = Vec::new();
        let mut i: usize = 0;
        while i < self.sinks.len()
            invariant
                i <= self.sinks@.len(),
                r@ == self.ids().take(i as int),
            decreases self.sinks.len() - i,
        {
            r.push(self.sinks[i].0);
            proof {
                assert(self.ids().take(i + 1) =~= self.ids().take(i as int).push(self.sinks@[i as int].0));
            }
            i += 1;
        }
        proof {
            assert(self.ids().take(self.ids().len() as int) =~= self.ids());
        }
        r
    }

    /// Position of the sink with the given id.
    fn index_of(&self, id: EventSinkId) -> (r: Option<usize>)
        ensures
            match r {
                Some(i) => i < self.ids().len() && self.ids()[i as int] == id,
                None => !self.ids().contains(id),
            },
    {
        let mut i: usize = 0;
        while i < self.sinks.len()
            invariant
                i <= self.sinks@.len(),
                forall|j: int| 0 <= j < i ==> self.ids()[j] != id,
            decreases self.sinks.len() - i,
        {
            if self.sinks[i].0 == id {
                return Some(i);
            }
            i += 1;
        }
        None
    }

    /// Adds a sink. Fails, changing nothing, if a sink with the same id is registered.
    pub fn add(&mut self, sink: S) -> (r: WeaselResult<()>)
        requires
            old(self).wf(),
        ensures
            final(self).wf(),
            (r is Err) <==> old(self).ids().contains(sink.spec_id()),
            r is Err ==> r == Err::<(), WeaselError>(WeaselError::DuplicatedEventSink(sink.spec_id()))
                && final(self).entries() == old(self).entries(),
            r is Ok ==> final(self).entries() == old(self).entries().push((sink.spec_id(), sink)),
            final(self).ids() == if r is Ok {
                old(self).ids().push(sink.spec_id())
            } else {
                old(self).ids()
            },
    {
        let id = sink.id();
        match self.index_of(id) {
            Some(_) => Err(WeaselError::DuplicatedEventSink(id)),
            None => {
                let ghost before = self.ids();
                self.sinks.push((id, sink));
                proof {
                    assert(self.ids() =~= before.push(id));
                }
                Ok(())
            },
        }
    }

    /// Sends the events, in order, to the sink with the given id. A sink that fails is
    /// told so and removed, and its error comes back; it is sent nothing more.
    pub fn send(&mut self, id: EventSinkId, events: &Vec<VersionedEventWrapper>) -> (r: WeaselResult<()>)
        requires
            old(self).wf(),
        ensures
            final(self).wf(),
            !old(self).ids().contains(id) ==> r == Err::<(), WeaselError>(WeaselError::EventSinkNotFound(id))
                && final(self).entries() == old(self).entries(),
            old(self).ids().contains(id) ==> exists|k: int|
                0 <= k < old(self).ids().len() && old(self).ids()[k] == id && (match r {
                    Ok(()) => final(self).entries().len() == old(self).entries().len()
                        && final(self).entries()[k].0 == id
                        && final(self).entries()[k].1.delivered() == old(self).entries()[k].1.delivered() + events@
                        && forall|j: int| 0 <= j < old(self).entries().len() && j != k
                            ==> final(self).entries()[j] == old(self).entries()[j],
                    Err(_) => final(self).entries() == old(self).entries().remove(k),
                }),
            old(self).ids().contains(id) && events@.len() == 0 ==> r is Ok,
            r is Ok ==> final(self).ids() == old(self).ids(),
    {
        let k = match self.index_of(id) {
            Some(k) => k,
            None => {
                return Err(WeaselError::EventSinkNotFound(id));
            },
        };
        let ghost before = self.ids();
        let ghost old_entries = self.sinks@;
        let (sid, mut sink) = self.sinks.remove(k);
        proof {
            assert(self.ids() =~= before.remove(k as int));
            assert(events@.take(0) =~= Seq::<VersionedEventWrapper>::empty());
            assert(sink.delivered() + events@.take(0) =~= sink.delivered());
        }
        let ghost sink0 = sink;
        let mut j: usize = 0;
        while j < events.len()
            invariant
                j <= events@.len(),
                k < before.len(),
                before[k as int] == id,
                sid == id,
                old_entries == old(self).sinks@,
                old_entries[k as int].1 == sink0,
                before == old(self).ids(),
                before.no_duplicates(),
                self.sinks@ == old_entries.remove(k as int),
                self.ids() == before.remove(k as int),
                sink.delivered() == sink0.delivered() + events@.take(j as int),
            decreases events.len() - j,
        {
            let result = sink.send(&events[j]);
            if let Err(e) = result {
                sink.on_disconnect();
                proof {
                    lemma_remove_unique(before, k as int);
                }
                return Err(e);
            }
            proof {
                assert(events@.take(j + 1) =~= events@.take(j as int).push(events@[j as int]));
                assert(sink0.delivered() + events@.take(j + 1) =~= (sink0.delivered() + events@.take(j as int)).push(events@[j as int]));
            }
            j += 1;
        }
        self.sinks.insert(k, (sid, sink));
        proof {
            assert(self.ids() =~= before);
            assert(events@.take(events@.len() as int) =~= events@);
        }
        Ok(())
    }

    /// Removes the sink with the given id, if there is one.
    pub fn remove(&mut self, id: EventSinkId)
        requires
            old(self).wf(),
        ensures
            final(self).wf(),
            !old(self).ids().contains(id) ==> final(self).ids() == old(self).ids(),
            old(self).ids().contains(id) ==> exists|k: int|
                0 <= k < old(self).ids().len() && old(self).ids()[k] == id
                    && final(self).ids() == old(self).ids().remove(k),
            !final(self).ids().contains(id),
    {
        if let Some(k) = self.index_of(id) {
            let ghost before = self.ids();
            let _ = self.sinks.remove(k);
            proof {
                assert(self.ids() =~= before.remove(k as int));
                lemma_remove_unique(before, k as int);
                assert forall|j: int| 0 <= j < self.ids().len() implies self.ids()[j] != id by {
                    if j < k {
                        assert(before[j] != before[k as int]);
                    } else {
                        assert(before[j + 1] != before[k as int]);
                    }
                }
            }
        }
    }

    /// Sends the event to every sink. Each sink that fails is told so, once, and removed;
    /// the others stay, in order. Returns, for each sink in the old order, whether it
    /// took the event.
    pub fn send_all(&mut self, event: &VersionedEventWrapper) -> (r: Vec<bool>)
        requires
            old(self).wf(),
        ensures
            final(self).wf(),
            r@.len() == old(self).ids().len(),
            final(self).ids() == kept(old(self).ids(), r@),
            forall|m: int| 0 <= m < r@.len() && #[trigger] r@[m] ==> exists|j: int|
                0 <= j < final(self).entries().len() && final(self).entries()[j].0 == old(self).ids()[m]
                    && final(self).entries()[j].1.delivered() == old(self).entries()[m].1.delivered().push(*event),
            forall|j: int| 0 <= j < final(self).entries().len() ==> came_from(
                #[trigger] final(self).entries()[j],
                old(self).entries(),
                r@,
                *event,
            ),
    {
        let ghost before = self.ids();
        let ghost old_entries = self.sinks@;
        let mut old_sinks: Vec<(EventSinkId, S)> = Vec::new();
        std::mem::swap(&mut old_sinks, &mut self.sinks);
        proof {
            assert forall|j: int| 0 <= j < old_sinks@.len() implies (#[trigger] old_sinks@[j]).0 == before[j] by {
                assert(before[j] == old_sinks@.map_values(|p: (EventSinkId, S)| p.0)[j]);
            }
        }
        let mut delivered: Vec<bool> = Vec::new();
        let mut rest = old_sinks;
        let n = rest.len();
        proof {
            assert(self.ids() =~= Seq::<EventSinkId>::empty());
        }
        let mut i: usize = 0;
        while i < n
            invariant
                n == before.len(),
                i <= n,
                rest@.len() == n - i,
                forall|j: int| 0 <= j < rest@.len() ==> (#[trigger] rest@[j]).0 == before[i + j],
                forall|j: int| 0 <= j < rest@.len() ==> #[trigger] rest@[j] == old_entries[i + j],
                old_entries == old(self).sinks@,
                before == old(self).ids(),
                forall|m: int| 0 <= m < i && #[trigger] delivered@[m] ==> exists|j: int|
                    0 <= j < self.sinks@.len() && self.sinks@[j].0 == before[m]
                        && self.sinks@[j].1.delivered() == old_entries[m].1.delivered().push(*event),
                forall|j: int| 0 <= j < self.sinks@.len() ==> came_from(#[trigger] self.sinks@[j], old_entries, delivered@, *event),
                delivered@.len() == i,
                self.ids() == kept(before.take(i as int), delivered@),
                self.ids().no_duplicates(),
                forall|j: int| 0 <= j < self.ids().len() ==> before.take(i as int).contains(#[trigger] self.ids()[j]),
                before.no_duplicates(),
            decreases n - i,
        {
            let ghost rest0 = rest@;
            let (sid, mut sink) = rest.remove(0);
            proof {
                assert(rest0[0] == old_entries[i as int]);
                assert forall|j: int| 0 <= j < rest@.len() implies #[trigger] rest@[j] == old_entries[i + 1 + j] by {
                    assert(rest@[j] == rest0[j + 1]);
                }
            }
            let ok = match sink.send(event) {
                Ok(()) => true,
                Err(_) => false,
            };
            let ghost prev = self.ids();
            let ghost prev_sinks = self.sinks@;
            let ghost prev_delivered = delivered@;
            proof {
                assert(before.take(i + 1).drop_last() =~= before.take(i as int));
                assert(before.take(i + 1).last() == before[i as int]);
                assert(sid == before[i as int]);
            }
            if ok {
                self.sinks.push((sid, sink));
                proof {
                    assert(self.ids() =~= prev.push(sid));
                    assert forall|j: int| 0 <= j < prev.len() implies prev[j] != sid by {
                        let m = choose|m: int| 0 <= m < i && before.take(i as int)[m] == prev[j];
                        assert(before[m] != before[i as int]);
                    }
                    assert forall|j: int| 0 <= j < self.ids().len() implies before.take(i + 1).contains(#[trigger] self.ids()[j]) by {
                        if j < prev.len() {
                            let m = choose|m: int| 0 <= m < i && before.take(i as int)[m] == prev[j];
                            assert(before.take(i + 1)[m] == prev[j]);
                        } else {
                            assert(before.take(i + 1)[i as int] == sid);
                        }
                    }
                }
            } else {
                sink.on_disconnect();
                proof {
                    assert forall|j: int| 0 <= j < self.ids().len() implies before.take(i + 1).contains(#[trigger] self.ids()[j]) by {
                        let m = choose|m: int| 0 <= m < i && before.take(i as int)[m] == prev[j];
                        assert(before.take(i + 1)[m] == prev[j]);
                    }
                }
            }
            delivered.push(ok);
            proof {
                assert forall|m: int| 0 <= m < i + 1 && #[trigger] delivered@[m] implies exists|j: int|
                    0 <= j < self.sinks@.len() && self.sinks@[j].0 == before[m]
                        && self.sinks@[j].1.delivered() == old_entries[m].1.delivered().push(*event) by {
                    if m < i {
                        assert(prev_delivered[m]);
                        let j = choose|j: int| 0 <= j < prev_sinks.len() && prev_sinks[j].0 == before[m]
                            && prev_sinks[j].1.delivered() == old_entries[m].1.delivered().push(*event);
                        assert(self.sinks@[j] == prev_sinks[j]);
                    } else {
                        assert(ok);
                        let j = prev_sinks.len() as int;
                        assert(self.sinks@[j] == (sid, sink));
                    }
                }
                assert forall|j: int| 0 <= j < self.sinks@.len() implies came_from(
                    #[trigger] self.sinks@[j],
                    old_entries,
                    delivered@,
                    *event,
                ) by {
                    if j < prev_sinks.len() {
                        assert(self.sinks@[j] == prev_sinks[j]);
                        assert(came_from(prev_sinks[j], old_entries, prev_delivered, *event));
                        let m = choose|m: int| 0 <= m < prev_delivered.len() && m < old_entries.len()
                            && #[trigger] prev_delivered[m] && prev_sinks[j].0 == old_entries[m].0
                            && prev_sinks[j].1.delivered() == old_entries[m].1.delivered().push(*event);
                        assert(delivered@[m] == prev_delivered[m]);
                    } else {
                        assert(ok);
                        assert(self.sinks@[j] == (sid, sink));
                        assert(delivered@[i as int]);
                        assert(old_entries[i as int].0 == sid);
                    }
                }
                assert(delivered@.drop_last() =~= prev_delivered);
                assert(delivered@.last() == ok);
                assert(before.take(i + 1).len() == delivered@.len());
            }
            i += 1;
        }
        proof {
            assert(before.take(n as int) =~= before);
            assert forall|m: int| 0 <= m < delivered@.len() && #[trigger] delivered@[m] implies exists|j: int|
                0 <= j < self.entries().len() && self.entries()[j].0 == before[m]
                    && self.entries()[j].1.delivered() == old_entries[m].1.delivered().push(*event) by {
                assert(m < i);
                let j = choose|j: int| 0 <= j < self.sinks@.len() && self.sinks@[j].0 == before[m]
                    && self.sinks@[j].1.delivered() == old_entries[m].1.delivered().push(*event);
                assert(self.entries()[j] == self.sinks@[j]);
            }
            assert forall|j: int| 0 <= j < self.entries().len() implies came_from(
                #[trigger] self.entries()[j],
                old_entries,
                delivered@,
                *event,
            ) by {
                assert(self.entries()[j] == self.sinks@[j]);
            }
        }
        delivered
    }

    /// Returns the sinks with their ids, in order of registration.
    pub fn sinks(&self) -> (r: &Vec<(EventSinkId, S)>)
        ensures
            r@.map_values(|p: (EventSinkId, S)| p.0) == self.ids(),
    {
        &self.sinks
    }
}

/// Turns a range of event ids into a range of positions. Fails if the range is reversed
/// or goes past the end of the history.
pub fn normalize_range(range: Range<EventId>, history_len: EventId) -> (r: WeaselResult<Range<usize>>)
    ensures
        match r {
            Ok(x) => range.start <= range.end <= history_len && x.start == range.start
                && x.end == range.end,
            Err(e) => (range.start > range.end || range.end > history_len) && e
                == WeaselError::InvalidEventRange(range.start, range.end, history_len),
        },
{
    if range.start > range.end || range.end > history_len {
        return Err(WeaselError::InvalidEventRange(range.start, range.end, history_len));
    }
    Ok(Range { start: range.start as usize, end: range.end as usize })
}

/// Read access to the client sinks.
pub struct MultiClientSinkHandle<'a, S: ClientSink> {
    pub sinks: &'a MultiClientSink<S>,
}

impl<'a, S: ClientSink> MultiClientSinkHandle<'a, S> {
    /// Creates a handle.
    pub fn new(sinks: &'a MultiClientSink<S>) -> (r: MultiClientSinkHandle<'a, S>)
        ensures
            r.sinks == sinks,
    {
        MultiClientSinkHandle { sinks }
    }

    /// Returns the sinks with their ids, in order of registration.
    pub fn sinks(&self) -> (r: &Vec<(EventSinkId, S)>)
        ensures
            r@.map_values(|p: (EventSinkId, S)| p.0) == self.sinks.ids(),
    {
        self.sinks.sinks()
    }
}

/// Access to the client sinks, with the battle whose history they may be sent.
pub struct MultiClientSinkHandleMut<'a, S: ClientSink> {
    pub sinks: &'a mut MultiClientSink<S>,
    pub battle: &'a Battle,
}

impl<'a, S: ClientSink> MultiClientSinkHandleMut<'a, S> {
    /// Creates a handle.
    pub fn new(sinks: &'a mut MultiClientSink<S>, battle: &'a Battle) -> (r: MultiClientSinkHandleMut<'a, S>)
        ensures
            *r.sinks == *old(sinks),
            *final(r.sinks) == *final(sinks),
            r.battle == battle,
    {
        MultiClientSinkHandleMut { sinks, battle }
    }

    /// Adds a sink; ids must be unique.
    pub fn add_sink(&mut self, sink: S) -> (r: WeaselResult<()>)
        requires
            old(self).sinks.wf(),
        ensures
            final(self).sinks.wf(),
            final(self).battle == old(self).battle,
            (r is Err) <==> old(self).sinks.ids().contains(sink.spec_id()),
            r is Err ==> r == Err::<(), WeaselError>(WeaselError::DuplicatedEventSink(sink.spec_id()))
                && final(self).sinks.entries() == old(self).sinks.entries(),
            r is Ok ==> final(self).sinks.entries() == old(self).sinks.entries().push((sink.spec_id(), sink)),
    {
        self.sinks.add(sink)
    }

    /// Adds a sink and sends it the history from the event with the given id to the end.
    pub fn add_sink_from(&mut self, sink: S, event_id: EventId) -> (r: WeaselResult<()>)
        requires
            old(self).sinks.wf(),
            old(self).battle.wf(),
        ensures
            final(self).sinks.wf(),
            final(self).battle == old(self).battle,
            Self::added_range(*old(self).sinks, *final(self).sinks, *old(self).battle, sink,
                event_id, old(self).battle.spec_history().len() as EventId, r),
    {
        let end = self.battle.history().len();
        self.add_sink_range(sink, Range { start: event_id, end })
    }

    /// What adding `sink` with the events of ids in `[start, end)` does, from `before` to
    /// `after`, returning `r`: a malformed range or a registered id fails, changing nothing;
    /// otherwise the sink is added and takes those events, in order, unless one fails, in
    /// which case it is removed again.
    pub open(crate) spec fn added_range(
        before: MultiClientSink<S>,
        after: MultiClientSink<S>,
        battle: Battle,
        sink: S,
        start: EventId,
        end: EventId,
        r: WeaselResult<()>,
    ) -> bool {
        if start > end || end > battle.spec_history().len() {
            r == Err::<(), WeaselError>(WeaselError::InvalidEventRange(start, end,
                battle.spec_history().len() as EventId)) && after.entries() == before.entries()
        } else if before.ids().contains(sink.spec_id()) {
            r == Err::<(), WeaselError>(WeaselError::DuplicatedEventSink(sink.spec_id()))
                && after.entries() == before.entries()
        } else {
            &&& start == end ==> r is Ok
            &&& r is Err ==> after.entries() == before.entries()
            &&& r is Ok ==> {
                &&& after.entries().len() == before.entries().len() + 1
                &&& after.entries().drop_last() == before.entries()
                &&& after.entries().last().0 == sink.spec_id()
                &&& exists|evs: Seq<VersionedEventWrapper>| history_slice(battle, start as int, end as int, evs)
                    && after.entries().last().1.delivered() == sink.delivered() + evs
            }
        }
    }

    /// Adds a sink and sends it the events of the history with ids in `range`, in order.
    pub fn add_sink_range(&mut self, sink: S, range: Range<EventId>) -> (r: WeaselResult<()>)
        requires
            old(self).sinks.wf(),
            old(self).battle.wf(),
        ensures
            final(self).sinks.wf(),
            final(self).battle == old(self).battle,
            Self::added_range(*old(self).sinks, *final(self).sinks, *old(self).battle, sink,
                range.start, range.end, r),
    {
        let len = self.battle.history().len();
        let positions = normalize_range(range, len)?;
        let id = sink.id();
        let ghost s0 = *self.sinks;
        let ghost sink0 = sink;
        self.sinks.add(sink)?;
        let events = self.battle.versioned_events(positions.start, positions.end);
        let ghost s1 = *self.sinks;
        let r = self.sinks.send(id, &events);
        proof {
            let n = s0.entries().len() as int;
            assert(s1.ids()[n] == id);
            assert(s1.ids().contains(id));
            let k = choose|k: int| 0 <= k < s1.ids().len() && s1.ids()[k] == id && (match r {
                Ok(()) => self.sinks.entries().len() == s1.entries().len()
                    && self.sinks.entries()[k].0 == id
                    && self.sinks.entries()[k].1.delivered() == s1.entries()[k].1.delivered() + events@
                    && forall|j: int| 0 <= j < s1.entries().len() && j != k
                        ==> self.sinks.entries()[j] == s1.entries()[j],
                Err(_) => self.sinks.entries() == s1.entries().remove(k),
            });
            if k < n {
                assert(s0.ids()[k] == s1.ids()[k]);
                assert(s0.ids().contains(id));
            }
            assert(k == n);
            if r is Ok {
                assert(self.sinks.entries().drop_last() =~= s0.entries());
            } else {
                assert(self.sinks.entries() =~= s0.entries());
            }
        }
        r
    }

    /// Sends the events of the history with ids in `range`, in order, to the sink with the
    /// given id. A malformed range or an unknown id fails, changing nothing; a sink that
    /// fails is removed.
    pub fn send_range(&mut self, id: EventSinkId, range: Range<EventId>) -> (r: WeaselResult<()>)
        requires
            old(self).sinks.wf(),
            old(self).battle.wf(),
        ensures
            final(self).sinks.wf(),
            final(self).battle == old(self).battle,
            (range.start > range.end || range.end > old(self).battle.spec_history().len()) ==> r
                == Err::<(), WeaselError>(WeaselError::InvalidEventRange(range.start, range.end,
                old(self).battle.spec_history().len() as EventId)) && final(self).sinks.entries() == old(self).sinks.entries(),
            range.start <= range.end <= old(self).battle.spec_history().len() ==> {
                &&& !old(self).sinks.ids().contains(id) ==> r == Err::<(), WeaselError>(WeaselError::EventSinkNotFound(id))
                    && final(self).sinks.entries() == old(self).sinks.entries()
                &&& old(self).sinks.ids().contains(id) ==> exists|k: int|
                    0 <= k < old(self).sinks.ids().len() && old(self).sinks.ids()[k] == id && (match r {
                        Ok(()) => final(self).sinks.entries().len() == old(self).sinks.entries().len()
                            && final(self).sinks.entries()[k].0 == id
                            && (exists|evs: Seq<VersionedEventWrapper>| history_slice(*old(self).battle,
                                range.start as int, range.end as int, evs)
                                && final(self).sinks.entries()[k].1.delivered() == old(self).sinks.entries()[k].1.delivered() + evs)
                            && forall|j: int| 0 <= j < old(self).sinks.entries().len() && j != k
                                ==> final(self).sinks.entries()[j] == old(self).sinks.entries()[j],
                        Err(_) => final(self).sinks.entries() == old(self).sinks.entries().remove(k),
                    })
                &&& old(self).sinks.ids().contains(id) && range.start == range.end ==> r is Ok
            },
    {
        let len = self.battle.history().len();
        let positions = normalize_range(range, len)?;
        let events = self.battle.versioned_events(positions.start, positions.end);
        self.sinks.send(id, &events)
    }

    /// Removes the sink with the given id, if there is one.
    pub fn remove_sink(&mut self, id: EventSinkId)
        requires
            old(self).sinks.wf(),
        ensures
            final(self).sinks.wf(),
            final(self).battle == old(self).battle,
            !old(self).sinks.ids().contains(id) ==> final(self).sinks.ids() == old(self).sinks.ids(),
            old(self).sinks.ids().contains(id) ==> exists|k: int|
                0 <= k < old(self).sinks.ids().len() && old(self).sinks.ids()[k] == id
                    && final(self).sinks.ids() == old(self).sinks.ids().remove(k),
            !final(self).sinks.ids().contains(id),
    {
        self.sinks.remove(id)
    }

    /// Returns the sinks with their ids, in order of registration.
    pub fn sinks(&self) -> &Vec<(EventSinkId, S)> {
        self.sinks.sinks()
    }
}

} // verus!
