//! The server: the authority that runs the pipeline of a battle and broadcasts what it
//! commits.
use crate::battle::{
    count_rank, lemma_count_rank_below, lemma_count_rank_concat, lemma_count_rank_first,
    is_follow_up_event, queued_below, Battle, BattleRules,
};
use crate::entity::Entities;
use crate::entity::TeamId;
use crate::error::{WeaselError, WeaselResult};
use crate::event::{
    Event, allows_teams, spec_allows, ClientEventPrototype, EventId, EventKind, EventPrototype,
    EventProcessor, EventQueue, EventRights, EventWrapper, PlayerId, Version, VersionedEventWrapper,
};
use crate::sink::{came_from, kept, ClientSink, MultiClientSink, MultiClientSinkHandle, MultiClientSinkHandleMut};
use vstd::prelude::*;

verus! {

/// The origin is that of an event committed at or after `lo` and before `len`.
pub open spec fn descends(origin: Option<EventId>, lo: int, len: int) -> bool {
    origin matches Some(o) && lo <= o < len
}

/// The origin is the id of an event in `history` of a higher rank than `e`: one that can
/// have queued it.
pub open spec fn queued_by(history: Seq<EventWrapper>, origin: Option<EventId>, e: Event) -> bool {
    origin matches Some(o) && 0 <= o < history.len() && history[o as int].event.rank() > e.rank()
}

/// A committed event generated by an earlier event, at or after `lo`, of this processing:
/// it changes only statistics and statuses.
pub open spec fn generated_entry(w: EventWrapper, lo: int, i: int) -> bool {
    &&& descends(w.origin, lo, i)
    &&& is_follow_up_event(w.event)
}

/// The server of a battle.
pub struct Server<S: ClientSink, R: BattleRules> {
    pub(crate) battle: Battle,
    pub(crate) rules: R,
    pub(crate) client_sinks: MultiClientSink<S>,
    pub(crate) rights: Vec<(PlayerId, TeamId)>,
}

impl<S: ClientSink, R: BattleRules> Server<S, R> {
    /// The battle.
    pub open(crate) spec fn spec_battle(&self) -> Battle {
        self.battle
    }

    /// The table of the teams each player controls.
    pub open(crate) spec fn spec_rights(&self) -> Seq<(PlayerId, TeamId)> {
        self.rights@
    }

    /// The ids of the client sinks.
    pub open(crate) spec fn spec_sink_ids(&self) -> Seq<crate::event::EventSinkId> {
        self.client_sinks.ids()
    }

    /// The battle is well formed and sink ids are unique.
    pub open(crate) spec fn wf(&self) -> bool {
        &&& self.battle.wf()
        &&& self.client_sinks.wf()
    }

    /// What the pipeline decides for a prototype before applying it: an error; `false` to
    /// drop it because its condition does not hold; `true` to apply and commit it.
    /// `client` holds the sender of an event from a client, whose rights are checked.
    pub open(crate) spec fn spec_admit(&self, p: EventPrototype, client: Option<Option<PlayerId>>) -> WeaselResult<bool> {
        match self.battle.spec_verify(self.rules, p.event) {
            Err(e) => Err(e),
            Ok(_) => if p.condition matches Some(c) && !self.battle.state.spec_holds(c) {
                Ok(false)
            } else if client is Some && !self.battle.spec_allowed(p.event, self.rights@, client->0) {
                Err(WeaselError::AuthenticationError(client->0))
            } else if self.battle.spec_history().len() >= u32::MAX {
                Err(WeaselError::HistoryFull)
            } else {
                Ok(true)
            },
        }
    }

    /// What processing a local prototype does, from `before` to `after`, returning `r`.
    pub open(crate) spec fn spec_processed(before: Self, p: EventPrototype, after: Self, r: WeaselResult<()>) -> bool {
        &&& after.wf()
        &&& after.rights == before.rights
        &&& after.rules == before.rules
        &&& after.battle.version == before.battle.version
        &&& match before.spec_admit(p, None) {
            Err(e) => r == Err::<(), WeaselError>(e) && after.battle == before.battle
                && after.client_sinks.entries() == before.client_sinks.entries(),
            Ok(false) => r is Ok && after.battle == before.battle
                && after.client_sinks.entries() == before.client_sinks.entries(),
            Ok(true) => r is Ok && before.battle.spec_outcome(before.rules, p.event, after.battle)
                && after.battle.spec_history().len() > before.battle.spec_history().len()
                && after.battle.spec_history().take(before.battle.spec_history().len() as int + 1)
                == before.battle.spec_history().push(EventWrapper {
                id: before.battle.spec_history().len() as EventId,
                origin: p.origin,
                event: p.event,
            })
                && (forall|i: int| before.battle.spec_history().len() + 1 <= i < after.battle.spec_history().len()
                    ==> generated_entry(#[trigger] after.battle.spec_history()[i], before.battle.spec_history().len() as int, i)
                    && queued_by(after.battle.spec_history(), after.battle.spec_history()[i].origin,
                    after.battle.spec_history()[i].event))
                && (p.event.rank() == 0 ==> after.battle.spec_history().len() == before.battle.spec_history().len() + 1
                && Self::broadcast_of(before.client_sinks, after.client_sinks,
                    before.battle.spec_history().len() as EventId, p.origin, p.event.spec_kind(),
                    before.battle.version)),
        }
    }

    /// The rules.
    pub open(crate) spec fn spec_rules(&self) -> R {
        self.rules
    }

    /// Creates the server of a battle played by the given rules, with no sink and no
    /// player rights.
    pub fn new(battle: Battle, rules: R) -> (r: Server<S, R>)
        requires
            battle.wf(),
        ensures
            r.wf(),
            r.spec_battle() == battle,
            r.spec_rules() == rules,
            r.spec_rights().len() == 0,
            r.spec_sink_ids().len() == 0,
    {
        Server { battle, rules, client_sinks: MultiClientSink::new(), rights: Vec::new() }
    }

    /// Returns the rules.
    pub fn rules(&self) -> (r: &R)
        ensures
            *r == self.spec_rules(),
    {
        &self.rules
    }

    /// Returns the battle.
    pub fn battle(&self) -> (r: &Battle)
        ensures
            *r == self.spec_battle(),
    {
        &self.battle
    }

    /// Gives a player rights to a team.
    pub fn add_rights(&mut self, player: PlayerId, team: TeamId)
        ensures
            final(self).spec_rights() == old(self).spec_rights().push((player, team)),
            final(self).spec_battle() == old(self).spec_battle(),
            final(self).spec_sink_ids() == old(self).spec_sink_ids(),
            final(self).wf() == old(self).wf(),
    {
        self.rights.push((player, team));
    }

    /// Returns whether the player has rights to the team.
    pub fn has_rights(&self, player: PlayerId, team: TeamId) -> (r: bool)
        ensures
            r == self.spec_rights().contains((player, team)),
    {
        let mut i: usize = 0;
        while i < self.rights.len()
            invariant
                i <= self.rights@.len(),
                forall|j: int| 0 <= j < i ==> self.rights@[j] != (player, team),
            decreases self.rights.len() - i,
        {
            if self.rights[i].0 == player && self.rights[i].1 == team {
                proof {
                    assert(self.rights@[i as int] == (player, team));
                }
                return true;
            }
            i += 1;
        }
        false
    }

    /// Returns whether the player may fire an event that requires `rights`.
    pub fn allows(&self, player: Option<PlayerId>, rights: &EventRights) -> (r: bool)
        ensures
            r == spec_allows(self.spec_rights(), player, *rights),
    {
        match rights {
            EventRights::Everyone => true,
            EventRights::Server => false,
            EventRights::Team(t) => match player {
                Some(p) => self.has_rights(p, *t),
                None => false,
            },
            EventRights::Teams(ts) => match player {
                Some(p) => {
                    let mut i: usize = 0;
                    while i < ts.len()
                        invariant
                            i <= ts@.len(),
                            player == Some(p),
                            spec_allows(self.rights@, player, *rights) == allows_teams(self.rights@, player, ts@),
                            forall|j: int| 0 <= j < i ==> self.rights@.contains((p, #[trigger] ts@[j])),
                        decreases ts.len() - i,
                    {
                        if !self.has_rights(p, ts[i]) {
                            proof {
                                assert(!self.rights@.contains((p, ts@[i as int])));
                            }
                            return false;
                        }
                        i += 1;
                    }
                    true
                },
                None => false,
            },
        }
    }

    /// The sinks of `after` are those of `before` that took the event with id `id`, origin
    /// `origin` and kind `kind`, made under `version`; each took it once more, in order.
    pub open(crate) spec fn broadcast_of(
        before: MultiClientSink<S>,
        after: MultiClientSink<S>,
        id: EventId,
        origin: Option<EventId>,
        kind: EventKind,
        version: Version,
    ) -> bool {
        exists|v: VersionedEventWrapper, flags: Seq<bool>|
            #[trigger] Self::broadcast_with(before, after, v, flags, id, origin, kind, version)
    }

    /// The sinks of `after` are those of `before` whose flag is true, each having taken
    /// `v` once more; `v` has the given id, origin, kind and version.
    pub open(crate) spec fn broadcast_with(
        before: MultiClientSink<S>,
        after: MultiClientSink<S>,
        v: VersionedEventWrapper,
        flags: Seq<bool>,
        id: EventId,
        origin: Option<EventId>,
        kind: EventKind,
        version: Version,
    ) -> bool {
        &&& v.wrapper.id == id
        &&& v.wrapper.origin == origin
        &&& v.wrapper.event.spec_kind() == kind
        &&& v.version == version
        &&& flags.len() == before.ids().len()
        &&& after.ids() == kept(before.ids(), flags)
        &&& forall|j: int| 0 <= j < after.entries().len() ==> came_from(#[trigger] after.entries()[j], before.entries(), flags, v)
    }

    /// Sends the committed event with the given id to every client sink.
    fn broadcast(&mut self, id: usize)
        requires
            old(self).wf(),
            id < old(self).battle.spec_history().len(),
        ensures
            final(self).wf(),
            final(self).battle == old(self).battle,
            final(self).rights == old(self).rights,
            final(self).rules == old(self).rules,
            Self::broadcast_of(old(self).client_sinks, final(self).client_sinks, id as EventId,
                old(self).battle.spec_history()[id as int].origin,
                old(self).battle.spec_history()[id as int].event.spec_kind(), old(self).battle.version),
    {
        let w = self.battle.history.events[id].clone();
        proof {
            assert(self.battle.history.events@[id as int].id == id);
        }
        let v = w.version(self.battle.version);
        let flags = self.client_sinks.send_all(&v);
        proof {
            assert(Self::broadcast_with(old(self).client_sinks, self.client_sinks, v, flags@, id as EventId,
                old(self).battle.spec_history()[id as int].origin,
                old(self).battle.spec_history()[id as int].event.spec_kind(), old(self).battle.version));
        }
    }

    /// Runs one prototype through the pipeline: verify, check the condition, check the
    /// sender's rights, apply, commit, broadcast. What it generates goes to the back of
    /// `generated`.
    fn process_one(&mut self, p: EventPrototype, client: Option<Option<PlayerId>>, generated: &mut EventQueue) -> (r: WeaselResult<()>)
        requires
            old(self).wf(),
        ensures
            final(self).wf(),
            final(self).rights == old(self).rights,
            final(self).rules == old(self).rules,
            final(self).battle.version == old(self).battle.version,
            match old(self).spec_admit(p, client) {
                Err(e) => r == Err::<(), WeaselError>(e) && final(self).battle == old(self).battle
                    && final(generated)@ == old(generated)@
                    && final(self).client_sinks.entries() == old(self).client_sinks.entries(),
                Ok(false) => r is Ok && final(self).battle == old(self).battle
                    && final(generated)@ == old(generated)@
                    && final(self).client_sinks.entries() == old(self).client_sinks.entries(),
                Ok(true) => r is Ok && old(self).battle.spec_outcome(old(self).rules, p.event, final(self).battle)
                    && Self::broadcast_of(old(self).client_sinks, final(self).client_sinks,
                    old(self).battle.spec_history().len() as EventId, p.origin, p.event.spec_kind(),
                    old(self).battle.version)
                    && final(self).battle.spec_history() == old(self).battle.spec_history().push(
                    EventWrapper {
                        id: old(self).battle.spec_history().len() as EventId,
                        origin: p.origin,
                        event: p.event,
                    },
                ) && queued_below(old(generated)@, final(generated)@, p.event.rank(),
                    old(self).battle.spec_history().len() as EventId),
            },
    {
        if let Err(e) = self.battle.verify(&self.rules, &p.event) {
            return Err(e);
        }
        if let Some(c) = &p.condition {
            if !self.battle.state.holds(c) {
                return Ok(());
            }
        }
        if let Some(player) = client {
            let rights = self.battle.rights(&p.event);
            if !self.allows(player, &rights) {
                return Err(WeaselError::AuthenticationError(player));
            }
        }
        if self.battle.history.events.len() >= u32::MAX as usize {
            return Err(WeaselError::HistoryFull);
        }
        let id = self.battle.history.len();
        self.battle.apply(&self.rules, &p.event, id, generated);
        let committed = self.battle.commit(p);
        self.broadcast(committed as usize);
        Ok(())
    }

    /// Processes every prototype of `work`, first to last; what each one generates is
    /// processed, in order, before the prototypes after it. Failures are not reported.
    fn drain(&mut self, work: EventQueue, lo: Ghost<int>)
        requires
            old(self).wf(),
            forall|i: int| 0 <= i < work@.len() ==> is_follow_up_event((#[trigger] work@[i]).event),
            forall|i: int| 0 <= i < work@.len() ==> descends((#[trigger] work@[i]).origin, lo@,
                old(self).battle.spec_history().len() as int),
            forall|i: int| 0 <= i < work@.len() ==> queued_by(old(self).battle.spec_history(),
                (#[trigger] work@[i]).origin, work@[i].event),
        ensures
            forall|i: int| old(self).battle.spec_history().len() <= i < final(self).battle.spec_history().len()
                ==> queued_by(final(self).battle.spec_history(), (#[trigger] final(self).battle.spec_history()[i]).origin,
                final(self).battle.spec_history()[i].event),
            forall|i: int| old(self).battle.spec_history().len() <= i < final(self).battle.spec_history().len()
                ==> generated_entry(#[trigger] final(self).battle.spec_history()[i], lo@, i),
            final(self).wf(),
            final(self).battle.same_but_characters(&old(self).battle),
            final(self).rights == old(self).rights,
            final(self).rules == old(self).rules,
            final(self).battle.version == old(self).battle.version,
            final(self).battle.spec_history().len() >= old(self).battle.spec_history().len(),
            final(self).battle.spec_history().take(old(self).battle.spec_history().len() as int)
                == old(self).battle.spec_history(),
    {
        let ghost h0 = self.battle.spec_history();
        let mut work = work;
        proof {
            assert(h0.take(h0.len() as int) =~= h0);
            Entities::lemma_same_entities(self.battle.state.entities, self.battle.state.entities, self.battle.state.entities);
        }
        while work.len() > 0
            invariant
                self.wf(),
                self.rights == old(self).rights,
                self.rules == old(self).rules,
                self.battle.version == old(self).battle.version,
                h0 == old(self).battle.spec_history(),
                self.battle.same_but_characters(&old(self).battle),
                forall|i: int| 0 <= i < work@.len() ==> is_follow_up_event((#[trigger] work@[i]).event),
                self.battle.spec_history().len() >= h0.len(),
                self.battle.spec_history().take(h0.len() as int) == h0,
                forall|i: int| 0 <= i < work@.len() ==> descends((#[trigger] work@[i]).origin, lo@,
                    self.battle.spec_history().len() as int),
                forall|i: int| h0.len() <= i < self.battle.spec_history().len()
                    ==> generated_entry(#[trigger] self.battle.spec_history()[i], lo@, i),
                forall|i: int| 0 <= i < work@.len() ==> queued_by(self.battle.spec_history(),
                    (#[trigger] work@[i]).origin, work@[i].event),
                forall|i: int| h0.len() <= i < self.battle.spec_history().len()
                    ==> queued_by(self.battle.spec_history(), (#[trigger] self.battle.spec_history()[i]).origin,
                    self.battle.spec_history()[i].event),
            decreases count_rank(work@, 2), count_rank(work@, 1), count_rank(work@, 0),
        {
            let ghost w0 = work@;
            let p = work.remove(0);
            let ghost p_event = p.event;
            let ghost rank = p.event.rank();
            let ghost hb = self.battle.spec_history();
            let ghost bb = self.battle;
            proof {
                assert(is_follow_up_event(w0[0].event));
                assert(descends(w0[0].origin, lo@, hb.len() as int));
                assert forall|i: int| 0 <= i < work@.len() implies descends((#[trigger] work@[i]).origin, lo@,
                    hb.len() as int) by {
                    assert(work@[i] == w0[i + 1]);
                }
                assert(queued_by(hb, w0[0].origin, w0[0].event));
            }
            let mut generated: EventQueue = Vec::new();
            let _ = self.process_one(p, None, &mut generated);
            proof {
                Entities::lemma_same_entities(self.battle.state.entities, bb.state.entities, old(self).battle.state.entities);
                let h = self.battle.spec_history();
                if h.len() > hb.len() {
                    assert(h.take(h0.len() as int) =~= hb.take(h0.len() as int));
                }
                lemma_count_rank_first(w0, 0);
                lemma_count_rank_first(w0, 1);
                lemma_count_rank_first(w0, 2);
                assert(w0.drop_first() =~= work@);
                assert forall|i: int| 0 <= i < generated@.len() implies (#[trigger] generated@[i]).event.rank() < rank by {
                    assert(queued_below(Seq::empty(), generated@, rank, hb.len() as EventId) || generated@.len() == 0);
                }
            }
            let mut rest = work;
            let mut next = generated;
            next.append(&mut rest);
            work = next;
            proof {
                assert forall|i: int| 0 <= i < work@.len() implies is_follow_up_event((#[trigger] work@[i]).event)
                    && descends(work@[i].origin, lo@, self.battle.spec_history().len() as int) by {
                    if i < generated@.len() {
                        assert(work@[i] == generated@[i]);
                    } else {
                        assert(work@[i] == w0.drop_first()[i - generated@.len()]);
                        assert(w0.drop_first()[i - generated@.len()] == w0[i - generated@.len() + 1]);
                    }
                }
                assert forall|i: int| h0.len() <= i < self.battle.spec_history().len()
                    implies generated_entry(#[trigger] self.battle.spec_history()[i], lo@, i) by {
                    if i < hb.len() {
                        assert(self.battle.spec_history()[i] == hb[i]);
                    }
                }
                let hn = self.battle.spec_history();
                assert forall|o: int| 0 <= o < hb.len() implies hn[o] == hb[o] by {
                    if hn.len() > hb.len() {
                        assert(hn == hb.push(hn.last()));
                    }
                }
                assert forall|i: int| 0 <= i < work@.len() implies queued_by(hn, (#[trigger] work@[i]).origin,
                    work@[i].event) by {
                    if i < generated@.len() {
                        assert(work@[i] == generated@[i]);
                        assert(generated@.take(0) =~= Seq::<EventPrototype>::empty());
                        assert(hn[hb.len() as int].event == p_event);
                    } else {
                        assert(work@[i] == w0[i - generated@.len() + 1]);
                    }
                }
                assert forall|i: int| h0.len() <= i < hn.len() implies queued_by(hn, (#[trigger] hn[i]).origin,
                    hn[i].event) by {
                    if i < hb.len() {
                        assert(hn[i] == hb[i]);
                    } else {
                        assert(hn[i].origin == w0[0].origin);
                    }
                }
                lemma_count_rank_concat(generated@, w0.drop_first(), 0);
                lemma_count_rank_concat(generated@, w0.drop_first(), 1);
                lemma_count_rank_concat(generated@, w0.drop_first(), 2);
                lemma_count_rank_below(generated@, rank, rank);
                if rank <= 1 {
                    lemma_count_rank_below(generated@, rank, 2);
                }
                if rank == 0 {
                    lemma_count_rank_below(generated@, rank, 1);
                }
            }
        }
    }

    /// Processes a local prototype: verify, check its condition, apply, commit and
    /// broadcast it, then everything it generates, in order. A prototype whose condition
    /// does not hold is dropped: it takes no id and the result is `Ok`.
    pub fn process(&mut self, event: EventPrototype) -> (r: WeaselResult<()>)
        requires
            old(self).wf(),
        ensures
            Self::spec_processed(*old(self), event, *final(self), r),
            event.condition matches Some(c) && !old(self).spec_battle().spec_state().spec_holds(c)
                ==> final(self).spec_battle().spec_history() == old(self).spec_battle().spec_history(),
    {
        let mut generated: EventQueue = Vec::new();
        let ghost h = self.battle.spec_history();
        let ghost new_entry = EventWrapper { id: h.len() as EventId, origin: event.origin, event: event.event };
        let ghost admitted = self.spec_admit(event, None);
        let r = self.process_one(event, None, &mut generated);
        if r.is_ok() && generated.len() > 0 {
            let ghost h1 = self.battle.spec_history();
            let ghost mid = self.battle;
            proof {
                if admitted != Ok::<bool, WeaselError>(true) {
                    assert(generated@.len() == 0);
                } else {
                    assert(generated@[0].event.rank() < event.event.rank());
                }
            }
            proof {
                if admitted == Ok::<bool, WeaselError>(true) {
                    assert forall|i: int| 0 <= i < generated@.len() implies descends((#[trigger] generated@[i]).origin,
                        h.len() as int, h1.len() as int) && queued_by(h1, generated@[i].origin, generated@[i].event) by {
                        assert(generated@.take(0) =~= Seq::<EventPrototype>::empty());
                        assert(h1[h.len() as int] == new_entry);
                    }
                }
            }
            self.drain(generated, Ghost(h.len() as int));
            proof {
                if admitted == Ok::<bool, WeaselError>(true) {
                    Battle::lemma_outcome_stable(old(self).rules, old(self).battle, event.event, mid, self.battle);
                    assert(h1 == h.push(new_entry));
                    assert(h1.len() == h.len() + 1);
                    assert(self.battle.spec_history().take(h.len() as int + 1) == h1);
                }
            }
        } else {
            proof {
                if admitted == Ok::<bool, WeaselError>(true) {
                    assert(self.battle.spec_history().take(h.len() as int + 1) =~= h.push(new_entry));
                }
            }
        }
        r
    }

    /// Processes a prototype sent by a client: it must have been made under the rules
    /// version of this battle, and its player must have the rights the event requires.
    /// Then it goes through the same pipeline as a local one.
    pub fn process_client(&mut self, event: ClientEventPrototype) -> (r: WeaselResult<()>)
        requires
            old(self).wf(),
        ensures
            final(self).wf(),
            final(self).spec_rights() == old(self).spec_rights(),
            event.version != old(self).spec_battle().spec_version() ==> r == Err::<(), WeaselError>(
                WeaselError::IncompatibleVersions(event.version, old(self).spec_battle().spec_version()))
                && final(self).spec_battle() == old(self).spec_battle(),
            event.version == old(self).spec_battle().spec_version() ==> match old(self).spec_admit(
                EventPrototype { origin: event.origin, event: event.event, condition: None },
                Some(event.player),
            ) {
                Err(e) => r == Err::<(), WeaselError>(e) && final(self).spec_battle() == old(self).spec_battle(),
                Ok(_) => r is Ok && final(self).spec_battle().spec_history().len()
                    > old(self).spec_battle().spec_history().len() && old(self).spec_battle().spec_outcome(
                    old(self).spec_rules(),
                    event.event,
                    final(self).spec_battle(),
                ),
            },
    {
        if event.version != self.battle.version {
            return Err(WeaselError::IncompatibleVersions(event.version, self.battle.version));
        }
        let player = event.player;
        let p = event.prototype();
        let mut generated: EventQueue = Vec::new();
        let r = self.process_one(p, Some(player), &mut generated);
        if r.is_ok() {
            let ghost mid = self.battle;
            let ghost h1 = self.battle.spec_history();
            proof {
                assert forall|i: int| 0 <= i < generated@.len() implies descends((#[trigger] generated@[i]).origin,
                    (h1.len() - 1) as int, h1.len() as int) && queued_by(h1, generated@[i].origin, generated@[i].event) by {
                    assert(generated@.take(0) =~= Seq::<EventPrototype>::empty());
                    assert(h1[h1.len() - 1].event == event.event);
                }
            }
            self.drain(generated, Ghost((h1.len() - 1) as int));
            proof {
                Battle::lemma_outcome_stable(old(self).rules, old(self).battle, event.event, mid, self.battle);
                assert(self.battle.spec_history().take(h1.len() as int) == h1);
            }
        }
        r
    }

    /// Returns read access to the client sinks.
    pub fn client_sinks(&self) -> (r: MultiClientSinkHandle<'_, S>)
        ensures
            r.sinks.ids() == self.spec_sink_ids(),
    {
        MultiClientSinkHandle::new(&self.client_sinks)
    }

    /// Returns access to the client sinks, to add, feed and remove them.
    pub fn client_sinks_mut(&mut self) -> (r: MultiClientSinkHandleMut<'_, S>)
        requires
            old(self).wf(),
        ensures
            r.sinks.wf(),
            *r.battle == old(self).spec_battle(),
            r.sinks.ids() == old(self).spec_sink_ids(),
            final(self).spec_battle() == old(self).spec_battle(),
            final(self).spec_rights() == old(self).spec_rights(),
            final(self).spec_sink_ids() == final(r.sinks).ids(),
    {
        MultiClientSinkHandleMut::new(&mut self.client_sinks, &self.battle)
    }
}

/// Something that verifies and processes prototypes sent by clients.
pub trait EventServer: Sized {
    /// Whether the server can take a prototype.
    spec fn ready(&self) -> bool;

    /// Processes a prototype sent by a client.
    fn process_client(&mut self, event: ClientEventPrototype) -> WeaselResult<()>
        requires
            old(self).ready(),
    ;
}

impl<S: ClientSink, R: BattleRules> EventServer for Server<S, R> {
    open spec fn ready(&self) -> bool {
        self.wf()
    }

    fn process_client(&mut self, event: ClientEventPrototype) -> WeaselResult<()> {
        Server::process_client(self, event)
    }
}

impl<S: ClientSink, R: BattleRules> EventProcessor for Server<S, R> {
    type ProcessOutput = WeaselResult<()>;

    open spec fn ready(&self) -> bool {
        self.wf()
    }

    open spec fn processed(before: Self, event: EventPrototype, after: Self, out: WeaselResult<()>) -> bool {
        Self::spec_processed(before, event, after, out)
    }

    fn process(&mut self, event: EventPrototype) -> (r: WeaselResult<()>) {
        Server::process(self, event)
    }
}

} // verus!
