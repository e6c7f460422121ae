//! Entities living in a battle: teams, creatures and objects, with their statistics
//! and status effects.
use crate::event::EventId;
use crate::object::Object;
use vstd::prelude::*;

verus! {

/// Id of a team.
pub type TeamId = u32;

/// Id of a creature.
pub type CreatureId = u32;

/// Id of an object.
pub type ObjectId = u32;

/// Id of a statistic.
pub type StatisticId = u32;

/// Id of a status effect.
pub type StatusId = u32;

/// Number of rounds a status effect has been active, or may stay active.
pub type StatusDuration = u32;

/// Position of an entity.
pub type Position = u64;

/// Id of any entity.
#[derive(Clone, Copy, Debug, PartialEq, Eq, Structural, Hash)]
pub enum EntityId {
    /// A creature: creatures are the only actors.
    Creature(CreatureId),
    /// An inanimate object.
    Object(ObjectId),
}

impl EntityId {
    /// Returns true if this entity can act, that is, if it is a creature.
    pub fn is_actor(&self) -> (r: bool)
        ensures
            r == self is Creature,
    {
        match self {
            EntityId::Creature(_) => true,
            EntityId::Object(_) => false,
        }
    }
}

/// A statistic: a named integer value of a character.
#[derive(Clone, Copy, Debug, PartialEq, Eq, Structural)]
pub struct SimpleStatistic {
    pub(crate) id: StatisticId,
    pub(crate) value: i64,
}

impl SimpleStatistic {
    /// Creates a statistic with the given id and value.
    pub fn new(id: StatisticId, value: i64) -> (r: SimpleStatistic)
        ensures
            r.spec_id() == id,
            r.spec_value() == value,
    {
        SimpleStatistic { id, value }
    }

    /// The statistic's id.
    pub open(crate) spec fn spec_id(&self) -> StatisticId {
        self.id
    }

    /// The statistic's value.
    pub open(crate) spec fn spec_value(&self) -> i64 {
        self.value
    }

    /// Returns the id of this statistic.
    pub fn id(&self) -> (r: StatisticId)
        ensures
            r == self.spec_id(),
    {
        self.id
    }

    /// Returns the value of this statistic.
    pub fn value(&self) -> (r: i64)
        ensures
            r == self.spec_value(),
    {
        self.value
    }

    /// Sets the value of this statistic; the id stays.
    pub fn set_value(&mut self, value: i64)
        ensures
            final(self).spec_id() == old(self).spec_id(),
            final(self).spec_value() == value,
    {
        self.value = value;
    }
}

/// A status effect afflicting a character.
///
/// While active, the status adds its intensity to one statistic of the character.
#[derive(Clone, Copy, Debug, PartialEq, Eq, Structural)]
pub struct AppliedStatus {
    pub id: StatusId,
    pub statistic: StatisticId,
    pub intensity: i32,
    pub max_duration: Option<StatusDuration>,
    pub duration: StatusDuration,
    pub origin: Option<EventId>,
}

impl AppliedStatus {
    /// Returns the id of this status.
    pub fn id(&self) -> (r: StatusId)
        ensures
            r == self.id,
    {
        self.id
    }

    /// Returns the id of the statistic this status alters.
    pub fn statistic(&self) -> (r: StatisticId)
        ensures
            r == self.statistic,
    {
        self.statistic
    }

    /// Returns the amount added to the statistic while the status is active.
    pub fn intensity(&self) -> (r: i32)
        ensures
            r == self.intensity,
    {
        self.intensity
    }

    /// Returns the number of rounds after which the status ends, if it ends at all.
    pub fn max_duration(&self) -> (r: Option<StatusDuration>)
        ensures
            r == self.max_duration,
    {
        self.max_duration
    }

    /// Returns the number of rounds this status has been active.
    pub fn duration(&self) -> (r: StatusDuration)
        ensures
            r == self.duration,
    {
        self.duration
    }

    /// Returns the id of the event that inflicted this status.
    pub fn origin(&self) -> (r: Option<EventId>)
        ensures
            r == self.origin,
    {
        self.origin
    }

    /// True once the status has been active for its whole duration.
    pub open(crate) spec fn spec_expired(&self) -> bool {
        match self.max_duration {
            Some(d) => self.duration >= d,
            None => false,
        }
    }
}

/// A status after one more round: its duration grows by one, up to the largest value.
pub open spec fn ticked(s: AppliedStatus) -> AppliedStatus {
    AppliedStatus {
        duration: if s.duration < u32::MAX {
            (s.duration + 1) as u32
        } else {
            s.duration
        },
        ..s
    }
}

/// The ids of the statuses that one more round ends, in order.
pub open spec fn expired_ids(s: Seq<AppliedStatus>) -> Seq<StatusId>
    decreases s.len(),
{
    if s.len() == 0 {
        Seq::empty()
    } else {
        let r = expired_ids(s.drop_last());
        if ticked(s.last()).spec_expired() {
            r.push(s.last().id)
        } else {
            r
        }
    }
}

/// `after` is `before` after one more round: same statistics, every status ticked.
pub open spec fn is_ticked(before: Character, after: Character) -> bool {
    &&& after.spec_statistics() == before.spec_statistics()
    &&& after.spec_statuses() == before.spec_statuses().map_values(|s: AppliedStatus| ticked(s))
}

/// The key of a statistic: its id.
pub open(crate) spec fn statistic_key() -> spec_fn(SimpleStatistic) -> u32 {
    |x: SimpleStatistic| x.id
}

/// The key of a status: its id.
pub open spec fn status_key() -> spec_fn(AppliedStatus) -> u32 {
    |x: AppliedStatus| x.id
}

/// The last element of `s` whose key is `id`, if any.
pub open spec fn find_by_key<T>(s: Seq<T>, key: spec_fn(T) -> u32, id: u32) -> Option<T>
    decreases s.len(),
{
    if s.len() == 0 {
        None
    } else if key(s.last()) == id {
        Some(s.last())
    } else {
        find_by_key(s.drop_last(), key, id)
    }
}

/// Nothing is found exactly when no element has the key.
pub proof fn lemma_find_none<T>(s: Seq<T>, key: spec_fn(T) -> u32, id: u32)
    ensures
        (find_by_key(s, key, id) is None) <==> forall|i: int| 0 <= i < s.len() ==> key(s[i]) != id,
    decreases s.len(),
{
    if s.len() > 0 {
        lemma_find_none(s.drop_last(), key, id);
        if key(s.last()) != id {
            assert forall|i: int| 0 <= i < s.len() - 1 implies s.drop_last()[i] == s[i] by {}
        }
    }
}

/// With unique keys, the element found for a key is the one that has it.
pub proof fn lemma_find_at<T>(s: Seq<T>, key: spec_fn(T) -> u32, i: int)
    requires
        s.map_values(key).no_duplicates(),
        0 <= i < s.len(),
    ensures
        find_by_key(s, key, key(s[i])) == Some(s[i]),
    decreases s.len(),
{
    if i < s.len() - 1 {
        assert(s.map_values(key)[i] != s.map_values(key)[s.len() - 1]);
        let t = s.drop_last();
        assert(t.map_values(key) =~= s.map_values(key).drop_last());
        assert(t[i] == s[i]);
        lemma_find_at(t, key, i);
    }
}

/// Replacing an element by one with the same key keeps the keys unique, and changes
/// what is found for that key only.
pub proof fn lemma_find_update<T>(s: Seq<T>, key: spec_fn(T) -> u32, i: int, x: T)
    requires
        s.map_values(key).no_duplicates(),
        0 <= i < s.len(),
        key(x) == key(s[i]),
    ensures
        s.update(i, x).map_values(key) == s.map_values(key),
        find_by_key(s.update(i, x), key, key(x)) == Some(x),
        forall|k: u32| k != key(x) ==> find_by_key(s.update(i, x), key, k) == find_by_key(s, key, k),
{
    let u = s.update(i, x);
    assert(u.map_values(key) =~= s.map_values(key));
    lemma_find_at(u, key, i);
    assert forall|k: u32| k != key(x) implies find_by_key(u, key, k) == find_by_key(s, key, k) by {
        lemma_find_none(s, key, k);
        lemma_find_none(u, key, k);
        if exists|m: int| 0 <= m < s.len() && key(s[m]) == k {
            let m = choose|m: int| 0 <= m < s.len() && key(s[m]) == k;
            lemma_find_at(s, key, m);
            lemma_find_at(u, key, m);
        }
    }
}

/// Removing an element keeps the keys unique, and changes what is found for its key only.
pub proof fn lemma_find_remove<T>(s: Seq<T>, key: spec_fn(T) -> u32, i: int)
    requires
        s.map_values(key).no_duplicates(),
        0 <= i < s.len(),
    ensures
        s.remove(i).map_values(key) == s.map_values(key).remove(i),
        s.remove(i).map_values(key).no_duplicates(),
        find_by_key(s.remove(i), key, key(s[i])) is None,
        forall|k: u32| k != key(s[i]) ==> find_by_key(s.remove(i), key, k) == find_by_key(s, key, k),
{
    let u = s.remove(i);
    assert(u.map_values(key) =~= s.map_values(key).remove(i));
    lemma_find_none(u, key, key(s[i]));
    assert forall|m: int| 0 <= m < u.len() implies key(u[m]) != key(s[i]) by {
        if m < i {
            assert(s.map_values(key)[m] != s.map_values(key)[i]);
        } else {
            assert(s.map_values(key)[m + 1] != s.map_values(key)[i]);
        }
    }
    assert forall|k: u32| k != key(s[i]) implies find_by_key(u, key, k) == find_by_key(s, key, k) by {
        lemma_find_none(s, key, k);
        lemma_find_none(u, key, k);
        if exists|m: int| 0 <= m < s.len() && key(s[m]) == k {
            let m = choose|m: int| 0 <= m < s.len() && key(s[m]) == k;
            lemma_find_at(s, key, m);
            if m < i {
                assert(u[m] == s[m]);
                lemma_find_at(u, key, m);
            } else {
                assert(m != i);
                assert(u[m - 1] == s[m]);
                lemma_find_at(u, key, m - 1);
            }
        }
    }
}

/// Sequences with the same keys have an element for the same keys.
pub proof fn lemma_find_same_keys<T>(s: Seq<T>, t: Seq<T>, key: spec_fn(T) -> u32, id: u32)
    requires
        s.map_values(key) == t.map_values(key),
    ensures
        (find_by_key(s, key, id) is Some) == (find_by_key(t, key, id) is Some),
{
    lemma_find_none(s, key, id);
    lemma_find_none(t, key, id);
    assert(s.len() == s.map_values(key).len());
    assert(t.len() == t.map_values(key).len());
    assert forall|i: int| 0 <= i < s.len() implies key(s[i]) == key(t[i]) by {
        assert(s.map_values(key)[i] == key(s[i]));
        assert(t.map_values(key)[i] == key(t[i]));
        assert(s.map_values(key)[i] == t.map_values(key)[i]);
    }
}

/// Appending an element with a new key keeps the keys unique.
pub proof fn lemma_find_push<T>(s: Seq<T>, key: spec_fn(T) -> u32, x: T)
    requires
        s.map_values(key).no_duplicates(),
        forall|i: int| 0 <= i < s.len() ==> key(s[i]) != key(x),
    ensures
        s.push(x).map_values(key) == s.map_values(key).push(key(x)),
        s.push(x).map_values(key).no_duplicates(),
        find_by_key(s.push(x), key, key(x)) == Some(x),
        forall|k: u32| k != key(x) ==> find_by_key(s.push(x), key, k) == find_by_key(s, key, k),
{
    assert(s.push(x).map_values(key) =~= s.map_values(key).push(key(x)));
    assert(s.push(x).drop_last() == s);
}

/// Statistics and status effects: what creatures and objects have in common.
#[derive(Clone, Debug)]
pub struct Character {
    pub(crate) statistics: Vec<SimpleStatistic>,
    pub(crate) statuses: Vec<AppliedStatus>,
}

impl Character {
    /// The statistics, in insertion order.
    pub open(crate) spec fn spec_statistics(&self) -> Seq<SimpleStatistic> {
        self.statistics@
    }

    /// The status effects, in insertion order.
    pub open(crate) spec fn spec_statuses(&self) -> Seq<AppliedStatus> {
        self.statuses@
    }

    /// Ids of statistics and of statuses are unique.
    pub open(crate) spec fn wf(&self) -> bool {
        &&& self.statistics@.map_values(statistic_key()).no_duplicates()
        &&& self.statuses@.map_values(status_key()).no_duplicates()
    }

    /// The statistic with the given id, if there is one.
    pub open(crate) spec fn spec_statistic(&self, id: StatisticId) -> Option<SimpleStatistic> {
        find_by_key(self.statistics@, statistic_key(), id)
    }

    /// The position of the statistic with the given id, if there is one.
    pub open(crate) spec fn spec_statistic_index(&self, id: StatisticId) -> int {
        choose|i: int| 0 <= i < self.statistics@.len() && self.statistics@[i].id == id
    }

    /// The status with the given id, if there is one.
    pub open(crate) spec fn spec_status(&self, id: StatusId) -> Option<AppliedStatus> {
        find_by_key(self.statuses@, status_key(), id)
    }

    /// A character with the given statistics, of which the last with a given id counts,
    /// and no status.
    pub fn new(statistics: &Vec<SimpleStatistic>) -> (r: Character)
        ensures
            r.wf(),
            r.spec_statuses().len() == 0,
            forall|id: StatisticId|
                r.spec_statistic(id) == find_by_key(statistics@, statistic_key(), id),
    {
        let mut c = Character { statistics: Vec::new(), statuses: Vec::new() };
        proof {
            assert(c.statistics@.map_values(statistic_key()) =~= Seq::<u32>::empty());
            assert(c.statuses@.map_values(status_key()) =~= Seq::<u32>::empty());
        }
        let mut i: usize = 0;
        while i < statistics.len()
            invariant
                i <= statistics.len(),
                c.wf(),
                c.statuses@.len() == 0,
                forall|id: StatisticId|
                    c.spec_statistic(id) == find_by_key(
                        statistics@.take(i as int),
                        statistic_key(),
                        id,
                    ),
            decreases statistics.len() - i,
        {
            let s = statistics[i];
            let _ = c.add_statistic(s);
            proof {
                let t = statistics@.take(i + 1);
                assert(t.drop_last() == statistics@.take(i as int));
                assert(t.last() == s);
            }
            i += 1;
        }
        proof {
            assert(statistics@.take(statistics@.len() as int) == statistics@);
        }
        c
    }

    /// Position of the statistic with the given id.
    pub(crate) fn statistic_index(&self, id: StatisticId) -> (r: Option<usize>)
        requires
            self.wf(),
        ensures
            match r {
                Some(i) => i < self.statistics@.len() && self.statistics@[i as int].id == id
                    && self.spec_statistic(id) == Some(self.statistics@[i as int]),
                None => self.spec_statistic(id) is None,
            },
    {
        let mut i: usize = 0;
        while i < self.statistics.len()
            invariant
                i <= self.statistics@.len(),
                self.wf(),
                forall|j: int| 0 <= j < i ==> self.statistics@[j].id != id,
            decreases self.statistics.len() - i,
        {
            if self.statistics[i].id == id {
                proof {
                    lemma_find_at(self.statistics@, statistic_key(), i as int);
                }
                return Some(i);
            }
            i += 1;
        }
        proof {
            lemma_find_none(self.statistics@, statistic_key(), id);
        }
        None
    }

    /// Position of the status with the given id.
    pub(crate) fn status_index(&self, id: StatusId) -> (r: Option<usize>)
        requires
            self.wf(),
        ensures
            match r {
                Some(i) => i < self.statuses@.len() && self.statuses@[i as int].id == id
                    && self.spec_status(id) == Some(self.statuses@[i as int]),
                None => self.spec_status(id) is None,
            },
    {
        let mut i: usize = 0;
        while i < self.statuses.len()
            invariant
                i <= self.statuses@.len(),
                self.wf(),
                forall|j: int| 0 <= j < i ==> self.statuses@[j].id != id,
            decreases self.statuses.len() - i,
        {
            if self.statuses[i].id == id {
                proof {
                    lemma_find_at(self.statuses@, status_key(), i as int);
                }
                return Some(i);
            }
            i += 1;
        }
        proof {
            lemma_find_none(self.statuses@, status_key(), id);
        }
        None
    }

    /// Returns all statistics, in insertion order.
    pub fn statistics(&self) -> (r: &Vec<SimpleStatistic>)
        ensures
            r@ == self.spec_statistics(),
    {
        &self.statistics
    }

    /// Returns the statistic with the given id, if any.
    pub fn statistic(&self, id: &StatisticId) -> (r: Option<SimpleStatistic>)
        requires
            self.wf(),
        ensures
            r == self.spec_statistic(*id),
    {
        match self.statistic_index(*id) {
            Some(i) => Some(self.statistics[i]),
            None => None,
        }
    }

    /// Returns a mutable reference to the statistic with the given id, if any.
    /// Its id can't be changed through it.
    pub fn statistic_mut(&mut self, id: &StatisticId) -> (r: Option<&mut SimpleStatistic>)
        requires
            old(self).wf(),
        ensures
            (r is Some) <==> (old(self).spec_statistic(*id) is Some),
            r matches Some(s) ==> Some(*s) == old(self).spec_statistic(*id),
            r is None ==> *final(self) == *old(self),
            r matches Some(s) ==> final(self).spec_statuses() == old(self).spec_statuses()
                && final(self).spec_statistics() == old(self).spec_statistics().update(
                old(self).spec_statistic_index(*id),
                *final(s),
            ),
    {
        match self.statistic_index(*id) {
            Some(i) => {
                proof {
                    let j = self.spec_statistic_index(*id);
                    assert(self.statistics@.map_values(statistic_key())[j] == self.statistics@.map_values(statistic_key())[i as int]);
                }
                Some(&mut self.statistics[i])
            },
            None => None,
        }
    }

    /// Adds a statistic, replacing the one with the same id. Returns the replaced one.
    pub fn add_statistic(&mut self, statistic: SimpleStatistic) -> (r: Option<SimpleStatistic>)
        requires
            old(self).wf(),
        ensures
            final(self).wf(),
            r == old(self).spec_statistic(statistic.spec_id()),
            final(self).spec_statistic(statistic.spec_id()) == Some(statistic),
            forall|id: StatisticId|
                id != statistic.spec_id() ==> final(self).spec_statistic(id) == old(
                    self,
                ).spec_statistic(id),
            final(self).spec_statuses() == old(self).spec_statuses(),
    {
        match self.statistic_index(statistic.id) {
            Some(i) => {
                let old_stat = self.statistics[i];
                proof {
                    lemma_find_update(self.statistics@, statistic_key(), i as int, statistic);
                }
                self.statistics.set(i, statistic);
                Some(old_stat)
            },
            None => {
                proof {
                    lemma_find_none(self.statistics@, statistic_key(), statistic.id);
                    lemma_find_push(self.statistics@, statistic_key(), statistic);
                }
                self.statistics.push(statistic);
                None
            },
        }
    }

    /// Removes the statistic with the given id, returning it.
    pub fn remove_statistic(&mut self, id: &StatisticId) -> (r: Option<SimpleStatistic>)
        requires
            old(self).wf(),
        ensures
            final(self).wf(),
            r == old(self).spec_statistic(*id),
            final(self).spec_statistic(*id) is None,
            forall|k: StatisticId|
                k != *id ==> final(self).spec_statistic(k) == old(self).spec_statistic(k),
            final(self).spec_statuses() == old(self).spec_statuses(),
    {
        match self.statistic_index(*id) {
            Some(i) => {
                proof {
                    lemma_find_remove(self.statistics@, statistic_key(), i as int);
                }
                let s = self.statistics.remove(i);
                Some(s)
            },
            None => None,
        }
    }

    /// Returns all status effects, in the order they were inflicted.
    pub fn statuses(&self) -> (r: &Vec<AppliedStatus>)
        ensures
            r@ == self.spec_statuses(),
    {
        &self.statuses
    }

    /// A character without statistics nor statuses.
    pub(crate) fn empty() -> (r: Character)
        ensures
            r.wf(),
            r.spec_statistics().len() == 0,
            r.spec_statuses().len() == 0,
    {
        let r = Character { statistics: Vec::new(), statuses: Vec::new() };
        proof {
            assert(r.statistics@.map_values(statistic_key()) =~= Seq::<u32>::empty());
            assert(r.statuses@.map_values(status_key()) =~= Seq::<u32>::empty());
        }
        r
    }

    /// Adds a status, replacing the one with the same id. Returns the replaced one.
    pub(crate) fn put_status(&mut self, status: AppliedStatus) -> (r: Option<AppliedStatus>)
        requires
            old(self).wf(),
        ensures
            final(self).wf(),
            r == old(self).spec_status(status.id),
            final(self).spec_status(status.id) == Some(status),
            forall|id: StatusId|
                id != status.id ==> final(self).spec_status(id) == old(self).spec_status(id),
            final(self).spec_statistics() == old(self).spec_statistics(),
    {
        match self.status_index(status.id) {
            Some(i) => {
                let old_status = self.statuses[i];
                proof {
                    lemma_find_update(self.statuses@, status_key(), i as int, status);
                }
                self.statuses.set(i, status);
                Some(old_status)
            },
            None => {
                proof {
                    lemma_find_none(self.statuses@, status_key(), status.id);
                    lemma_find_push(self.statuses@, status_key(), status);
                }
                self.statuses.push(status);
                None
            },
        }
    }

    /// Removes the status with the given id, returning it.
    pub(crate) fn remove_status(&mut self, id: StatusId) -> (r: Option<AppliedStatus>)
        requires
            old(self).wf(),
        ensures
            final(self).wf(),
            r == old(self).spec_status(id),
            final(self).spec_status(id) is None,
            forall|k: StatusId| k != id ==> final(self).spec_status(k) == old(self).spec_status(k),
            final(self).spec_statistics() == old(self).spec_statistics(),
    {
        match self.status_index(id) {
            Some(i) => {
                proof {
                    lemma_find_remove(self.statuses@, status_key(), i as int);
                }
                let s = self.statuses.remove(i);
                Some(s)
            },
            None => None,
        }
    }

    /// Adds `delta` to the statistic with the given id. Fails, changing nothing, if there is
    /// no such statistic or the sum leaves the range of `i64`.
    pub(crate) fn alter_statistic(&mut self, id: StatisticId, delta: i64) -> (r: bool)
        requires
            old(self).wf(),
        ensures
            final(self).wf(),
            r == (old(self).spec_statistic(id) matches Some(s) && i64::MIN <= s.value + delta
                <= i64::MAX),
            r ==> final(self).spec_statistic(id) == Some(
                SimpleStatistic { id, value: (old(self).spec_statistic(id)->0.value + delta) as i64 },
            ),
            r ==> forall|k: StatisticId|
                k != id ==> final(self).spec_statistic(k) == old(self).spec_statistic(k),
            !r ==> *final(self) == *old(self),
            final(self).spec_statuses() == old(self).spec_statuses(),
    {
        match self.statistic_index(id) {
            Some(i) => {
                let s = self.statistics[i];
                match s.value.checked_add(delta) {
                    Some(v) => {
                        let _ = self.add_statistic(SimpleStatistic { id, value: v });
                        true
                    },
                    None => false,
                }
            },
            None => false,
        }
    }

    /// Lets one more round pass for every status, and returns the ids of those that have
    /// now been active for their whole duration, in order.
    pub(crate) fn tick_statuses(&mut self) -> (r: Vec<StatusId>)
        requires
            old(self).wf(),
        ensures
            final(self).wf(),
            final(self).spec_statistics() == old(self).spec_statistics(),
            final(self).spec_statuses().len() == old(self).spec_statuses().len(),
            forall|i: int|
                0 <= i < old(self).spec_statuses().len() ==> final(self).spec_statuses()[i]
                    == ticked(old(self).spec_statuses()[i]),
            is_ticked(*old(self), *final(self)),
            r@ == expired_ids(old(self).spec_statuses()),
            forall|i: int| 0 <= i < r@.len() ==> final(self).spec_status(r@[i]) is Some,
    {
        let ghost before = self.statuses@;
        let mut expired: Vec<StatusId> = Vec::new();
        let mut i: usize = 0;
        while i < self.statuses.len()
            invariant
                i <= self.statuses@.len(),
                self.statuses@.len() == before.len(),
                self.statistics@ == old(self).statistics@,
                forall|j: int| 0 <= j < i ==> self.statuses@[j] == ticked(before[j]),
                forall|j: int| i <= j < before.len() ==> self.statuses@[j] == before[j],
                self.statuses@.map_values(status_key()) == before.map_values(status_key()),
                before == old(self).statuses@,
                old(self).wf(),
                forall|j: int|
                    0 <= j < expired@.len() ==> self.statuses@.map_values(status_key()).contains(
                        expired@[j],
                    ),
                expired@ == expired_ids(before.take(i as int)),
            decreases self.statuses.len() - i,
        {
            let st = self.statuses[i];
            let t = AppliedStatus {
                duration: if st.duration < u32::MAX {
                    st.duration + 1
                } else {
                    st.duration
                },
                ..st
            };
            let ghost prev = self.statuses@;
            self.statuses.set(i, t);
            proof {
                assert(self.statuses@.map_values(status_key()) =~= prev.map_values(status_key()));
            }
            proof {
                assert(before.take(i + 1).drop_last() =~= before.take(i as int));
                assert(before.take(i + 1).last() == st);
            }
            let is_over = match t.max_duration {
                Some(d) => t.duration >= d,
                None => false,
            };
            if is_over {
                proof {
                    assert(self.statuses@.map_values(status_key())[i as int] == t.id);
                }
                expired.push(t.id);
            }
            i += 1;
        }
        proof {
            assert forall|j: int| 0 <= j < expired@.len() implies self.spec_status(expired@[j]) is Some by {
                let k = choose|k: int|
                    0 <= k < self.statuses@.len() && self.statuses@.map_values(status_key())[k]
                        == expired@[j];
                lemma_find_at(self.statuses@, status_key(), k);
            }
            assert(before.take(before.len() as int) =~= before);
            assert(self.statuses@ =~= before.map_values(|s: AppliedStatus| ticked(s)));
        }
        expired
    }

    /// Returns the status effect with the given id, if any.
    pub fn status(&self, id: &StatusId) -> (r: Option<AppliedStatus>)
        requires
            self.wf(),
        ensures
            r == self.spec_status(*id),
    {
        match self.status_index(*id) {
            Some(i) => Some(self.statuses[i]),
            None => None,
        }
    }
}

/// A team of creatures.
#[derive(Clone, Copy, Debug, PartialEq, Eq, Structural)]
pub struct Team {
    pub(crate) id: TeamId,
}

impl Team {
    /// The team's id.
    pub open(crate) spec fn spec_id(&self) -> TeamId {
        self.id
    }

    /// Returns the team's id.
    pub fn id(&self) -> (r: TeamId)
        ensures
            r == self.spec_id(),
    {
        self.id
    }
}

/// A creature: an entity that belongs to a team and can act.
#[derive(Clone, Debug)]
pub struct Creature {
    pub(crate) id: CreatureId,
    pub(crate) team_id: TeamId,
    pub(crate) character: Character,
}

impl Creature {
    /// The creature's id.
    pub open(crate) spec fn spec_id(&self) -> CreatureId {
        self.id
    }

    /// The id of the creature's team.
    pub open(crate) spec fn spec_team_id(&self) -> TeamId {
        self.team_id
    }

    /// The creature's statistics and statuses.
    pub open(crate) spec fn spec_character(&self) -> Character {
        self.character
    }

    /// Returns the creature's id.
    pub fn id(&self) -> (r: CreatureId)
        ensures
            r == self.spec_id(),
    {
        self.id
    }

    /// Returns the creature's entity id.
    pub fn entity_id(&self) -> (r: EntityId)
        ensures
            r == EntityId::Creature(self.spec_id()),
    {
        EntityId::Creature(self.id)
    }

    /// Returns the id of the creature's team.
    pub fn team_id(&self) -> (r: TeamId)
        ensures
            r == self.spec_team_id(),
    {
        self.team_id
    }

    /// Returns the creature's statistics and statuses.
    pub fn character(&self) -> (r: &Character)
        ensures
            *r == self.spec_character(),
    {
        &self.character
    }
}

/// The key of a team: its id.
pub open(crate) spec fn team_key() -> spec_fn(Team) -> u32 {
    |x: Team| x.id
}

/// The key of a creature: its id.
pub open(crate) spec fn creature_key() -> spec_fn(Creature) -> u32 {
    |x: Creature| x.id
}

/// The key of an object: its id.
pub open(crate) spec fn object_key() -> spec_fn(Object) -> u32 {
    |x: Object| x.id
}

/// All entities of a battle, each kind in order of creation.
pub struct Entities {
    pub(crate) teams: Vec<Team>,
    pub(crate) creatures: Vec<Creature>,
    pub(crate) objects: Vec<Object>,
}

impl Entities {
    /// The teams, in order of creation.
    pub open(crate) spec fn spec_teams(&self) -> Seq<Team> {
        self.teams@
    }

    /// The creatures, in order of creation.
    pub open(crate) spec fn spec_creatures(&self) -> Seq<Creature> {
        self.creatures@
    }

    /// The objects, in order of creation.
    pub open(crate) spec fn spec_objects(&self) -> Seq<Object> {
        self.objects@
    }

    /// Ids are unique within each kind, and every character is well formed.
    pub open(crate) spec fn wf(&self) -> bool {
        &&& self.teams@.map_values(team_key()).no_duplicates()
        &&& self.creatures@.map_values(creature_key()).no_duplicates()
        &&& self.objects@.map_values(object_key()).no_duplicates()
        &&& forall|i: int| 0 <= i < self.creatures@.len() ==> (#[trigger] self.creatures@[i]).character.wf()
        &&& forall|i: int| 0 <= i < self.objects@.len() ==> (#[trigger] self.objects@[i]).character.wf()
    }

    /// The team with the given id, if any.
    pub open(crate) spec fn spec_team(&self, id: TeamId) -> Option<Team> {
        find_by_key(self.teams@, team_key(), id)
    }

    /// The creature with the given id, if any.
    pub open(crate) spec fn spec_creature(&self, id: CreatureId) -> Option<Creature> {
        find_by_key(self.creatures@, creature_key(), id)
    }

    /// The object with the given id, if any.
    pub open(crate) spec fn spec_object(&self, id: ObjectId) -> Option<Object> {
        find_by_key(self.objects@, object_key(), id)
    }

    /// True if the entity exists.
    pub open(crate) spec fn spec_has(&self, e: EntityId) -> bool {
        match e {
            EntityId::Creature(id) => self.spec_creature(id) is Some,
            EntityId::Object(id) => self.spec_object(id) is Some,
        }
    }

    /// The statistics and statuses of the entity, if it exists.
    pub open(crate) spec fn spec_character(&self, e: EntityId) -> Option<Character> {
        match e {
            EntityId::Creature(id) => match self.spec_creature(id) {
                Some(c) => Some(c.character),
                None => None,
            },
            EntityId::Object(id) => match self.spec_object(id) {
                Some(o) => Some(o.character),
                None => None,
            },
        }
    }

    /// The same entities, each with the same id, team and position: only statistics and
    /// statuses may differ.
    pub open(crate) spec fn same_entities(&self, other: &Entities) -> bool {
        &&& self.teams@ == other.teams@
        &&& self.creatures@.map_values(creature_key()) == other.creatures@.map_values(creature_key())
        &&& self.objects@.map_values(object_key()) == other.objects@.map_values(object_key())
        &&& forall|i: int| 0 <= i < self.creatures@.len() ==>
            (#[trigger] self.creatures@[i]).team_id == other.creatures@[i].team_id
        &&& forall|i: int| 0 <= i < self.objects@.len() ==>
            (#[trigger] self.objects@[i]).position == other.objects@[i].position
    }

    /// Having the same entities is reflexive and transitive.
    pub proof fn lemma_same_entities(a: Entities, b: Entities, c: Entities)
        ensures
            a.same_entities(&a),
            a.same_entities(&b) && b.same_entities(&c) ==> a.same_entities(&c),
            a.same_entities(&b) ==> forall|e: EntityId| #[trigger] a.spec_has(e) == b.spec_has(e),
    {
        if a.same_entities(&b) {
            assert forall|e: EntityId| #[trigger] a.spec_has(e) == b.spec_has(e) by {
                match e {
                    EntityId::Creature(id) => {
                        lemma_find_same_keys(a.creatures@, b.creatures@, creature_key(), id);
                    },
                    EntityId::Object(id) => {
                        lemma_find_same_keys(a.objects@, b.objects@, object_key(), id);
                    },
                }
            }
        }
        if a.same_entities(&b) && b.same_entities(&c) {
            assert(a.creatures@.len() == a.creatures@.map_values(creature_key()).len());
            assert(b.creatures@.len() == b.creatures@.map_values(creature_key()).len());
            assert(a.objects@.len() == a.objects@.map_values(object_key()).len());
            assert(b.objects@.len() == b.objects@.map_values(object_key()).len());
        }
    }

    /// No entity at all.
    pub fn new() -> (r: Entities)
        ensures
            r.wf(),
            r.spec_teams().len() == 0,
            r.spec_creatures().len() == 0,
            r.spec_objects().len() == 0,
    {
        let r = Entities { teams: Vec::new(), creatures: Vec::new(), objects: Vec::new() };
        proof {
            assert(r.teams@.map_values(team_key()) =~= Seq::<u32>::empty());
            assert(r.creatures@.map_values(creature_key()) =~= Seq::<u32>::empty());
            assert(r.objects@.map_values(object_key()) =~= Seq::<u32>::empty());
        }
        r
    }

    /// Returns all teams, in order of creation.
    pub fn teams(&self) -> (r: &Vec<Team>)
        ensures
            r@ == self.spec_teams(),
    {
        &self.teams
    }

    /// Returns all creatures, in order of creation.
    pub fn creatures(&self) -> (r: &Vec<Creature>)
        ensures
            r@ == self.spec_creatures(),
    {
        &self.creatures
    }

    /// Returns all objects, in order of creation.
    pub fn objects(&self) -> (r: &Vec<Object>)
        ensures
            r@ == self.spec_objects(),
    {
        &self.objects
    }

    /// Position of the team with the given id.
    pub(crate) fn team_index(&self, id: TeamId) -> (r: Option<usize>)
        requires
            self.wf(),
        ensures
            match r {
                Some(i) => i < self.teams@.len() && self.teams@[i as int].id == id
                    && self.spec_team(id) == Some(self.teams@[i as int]),
                None => self.spec_team(id) is None,
            },
    {
        let mut i: usize = 0;
        while i < self.teams.len()
            invariant
                i <= self.teams@.len(),
                self.wf(),
                forall|j: int| 0 <= j < i ==> self.teams@[j].id != id,
            decreases self.teams.len() - i,
        {
            if self.teams[i].id == id {
                proof {
                    lemma_find_at(self.teams@, team_key(), i as int);
                }
                return Some(i);
            }
            i += 1;
        }
        proof {
            lemma_find_none(self.teams@, team_key(), id);
        }
        None
    }

    /// Position of the creature with the given id.
    pub(crate) fn creature_index(&self, id: CreatureId) -> (r: Option<usize>)
        requires
            self.wf(),
        ensures
            match r {
                Some(i) => i < self.creatures@.len() && self.creatures@[i as int].id == id
                    && self.spec_creature(id) == Some(self.creatures@[i as int]),
                None => self.spec_creature(id) is None,
            },
    {
        let mut i: usize = 0;
        while i < self.creatures.len()
            invariant
                i <= self.creatures@.len(),
                self.wf(),
                forall|j: int| 0 <= j < i ==> self.creatures@[j].id != id,
            decreases self.creatures.len() - i,
        {
            if self.creatures[i].id == id {
                proof {
                    lemma_find_at(self.creatures@, creature_key(), i as int);
                }
                return Some(i);
            }
            i += 1;
        }
        proof {
            lemma_find_none(self.creatures@, creature_key(), id);
        }
        None
    }

    /// Position of the object with the given id.
    pub(crate) fn object_index(&self, id: ObjectId) -> (r: Option<usize>)
        requires
            self.wf(),
        ensures
            match r {
                Some(i) => i < self.objects@.len() && self.objects@[i as int].id == id
                    && self.spec_object(id) == Some(self.objects@[i as int]),
                None => self.spec_object(id) is None,
            },
    {
        let mut i: usize = 0;
        while i < self.objects.len()
            invariant
                i <= self.objects@.len(),
                self.wf(),
                forall|j: int| 0 <= j < i ==> self.objects@[j].id != id,
            decreases self.objects.len() - i,
        {
            if self.objects[i].id == id {
                proof {
                    lemma_find_at(self.objects@, object_key(), i as int);
                }
                return Some(i);
            }
            i += 1;
        }
        proof {
            lemma_find_none(self.objects@, object_key(), id);
        }
        None
    }

    /// Returns the team with the given id, if any.
    pub fn team(&self, id: &TeamId) -> (r: Option<Team>)
        requires
            self.wf(),
        ensures
            r == self.spec_team(*id),
    {
        match self.team_index(*id) {
            Some(i) => Some(self.teams[i]),
            None => None,
        }
    }

    /// Returns the creature with the given id, if any.
    pub fn creature(&self, id: &CreatureId) -> (r: Option<&Creature>)
        requires
            self.wf(),
        ensures
            match r {
                Some(c) => self.spec_creature(*id) == Some(*c),
                None => self.spec_creature(*id) is None,
            },
    {
        match self.creature_index(*id) {
            Some(i) => Some(&self.creatures[i]),
            None => None,
        }
    }

    /// Returns the object with the given id, if any.
    pub fn object(&self, id: &ObjectId) -> (r: Option<&Object>)
        requires
            self.wf(),
        ensures
            match r {
                Some(o) => self.spec_object(*id) == Some(*o),
                None => self.spec_object(*id) is None,
            },
    {
        match self.object_index(*id) {
            Some(i) => Some(&self.objects[i]),
            None => None,
        }
    }

    /// Returns the statistics and statuses of the entity, if it exists.
    pub fn character(&self, id: &EntityId) -> (r: Option<&Character>)
        requires
            self.wf(),
        ensures
            match r {
                Some(c) => self.spec_character(*id) == Some(*c),
                None => self.spec_character(*id) is None,
            },
            r matches Some(c) ==> c.wf(),
    {
        match id {
            EntityId::Creature(c) => match self.creature_index(*c) {
                Some(i) => Some(&self.creatures[i].character),
                None => None,
            },
            EntityId::Object(o) => match self.object_index(*o) {
                Some(i) => Some(&self.objects[i].character),
                None => None,
            },
        }
    }

    /// Adds a team with a new id.
    pub(crate) fn add_team(&mut self, team: Team)
        requires
            old(self).wf(),
            old(self).spec_team(team.id) is None,
        ensures
            final(self).wf(),
            final(self).teams@ == old(self).teams@.push(team),
            final(self).creatures@ == old(self).creatures@,
            final(self).objects@ == old(self).objects@,
    {
        proof {
            lemma_find_none(self.teams@, team_key(), team.id);
            lemma_find_push(self.teams@, team_key(), team);
        }
        self.teams.push(team);
    }

    /// Adds a creature with a new id.
    pub(crate) fn add_creature(&mut self, creature: Creature)
        requires
            old(self).wf(),
            old(self).spec_creature(creature.id) is None,
            creature.character.wf(),
        ensures
            final(self).wf(),
            final(self).creatures@ == old(self).creatures@.push(creature),
            final(self).teams@ == old(self).teams@,
            final(self).objects@ == old(self).objects@,
    {
        proof {
            lemma_find_none(self.creatures@, creature_key(), creature.id);
            lemma_find_push(self.creatures@, creature_key(), creature);
        }
        self.creatures.push(creature);
    }

    /// Adds an object with a new id.
    pub(crate) fn add_object(&mut self, object: Object)
        requires
            old(self).wf(),
            old(self).spec_object(object.id) is None,
            object.character.wf(),
        ensures
            final(self).wf(),
            final(self).objects@ == old(self).objects@.push(object),
            final(self).teams@ == old(self).teams@,
            final(self).creatures@ == old(self).creatures@,
    {
        proof {
            lemma_find_none(self.objects@, object_key(), object.id);
            lemma_find_push(self.objects@, object_key(), object);
        }
        self.objects.push(object);
    }

    /// Removes the creature at the given position.
    pub(crate) fn remove_creature_at(&mut self, i: usize) -> (r: Creature)
        requires
            old(self).wf(),
            i < old(self).creatures@.len(),
        ensures
            final(self).wf(),
            r == old(self).creatures@[i as int],
            final(self).creatures@ == old(self).creatures@.remove(i as int),
            final(self).spec_creature(r.id) is None,
            final(self).teams@ == old(self).teams@,
            final(self).objects@ == old(self).objects@,
    {
        proof {
            lemma_find_remove(self.creatures@, creature_key(), i as int);
        }
        self.creatures.remove(i)
    }

    /// Removes the object at the given position.
    pub(crate) fn remove_object_at(&mut self, i: usize) -> (r: Object)
        requires
            old(self).wf(),
            i < old(self).objects@.len(),
        ensures
            final(self).wf(),
            r == old(self).objects@[i as int],
            final(self).objects@ == old(self).objects@.remove(i as int),
            final(self).spec_object(r.id) is None,
            final(self).teams@ == old(self).teams@,
            final(self).creatures@ == old(self).creatures@,
    {
        proof {
            lemma_find_remove(self.objects@, object_key(), i as int);
        }
        self.objects.remove(i)
    }

    /// Replaces the statistics and statuses of an existing entity, returning the old ones.
    pub(crate) fn swap_character(&mut self, id: &EntityId, c: Character) -> (r: Character)
        requires
            old(self).wf(),
            old(self).spec_has(*id),
            c.wf(),
        ensures
            final(self).wf(),
            final(self).same_entities(old(self)),
            Some(r) == old(self).spec_character(*id),
            r.wf(),
            final(self).spec_character(*id) == Some(c),
            forall|e: EntityId| #[trigger] final(self).spec_has(e) == old(self).spec_has(e),
            forall|e: EntityId| e != *id ==> final(self).spec_character(e) == old(self).spec_character(e),
    {
        match id {
            EntityId::Creature(cid) => {
                let i = self.creature_index(*cid).unwrap();
                let ghost before = self.creatures@;
                let Creature { id: k, team_id, character } = self.creatures.remove(i);
                let updated = Creature { id: k, team_id, character: c };
                proof {
                    lemma_find_update(before, creature_key(), i as int, updated);
                }
                self.creatures.insert(i, updated);
                proof {
                    assert(self.creatures@ =~= before.update(i as int, updated));
                    assert(self.creatures@.map_values(creature_key()) == before.map_values(creature_key()));
                    assert forall|e: EntityId| e != *id implies self.spec_character(e) == old(self).spec_character(e) by {
                        if let EntityId::Creature(x) = e {
                            assert(x != *cid);
                        }
                    }
                }
                character
            },
            EntityId::Object(oid) => {
                let i = self.object_index(*oid).unwrap();
                let ghost before = self.objects@;
                let Object { id: k, position, character } = self.objects.remove(i);
                let updated = Object { id: k, position, character: c };
                proof {
                    lemma_find_update(before, object_key(), i as int, updated);
                }
                self.objects.insert(i, updated);
                proof {
                    assert(self.objects@ =~= before.update(i as int, updated));
                    assert(self.objects@.map_values(object_key()) == before.map_values(object_key()));
                    assert forall|e: EntityId| e != *id implies self.spec_character(e) == old(self).spec_character(e) by {
                        if let EntityId::Object(x) = e {
                            assert(x != *oid);
                        }
                    }
                }
                character
            },
        }
    }
}

} // verus!
