//! Registry of the rooms that are open.
//!
//! [`State`] maps each [`RoomId`] to the handle of its room. It hands out an
//! identifier that no open room has, finds a room by its identifier and
//! forgets a room when its game is over. The handle type is the caller's:
//! the registry only stores it.

use std::collections::HashMap;
use vstd::prelude::*;
use vstd::std_specs::hash::*;
use crate::api::RoomId;

verus! {

/// Distance from `start` up to `value`, going round at the end of `u64`.
spec fn offset(start: u64, value: u64) -> nat {
    if value >= start {
        (value - start) as nat
    } else {
        (value + 0x1_0000_0000_0000_0000 - start) as nat
    }
}

/// The identifier that follows `value`, going round at the end of `u64`.
spec fn successor(value: u64) -> u64 {
    if value == u64::MAX {
        0
    } else {
        (value + 1) as u64
    }
}

/// The first `count` identifiers from `start` on.
spec fn probes(start: u64, count: nat) -> Set<u64> {
    Set::new(|value: u64| offset(start, value) < count)
}

/// The identifier at distance `count` from `start`.
spec fn probe(start: u64, count: nat) -> u64
    decreases count,
{
    if count == 0 {
        start
    } else {
        successor(probe(start, (count - 1) as nat))
    }
}

/// The identifier at a distance below 2^64 lies at exactly that distance.
proof fn lemma_probe_offset(start: u64, count: nat)
    requires
        count < 0x1_0000_0000_0000_0000,
    ensures
        offset(start, probe(start, count)) == count,
    decreases count,
{
    if count > 0 {
        lemma_probe_offset(start, (count - 1) as nat);
    }
}

/// The first `count` identifiers from `start` on are `count` in number, as
/// long as they do not go round.
proof fn lemma_probes_len(start: u64, count: nat)
    requires
        count <= 0x1_0000_0000_0000_0000,
    ensures
        probes(start, count).finite(),
        probes(start, count).len() == count,
    decreases count,
{
    if count == 0 {
        assert(probes(start, count) =~= Set::<u64>::empty());
    } else {
        let fewer = (count - 1) as nat;
        lemma_probes_len(start, fewer);
        lemma_probe_offset(start, fewer);
        assert(probes(start, count) =~= probes(start, fewer).insert(probe(start, fewer)));
    }
}

/// Computes the identifier that follows `value`.
fn next_id(value: u64) -> (next: u64)
    ensures
        next == successor(value),
{
    if value == u64::MAX {
        0
    } else {
        value + 1
    }
}

/// The open rooms, each under its identifier.
pub struct State<R> {
    rooms: HashMap<u64, R>,
    next: u64,
}

impl<R> View for State<R> {
    type V = Map<RoomId, R>;

    closed spec fn view(&self) -> Map<RoomId, R> {
        Map::new(
            |id: RoomId| self.rooms@.contains_key(id.value),
            |id: RoomId| self.rooms@[id.value],
        )
    }
}

impl<R> State<R> {
    /// A registry without rooms.
    pub fn new() -> (state: Self)
        ensures
            state@ == Map::<RoomId, R>::empty(),
    {
        let state = State { rooms: HashMap::new(), next: 0 };
        assert(state@ =~= Map::<RoomId, R>::empty());
        state
    }

    /// Number of open rooms.
    pub fn room_count(&self) -> (count: usize)
        ensures
            count == self@.dom().len(),
            self@.dom().finite(),
    {
        proof {
            self.lemma_dom();
        }
        self.rooms.len()
    }

    /// The registered identifiers are those of the underlying table.
    proof fn lemma_dom(&self)
        ensures
            self@.dom().finite(),
            self@.dom().len() == self.rooms@.dom().len(),
            self.rooms@.dom().finite(),
            self.rooms@.dom().len() <= usize::MAX,
    {
        let raw = self.rooms@.dom();
        assert(spec_hash_map_len(&self.rooms) == self.rooms@.len());
        let ids = raw.map(|value: u64| RoomId { value });
        assert(ids =~= self@.dom()) by {
            assert forall|id: RoomId| self@.dom().contains(id) implies ids.contains(id) by {
                assert(raw.contains(id.value));
                assert(RoomId { value: id.value } == id);
            }
        }
        vstd::set_lib::lemma_map_size(raw, ids, |value: u64| RoomId { value });
    }

    /// Stores `room` under an identifier that no open room has, and returns
    /// that identifier. The other rooms stay as they are.
    pub fn insert_room(&mut self, room: R) -> (id: RoomId)
        ensures
            !old(self)@.contains_key(id),
            final(self)@ == old(self)@.insert(id, room),
    {
        let ghost start = self.next;
        let ghost mut tried: nat = 0;
        let mut candidate: u64 = self.next;
        proof {
            self.lemma_dom();
        }
        while self.rooms.contains_key(&candidate)
            invariant
                self.rooms@.dom().finite(),
                self.rooms@.dom().len() <= usize::MAX,
                tried <= self.rooms@.dom().len(),
                candidate == probe(start, tried),
                probes(start, tried).subset_of(self.rooms@.dom()),
            decreases self.rooms@.dom().len() - tried,
        {
            proof {
                lemma_probe_offset(start, tried);
                assert(probes(start, tried + 1) =~= probes(start, tried).insert(candidate));
                lemma_probes_len(start, tried + 1);
                vstd::set_lib::lemma_len_subset(probes(start, tried + 1), self.rooms@.dom());
                tried = tried + 1;
            }
            candidate = next_id(candidate);
        }
        let ghost before = self@;
        self.rooms.insert(candidate, room);
        self.next = next_id(candidate);
        let id = RoomId { value: candidate };
        assert(self@ =~= before.insert(id, room));
        id
    }

    /// The room that is registered under `id`, if there is one.
    pub fn find_room(&self, id: &RoomId) -> (room: Option<&R>)
        ensures
            match room {
                Some(room) => self@.contains_key(*id) && *room == self@[*id],
                None => !self@.contains_key(*id),
            },
    {
        self.rooms.get(&id.value)
    }

    /// Forgets the room that is registered under `id` and hands it back.
    /// Without such a room nothing changes.
    pub fn remove_room(&mut self, id: &RoomId) -> (removed: Option<R>)
        ensures
            final(self)@ == old(self)@.remove(*id),
            removed == if old(self)@.contains_key(*id) {
                Some(old(self)@[*id])
            } else {
                None
            },
    {
        let ghost before = self@;
        let removed = self.rooms.remove(&id.value);
        assert(self@ =~= before.remove(*id));
        removed
    }
}

} // verus!
