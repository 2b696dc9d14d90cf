//! The session registry: every session there is, and where a new player goes.
//!
//! A new player goes to the first session that has not started, has a free
//! seat and can still give out an identity. If there is none, a new session is
//! opened under a fresh identifier. No session is ever removed.

use vstd::prelude::*;
use vstd::string::{StrSliceExecFns, StringExecFns};
use crate::constants::{MAX_PLAYERS, MIN_PLAYERS, ROOM_ID_LEN};
use crate::game::{opening, Phase};
use crate::map::arena;
use crate::protocol::{ClientMsg, ItemKind};
use crate::random::random_uuid_text;
use crate::room::{Driven, Joined, Room, RoomView};

verus! {

/// Where a new player was placed.
#[derive(Debug, Clone, PartialEq, Eq)]
pub struct Placement {
    /// Index of the session in the registry.
    pub room: usize,
    /// What the join brought about in that session.
    pub joined: Joined,
}

/// Whether a session takes new players: it has not started, has a free seat,
/// and can give out another identity.
pub open spec fn open_to_join(r: RoomView) -> bool {
    r.game.phase == Phase::Idle && r.seats.len() < MAX_PLAYERS && r.has_ids_left()
}

/// Index of the first session at or after `from` that takes new players; the
/// number of sessions if there is none.
pub open spec fn first_open(rooms: Seq<RoomView>, from: int) -> int
    decreases rooms.len() - from,
{
    if from >= rooms.len() {
        rooms.len() as int
    } else if open_to_join(rooms[from]) {
        from
    } else {
        first_open(rooms, from + 1)
    }
}

/// Whether a session goes under the identifier `id`.
pub open spec fn id_taken(rooms: Seq<RoomView>, id: Seq<char>) -> bool {
    exists|i: int| 0 <= i < rooms.len() && (#[trigger] rooms[i]).id == id
}

/// A new, empty session under the identifier `id`.
pub open spec fn fresh_room(id: Seq<char>) -> RoomView {
    RoomView { id, game: opening(arena()), seats: Seq::empty(), next_player_id: 0, min_players: MIN_PLAYERS }
}

/// The sessions after a player of the given name was placed, with `id` at
/// hand for a new session: the player joins the first session that takes new
/// players; if there is none, a new session is opened under `id` and the
/// player joins that; if `id` is taken, nothing changes.
pub open spec fn placed(rooms: Seq<RoomView>, name: String, id: Seq<char>) -> Seq<RoomView> {
    let k = first_open(rooms, 0);
    if 0 <= k < rooms.len() {
        rooms.update(k, rooms[k].joined(name))
    } else if id_taken(rooms, id) {
        rooms
    } else {
        rooms.push(fresh_room(id).joined(name))
    }
}

/// Whether `outcome` is what placing a player of the given name brings about,
/// with `id` at hand for a new session: nothing if no session takes new
/// players and `id` is taken, else the index of the session joined and the
/// report of that join.
pub open spec fn placement_reported(
    rooms: Seq<RoomView>,
    name: String,
    id: Seq<char>,
    outcome: Option<Placement>,
) -> bool {
    let k = first_open(rooms, 0);
    if 0 <= k < rooms.len() {
        outcome matches Some(p) && p.room == k && rooms[k].join_reported(name, p.joined)
    } else if id_taken(rooms, id) {
        outcome is None
    } else {
        outcome matches Some(p) && p.room == rooms.len() && fresh_room(id).join_reported(name, p.joined)
    }
}

/// All sessions.
pub struct Registry {
    rooms: Vec<Room>,
}

impl View for Registry {
    type V = Seq<RoomView>;

    closed spec fn view(&self) -> Seq<RoomView> {
        self.rooms@.map_values(|r: Room| r@)
    }
}

/// The invariant of a registry: every session is well formed, and no two go
/// under the same identifier.
pub open spec fn registry_wf(rooms: Seq<RoomView>) -> bool {
    &&& forall|i: int| 0 <= i < rooms.len() ==> (#[trigger] rooms[i]).wf()
    &&& forall|i: int, j: int|
        #![trigger rooms[i], rooms[j]]
        0 <= i < j < rooms.len() ==> rooms[i].id != rooms[j].id
}

impl Registry {
    /// The invariant that every operation keeps.
    pub open spec fn wf(&self) -> bool {
        registry_wf(self@)
    }

    /// A registry without sessions.
    pub fn new() -> (registry: Registry)
        ensures
            registry.wf(),
            registry@ == Seq::<RoomView>::empty(),
    {
        let registry = Registry { rooms: Vec::new() };
        assert(registry@ =~= Seq::<RoomView>::empty());
        registry
    }

    /// Number of sessions.
    pub fn len(&self) -> (n: usize)
        ensures
            n == self@.len(),
    {
        self.rooms.len()
    }

    /// The session at `index`, if there is one.
    pub fn room(&self, index: usize) -> (room: Option<&Room>)
        ensures
            room is Some <==> index < self@.len(),
            room matches Some(r) ==> r@ == self@[index as int],
    {
        if index < self.rooms.len() {
            Some(&self.rooms[index])
        } else {
            None
        }
    }

    /// Index of the first session that takes new players.
    pub fn find_open(&self) -> (found: Option<usize>)
        ensures
            match found {
                Some(k) => k == first_open(self@, 0) && k < self@.len() && open_to_join(self@[k as int]),
                None => first_open(self@, 0) == self@.len(),
            },
    {
        let mut k: usize = 0;
        while k < self.rooms.len()
            invariant
                k <= self.rooms.len(),
                first_open(self@, 0) == first_open(self@, k as int),
            decreases self.rooms.len() - k,
        {
            let room = &self.rooms[k];
            assert(room@ == self@[k as int]);
            let idle = match room.game().phase() {
                Phase::Idle => true,
                _ => false,
            };
            if idle && room.player_count() < MAX_PLAYERS && room.has_ids_left() {
                return Some(k);
            }
            k += 1;
        }
        None
    }

    /// Whether a session goes under the identifier `id`.
    pub fn has_id(&self, id: &String) -> (taken: bool)
        ensures
            taken == id_taken(self@, id@),
    {
        self.find(id).is_some()
    }

    /// Index of the session that goes under the identifier `id`, if there is
    /// one. There is at most one.
    pub fn find(&self, id: &String) -> (found: Option<usize>)
        ensures
            found is Some <==> id_taken(self@, id@),
            found matches Some(i) ==> i < self@.len() && self@[i as int].id == id@,
    {
        let mut i: usize = 0;
        while i < self.rooms.len()
            invariant
                i <= self.rooms.len(),
                forall|j: int| 0 <= j < i ==> (#[trigger] self@[j]).id != id@,
            decreases self.rooms.len() - i,
        {
            assert(self.rooms@[i as int]@ == self@[i as int]);
            if *self.rooms[i].id() == *id {
                return Some(i);
            }
            i += 1;
        }
        None
    }

    /// Lets a player of the given name join the session at index `k`.
    fn seat_in(&mut self, k: usize, name: String) -> (joined: Joined)
        requires
            old(self).wf(),
            k < old(self)@.len(),
            old(self)@[k as int].has_ids_left(),
        ensures
            final(self).wf(),
            final(self)@ == old(self)@.update(k as int, old(self)@[k as int].joined(name)),
            old(self)@[k as int].join_reported(name, joined),
    {
        let ghost start = self@;
        assert(self.rooms@[k as int]@ == start[k as int]);
        let joined = self.rooms[k].join(name);
        assert(self@ =~= start.update(k as int, start[k as int].joined(name)));
        joined
    }

    /// Opens a session under the identifier `id` and lets a player of the
    /// given name join it.
    fn open_room(&mut self, id: String, name: String) -> (joined: Joined)
        requires
            old(self).wf(),
            !id_taken(old(self)@, id@),
        ensures
            final(self).wf(),
            final(self)@ == old(self)@.push(fresh_room(id@).joined(name)),
            fresh_room(id@).join_reported(name, joined),
    {
        let ghost start = self@;
        let mut room = Room::new(id);
        let joined = room.join(name);
        self.rooms.push(room);
        assert(self@ =~= start.push(fresh_room(id@).joined(name)));
        joined
    }

    /// Places a player of the given name, with `fresh_id` at hand for a new
    /// session. The player joins the first session that takes new players. If
    /// there is none, a session is opened under `fresh_id`, unless a session
    /// goes under that identifier already: then nothing changes, and nothing
    /// is returned.
    pub fn place(&mut self, name: String, fresh_id: String) -> (outcome: Option<Placement>)
        requires
            old(self).wf(),
        ensures
            final(self).wf(),
            final(self)@ == placed(old(self)@, name, fresh_id@),
            placement_reported(old(self)@, name, fresh_id@, outcome),
    {
        match self.find_open() {
            Some(k) => {
                let joined = self.seat_in(k, name);
                Some(Placement { room: k, joined })
            },
            None => {
                if self.has_id(&fresh_id) {
                    None
                } else {
                    let room = self.rooms.len();
                    let joined = self.open_room(fresh_id, name);
                    Some(Placement { room, joined })
                }
            },
        }
    }

    /// Places a player of the given name. The player joins the first session
    /// that takes new players. If there is none, an identifier of
    /// `ROOM_ID_LEN` characters is drawn and a session opened under it. Should
    /// the draw give an identifier that is taken, nothing changes and nothing
    /// is returned; the caller may try again.
    pub fn join(&mut self, name: String) -> (outcome: Option<Placement>)
        requires
            old(self).wf(),
        ensures
            final(self).wf(),
            exists|id: Seq<char>|
                id.len() == ROOM_ID_LEN && final(self)@ == #[trigger] placed(old(self)@, name, id)
                    && placement_reported(old(self)@, name, id, outcome),
    {
        let ghost start = self@;
        match self.find_open() {
            Some(k) => {
                let joined = self.seat_in(k, name);
                let outcome = Some(Placement { room: k, joined });
                proof {
                    let any = Seq::new(ROOM_ID_LEN as nat, |i: int| 'a');
                    assert(self@ == placed(start, name, any));
                    assert(placement_reported(start, name, any, outcome));
                }
                outcome
            },
            None => {
                let fresh_id = short_id(&random_uuid_text());
                let outcome = if self.has_id(&fresh_id) {
                    None
                } else {
                    let room = self.rooms.len();
                    let joined = self.open_room(fresh_id, name);
                    Some(Placement { room, joined })
                };
                proof {
                    assert(self@ == placed(start, name, fresh_id@));
                    assert(placement_reported(start, name, fresh_id@, outcome));
                }
                outcome
            },
        }
    }

    /// Applies a message from the player `player_id` of the session at
    /// `room`. Changes nothing if there is no such session.
    pub fn apply_intent(&mut self, room: usize, player_id: u8, msg: ClientMsg)
        requires
            old(self).wf(),
        ensures
            final(self).wf(),
            final(self)@ == if room < old(self)@.len() {
                old(self)@.update(room as int, old(self)@[room as int].heard(player_id, msg))
            } else {
                old(self)@
            },
    {
        let ghost start = self@;
        if room < self.rooms.len() {
            assert(self.rooms@[room as int]@ == start[room as int]);
            self.rooms[room].apply_intent(player_id, msg);
            assert(self@ =~= start.update(room as int, start[room as int].heard(player_id, msg)));
        }
    }

    /// Disconnects the player `player_id` of the session at `room`. Changes
    /// nothing if there is no such session.
    pub fn remove_player(&mut self, room: usize, player_id: u8)
        requires
            old(self).wf(),
        ensures
            final(self).wf(),
            final(self)@ == if room < old(self)@.len() {
                old(self)@.update(room as int, old(self)@[room as int].vacated(player_id))
            } else {
                old(self)@
            },
    {
        let ghost start = self@;
        if room < self.rooms.len() {
            assert(self.rooms@[room as int]@ == start[room as int]);
            self.rooms[room].remove_player(player_id);
            assert(self@ =~= start.update(room as int, start[room as int].vacated(player_id)));
        }
    }

    /// One turn of the tick driver of the session at `room`. Changes and
    /// returns nothing if there is no such session. What the blocks destroyed
    /// in the tick drop is drawn: the turn is what the session's
    /// `drive_reported` tells for some list of outcomes.
    pub fn drive(&mut self, room: usize) -> (driven: Option<Driven>)
        requires
            old(self).wf(),
        ensures
            final(self).wf(),
            driven is Some <==> room < old(self)@.len(),
            driven is None ==> final(self)@ == old(self)@,
            driven matches Some(d) ==> exists|drops: Seq<Option<ItemKind>>|
                final(self)@ == old(self)@.update(room as int, #[trigger] old(self)@[room as int].driven(drops))
                    && old(self)@[room as int].drive_reported(drops, final(self)@[room as int], d),
    {
        let ghost start = self@;
        if room < self.rooms.len() {
            assert(self.rooms@[room as int]@ == start[room as int]);
            let driven = self.rooms[room].drive();
            proof {
                let after = self.rooms@[room as int]@;
                let drops = choose|drops: Seq<Option<ItemKind>>|
                    #[trigger] start[room as int].drive_reported(drops, after, driven);
                assert(self@ =~= start.update(room as int, start[room as int].driven(drops)));
                assert(start[room as int].drive_reported(drops, self@[room as int], driven));
            }
            Some(driven)
        } else {
            None
        }
    }
}

/// The first `ROOM_ID_LEN` characters of an identifier text.
pub fn short_id(text: &String) -> (id: String)
    requires
        text@.len() >= ROOM_ID_LEN,
        vstd::string::string_is_ascii(text),
    ensures
        id@ == text@.subrange(0, ROOM_ID_LEN as int),
{
    String::from_str(text.as_str().substring_ascii(0, ROOM_ID_LEN))
}

} // verus!
