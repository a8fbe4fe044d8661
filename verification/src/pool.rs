use vstd::prelude::*;

use crate::constants::MAX_ROOM_COUNT;
use crate::constants::SPECTATOR_TEAM;
use crate::errors::OptionKey;
use crate::errors::RoomError;
use crate::options::key_of;
use crate::options::option_applied;
use crate::options::option_valid;
use crate::options::spec_key_of;
use crate::options::OptionValue;
use crate::player_in_room::player_like;
use crate::player_in_room::spec_minify;
use crate::player_in_room::MinifiedPlayer;
use crate::player_in_room::PlayerInRoom;
use crate::room::has_socket;
use crate::room::is_default_room;
use crate::room::is_the_host;
use crate::room::is_first_socket_match;
use crate::room::is_first_pid_match;
use crate::room::has_player_id;
use crate::room::joined_player_fields;
use crate::room::host_change_post;
use crate::room::room_frame_players_only;
use crate::room::room_like;
use crate::room::room_wf;
use crate::room::team_change_post;
use crate::room::teams_distinct;
use crate::room::GameOptions;
use crate::room::MinifiedRoom;
use crate::room::Room;

verus! {

/// One pool slot: a room under its short alphanumeric id.
#[derive(Debug)]
pub struct RoomEntry {
    pub id: String,
    pub room: Room,
}

/// The registry of all active rooms, in creation order, each under its id.
pub type RoomPool = Vec<RoomEntry>;

/// The process-wide owner of every active room. A server wraps the store
/// in a single reader/writer lock and calls each operation while holding
/// the guard, so each operation below is one atomic unit of work.
pub struct RoomPoolStore {
    pub pool: RoomPool,
}

/// What a successful `modify_game_options` hands back.
#[derive(Debug)]
pub enum ModifyOutcome {
    /// The option was applied; the acting host's broadcast slice.
    Applied(MinifiedPlayer),
    /// The value named a map. Nothing changed yet: the caller must
    /// resolve this id against the external map store, outside the pool
    /// guard, and hand the outcome to `apply_map_selection`.
    MapLookupNeeded(String),
}

/// Some slot of the pool carries the id.
pub open spec fn pool_has(pool: Seq<RoomEntry>, id: Seq<char>) -> bool {
    exists|i: int| 0 <= i < pool.len() && pool[i].id@ == id
}

/// Slot `i` carries the id.
pub open spec fn is_entry_for(pool: Seq<RoomEntry>, id: Seq<char>, i: int) -> bool {
    0 <= i < pool.len() && pool[i].id@ == id
}

/// No two slots of the pool share an id.
pub open spec fn ids_distinct(pool: Seq<RoomEntry>) -> bool {
    forall|i: int, j: int| 0 <= i < j < pool.len() ==> pool[i].id@ != pool[j].id@
}

/// The pool's cross-slot invariant: pairwise distinct ids, every room
/// well formed.
pub open spec fn pool_wf(s: RoomPoolStore) -> bool {
    &&& ids_distinct(s.pool@)
    &&& forall|i: int| 0 <= i < s.pool@.len() ==> room_wf(#[trigger] s.pool@[i].room)
}

/// Every slot but `i` is as it was, and slot `i` kept its id.
pub open spec fn pool_frame(pre: Seq<RoomEntry>, post: Seq<RoomEntry>, i: int) -> bool {
    &&& post.len() == pre.len()
    &&& forall|j: int| 0 <= j < pre.len() && j != i ==> post[j] == pre[j]
    &&& 0 <= i < pre.len() && post[i].id == pre[i].id
}

/// A successful option change touches the room's options and nothing
/// else.
pub open spec fn options_changed_post(pre: Room, post: Room) -> bool {
    &&& post.players@ == pre.players@
    &&& post.force_start_num == pre.force_start_num
    &&& post.game_started == pre.game_started
    &&& post.map_generated == pre.map_generated
    &&& post.map == pre.map
}

/// Some player of the roster is connected through `sid` and is the host.
pub open spec fn host_at_socket(players: Seq<PlayerInRoom>, sid: Seq<char>) -> bool {
    exists|j: int|
        0 <= j < players.len() && players[j].socket_id@ == sid && players[j].is_room_host
}

/// The lobby listing's slice of slot `e`.
pub open spec fn minified_matches(e: RoomEntry, m: MinifiedRoom) -> bool {
    &&& m.id == e.id
    &&& m.room_name == e.room.game_options.room_name
    &&& m.game_started == e.room.game_started
    &&& m.game_speed == e.room.game_options.game_speed
    &&& m.player_count == e.room.players@.len()
    &&& m.max_players == e.room.game_options.max_players
}

/// The slot that carries `room_id`, if any.
fn find_entry(pool: &Vec<RoomEntry>, room_id: &String) -> (r: Option<usize>)
    ensures
        match r {
            Some(i) => is_entry_for(pool@, room_id@, i as int),
            None => !pool_has(pool@, room_id@),
        },
{
    let mut i: usize = 0;
    while i < pool.len()
        invariant
            i <= pool@.len(),
            forall|k: int| 0 <= k < i ==> pool@[k].id@ != room_id@,
        decreases pool@.len() - i,
    {
        if pool[i].id == *room_id {
            return Some(i);
        }
        i = i + 1;
    }
    None
}

/// The first roster entry connected through `socket_id` that carries the
/// host flag, if any.
fn find_host_by_socket(players: &Vec<PlayerInRoom>, socket_id: &String) -> (r: Option<usize>)
    ensures
        match r {
            Some(i) => 0 <= i < players@.len() && players@[i as int].socket_id@ == socket_id@
                && players@[i as int].is_room_host,
            None => !host_at_socket(players@, socket_id@),
        },
{
    let mut i: usize = 0;
    while i < players.len()
        invariant
            i <= players@.len(),
            forall|k: int|
                0 <= k < i ==> !(players@[k].socket_id@ == socket_id@
                    && players@[k].is_room_host),
        decreases players@.len() - i,
    {
        if players[i].socket_id == *socket_id && players[i].is_room_host {
            return Some(i);
        }
        i = i + 1;
    }
    None
}

impl Clone for RoomEntry {
    fn clone(&self) -> (res: Self)
        ensures
            res.id == self.id,
            room_like(self.room, res.room),
    {
        RoomEntry { id: self.id.clone(), room: self.room.clone() }
    }
}

impl Default for RoomPoolStore {
    /// The store a server starts with: no rooms.
    fn default() -> (s: Self)
        ensures
            s.pool@ == Seq::<RoomEntry>::empty(),
            pool_wf(s),
    {
        RoomPoolStore { pool: Vec::new() }
    }
}

impl RoomPoolStore {
    /// A deep copy of the whole pool, for read-only snapshots.
    pub fn get(&self) -> (r: RoomPool)
        ensures
            r@.len() == self.pool@.len(),
            forall|i: int|
                0 <= i < self.pool@.len() ==> #[trigger] r@[i].id == self.pool@[i].id
                    && room_like(self.pool@[i].room, r@[i].room),
    {
        let mut r: Vec<RoomEntry> = Vec::new();
        let mut i: usize = 0;
        while i < self.pool.len()
            invariant
                i <= self.pool@.len(),
                r@.len() == i,
                forall|k: int|
                    0 <= k < i ==> #[trigger] r@[k].id == self.pool@[k].id && room_like(
                        self.pool@[k].room,
                        r@[k].room,
                    ),
            decreases self.pool@.len() - i,
        {
            r.push(self.pool[i].clone());
            i = i + 1;
        }
        r
    }

    /// The lobby listing: one minified slice per room, in pool order.
    pub fn serialize(&self) -> (r: Vec<MinifiedRoom>)
        ensures
            r@.len() == self.pool@.len(),
            forall|i: int|
                0 <= i < self.pool@.len() ==> minified_matches(self.pool@[i], #[trigger] r@[i]),
    {
        let mut r: Vec<MinifiedRoom> = Vec::new();
        let mut i: usize = 0;
        while i < self.pool.len()
            invariant
                i <= self.pool@.len(),
                r@.len() == i,
                forall|k: int|
                    0 <= k < i ==> minified_matches(self.pool@[k], #[trigger] r@[k]),
            decreases self.pool@.len() - i,
        {
            let entry = &self.pool[i];
            r.push(entry.room.minify(entry.id.clone()));
            i = i + 1;
        }
        r
    }

    /// Insert a fresh default room under `room_id`, unless the pool is at
    /// its maximum room count. An id already present keeps its slot and
    /// has its room reset to the default.
    pub fn create_room(&mut self, room_id: String) -> (r: Result<(), RoomError>)
        requires
            pool_wf(*old(self)),
        ensures
            pool_wf(*final(self)),
            old(self).pool@.len() >= MAX_ROOM_COUNT ==> r == Err::<(), RoomError>(
                RoomError::CapacityExceeded,
            ) && *final(self) == *old(self),
            old(self).pool@.len() < MAX_ROOM_COUNT && !pool_has(old(self).pool@, room_id@)
                ==> r == Ok::<(), RoomError>(()) && final(self).pool@ == old(self).pool@.push(
                final(self).pool@.last(),
            ) && final(self).pool@.last().id == room_id && is_default_room(
                final(self).pool@.last().room,
            ),
            old(self).pool@.len() < MAX_ROOM_COUNT ==> forall|i: int|
                is_entry_for(old(self).pool@, room_id@, i) ==> r == Ok::<(), RoomError>(())
                    && pool_frame(old(self).pool@, final(self).pool@, i) && is_default_room(
                    final(self).pool@[i].room,
                ),
    {
        if self.pool.len() >= MAX_ROOM_COUNT {
            return Err(RoomError::CapacityExceeded);
        }
        let room = Room::new_default();
        let ghost pre = self.pool@;
        match find_entry(&self.pool, &room_id) {
            Some(i) => {
                let e = &mut self.pool[i];
                e.room = room;
                proof {
                    assert forall|a: int, b: int|
                        0 <= a < b < self.pool@.len() implies self.pool@[a].id@
                        != self.pool@[b].id@ by {
                        assert(pre[a].id@ != pre[b].id@);
                    }
                }
                Ok(())
            },
            None => {
                self.pool.push(RoomEntry { id: room_id, room });
                proof {
                    let post = self.pool@;
                    assert forall|a: int, b: int|
                        0 <= a < b < post.len() implies post[a].id@ != post[b].id@ by {
                        if b == pre.len() {
                            assert(pre[a].id@ != room_id@);
                        } else {
                            assert(pre[a].id@ != pre[b].id@);
                        }
                    }
                }
                Ok(())
            },
        }
    }

    /// Admit a player (stable identity `player_id`, display name
    /// `username`, connection `socket_id`) into the room named `room_id`,
    /// unless that room is unknown or already full.
    pub fn add_player(
        &mut self,
        socket_id: String,
        room_id: String,
        player_id: String,
        username: String,
    ) -> (r: Result<PlayerInRoom, RoomError>)
        requires
            pool_wf(*old(self)),
        ensures
            pool_wf(*final(self)),
            !pool_has(old(self).pool@, room_id@) ==> r == Err::<PlayerInRoom, RoomError>(
                RoomError::RoomNotFound,
            ) && final(self).pool@ == old(self).pool@,
            forall|i: int|
                is_entry_for(old(self).pool@, room_id@, i) ==> {
                    let pre_room = old(self).pool@[i].room;
                    if pre_room.players@.len() >= pre_room.game_options.max_players {
                        r == Err::<PlayerInRoom, RoomError>(RoomError::RoomFull) && final(self).pool@ == old(self).pool@
                    } else {
                        match r {
                            Ok(p) => {
                                let post_room = final(self).pool@[i].room;
                                let np = post_room.players@.last();
                                &&& pool_frame(old(self).pool@, final(self).pool@, i)
                                &&& post_room.players@ == pre_room.players@.push(np)
                                &&& joined_player_fields(
                                    pre_room.players@,
                                    pre_room.game_options.max_players,
                                    socket_id,
                                    player_id,
                                    username,
                                    np,
                                )
                                &&& player_like(np, p)
                                &&& post_room.players@.len()
                                    <= pre_room.game_options.max_players
                                &&& post_room.force_start_num == pre_room.force_start_num
                                &&& room_frame_players_only(pre_room, post_room)
                                &&& (teams_distinct(pre_room.players@) ==> teams_distinct(
                                    post_room.players@,
                                ))
                            },
                            Err(_) => false,
                        }
                    }
                },
    {
        match find_entry(&self.pool, &room_id) {
            None => Err(RoomError::RoomNotFound),
            Some(i) => {
                let ghost pre = self.pool@;
                let ghost idx = i as int;
                let res = self.pool[i].room.add_player(socket_id, player_id, username);
                proof {
                    self.lemma_only_entry(pre, room_id@, idx);
                    if res is Err {
                        assert(self.pool@ =~= pre);
                    }
                    self.lemma_wf_after_room_change(pre, idx);
                }
                res
            },
        }
    }

    /// Move the player connected through `socket_id` in room `room_id`
    /// to `team`; see `Room::change_team` for the team rules and the
    /// force-start bookkeeping.
    pub fn change_player_team(&mut self, socket_id: String, room_id: String, team: usize) -> (r:
        Result<MinifiedPlayer, RoomError>)
        requires
            pool_wf(*old(self)),
        ensures
            pool_wf(*final(self)),
            !pool_has(old(self).pool@, room_id@) ==> r == Err::<MinifiedPlayer, RoomError>(
                RoomError::RoomNotFound,
            ) && final(self).pool@ == old(self).pool@,
            forall|i: int|
                is_entry_for(old(self).pool@, room_id@, i) ==> {
                    let pre_room = old(self).pool@[i].room;
                    &&& (team > SPECTATOR_TEAM ==> r == Err::<MinifiedPlayer, RoomError>(
                        RoomError::InvalidTeam,
                    ) && final(self).pool@ == old(self).pool@)
                    &&& (team <= SPECTATOR_TEAM && !has_socket(pre_room.players@, socket_id@)
                        ==> r == Err::<MinifiedPlayer, RoomError>(RoomError::PlayerNotFound)
                        && final(self).pool@ == old(self).pool@)
                    &&& (team <= SPECTATOR_TEAM ==> forall|pi: int|
                        is_first_socket_match(pre_room.players@, socket_id@, pi) ==> {
                            &&& r == Ok::<MinifiedPlayer, RoomError>(
                                spec_minify(pre_room.players@[pi]),
                            )
                            &&& pool_frame(old(self).pool@, final(self).pool@, i)
                            &&& team_change_post(
                                pre_room,
                                final(self).pool@[i].room,
                                pi,
                                team,
                            )
                        })
                },
    {
        match find_entry(&self.pool, &room_id) {
            None => Err(RoomError::RoomNotFound),
            Some(i) => {
                let ghost pre = self.pool@;
                let ghost idx = i as int;
                let res = self.pool[i].room.change_team(&socket_id, team);
                proof {
                    self.lemma_only_entry(pre, room_id@, idx);
                    if res is Err {
                        assert(self.pool@ =~= pre);
                    }
                    self.lemma_wf_after_room_change(pre, idx);
                }
                res
            },
        }
    }

    /// Transfer the host flag of room `room_id` from the caller connected
    /// through `socket_id` to the player carrying `player_id`; see
    /// `Room::change_host` for the permission rules and the fallback to
    /// the first player in join order.
    pub fn change_player_host(
        &mut self,
        socket_id: String,
        room_id: String,
        player_id: String,
    ) -> (r: Result<(MinifiedPlayer, MinifiedPlayer), RoomError>)
        requires
            pool_wf(*old(self)),
        ensures
            pool_wf(*final(self)),
            !pool_has(old(self).pool@, room_id@) ==> r == Err::<
                (MinifiedPlayer, MinifiedPlayer),
                RoomError,
            >(RoomError::RoomNotFound) && final(self).pool@ == old(self).pool@,
            forall|i: int|
                is_entry_for(old(self).pool@, room_id@, i) ==> {
                    let pre_room = old(self).pool@[i].room;
                    &&& (!has_socket(pre_room.players@, socket_id@) ==> r == Err::<
                        (MinifiedPlayer, MinifiedPlayer),
                        RoomError,
                    >(RoomError::PlayerNotFound) && final(self).pool@ == old(self).pool@)
                    &&& forall|ci: int|
                        is_first_socket_match(pre_room.players@, socket_id@, ci) ==> {
                            if !pre_room.players@[ci].is_room_host {
                                r == Err::<(MinifiedPlayer, MinifiedPlayer), RoomError>(
                                    RoomError::PermissionDenied,
                                ) && final(self).pool@ == old(self).pool@
                            } else if has_player_id(pre_room.players@, player_id@) {
                                forall|ti: int|
                                    is_first_pid_match(pre_room.players@, player_id@, ti)
                                        ==> {
                                        if pre_room.players@[ti].is_room_host {
                                            r == Err::<
                                                (MinifiedPlayer, MinifiedPlayer),
                                                RoomError,
                                            >(RoomError::AlreadyHost) && final(self).pool@
                                                == old(self).pool@
                                        } else {
                                            r == Ok::<
                                                (MinifiedPlayer, MinifiedPlayer),
                                                RoomError,
                                            >(
                                                (
                                                    spec_minify(pre_room.players@[ci]),
                                                    spec_minify(pre_room.players@[ti]),
                                                ),
                                            ) && pool_frame(
                                                old(self).pool@,
                                                final(self).pool@,
                                                i,
                                            ) && host_change_post(
                                                pre_room,
                                                final(self).pool@[i].room,
                                                ci,
                                                ti,
                                            )
                                        }
                                    }
                            } else {
                                r == Ok::<(MinifiedPlayer, MinifiedPlayer), RoomError>(
                                    (
                                        spec_minify(pre_room.players@[ci]),
                                        spec_minify(pre_room.players@[0]),
                                    ),
                                ) && pool_frame(old(self).pool@, final(self).pool@, i)
                                    && host_change_post(
                                    pre_room,
                                    final(self).pool@[i].room,
                                    ci,
                                    0,
                                )
                            }
                        }
                },
    {
        match find_entry(&self.pool, &room_id) {
            None => Err(RoomError::RoomNotFound),
            Some(i) => {
                let ghost pre = self.pool@;
                let ghost idx = i as int;
                let res = self.pool[i].room.change_host(&socket_id, &player_id);
                proof {
                    self.lemma_only_entry(pre, room_id@, idx);
                    if res is Err {
                        assert(self.pool@ =~= pre);
                    }
                    self.lemma_wf_after_room_change(pre, idx);
                }
                res
            },
        }
    }

    /// Change one game option of room `room_id` on behalf of the player
    /// connected through `socket_id`, who must be the room's host.
    ///
    /// The option name is resolved against the fixed set of recognized
    /// options (`InvalidKey` otherwise) and the value against that
    /// option's type and range (`InvalidValue` otherwise); on success
    /// exactly the named field changes. Selecting a map is the one option
    /// that needs the external map store: for it nothing changes yet and
    /// `MapLookupNeeded` hands the id back, to be resolved outside the
    /// pool guard and completed by `apply_map_selection`.
    pub fn modify_game_options(
        &mut self,
        socket_id: String,
        room_id: String,
        prop: String,
        val: OptionValue,
    ) -> (r: Result<ModifyOutcome, RoomError>)
        requires
            pool_wf(*old(self)),
        ensures
            pool_wf(*final(self)),
            !pool_has(old(self).pool@, room_id@) ==> r == Err::<ModifyOutcome, RoomError>(
                RoomError::RoomNotFound,
            ) && final(self).pool@ == old(self).pool@,
            forall|i: int|
                is_entry_for(old(self).pool@, room_id@, i) ==> {
                    let pre_room = old(self).pool@[i].room;
                    &&& (!host_at_socket(pre_room.players@, socket_id@) ==> r == Err::<
                        ModifyOutcome,
                        RoomError,
                    >(RoomError::PermissionDenied) && final(self).pool@ == old(self).pool@)
                    &&& (host_at_socket(pre_room.players@, socket_id@)
                        ==> match spec_key_of(prop@) {
                        Option::None => r == Err::<ModifyOutcome, RoomError>(
                            RoomError::InvalidKey,
                        ) && final(self).pool@ == old(self).pool@,
                        Option::Some(OptionKey::MapId) => match val {
                            OptionValue::Text(map_id) => r == Ok::<ModifyOutcome, RoomError>(
                                ModifyOutcome::MapLookupNeeded(map_id),
                            ) && final(self).pool@ == old(self).pool@,
                            _ => r == Err::<ModifyOutcome, RoomError>(
                                RoomError::InvalidValue(OptionKey::MapId),
                            ) && final(self).pool@ == old(self).pool@,
                        },
                        Option::Some(key) => {
                            if option_valid(key, val) {
                                &&& pool_frame(old(self).pool@, final(self).pool@, i)
                                &&& options_changed_post(pre_room, final(self).pool@[i].room)
                                &&& option_applied(
                                    pre_room.game_options,
                                    final(self).pool@[i].room.game_options,
                                    key,
                                    val,
                                )
                                &&& forall|j: int|
                                    0 <= j < pre_room.players@.len()
                                        && pre_room.players@[j].socket_id@ == socket_id@
                                        && pre_room.players@[j].is_room_host ==> r == Ok::<
                                        ModifyOutcome,
                                        RoomError,
                                    >(
                                        ModifyOutcome::Applied(
                                            spec_minify(#[trigger] pre_room.players@[j]),
                                        ),
                                    )
                            } else {
                                r == Err::<ModifyOutcome, RoomError>(
                                    RoomError::InvalidValue(key),
                                ) && final(self).pool@ == old(self).pool@
                            }
                        },
                    })
                },
    {
        match find_entry(&self.pool, &room_id) {
            None => Err(RoomError::RoomNotFound),
            Some(i) => {
                let ghost pre = self.pool@;
                let ghost idx = i as int;
                proof {
                    self.lemma_only_entry(pre, room_id@, idx);
                }
                match find_host_by_socket(&self.pool[i].room.players, &socket_id) {
                    None => Err(RoomError::PermissionDenied),
                    Some(pi) => {
                        let mp = self.pool[i].room.players[pi].minify();
                        proof {
                            self.lemma_host_is_unique_match(pre[idx].room, socket_id@, pi as int);
                        }
                        match key_of(&prop) {
                            None => Err(RoomError::InvalidKey),
                            Some(OptionKey::MapId) => match val {
                                OptionValue::Text(map_id) => Ok(
                                    ModifyOutcome::MapLookupNeeded(map_id),
                                ),
                                _ => Err(RoomError::InvalidValue(OptionKey::MapId)),
                            },
                            Some(key) => {
                                let res = self.pool[i].room.game_options.apply_option(key, val);
                                proof {
                                    if res is Err {
                                        assert(self.pool@ =~= pre);
                                    }
                                    self.lemma_wf_after_room_change(pre, idx);
                                }
                                match res {
                                    Ok(()) => Ok(ModifyOutcome::Applied(mp)),
                                    Err(e) => Err(e),
                                }
                            },
                        }
                    },
                }
            },
        }
    }

    /// Complete a `MapLookupNeeded` outcome of `modify_game_options`:
    /// `resolution` is what the external map store answered for `map_id`
    /// (the map's name, or nothing when the id names no map). The room and
    /// the caller's host standing are validated anew, so a change that
    /// happened while the store was consulted fails the operation instead
    /// of applying stale state.
    pub fn apply_map_selection(
        &mut self,
        socket_id: String,
        room_id: String,
        map_id: String,
        resolution: Option<String>,
    ) -> (r: Result<MinifiedPlayer, RoomError>)
        requires
            pool_wf(*old(self)),
        ensures
            pool_wf(*final(self)),
            !pool_has(old(self).pool@, room_id@) ==> r == Err::<MinifiedPlayer, RoomError>(
                RoomError::RoomNotFound,
            ) && final(self).pool@ == old(self).pool@,
            forall|i: int|
                is_entry_for(old(self).pool@, room_id@, i) ==> {
                    let pre_room = old(self).pool@[i].room;
                    &&& (!host_at_socket(pre_room.players@, socket_id@) ==> r == Err::<
                        MinifiedPlayer,
                        RoomError,
                    >(RoomError::PermissionDenied) && final(self).pool@ == old(self).pool@)
                    &&& (host_at_socket(pre_room.players@, socket_id@) ==> match resolution {
                        Option::None => r == Err::<MinifiedPlayer, RoomError>(
                            RoomError::InvalidValue(OptionKey::MapId),
                        ) && final(self).pool@ == old(self).pool@,
                        Option::Some(map_name) => {
                            &&& pool_frame(old(self).pool@, final(self).pool@, i)
                            &&& options_changed_post(pre_room, final(self).pool@[i].room)
                            &&& final(self).pool@[i].room.game_options == (GameOptions {
                                map_id: map_id,
                                map_name: map_name,
                                ..pre_room.game_options
                            })
                            &&& forall|j: int|
                                0 <= j < pre_room.players@.len()
                                    && pre_room.players@[j].socket_id@ == socket_id@
                                    && pre_room.players@[j].is_room_host ==> r == Ok::<
                                    MinifiedPlayer,
                                    RoomError,
                                >(spec_minify(#[trigger] pre_room.players@[j]))
                        },
                    })
                },
    {
        match find_entry(&self.pool, &room_id) {
            None => Err(RoomError::RoomNotFound),
            Some(i) => {
                let ghost pre = self.pool@;
                let ghost idx = i as int;
                proof {
                    self.lemma_only_entry(pre, room_id@, idx);
                }
                match find_host_by_socket(&self.pool[i].room.players, &socket_id) {
                    None => Err(RoomError::PermissionDenied),
                    Some(pi) => {
                        let mp = self.pool[i].room.players[pi].minify();
                        proof {
                            self.lemma_host_is_unique_match(pre[idx].room, socket_id@, pi as int);
                        }
                        match resolution {
                            None => Err(RoomError::InvalidValue(OptionKey::MapId)),
                            Some(map_name) => {
                                let opts = &mut self.pool[i].room.game_options;
                                opts.map_id = map_id;
                                opts.map_name = map_name;
                                proof {
                                    self.lemma_wf_after_room_change(pre, idx);
                                }
                                Ok(mp)
                            },
                        }
                    },
                }
            },
        }
    }

    /// Under the room invariant, any host connected through `sid` is the
    /// player that `find_host_by_socket` found.
    proof fn lemma_host_is_unique_match(&self, room: Room, sid: Seq<char>, pi: int)
        requires
            room_wf(room),
            0 <= pi < room.players@.len(),
            room.players@[pi].is_room_host,
        ensures
            forall|j: int|
                0 <= j < room.players@.len() && room.players@[j].socket_id@ == sid
                    && room.players@[j].is_room_host ==> j == pi,
    {
        let h = choose|h: int| is_the_host(room.players@, h);
        assert(is_the_host(room.players@, h));
        assert forall|j: int|
            0 <= j < room.players@.len() && room.players@[j].socket_id@ == sid
                && room.players@[j].is_room_host implies j == pi by {
            if j != h {
                assert(!room.players@[j].is_room_host);
            }
            if pi != h {
                assert(!room.players@[pi].is_room_host);
            }
        }
    }

    /// Both pool shapes after an operation that touched at most the slot
    /// `idx`: every other slot still is what it was, ids included.
    proof fn lemma_only_entry(&self, pre: Seq<RoomEntry>, id: Seq<char>, idx: int)
        requires
            ids_distinct(pre),
            is_entry_for(pre, id, idx),
        ensures
            forall|k: int| is_entry_for(pre, id, k) ==> k == idx,
    {
        assert forall|k: int| is_entry_for(pre, id, k) implies k == idx by {
            if k < idx {
                assert(pre[k].id@ != pre[idx].id@);
            }
            if k > idx {
                assert(pre[idx].id@ != pre[k].id@);
            }
        }
    }

    /// Re-establish the pool invariant after one slot's room was rewritten
    /// by a well-formedness-preserving room operation.
    proof fn lemma_wf_after_room_change(&self, pre: Seq<RoomEntry>, idx: int)
        requires
            ids_distinct(pre),
            0 <= idx < pre.len(),
            self.pool@.len() == pre.len(),
            forall|k: int| 0 <= k < pre.len() && k != idx ==> self.pool@[k] == pre[k],
            self.pool@[idx].id == pre[idx].id,
            forall|k: int| 0 <= k < pre.len() && k != idx ==> room_wf(#[trigger] pre[k].room),
            room_wf(self.pool@[idx].room),
        ensures
            pool_wf(*self),
    {
        assert forall|a: int, b: int|
            0 <= a < b < self.pool@.len() implies self.pool@[a].id@ != self.pool@[b].id@ by {
            assert(pre[a].id@ != pre[b].id@);
        }
        assert forall|k: int|
            0 <= k < self.pool@.len() implies room_wf(#[trigger] self.pool@[k].room) by {
            if k != idx {
                assert(self.pool@[k] == pre[k]);
            }
        }
    }

    /// Succeed at once when `room_id` already names a room; create it
    /// otherwise.
    pub fn find_or_create_room(&mut self, room_id: String) -> (r: Result<(), RoomError>)
        requires
            pool_wf(*old(self)),
        ensures
            pool_wf(*final(self)),
            pool_has(old(self).pool@, room_id@) ==> r == Ok::<(), RoomError>(()) && *final(self)
                == *old(self),
            !pool_has(old(self).pool@, room_id@) && old(self).pool@.len() >= MAX_ROOM_COUNT
                ==> r == Err::<(), RoomError>(RoomError::CapacityExceeded) && *final(self)
                == *old(self),
            !pool_has(old(self).pool@, room_id@) && old(self).pool@.len() < MAX_ROOM_COUNT
                ==> r == Ok::<(), RoomError>(()) && final(self).pool@ == old(self).pool@.push(
                final(self).pool@.last(),
            ) && final(self).pool@.last().id == room_id && is_default_room(
                final(self).pool@.last().room,
            ),
    {
        match find_entry(&self.pool, &room_id) {
            Some(_) => Ok(()),
            None => self.create_room(room_id),
        }
    }
}

} // verus!
