use vstd::prelude::*;

use crate::block::Block;
use crate::constants::MAX_TEAM_NUM;
use crate::constants::SPECTATOR_TEAM;
use crate::errors::RoomError;
use crate::player_in_room::clone_blocks;
use crate::player_in_room::player_like;
use crate::player_in_room::spec_minify;
use crate::player_in_room::MinifiedPlayer;
use crate::player_in_room::PlayerInRoom;

verus! {

/// The configurable parameters of one match. The fractional parameters
/// (game speed and the width/height/terrain densities) are held in
/// thousandths, so that 1000 stands for 1.0; the densities range over
/// 0..=1000 and the speed over the fixed discrete set of
/// `crate::constants::is_speed_option`.
#[derive(Debug)]
pub struct GameOptions {
    pub room_name: String,
    pub map_id: String,
    pub map_name: String,
    pub max_players: usize,
    pub game_speed: u32,
    pub map_width: u32,
    pub map_height: u32,
    pub mountain: u32,
    pub city: u32,
    pub swamp: u32,
    pub fog_of_war: bool,
    pub death_spectating: bool,
    pub reveal_king: bool,
    pub warring_state: bool,
}

/// One match session: its options, roster in join order, force-start
/// counter and board. The board exists only once the map was generated.
#[derive(Debug)]
pub struct Room {
    pub game_options: GameOptions,
    pub force_start_num: usize,
    pub game_started: bool,
    pub map_generated: bool,
    pub players: Vec<PlayerInRoom>,
    pub map: Vec<Vec<Block>>,
}

/// The slice of a room that the lobby listing carries.
#[derive(Debug)]
pub struct MinifiedRoom {
    pub id: String,
    pub room_name: String,
    pub game_started: bool,
    pub game_speed: u32,
    pub player_count: usize,
    pub max_players: usize,
}

/// Index `i` names the one host of the roster.
pub open spec fn is_the_host(players: Seq<PlayerInRoom>, i: int) -> bool {
    &&& 0 <= i < players.len()
    &&& players[i].is_room_host
    &&& forall|j: int| 0 <= j < players.len() && j != i ==> !players[j].is_room_host
}

/// Exactly one player of the roster carries the host flag.
pub open spec fn unique_host(players: Seq<PlayerInRoom>) -> bool {
    exists|i: int| is_the_host(players, i)
}

/// No two players of the roster share a color.
pub open spec fn colors_distinct(players: Seq<PlayerInRoom>) -> bool {
    forall|i: int, j: int|
        0 <= i < j < players.len() ==> players[i].color != players[j].color
}

/// No two non-spectating players of the roster share a team.
pub open spec fn teams_distinct(players: Seq<PlayerInRoom>) -> bool {
    forall|i: int, j: int|
        0 <= i < j < players.len() && players[i].team != SPECTATOR_TEAM
            && players[j].team != SPECTATOR_TEAM ==> players[i].team != players[j].team
}

/// How many players of the roster voted to force-start.
pub open spec fn count_force_start(players: Seq<PlayerInRoom>) -> int
    decreases players.len(),
{
    if players.len() == 0 {
        0
    } else {
        count_force_start(players.drop_last()) + if players.last().force_start {
            1int
        } else {
            0int
        }
    }
}

/// A roster that the room operations keep well formed: a single host
/// whenever it is non-empty, and pairwise distinct colors.
pub open spec fn players_wf(players: Seq<PlayerInRoom>) -> bool {
    &&& players.len() > 0 ==> unique_host(players)
    &&& colors_distinct(players)
}

/// The room's cross-field invariant: a well-formed roster, and a
/// force-start counter that equals the number of force-start votes.
pub open spec fn room_wf(room: Room) -> bool {
    &&& players_wf(room.players@)
    &&& count_force_start(room.players@) == room.force_start_num
}

pub proof fn lemma_count_force_start_bounds(players: Seq<PlayerInRoom>)
    ensures
        0 <= count_force_start(players) <= players.len(),
    decreases players.len(),
{
    if players.len() > 0 {
        lemma_count_force_start_bounds(players.drop_last());
    }
}

pub proof fn lemma_count_force_start_push(players: Seq<PlayerInRoom>, p: PlayerInRoom)
    ensures
        count_force_start(players.push(p)) == count_force_start(players) + if p.force_start {
            1int
        } else {
            0int
        },
{
    assert(players.push(p).drop_last() =~= players);
}

pub proof fn lemma_count_force_start_update(players: Seq<PlayerInRoom>, i: int, p: PlayerInRoom)
    requires
        0 <= i < players.len(),
    ensures
        count_force_start(players.update(i, p)) == count_force_start(players) - (
        if players[i].force_start {
            1int
        } else {
            0int
        }) + (
        if p.force_start {
            1int
        } else {
            0int
        }),
    decreases players.len(),
{
    let updated = players.update(i, p);
    if i == players.len() - 1 {
        assert(updated.drop_last() =~= players.drop_last());
    } else {
        assert(updated.drop_last() =~= players.drop_last().update(i, p));
        lemma_count_force_start_update(players.drop_last(), i, p);
    }
}

/// A vote at index `i` makes the vote count positive.
pub proof fn lemma_count_force_start_positive(players: Seq<PlayerInRoom>, i: int)
    requires
        0 <= i < players.len(),
        players[i].force_start,
    ensures
        count_force_start(players) >= 1,
    decreases players.len(),
{
    lemma_count_force_start_bounds(players.drop_last());
    if i < players.len() - 1 {
        lemma_count_force_start_positive(players.drop_last(), i);
    }
}

impl Clone for GameOptions {
    fn clone(&self) -> (res: Self)
        ensures
            res == *self,
    {
        GameOptions {
            room_name: self.room_name.clone(),
            map_id: self.map_id.clone(),
            map_name: self.map_name.clone(),
            max_players: self.max_players,
            game_speed: self.game_speed,
            map_width: self.map_width,
            map_height: self.map_height,
            mountain: self.mountain,
            city: self.city,
            swamp: self.swamp,
            fog_of_war: self.fog_of_war,
            death_spectating: self.death_spectating,
            reveal_king: self.reveal_king,
            warring_state: self.warring_state,
        }
    }
}

/// `b` carries the same data as `a`; roster and board are compared by
/// contents.
pub open spec fn room_like(a: Room, b: Room) -> bool {
    &&& b.game_options == a.game_options
    &&& b.force_start_num == a.force_start_num
    &&& b.game_started == a.game_started
    &&& b.map_generated == a.map_generated
    &&& b.players@.len() == a.players@.len()
    &&& forall|i: int|
        0 <= i < a.players@.len() ==> player_like(a.players@[i], b.players@[i])
    &&& b.map@.len() == a.map@.len()
    &&& forall|i: int| 0 <= i < a.map@.len() ==> b.map@[i]@ == a.map@[i]@
}

impl Clone for Room {
    fn clone(&self) -> (res: Self)
        ensures
            room_like(*self, res),
    {
        let mut players: Vec<PlayerInRoom> = Vec::new();
        let mut i: usize = 0;
        while i < self.players.len()
            invariant
                i <= self.players.len(),
                players@.len() == i,
                forall|k: int| 0 <= k < i ==> player_like(self.players@[k], players@[k]),
            decreases self.players.len() - i,
        {
            players.push(self.players[i].clone());
            i = i + 1;
        }
        let mut map: Vec<Vec<Block>> = Vec::new();
        let mut j: usize = 0;
        while j < self.map.len()
            invariant
                j <= self.map.len(),
                map@.len() == j,
                forall|k: int| 0 <= k < j ==> map@[k]@ == self.map@[k]@,
            decreases self.map.len() - j,
        {
            map.push(clone_blocks(&self.map[j]));
            j = j + 1;
        }
        Room {
            game_options: self.game_options.clone(),
            force_start_num: self.force_start_num,
            game_started: self.game_started,
            map_generated: self.map_generated,
            players,
            map,
        }
    }
}

/// Some player of the roster is connected through `sid`.
pub open spec fn has_socket(players: Seq<PlayerInRoom>, sid: Seq<char>) -> bool {
    exists|i: int| 0 <= i < players.len() && players[i].socket_id@ == sid
}

/// Index `i` is the first roster entry connected through `sid`.
pub open spec fn is_first_socket_match(players: Seq<PlayerInRoom>, sid: Seq<char>, i: int) -> bool {
    &&& 0 <= i < players.len()
    &&& players[i].socket_id@ == sid
    &&& forall|k: int| 0 <= k < i ==> players[k].socket_id@ != sid
}

/// Some player of the roster carries the stable identity `pid`.
pub open spec fn has_player_id(players: Seq<PlayerInRoom>, pid: Seq<char>) -> bool {
    exists|i: int| 0 <= i < players.len() && players[i].player_id@ == pid
}

/// Index `i` is the first roster entry with the stable identity `pid`.
pub open spec fn is_first_pid_match(players: Seq<PlayerInRoom>, pid: Seq<char>, i: int) -> bool {
    &&& 0 <= i < players.len()
    &&& players[i].player_id@ == pid
    &&& forall|k: int| 0 <= k < i ==> players[k].player_id@ != pid
}

/// The first roster entry connected through `socket_id`, if any.
pub fn find_by_socket(players: &Vec<PlayerInRoom>, socket_id: &String) -> (r: Option<usize>)
    ensures
        match r {
            Some(i) => is_first_socket_match(players@, socket_id@, i as int),
            None => !has_socket(players@, socket_id@),
        },
{
    let mut i: usize = 0;
    while i < players.len()
        invariant
            i <= players@.len(),
            forall|k: int| 0 <= k < i ==> players@[k].socket_id@ != socket_id@,
        decreases players@.len() - i,
    {
        if players[i].socket_id == *socket_id {
            return Some(i);
        }
        i = i + 1;
    }
    None
}

/// The first roster entry with the stable identity `player_id`, if any.
pub fn find_by_player_id(players: &Vec<PlayerInRoom>, player_id: &String) -> (r: Option<usize>)
    ensures
        match r {
            Some(i) => is_first_pid_match(players@, player_id@, i as int),
            None => !has_player_id(players@, player_id@),
        },
{
    let mut i: usize = 0;
    while i < players.len()
        invariant
            i <= players@.len(),
            forall|k: int| 0 <= k < i ==> players@[k].player_id@ != player_id@,
        decreases players@.len() - i,
    {
        if players[i].player_id == *player_id {
            return Some(i);
        }
        i = i + 1;
    }
    None
}

/// Some player of the roster wears color `c`.
pub open spec fn color_taken(players: Seq<PlayerInRoom>, c: usize) -> bool {
    exists|k: int| 0 <= k < players.len() && players[k].color == c
}

/// `c` is the least color of 1..=m that no player of the roster wears.
pub open spec fn is_lowest_free_color(players: Seq<PlayerInRoom>, m: usize, c: usize) -> bool {
    &&& 1 <= c <= m
    &&& !color_taken(players, c)
    &&& forall|d: int| 1 <= d < c ==> #[trigger] color_taken(players, d as usize)
}

/// Some player of the roster sits on team `t`.
pub open spec fn team_taken(players: Seq<PlayerInRoom>, t: usize) -> bool {
    exists|k: int| 0 <= k < players.len() && players[k].team == t
}

/// The team a joining player receives: the least free normal team, or the
/// spectator team when every normal team is occupied.
pub open spec fn is_assigned_team(players: Seq<PlayerInRoom>, t: usize) -> bool {
    if exists|d: int| 1 <= d <= MAX_TEAM_NUM && !(#[trigger] team_taken(players, d as usize)) {
        &&& 1 <= t <= MAX_TEAM_NUM
        &&& !team_taken(players, t)
        &&& forall|d: int| 1 <= d < t ==> #[trigger] team_taken(players, d as usize)
    } else {
        t == SPECTATOR_TEAM
    }
}

fn contains_color(players: &Vec<PlayerInRoom>, c: usize) -> (r: bool)
    ensures
        r == color_taken(players@, c),
{
    let mut i: usize = 0;
    while i < players.len()
        invariant
            i <= players@.len(),
            forall|k: int| 0 <= k < i ==> players@[k].color != c,
        decreases players@.len() - i,
    {
        if players[i].color == c {
            return true;
        }
        i = i + 1;
    }
    false
}

fn contains_team(players: &Vec<PlayerInRoom>, t: usize) -> (r: bool)
    ensures
        r == team_taken(players@, t),
{
    let mut i: usize = 0;
    while i < players.len()
        invariant
            i <= players@.len(),
            forall|k: int| 0 <= k < i ==> players@[k].team != t,
        decreases players@.len() - i,
    {
        if players[i].team == t {
            return true;
        }
        i = i + 1;
    }
    false
}

/// A roster that is strictly smaller than `m` cannot occupy every one of
/// the colors 1..=m: the colors a roster wears are at most as many as its
/// players.
pub proof fn lemma_free_color_exists(players: Seq<PlayerInRoom>, m: usize)
    requires
        players.len() < m,
    ensures
        exists|c: int| 1 <= c <= m && !(#[trigger] color_taken(players, c as usize)),
{
    if !(exists|c: int| 1 <= c <= m && !(#[trigger] color_taken(players, c as usize))) {
        let colors = players.map_values(|p: PlayerInRoom| p.color as int);
        let taken = colors.to_set();
        let range = vstd::set_lib::set_int_range(1, m + 1);
        assert forall|c: int| range.contains(c) implies taken.contains(c) by {
            assert(1 <= c <= m);
            assert(color_taken(players, c as usize));
            let k = choose|k: int|
                0 <= k < players.len() && players[k].color == c as usize;
            assert(colors[k] == c);
            assert(taken.contains(c));
        }
        assert(range.subset_of(taken));
        vstd::set_lib::lemma_int_range(1, m + 1);
        broadcast use vstd::seq_lib::seq_to_set_is_finite;

        vstd::set_lib::lemma_len_subset(range, taken);
        colors.lemma_cardinality_of_set();
        assert(false);
    }
}

/// The least color of 1..=m that no player of the roster wears; one exists
/// because the roster is strictly smaller than `m`.
pub fn lowest_free_color(players: &Vec<PlayerInRoom>, m: usize) -> (c: usize)
    requires
        players@.len() < m,
    ensures
        is_lowest_free_color(players@, m, c),
{
    let mut c: usize = 1;
    loop
        invariant
            1 <= c <= players@.len() + 1,
            players@.len() < m,
            forall|d: int| 1 <= d < c ==> #[trigger] color_taken(players@, d as usize),
        decreases players@.len() + 1 - c,
    {
        if !contains_color(players, c) {
            return c;
        }
        proof {
            if c == players@.len() + 1 {
                lemma_free_color_exists(players@, c);
                let c0 = choose|c0: int|
                    1 <= c0 <= c && !(#[trigger] color_taken(players@, c0 as usize));
                assert(color_taken(players@, c0 as usize));
                assert(false);
            }
        }
        c = c + 1;
    }
}

/// The team a joining player receives: the least free normal team, or the
/// spectator team when every normal team is occupied.
pub fn assigned_team(players: &Vec<PlayerInRoom>) -> (t: usize)
    ensures
        is_assigned_team(players@, t),
{
    let mut t: usize = 1;
    while t <= MAX_TEAM_NUM
        invariant
            1 <= t <= MAX_TEAM_NUM + 1,
            forall|d: int| 1 <= d < t ==> #[trigger] team_taken(players@, d as usize),
        decreases MAX_TEAM_NUM + 1 - t,
    {
        if !contains_team(players, t) {
            proof {
                assert(1 <= t as int <= MAX_TEAM_NUM && !team_taken(players@, (t as int) as usize));
            }
            return t;
        }
        t = t + 1;
    }
    proof {
        assert forall|d: int| 1 <= d <= MAX_TEAM_NUM implies #[trigger] team_taken(players@, d as usize) by {}
        assert(!(exists|d: int| 1 <= d <= MAX_TEAM_NUM && !(#[trigger] team_taken(players@, d as usize))));
    }
    SPECTATOR_TEAM
}

/// Everything of the room but its roster and force-start counter is as it
/// was.
pub open spec fn room_frame_players_only(pre: Room, post: Room) -> bool {
    &&& post.game_options == pre.game_options
    &&& post.game_started == pre.game_started
    &&& post.map_generated == pre.map_generated
    &&& post.map == pre.map
}

/// The fields a player joining the roster `pre` receives: the identity the
/// caller supplied, the least free color of 1..=max_players, the least free
/// normal team (or the spectator team when none is free), the host flag
/// exactly when the roster was empty, and cleared per-match state.
pub open spec fn joined_player_fields(
    pre: Seq<PlayerInRoom>,
    max_players: usize,
    socket_id: String,
    player_id: String,
    username: String,
    np: PlayerInRoom,
) -> bool {
    &&& np.player_id == player_id
    &&& np.username == username
    &&& np.socket_id == socket_id
    &&& is_lowest_free_color(pre, max_players, np.color)
    &&& is_assigned_team(pre, np.team)
    &&& np.is_room_host == (pre.len() == 0)
    &&& np.force_start == false
    &&& np.is_dead == false
    &&& np.last_operate_turn == 0
    &&& np.land@ == Seq::<Block>::empty()
}

/// How a team change at roster index `i` rewrites the room: the player's
/// team becomes `team`; if that actually changed the team to the spectator
/// team while the player had voted to force-start, the vote is withdrawn
/// and the counter drops by one; nothing else moves.
pub open spec fn team_change_post(pre: Room, post: Room, i: int, team: usize) -> bool {
    let p = pre.players@[i];
    let cleared = team != p.team && team == SPECTATOR_TEAM && p.force_start;
    &&& post.players@ == pre.players@.update(
        i,
        (PlayerInRoom { team, force_start: p.force_start && !cleared, ..p }),
    )
    &&& post.force_start_num == pre.force_start_num - (if cleared {
        1int
    } else {
        0int
    })
    &&& room_frame_players_only(pre, post)
}

/// The roster with the host flag moved from index `ci` to index `ti`.
pub open spec fn host_moved(players: Seq<PlayerInRoom>, ci: int, ti: int) -> Seq<PlayerInRoom> {
    let cleared = players.update(
        ci,
        (PlayerInRoom { is_room_host: false, ..players[ci] }),
    );
    cleared.update(ti, (PlayerInRoom { is_room_host: true, ..cleared[ti] }))
}

/// How a host transfer from roster index `ci` to roster index `ti`
/// rewrites the room: only the two host flags move.
pub open spec fn host_change_post(pre: Room, post: Room, ci: int, ti: int) -> bool {
    &&& post.players@ == host_moved(pre.players@, ci, ti)
    &&& post.force_start_num == pre.force_start_num
    &&& room_frame_players_only(pre, post)
}

/// The room a fresh id starts with: default options, an empty roster and
/// no board.
pub open spec fn is_default_room(r: Room) -> bool {
    &&& r.game_options.room_name@ == "Untitled"@
    &&& r.game_options.map_id@ == Seq::<char>::empty()
    &&& r.game_options.map_name@ == Seq::<char>::empty()
    &&& r.game_options.max_players == 8
    &&& r.game_options.game_speed == 1000
    &&& r.game_options.map_width == 500
    &&& r.game_options.map_height == 500
    &&& r.game_options.mountain == 500
    &&& r.game_options.city == 500
    &&& r.game_options.swamp == 0
    &&& r.game_options.fog_of_war == true
    &&& r.game_options.death_spectating == true
    &&& r.game_options.reveal_king == false
    &&& r.game_options.warring_state == false
    &&& r.force_start_num == 0
    &&& r.game_started == false
    &&& r.map_generated == false
    &&& r.players@ == Seq::<PlayerInRoom>::empty()
    &&& r.map@ == Seq::<Vec<Block>>::empty()
}

impl Room {
    /// The room a fresh id starts with.
    pub fn new_default() -> (r: Room)
        ensures
            is_default_room(r),
            room_wf(r),
    {
        Room {
            game_options: GameOptions {
                room_name: String::from_str("Untitled"),
                map_id: String::new(),
                map_name: String::new(),
                max_players: 8,
                game_speed: 1000,
                map_width: 500,
                map_height: 500,
                mountain: 500,
                city: 500,
                swamp: 0,
                fog_of_war: true,
                death_spectating: true,
                reveal_king: false,
                warring_state: false,
            },
            force_start_num: 0,
            game_started: false,
            map_generated: false,
            players: Vec::new(),
            map: Vec::new(),
        }
    }

    /// Admit a new player to the roster, unless the room is full.
    ///
    /// The newcomer receives the least free color and the least free
    /// normal team, becomes host exactly when the roster was empty, and is
    /// appended in join order; the roster never grows beyond
    /// `max_players`. Joining keeps the roster well formed, and keeps
    /// non-spectating teams pairwise distinct.
    pub fn add_player(
        &mut self,
        socket_id: String,
        player_id: String,
        username: String,
    ) -> (r: Result<PlayerInRoom, RoomError>)
        requires
            room_wf(*old(self)),
        ensures
            room_wf(*final(self)),
            r is Err ==> *final(self) == *old(self),
            old(self).players@.len() >= old(self).game_options.max_players ==> r == Err::<
                PlayerInRoom,
                RoomError,
            >(RoomError::RoomFull) && *final(self) == *old(self),
            old(self).players@.len() < old(self).game_options.max_players ==> match r {
                Ok(p) => {
                    let np = final(self).players@.last();
                    &&& final(self).players@ == old(self).players@.push(np)
                    &&& joined_player_fields(
                        old(self).players@,
                        old(self).game_options.max_players,
                        socket_id,
                        player_id,
                        username,
                        np,
                    )
                    &&& player_like(np, p)
                    &&& final(self).players@.len() <= old(self).game_options.max_players
                    &&& final(self).force_start_num == old(self).force_start_num
                    &&& room_frame_players_only(*old(self), *final(self))
                    &&& (teams_distinct(old(self).players@) ==> teams_distinct(
                        final(self).players@,
                    ))
                },
                Err(_) => false,
            },
    {
        let max_players = self.game_options.max_players;
        if self.players.len() >= max_players {
            return Err(RoomError::RoomFull);
        }
        let color = lowest_free_color(&self.players, max_players);
        let team = assigned_team(&self.players);
        let np = PlayerInRoom {
            player_id,
            username,
            socket_id,
            color,
            team,
            is_room_host: self.players.len() == 0,
            force_start: false,
            is_dead: false,
            last_operate_turn: 0,
            land: Vec::new(),
        };
        let ret = np.clone();
        proof {
            lemma_count_force_start_push(self.players@, np);
        }
        let ghost pre = self.players@;
        self.players.push(np);
        proof {
            let post = self.players@;
            if pre.len() == 0 {
                assert(is_the_host(post, 0));
            } else {
                let h = choose|i: int| is_the_host(pre, i);
                assert(is_the_host(post, h));
            }
            assert forall|i: int, j: int|
                0 <= i < j < post.len() implies post[i].color != post[j].color by {
                if j == pre.len() {
                    if post[i].color == np.color {
                        assert(pre[i].color == np.color);
                        assert(color_taken(pre, np.color));
                    }
                }
            }
            if teams_distinct(pre) {
                assert forall|i: int, j: int|
                    0 <= i < j < post.len() && post[i].team != SPECTATOR_TEAM && post[j].team
                        != SPECTATOR_TEAM implies post[i].team != post[j].team by {
                    if j == pre.len() {
                        if post[i].team == np.team {
                            assert(pre[i].team == np.team);
                            assert(team_taken(pre, np.team));
                        }
                    }
                }
            }
        }
        Ok(ret)
    }

    /// Move the player connected through `socket_id` to `team`.
    ///
    /// Teams run 1..=MAX_TEAM_NUM, with 0 accepted and SPECTATOR_TEAM the
    /// spectate sentinel; anything beyond the sentinel is `InvalidTeam`.
    /// When the change actually moves a force-start voter to the spectator
    /// team, the vote is withdrawn and the counter drops by exactly one.
    /// On any error the room is untouched. The roster stays well formed,
    /// and teams stay pairwise distinct as long as the requested team is
    /// the sentinel or not already occupied by another non-spectator.
    pub fn change_team(&mut self, socket_id: &String, team: usize) -> (r: Result<
        MinifiedPlayer,
        RoomError,
    >)
        requires
            room_wf(*old(self)),
        ensures
            room_wf(*final(self)),
            r is Err ==> *final(self) == *old(self),
            team > SPECTATOR_TEAM ==> r == Err::<MinifiedPlayer, RoomError>(
                RoomError::InvalidTeam,
            ) && *final(self) == *old(self),
            team <= SPECTATOR_TEAM && !has_socket(old(self).players@, socket_id@) ==> r == Err::<
                MinifiedPlayer,
                RoomError,
            >(RoomError::PlayerNotFound) && *final(self) == *old(self),
            team <= SPECTATOR_TEAM ==> forall|i: int|
                #![trigger is_first_socket_match(old(self).players@, socket_id@, i)]
                is_first_socket_match(old(self).players@, socket_id@, i) ==> {
                    &&& r == Ok::<MinifiedPlayer, RoomError>(
                        spec_minify(old(self).players@[i]),
                    )
                    &&& team_change_post(*old(self), *final(self), i, team)
                    &&& (teams_distinct(old(self).players@) && (team == SPECTATOR_TEAM
                        || forall|j: int|
                            0 <= j < old(self).players@.len() && j != i && old(
                                self,
                            ).players@[j].team != SPECTATOR_TEAM ==> old(self).players@[j].team
                                != team) ==> teams_distinct(final(self).players@))
                },
    {
        if team > SPECTATOR_TEAM {
            return Err(RoomError::InvalidTeam);
        }
        match find_by_socket(&self.players, socket_id) {
            None => Err(RoomError::PlayerNotFound),
            Some(i) => {
                let ghost pre = *self;
                let ghost idx = i as int;
                let mp = self.players[i].minify();
                if team != self.players[i].team {
                    let p = &mut self.players[i];
                    p.team = team;
                    if team == SPECTATOR_TEAM && p.force_start {
                        p.force_start = false;
                        proof {
                            lemma_count_force_start_positive(pre.players@, idx);
                        }
                        self.force_start_num = self.force_start_num - 1;
                    }
                }
                proof {
                    let post = *self;
                    let p0 = pre.players@[idx];
                    let cleared = team != p0.team && team == SPECTATOR_TEAM && p0.force_start;
                    let p2 = PlayerInRoom {
                        team,
                        force_start: p0.force_start && !cleared,
                        ..p0
                    };
                    assert(post.players@ =~= pre.players@.update(idx, p2));
                    lemma_count_force_start_update(pre.players@, idx, p2);
                    // the roster stays well formed: host flags and colors were untouched
                    if pre.players@.len() > 0 {
                        let h = choose|k: int| is_the_host(pre.players@, k);
                        assert(is_the_host(post.players@, h));
                    }
                    assert forall|a: int, b: int|
                        0 <= a < b < post.players@.len() implies post.players@[a].color
                        != post.players@[b].color by {
                        assert(pre.players@[a].color != pre.players@[b].color);
                    }
                    assert forall|k: int|
                        is_first_socket_match(pre.players@, socket_id@, k) implies k == idx by {
                        if k < idx {
                            assert(pre.players@[k].socket_id@ != socket_id@);
                        }
                        if k > idx {
                            assert(pre.players@[idx].socket_id@ != socket_id@);
                        }
                    }
                }
                Ok(mp)
            },
        }
    }

    /// Transfer the host flag from the caller to the player named by
    /// `player_id`.
    ///
    /// The caller, found by connection, must currently be the host. When
    /// the named player is already the host the transfer is refused; when
    /// no player carries that id, the first player in join order is
    /// promoted instead, so that a non-empty roster is never left without
    /// a host. Validation precedes every write: on any error the room is
    /// untouched. The roster stays well formed.
    pub fn change_host(&mut self, socket_id: &String, player_id: &String) -> (r: Result<
        (MinifiedPlayer, MinifiedPlayer),
        RoomError,
    >)
        requires
            room_wf(*old(self)),
        ensures
            room_wf(*final(self)),
            r is Err ==> *final(self) == *old(self),
            !has_socket(old(self).players@, socket_id@) ==> r == Err::<
                (MinifiedPlayer, MinifiedPlayer),
                RoomError,
            >(RoomError::PlayerNotFound) && *final(self) == *old(self),
            forall|ci: int|
                #![trigger is_first_socket_match(old(self).players@, socket_id@, ci)]
                is_first_socket_match(old(self).players@, socket_id@, ci) ==> {
                    if !old(self).players@[ci].is_room_host {
                        r == Err::<(MinifiedPlayer, MinifiedPlayer), RoomError>(
                            RoomError::PermissionDenied,
                        ) && *final(self) == *old(self)
                    } else if has_player_id(old(self).players@, player_id@) {
                        forall|ti: int|
                            #![trigger is_first_pid_match(old(self).players@, player_id@, ti)]
                            is_first_pid_match(old(self).players@, player_id@, ti) ==> {
                                if old(self).players@[ti].is_room_host {
                                    r == Err::<(MinifiedPlayer, MinifiedPlayer), RoomError>(
                                        RoomError::AlreadyHost,
                                    ) && *final(self) == *old(self)
                                } else {
                                    r == Ok::<(MinifiedPlayer, MinifiedPlayer), RoomError>(
                                        (
                                            spec_minify(old(self).players@[ci]),
                                            spec_minify(old(self).players@[ti]),
                                        ),
                                    ) && host_change_post(*old(self), *final(self), ci, ti)
                                }
                            }
                    } else {
                        r == Ok::<(MinifiedPlayer, MinifiedPlayer), RoomError>(
                            (
                                spec_minify(old(self).players@[ci]),
                                spec_minify(old(self).players@[0]),
                            ),
                        ) && host_change_post(*old(self), *final(self), ci, 0)
                    }
                },
            teams_distinct(old(self).players@) ==> teams_distinct(final(self).players@),
    {
        match find_by_socket(&self.players, socket_id) {
            None => Err(RoomError::PlayerNotFound),
            Some(ci) => {
                if !self.players[ci].is_room_host {
                    return Err(RoomError::PermissionDenied);
                }
                let from = self.players[ci].minify();
                let target = find_by_player_id(&self.players, player_id);
                let ti: usize = match target {
                    Some(t) => {
                        if self.players[t].is_room_host {
                            return Err(RoomError::AlreadyHost);
                        }
                        t
                    },
                    None => 0,
                };
                let to = self.players[ti].minify();
                let ghost pre = *self;
                {
                    let p = &mut self.players[ci];
                    p.is_room_host = false;
                }
                {
                    let p = &mut self.players[ti];
                    p.is_room_host = true;
                }
                proof {
                    let post = *self;
                    assert(post.players@ =~= host_moved(pre.players@, ci as int, ti as int));
                    lemma_count_force_start_update(
                        pre.players@,
                        ci as int,
                        (PlayerInRoom { is_room_host: false, ..pre.players@[ci as int] }),
                    );
                    let cleared = pre.players@.update(
                        ci as int,
                        (PlayerInRoom { is_room_host: false, ..pre.players@[ci as int] }),
                    );
                    lemma_count_force_start_update(
                        cleared,
                        ti as int,
                        (PlayerInRoom { is_room_host: true, ..cleared[ti as int] }),
                    );
                    assert(is_the_host(post.players@, ti as int));
                    assert forall|a: int, b: int|
                        0 <= a < b < post.players@.len() implies post.players@[a].color
                        != post.players@[b].color by {
                        assert(pre.players@[a].color != pre.players@[b].color);
                    }
                    assert forall|k: int|
                        is_first_socket_match(pre.players@, socket_id@, k) implies k == ci as int by {
                        if k < ci as int {
                            assert(pre.players@[k].socket_id@ != socket_id@);
                        }
                        if k > ci as int {
                            assert(pre.players@[ci as int].socket_id@ != socket_id@);
                        }
                    }
                    assert forall|k: int|
                        is_first_pid_match(pre.players@, player_id@, k) implies k
                        == match target {
                        Some(t) => t as int,
                        None => k,
                    } by {
                        if let Some(t) = target {
                            if k < t as int {
                                assert(pre.players@[k].player_id@ != player_id@);
                            }
                            if k > t as int {
                                assert(pre.players@[t as int].player_id@ != player_id@);
                            }
                        }
                    }
                }
                Ok((from, to))
            },
        }
    }

    /// The slice of this room that the lobby listing carries, under the
    /// pool id `id`.
    pub fn minify(&self, id: String) -> (r: MinifiedRoom)
        ensures
            r.id == id,
            r.room_name == self.game_options.room_name,
            r.game_started == self.game_started,
            r.game_speed == self.game_options.game_speed,
            r.player_count == self.players@.len(),
            r.max_players == self.game_options.max_players,
    {
        MinifiedRoom {
            id,
            room_name: self.game_options.room_name.clone(),
            game_started: self.game_started,
            game_speed: self.game_options.game_speed,
            player_count: self.players.len(),
            max_players: self.game_options.max_players,
        }
    }
}

} // verus!
