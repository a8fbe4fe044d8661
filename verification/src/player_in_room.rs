use vstd::prelude::*;

use crate::block::Block;
use crate::constants::SPECTATOR_TEAM;

verus! {

/// A player's record inside one room: stable identity (`player_id`),
/// transient connection identity (`socket_id`), the color and team the room
/// assigned, and per-match flags. Identity fields never change after the
/// player joins; the mutable fields change only through the pool's
/// operations.
#[derive(Debug)]
pub struct PlayerInRoom {
    pub player_id: String,
    pub username: String,
    pub socket_id: String,
    pub color: usize,
    pub team: usize,
    pub is_room_host: bool,
    pub force_start: bool,
    pub is_dead: bool,
    pub last_operate_turn: u32,
    /// Copies of the cells the player holds; the board owns the originals.
    pub land: Vec<Block>,
}

/// The slice of a player that room broadcasts carry.
#[derive(Debug)]
pub struct MinifiedPlayer {
    pub username: String,
    pub color: usize,
}

/// `b` carries the same data as `a`; the lands are compared by contents.
pub open spec fn player_like(a: PlayerInRoom, b: PlayerInRoom) -> bool {
    &&& b.player_id == a.player_id
    &&& b.username == a.username
    &&& b.socket_id == a.socket_id
    &&& b.color == a.color
    &&& b.team == a.team
    &&& b.is_room_host == a.is_room_host
    &&& b.force_start == a.force_start
    &&& b.is_dead == a.is_dead
    &&& b.last_operate_turn == a.last_operate_turn
    &&& b.land@ == a.land@
}

/// The broadcast slice of `p`: its username and color.
pub open spec fn spec_minify(p: PlayerInRoom) -> MinifiedPlayer {
    MinifiedPlayer { username: p.username, color: p.color }
}

/// Copies a board row cell by cell.
pub fn clone_blocks(v: &Vec<Block>) -> (r: Vec<Block>)
    ensures
        r@ == v@,
{
    let mut r: Vec<Block> = Vec::new();
    let mut i: usize = 0;
    while i < v.len()
        invariant
            i <= v.len(),
            r@ == v@.subrange(0, i as int),
        decreases v.len() - i,
    {
        r.push(v[i]);
        proof {
            assert(r@ =~= v@.subrange(0, i + 1));
        }
        i = i + 1;
    }
    proof {
        assert(v@.subrange(0, v.len() as int) =~= v@);
    }
    r
}

impl Clone for PlayerInRoom {
    fn clone(&self) -> (res: Self)
        ensures
            player_like(*self, res),
    {
        PlayerInRoom {
            player_id: self.player_id.clone(),
            username: self.username.clone(),
            socket_id: self.socket_id.clone(),
            color: self.color,
            team: self.team,
            is_room_host: self.is_room_host,
            force_start: self.force_start,
            is_dead: self.is_dead,
            last_operate_turn: self.last_operate_turn,
            land: clone_blocks(&self.land),
        }
    }
}

impl PlayerInRoom {
    /// The slice of this player that room broadcasts carry.
    pub fn minify(&self) -> (r: MinifiedPlayer)
        ensures
            r == spec_minify(*self),
    {
        MinifiedPlayer { username: self.username.clone(), color: self.color }
    }

    /// Move this player to the spectator team.
    pub fn set_spectate(&mut self)
        ensures
            *final(self) == (PlayerInRoom { team: SPECTATOR_TEAM, ..*old(self) }),
    {
        self.team = SPECTATOR_TEAM;
    }

    /// Whether this player occupies the reserved spectator team.
    pub fn is_spectating(&self) -> (r: bool)
        ensures
            r == (self.team == SPECTATOR_TEAM),
    {
        self.team == SPECTATOR_TEAM
    }
}

} // verus!
