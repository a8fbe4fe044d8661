use vstd::prelude::*;

verus! {

/// Terrain kinds of one grid cell.
#[derive(Clone, Copy, Debug, PartialEq, Eq, Structural)]
pub enum TileType {
    /// A player's base; its crown owner never changes through reinforcement.
    King,
    /// A unit spawner.
    City,
    /// Not visible: its color and units are unknown to the viewer.
    Fog,
    /// Not visible: either a city or a mountain, which one is unknown.
    Obstacle,
    /// Open ground; carries an army when occupied.
    Plain,
    /// Impassable.
    Mountain,
    /// Drains units that stand on it.
    Swamp,
}

/// One cell of the game grid: terrain, owner and army unit count.
#[derive(Clone, Copy, Debug, PartialEq, Eq, Structural)]
pub struct Block {
    pub x: i32,
    pub y: i32,
    pub tile_type: TileType,
    pub unit: i64,
    pub color: i16,
    pub team: i16,
    pub is_always_revealed: bool,
}

impl Block {
    /// Turn this cell into a king (base) tile owned by `color`, garrisoned by
    /// a single unit.
    pub fn init_king(&mut self, color: i16)
        ensures
            *final(self) == (Block {
                tile_type: TileType::King,
                unit: 1,
                color,
                ..*old(self)
            }),
    {
        self.color = color;
        self.tile_type = TileType::King;
        self.unit = 1;
    }

    /// Hand the cell over to `color` / `team`, leaving its units as they are.
    pub fn dominated_by(&mut self, color: i16, team: i16)
        ensures
            *final(self) == (Block { color, team, ..*old(self) }),
    {
        self.color = color;
        self.team = team;
    }

    /// Resolve one combat or reinforcement event: a force of `unit` armies of
    /// `color` / `team` enters the cell.
    ///
    /// A same-team force reinforces: the units add up, and the cell is
    /// reassigned to the entering player unless it is a king, whose crown
    /// owner never changes on this path. An opposing force fights: the cell
    /// keeps `|defenders - attackers|` units, and it changes hands exactly
    /// when the attackers outnumber the defenders.
    pub fn entered_by(&mut self, color: i16, team: i16, unit: i64)
        requires
            old(self).unit >= 0,
            unit >= 0,
            old(self).unit + unit <= i64::MAX,
        ensures
            old(self).team == team ==> *final(self) == (Block {
                unit: (old(self).unit + unit) as i64,
                color: if old(self).tile_type == TileType::King {
                    old(self).color
                } else {
                    color
                },
                ..*old(self)
            }),
            old(self).team != team && old(self).unit >= unit ==> *final(self) == (Block {
                unit: (old(self).unit - unit) as i64,
                ..*old(self)
            }),
            old(self).team != team && old(self).unit < unit ==> *final(self) == (Block {
                unit: (unit - old(self).unit) as i64,
                color,
                team,
                ..*old(self)
            }),
            old(self).team != team ==> final(self).unit == vstd::math::abs(
                old(self).unit - unit,
            ),
    {
        if self.team == team {
            self.unit = self.unit + unit;
            if self.tile_type != TileType::King {
                self.dominated_by(color, team);
            }
        } else {
            if self.unit >= unit {
                self.unit = self.unit - unit;
            } else {
                self.unit = unit - self.unit;
                self.dominated_by(color, team);
            }
        }
    }

    /// How many of the cell's units may be deployed: all but one, which
    /// stays behind as a permanent garrison.
    pub fn get_movable_unit(&self) -> (r: i64)
        requires
            self.unit >= 0,
        ensures
            r == vstd::math::max(self.unit - 1, 0),
    {
        if self.unit >= 1 {
            self.unit - 1
        } else {
            0
        }
    }
}

} // verus!
