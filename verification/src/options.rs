use vstd::prelude::*;

use crate::constants::is_speed_option;
use crate::constants::speed_option_check;
use crate::errors::OptionKey;
use crate::errors::RoomError;
use crate::room::GameOptions;

verus! {

/// A client-supplied option value, as the wire layer hands it over: a
/// string, a boolean, a number, or something the options never take
/// (`Other`). A number arrives in thousandths (`milli`, so 1500 stands
/// for 1.5), with `integral` telling whether the wire carried a whole
/// non-negative integer.
#[derive(Debug)]
pub enum OptionValue {
    Text(String),
    Number { milli: i64, integral: bool },
    Flag(bool),
    Other,
}

/// The option a name of the wire protocol addresses, if any.
pub open spec fn spec_key_of(s: Seq<char>) -> Option<OptionKey> {
    if s == "room_name"@ {
        Some(OptionKey::RoomName)
    } else if s == "map_id"@ {
        Some(OptionKey::MapId)
    } else if s == "max_players"@ {
        Some(OptionKey::MaxPlayers)
    } else if s == "game_speed"@ {
        Some(OptionKey::GameSpeed)
    } else if s == "map_width"@ {
        Some(OptionKey::MapWidth)
    } else if s == "map_height"@ {
        Some(OptionKey::MapHeight)
    } else if s == "mountain"@ {
        Some(OptionKey::Mountain)
    } else if s == "city"@ {
        Some(OptionKey::City)
    } else if s == "swamp"@ {
        Some(OptionKey::Swamp)
    } else if s == "fog_of_war"@ {
        Some(OptionKey::FogOfWar)
    } else if s == "reveal_king"@ {
        Some(OptionKey::RevealKing)
    } else if s == "warring_state"@ {
        Some(OptionKey::WarringState)
    } else if s == "death_spectating"@ {
        Some(OptionKey::DeathSpectating)
    } else {
        None
    }
}

fn string_eq_lit(s: &String, lit: &str) -> (r: bool)
    ensures
        r == (s@ == lit@),
{
    let t = String::from_str(lit);
    *s == t
}

/// Resolve an option name of the wire protocol against the fixed set of
/// recognized options.
pub fn key_of(prop: &String) -> (r: Option<OptionKey>)
    ensures
        r == spec_key_of(prop@),
{
    if string_eq_lit(prop, "room_name") {
        Some(OptionKey::RoomName)
    } else if string_eq_lit(prop, "map_id") {
        Some(OptionKey::MapId)
    } else if string_eq_lit(prop, "max_players") {
        Some(OptionKey::MaxPlayers)
    } else if string_eq_lit(prop, "game_speed") {
        Some(OptionKey::GameSpeed)
    } else if string_eq_lit(prop, "map_width") {
        Some(OptionKey::MapWidth)
    } else if string_eq_lit(prop, "map_height") {
        Some(OptionKey::MapHeight)
    } else if string_eq_lit(prop, "mountain") {
        Some(OptionKey::Mountain)
    } else if string_eq_lit(prop, "city") {
        Some(OptionKey::City)
    } else if string_eq_lit(prop, "swamp") {
        Some(OptionKey::Swamp)
    } else if string_eq_lit(prop, "fog_of_war") {
        Some(OptionKey::FogOfWar)
    } else if string_eq_lit(prop, "reveal_king") {
        Some(OptionKey::RevealKing)
    } else if string_eq_lit(prop, "warring_state") {
        Some(OptionKey::WarringState)
    } else if string_eq_lit(prop, "death_spectating") {
        Some(OptionKey::DeathSpectating)
    } else {
        None
    }
}

/// The value fits the named option's type and range: a string for the
/// names, a whole player count of at least one, a speed from the fixed
/// discrete set, a density within [0, 1] (0..=1000 thousandths), and a
/// boolean for the toggles.
pub open spec fn option_valid(key: OptionKey, val: OptionValue) -> bool {
    match key {
        OptionKey::RoomName => val is Text,
        OptionKey::MapId => val is Text,
        OptionKey::MaxPlayers => match val {
            OptionValue::Number { milli, integral } => integral && 1000 <= milli && milli / 1000
                <= u32::MAX,
            _ => false,
        },
        OptionKey::GameSpeed => match val {
            OptionValue::Number { milli, .. } => is_speed_option(milli as int),
            _ => false,
        },
        OptionKey::MapWidth | OptionKey::MapHeight | OptionKey::Mountain | OptionKey::City
            | OptionKey::Swamp => match val {
            OptionValue::Number { milli, .. } => 0 <= milli <= 1000,
            _ => false,
        },
        OptionKey::FogOfWar | OptionKey::DeathSpectating | OptionKey::RevealKing
            | OptionKey::WarringState => val is Flag,
    }
}

/// How a successful change rewrites the options: exactly the named field
/// takes the supplied value. The map selection never goes through this
/// path, since resolving a map id needs the external map store.
pub open spec fn option_applied(
    pre: GameOptions,
    post: GameOptions,
    key: OptionKey,
    val: OptionValue,
) -> bool {
    match key {
        OptionKey::RoomName => match val {
            OptionValue::Text(s) => post == (GameOptions { room_name: s, ..pre }),
            _ => false,
        },
        OptionKey::MapId => false,
        OptionKey::MaxPlayers => match val {
            OptionValue::Number { milli, .. } => post == (GameOptions {
                max_players: (milli / 1000) as usize,
                ..pre
            }),
            _ => false,
        },
        OptionKey::GameSpeed => match val {
            OptionValue::Number { milli, .. } => post == (GameOptions {
                game_speed: milli as u32,
                ..pre
            }),
            _ => false,
        },
        OptionKey::MapWidth => match val {
            OptionValue::Number { milli, .. } => post == (GameOptions {
                map_width: milli as u32,
                ..pre
            }),
            _ => false,
        },
        OptionKey::MapHeight => match val {
            OptionValue::Number { milli, .. } => post == (GameOptions {
                map_height: milli as u32,
                ..pre
            }),
            _ => false,
        },
        OptionKey::Mountain => match val {
            OptionValue::Number { milli, .. } => post == (GameOptions {
                mountain: milli as u32,
                ..pre
            }),
            _ => false,
        },
        OptionKey::City => match val {
            OptionValue::Number { milli, .. } => post == (GameOptions {
                city: milli as u32,
                ..pre
            }),
            _ => false,
        },
        OptionKey::Swamp => match val {
            OptionValue::Number { milli, .. } => post == (GameOptions {
                swamp: milli as u32,
                ..pre
            }),
            _ => false,
        },
        OptionKey::FogOfWar => match val {
            OptionValue::Flag(b) => post == (GameOptions { fog_of_war: b, ..pre }),
            _ => false,
        },
        OptionKey::DeathSpectating => match val {
            OptionValue::Flag(b) => post == (GameOptions { death_spectating: b, ..pre }),
            _ => false,
        },
        OptionKey::RevealKing => match val {
            OptionValue::Flag(b) => post == (GameOptions { reveal_king: b, ..pre }),
            _ => false,
        },
        OptionKey::WarringState => match val {
            OptionValue::Flag(b) => post == (GameOptions { warring_state: b, ..pre }),
            _ => false,
        },
    }
}

impl GameOptions {
    /// Validate `val` for `key` and apply it in place; when the value does
    /// not fit the option's type or range, nothing changes and the key is
    /// reported back in the error.
    pub fn apply_option(&mut self, key: OptionKey, val: OptionValue) -> (r: Result<
        (),
        RoomError,
    >)
        requires
            key != OptionKey::MapId,
        ensures
            option_valid(key, val) ==> r == Ok::<(), RoomError>(()) && option_applied(
                *old(self),
                *final(self),
                key,
                val,
            ),
            !option_valid(key, val) ==> r == Err::<(), RoomError>(RoomError::InvalidValue(key))
                && *final(self) == *old(self),
    {
        match key {
            OptionKey::RoomName => match val {
                OptionValue::Text(s) => {
                    self.room_name = s;
                    Ok(())
                },
                _ => Err(RoomError::InvalidValue(key)),
            },
            OptionKey::MapId => Err(RoomError::InvalidValue(key)),
            OptionKey::MaxPlayers => match val {
                OptionValue::Number { milli, integral } => {
                    if integral && 1000 <= milli && milli / 1000 <= u32::MAX as i64 {
                        self.max_players = (milli / 1000) as usize;
                        Ok(())
                    } else {
                        Err(RoomError::InvalidValue(key))
                    }
                },
                _ => Err(RoomError::InvalidValue(key)),
            },
            OptionKey::GameSpeed => match val {
                OptionValue::Number { milli, .. } => {
                    if speed_option_check(milli) {
                        self.game_speed = milli as u32;
                        Ok(())
                    } else {
                        Err(RoomError::InvalidValue(key))
                    }
                },
                _ => Err(RoomError::InvalidValue(key)),
            },
            OptionKey::MapWidth => match val {
                OptionValue::Number { milli, .. } => {
                    if 0 <= milli && milli <= 1000 {
                        self.map_width = milli as u32;
                        Ok(())
                    } else {
                        Err(RoomError::InvalidValue(key))
                    }
                },
                _ => Err(RoomError::InvalidValue(key)),
            },
            OptionKey::MapHeight => match val {
                OptionValue::Number { milli, .. } => {
                    if 0 <= milli && milli <= 1000 {
                        self.map_height = milli as u32;
                        Ok(())
                    } else {
                        Err(RoomError::InvalidValue(key))
                    }
                },
                _ => Err(RoomError::InvalidValue(key)),
            },
            OptionKey::Mountain => match val {
                OptionValue::Number { milli, .. } => {
                    if 0 <= milli && milli <= 1000 {
                        self.mountain = milli as u32;
                        Ok(())
                    } else {
                        Err(RoomError::InvalidValue(key))
                    }
                },
                _ => Err(RoomError::InvalidValue(key)),
            },
            OptionKey::City => match val {
                OptionValue::Number { milli, .. } => {
                    if 0 <= milli && milli <= 1000 {
                        self.city = milli as u32;
                        Ok(())
                    } else {
                        Err(RoomError::InvalidValue(key))
                    }
                },
                _ => Err(RoomError::InvalidValue(key)),
            },
            OptionKey::Swamp => match val {
                OptionValue::Number { milli, .. } => {
                    if 0 <= milli && milli <= 1000 {
                        self.swamp = milli as u32;
                        Ok(())
                    } else {
                        Err(RoomError::InvalidValue(key))
                    }
                },
                _ => Err(RoomError::InvalidValue(key)),
            },
            OptionKey::FogOfWar => match val {
                OptionValue::Flag(b) => {
                    self.fog_of_war = b;
                    Ok(())
                },
                _ => Err(RoomError::InvalidValue(key)),
            },
            OptionKey::DeathSpectating => match val {
                OptionValue::Flag(b) => {
                    self.death_spectating = b;
                    Ok(())
                },
                _ => Err(RoomError::InvalidValue(key)),
            },
            OptionKey::RevealKing => match val {
                OptionValue::Flag(b) => {
                    self.reveal_king = b;
                    Ok(())
                },
                _ => Err(RoomError::InvalidValue(key)),
            },
            OptionKey::WarringState => match val {
                OptionValue::Flag(b) => {
                    self.warring_state = b;
                    Ok(())
                },
                _ => Err(RoomError::InvalidValue(key)),
            },
        }
    }
}

} // verus!
