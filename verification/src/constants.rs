use vstd::prelude::*;

verus! {

/// Highest normal (non-spectating) team number.
pub const MAX_TEAM_NUM: usize = 12;

/// Team value that marks a spectator: one past the highest normal team.
pub const SPECTATOR_TEAM: usize = 13;

/// Upper bound on how many rooms the pool may hold at once.
pub const MAX_ROOM_COUNT: usize = 5;

/// The discrete game speeds a room may be set to, in thousandths:
/// half, single, double, triple and quadruple speed.
pub open spec fn is_speed_option(milli: int) -> bool {
    milli == 500 || milli == 1000 || milli == 2000 || milli == 3000 || milli == 4000
}

/// Decides membership in the fixed set of game speeds.
pub fn speed_option_check(milli: i64) -> (r: bool)
    ensures
        r == is_speed_option(milli as int),
{
    milli == 500 || milli == 1000 || milli == 2000 || milli == 3000 || milli == 4000
}

} // verus!
