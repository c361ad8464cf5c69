//! Per-player gameplay parameters and the one-step change rule.
use vstd::prelude::*;

use crate::text::{decimal, push_decimal};
use crate::limits::{PARAM_CHANGE_COOLDOWN_SECS, PARAM_DEFAULT_LEVEL, PARAM_MAX_LEVEL_FRICTION, PARAM_MAX_LEVEL_THREE_STAGE, PARAM_MIN_LEVEL};

verus! {

/// Which parameter a change targets.
#[derive(Clone, Copy, Debug, PartialEq, Eq, Structural)]
pub enum ParamKind {
    Gravity,
    Friction,
    Speed,
}

/// Whether a change raises or lowers the level.
#[derive(Clone, Copy, Debug, PartialEq, Eq, Structural)]
pub enum ParamDirection {
    Increase,
    Decrease,
}

/// The three levels of one player.
#[derive(Clone, Copy, Debug, PartialEq, Eq, Structural)]
pub struct PlayerParams {
    pub gravity: u8,
    pub friction: u8,
    pub speed: u8,
}

/// The (min, max) levels of a parameter.
pub open spec fn level_bounds(param: ParamKind) -> (u8, u8) {
    match param {
        ParamKind::Gravity | ParamKind::Speed => (PARAM_MIN_LEVEL, PARAM_MAX_LEVEL_THREE_STAGE),
        ParamKind::Friction => (PARAM_MIN_LEVEL, PARAM_MAX_LEVEL_FRICTION),
    }
}

/// Returns the (min, max) levels of `param`.
pub fn param_level_bounds(param: ParamKind) -> (bounds: (u8, u8))
    ensures
        bounds == level_bounds(param),
{
    match param {
        ParamKind::Gravity | ParamKind::Speed => (PARAM_MIN_LEVEL, PARAM_MAX_LEVEL_THREE_STAGE),
        ParamKind::Friction => (PARAM_MIN_LEVEL, PARAM_MAX_LEVEL_FRICTION),
    }
}


impl PlayerParams {
    /// Every level at its starting value.
    pub open spec fn spec_default() -> PlayerParams {
        PlayerParams {
            gravity: PARAM_DEFAULT_LEVEL,
            friction: PARAM_DEFAULT_LEVEL,
            speed: PARAM_DEFAULT_LEVEL,
        }
    }

    /// Returns the starting parameters of a new player.
    pub fn default() -> (p: PlayerParams)
        ensures
            p == PlayerParams::spec_default(),
    {
        PlayerParams {
            gravity: PARAM_DEFAULT_LEVEL,
            friction: PARAM_DEFAULT_LEVEL,
            speed: PARAM_DEFAULT_LEVEL,
        }
    }

    /// The level of one parameter.
    pub open spec fn level(self, param: ParamKind) -> u8 {
        match param {
            ParamKind::Gravity => self.gravity,
            ParamKind::Friction => self.friction,
            ParamKind::Speed => self.speed,
        }
    }

    /// These parameters with one level replaced.
    pub open spec fn with_level(self, param: ParamKind, level: u8) -> PlayerParams {
        match param {
            ParamKind::Gravity => PlayerParams { gravity: level, ..self },
            ParamKind::Friction => PlayerParams { friction: level, ..self },
            ParamKind::Speed => PlayerParams { speed: level, ..self },
        }
    }

    /// Every level lies within the bounds of its parameter.
    pub open spec fn is_valid(self) -> bool {
        &&& level_bounds(ParamKind::Gravity).0 <= self.gravity <= level_bounds(ParamKind::Gravity).1
        &&& level_bounds(ParamKind::Friction).0 <= self.friction <= level_bounds(ParamKind::Friction).1
        &&& level_bounds(ParamKind::Speed).0 <= self.speed <= level_bounds(ParamKind::Speed).1
    }
}

/// The outcome of an accepted change: the new levels and when the next change is allowed.
#[derive(Clone, Copy, Debug, PartialEq, Eq, Structural)]
pub struct ParamMutation {
    pub params: PlayerParams,
    pub next_param_change_at_unix: u64,
}

/// Why a change was refused.
#[derive(Clone, Copy, Debug, PartialEq, Eq, Structural)]
pub enum ParamUpdateError {
    /// The player changed a parameter too recently.
    CooldownActive { next_allowed_at_unix: u64 },
    /// The change would leave the allowed levels.
    OutOfRange,
}

impl ParamUpdateError {
    /// The error's text: `cooldown_active:` and the time the cooldown ends, or `out_of_range`.
    pub open spec fn spec_message(self) -> Seq<char> {
        match self {
            ParamUpdateError::CooldownActive { next_allowed_at_unix } => "cooldown_active:"@ + decimal(
                next_allowed_at_unix as nat,
            ),
            ParamUpdateError::OutOfRange => "out_of_range"@,
        }
    }

    /// Returns the error's text.
    pub fn message(&self) -> (s: String)
        ensures
            s@ == self.spec_message(),
    {
        match self {
            ParamUpdateError::CooldownActive { next_allowed_at_unix } => {
                let mut s = crate::text::owned("cooldown_active:");
                push_decimal(&mut s, *next_allowed_at_unix);
                s
            },
            ParamUpdateError::OutOfRange => crate::text::owned("out_of_range"),
        }
    }
}

/// A level moved one step, saturating at the ends of `u8`.
pub open spec fn stepped_level(level: u8, direction: ParamDirection) -> u8 {
    match direction {
        ParamDirection::Increase => if level == 255 { 255 } else { (level + 1) as u8 },
        ParamDirection::Decrease => if level == 0 { 0 } else { (level - 1) as u8 },
    }
}

/// The change is accepted: no cooldown runs and the stepped level stays within bounds.
pub open spec fn change_accepted(
    params: PlayerParams,
    next_param_change_at_unix: u64,
    param: ParamKind,
    direction: ParamDirection,
    now_unix: u64,
) -> bool {
    let candidate = stepped_level(params.level(param), direction);
    &&& next_param_change_at_unix <= now_unix
    &&& level_bounds(param).0 <= candidate <= level_bounds(param).1
}

/// What a parameter change request yields.
pub open spec fn param_change_result(
    params: PlayerParams,
    next_param_change_at_unix: u64,
    param: ParamKind,
    direction: ParamDirection,
    now_unix: u64,
) -> Result<ParamMutation, ParamUpdateError> {
    if now_unix < next_param_change_at_unix {
        Err(ParamUpdateError::CooldownActive { next_allowed_at_unix: next_param_change_at_unix })
    } else if change_accepted(params, next_param_change_at_unix, param, direction, now_unix) {
        Ok(
            ParamMutation {
                params: params.with_level(param, stepped_level(params.level(param), direction)),
                next_param_change_at_unix: (now_unix + PARAM_CHANGE_COOLDOWN_SECS) as u64,
            },
        )
    } else {
        Err(ParamUpdateError::OutOfRange)
    }
}

/// Returns whether a change of `param` in `direction` at `now_unix` is accepted: no cooldown
/// runs and the stepped level stays within bounds.
pub fn is_change_accepted(
    params: &PlayerParams,
    next_param_change_at_unix: u64,
    param: ParamKind,
    direction: ParamDirection,
    now_unix: u64,
) -> (b: bool)
    ensures
        b == change_accepted(*params, next_param_change_at_unix, param, direction, now_unix),
{
    if now_unix < next_param_change_at_unix {
        return false;
    }
    let current = match param {
        ParamKind::Gravity => params.gravity,
        ParamKind::Friction => params.friction,
        ParamKind::Speed => params.speed,
    };
    let candidate = match direction {
        ParamDirection::Increase => current.saturating_add(1),
        ParamDirection::Decrease => current.saturating_sub(1),
    };
    let (min_level, max_level) = param_level_bounds(param);
    min_level <= candidate && candidate <= max_level
}

/// Moves one parameter one level up or down, unless a cooldown runs or the level would leave
/// its bounds; an accepted change starts a new cooldown at `now_unix`.
pub fn apply_param_change(
    params: &PlayerParams,
    next_param_change_at_unix: u64,
    param: ParamKind,
    direction: ParamDirection,
    now_unix: u64,
) -> (res: Result<ParamMutation, ParamUpdateError>)
    requires
        change_accepted(*params, next_param_change_at_unix, param, direction, now_unix)
            ==> now_unix + PARAM_CHANGE_COOLDOWN_SECS <= u64::MAX,
    ensures
        res == param_change_result(*params, next_param_change_at_unix, param, direction, now_unix),
{
    if now_unix < next_param_change_at_unix {
        return Err(
            ParamUpdateError::CooldownActive { next_allowed_at_unix: next_param_change_at_unix },
        );
    }
    let mut next = *params;
    let current = match param {
        ParamKind::Gravity => next.gravity,
        ParamKind::Friction => next.friction,
        ParamKind::Speed => next.speed,
    };
    let candidate = match direction {
        ParamDirection::Increase => current.saturating_add(1),
        ParamDirection::Decrease => current.saturating_sub(1),
    };
    let (min_level, max_level) = param_level_bounds(param);
    if !(min_level <= candidate && candidate <= max_level) {
        return Err(ParamUpdateError::OutOfRange);
    }
    match param {
        ParamKind::Gravity => next.gravity = candidate,
        ParamKind::Friction => next.friction = candidate,
        ParamKind::Speed => next.speed = candidate,
    }
    Ok(
        ParamMutation {
            params: next,
            next_param_change_at_unix: now_unix + PARAM_CHANGE_COOLDOWN_SECS,
        },
    )
}

/// An accepted change keeps valid parameters valid.
pub proof fn lemma_change_keeps_params_valid(
    params: PlayerParams,
    next_param_change_at_unix: u64,
    param: ParamKind,
    direction: ParamDirection,
    now_unix: u64,
)
    requires
        params.is_valid(),
        param_change_result(params, next_param_change_at_unix, param, direction, now_unix) is Ok,
    ensures
        param_change_result(params, next_param_change_at_unix, param, direction, now_unix)->Ok_0.params.is_valid(),
{
}

/// An accepted change moves exactly the chosen level by exactly one step and leaves the other
/// two levels as they were.
pub proof fn lemma_change_is_one_step(
    params: PlayerParams,
    next_param_change_at_unix: u64,
    param: ParamKind,
    direction: ParamDirection,
    now_unix: u64,
    other: ParamKind,
)
    requires
        param_change_result(params, next_param_change_at_unix, param, direction, now_unix) is Ok,
    ensures
        ({
            let after = param_change_result(params, next_param_change_at_unix, param, direction, now_unix)->Ok_0.params;
            &&& direction == ParamDirection::Increase ==> after.level(param) == params.level(param) + 1
            &&& direction == ParamDirection::Decrease ==> after.level(param) + 1 == params.level(param)
            &&& other != param ==> after.level(other) == params.level(other)
        }),
{
}

/// After an accepted change at `now_unix`, every request before the cooldown ends is refused
/// with the end of the cooldown.
pub proof fn lemma_cooldown_blocks_follow_up(
    params: PlayerParams,
    next_param_change_at_unix: u64,
    param: ParamKind,
    direction: ParamDirection,
    now_unix: u64,
    later_param: ParamKind,
    later_direction: ParamDirection,
    later_unix: u64,
)
    requires
        param_change_result(params, next_param_change_at_unix, param, direction, now_unix) is Ok,
        now_unix + PARAM_CHANGE_COOLDOWN_SECS <= u64::MAX,
        later_unix < now_unix + PARAM_CHANGE_COOLDOWN_SECS,
    ensures
        ({
            let m = param_change_result(params, next_param_change_at_unix, param, direction, now_unix)->Ok_0;
            &&& m.next_param_change_at_unix == now_unix + PARAM_CHANGE_COOLDOWN_SECS
            &&& param_change_result(m.params, m.next_param_change_at_unix, later_param, later_direction, later_unix)
                == Err::<ParamMutation, ParamUpdateError>(ParamUpdateError::CooldownActive {
                    next_allowed_at_unix: m.next_param_change_at_unix,
                })
        }),
{
}

/// Once the cooldown has passed, a change in the opposite direction undoes an accepted change.
pub proof fn lemma_opposite_change_restores(
    params: PlayerParams,
    next_param_change_at_unix: u64,
    param: ParamKind,
    direction: ParamDirection,
    now_unix: u64,
    later_unix: u64,
)
    requires
        params.is_valid(),
        param_change_result(params, next_param_change_at_unix, param, direction, now_unix) is Ok,
        now_unix + PARAM_CHANGE_COOLDOWN_SECS <= later_unix,
        later_unix + PARAM_CHANGE_COOLDOWN_SECS <= u64::MAX,
    ensures
        ({
            let m = param_change_result(params, next_param_change_at_unix, param, direction, now_unix)->Ok_0;
            let back = match direction {
                ParamDirection::Increase => ParamDirection::Decrease,
                ParamDirection::Decrease => ParamDirection::Increase,
            };
            param_change_result(m.params, m.next_param_change_at_unix, param, back, later_unix)
                == Ok::<ParamMutation, ParamUpdateError>(ParamMutation {
                    params,
                    next_param_change_at_unix: (later_unix + PARAM_CHANGE_COOLDOWN_SECS) as u64,
                })
        }),
{
}

/// The level a parameter currently has, as a number.
pub open spec fn current_level(params: PlayerParams, param: ParamKind) -> int {
    match param {
        ParamKind::Gravity => params.gravity as int,
        ParamKind::Friction => params.friction as int,
        ParamKind::Speed => params.speed as int,
    }
}

/// The level one step from the current one in `direction`, as a number (no saturation).
pub open spec fn target_level(params: PlayerParams, param: ParamKind, direction: ParamDirection) -> int {
    match direction {
        ParamDirection::Increase => current_level(params, param) + 1,
        ParamDirection::Decrease => current_level(params, param) - 1,
    }
}

/// The highest level a parameter may take: friction is off or on, gravity and speed have
/// three stages.
pub open spec fn highest_level(param: ParamKind) -> int {
    match param {
        ParamKind::Friction => PARAM_MAX_LEVEL_FRICTION as int,
        _ => PARAM_MAX_LEVEL_THREE_STAGE as int,
    }
}

/// Every level within bounds is reachable: with no cooldown running, a change whose target
/// level (one step up or down) lies between the lowest and the highest level is accepted; it
/// moves exactly that parameter to the target and starts a cooldown at `now_unix`.
pub proof fn lemma_change_within_bounds_is_accepted(
    params: PlayerParams,
    next_param_change_at_unix: u64,
    param: ParamKind,
    direction: ParamDirection,
    now_unix: u64,
)
    requires
        next_param_change_at_unix <= now_unix,
        PARAM_MIN_LEVEL <= target_level(params, param, direction) <= highest_level(param),
        now_unix + PARAM_CHANGE_COOLDOWN_SECS <= u64::MAX,
    ensures
        param_change_result(params, next_param_change_at_unix, param, direction, now_unix) is Ok,
        ({
            let m = param_change_result(params, next_param_change_at_unix, param, direction, now_unix)->Ok_0;
            let t = target_level(params, param, direction);
            &&& m.next_param_change_at_unix == now_unix + PARAM_CHANGE_COOLDOWN_SECS
            &&& m.params.gravity == (if param == ParamKind::Gravity { t } else { params.gravity as int })
            &&& m.params.friction == (if param == ParamKind::Friction { t } else { params.friction as int })
            &&& m.params.speed == (if param == ParamKind::Speed { t } else { params.speed as int })
        }),
{
}

/// Levels outside the bounds are never reached: with no cooldown running, a change whose target
/// level lies below the lowest or above the highest level is refused as out of range; while a
/// cooldown runs, every change is refused with the cooldown's end.
pub proof fn lemma_change_refusals(
    params: PlayerParams,
    next_param_change_at_unix: u64,
    param: ParamKind,
    direction: ParamDirection,
    now_unix: u64,
)
    ensures
        now_unix < next_param_change_at_unix ==> param_change_result(params, next_param_change_at_unix, param, direction, now_unix)
            == Err::<ParamMutation, ParamUpdateError>(ParamUpdateError::CooldownActive {
                next_allowed_at_unix: next_param_change_at_unix,
            }),
        next_param_change_at_unix <= now_unix && (target_level(params, param, direction)
            < PARAM_MIN_LEVEL || target_level(params, param, direction) > highest_level(param))
            ==> param_change_result(params, next_param_change_at_unix, param, direction, now_unix)
            == Err::<ParamMutation, ParamUpdateError>(ParamUpdateError::OutOfRange),
{
}

} // verus!
