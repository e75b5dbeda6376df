//! What a player's entity action changes.
use vstd::prelude::*;

use crate::protocol::packets::EntityActionKind;

verus! {

/// The movement state of a player that entity actions change.
#[derive(Clone, Copy, Debug, PartialEq, Eq, Structural)]
pub struct MovementState {
    pub sneaking: bool,
    pub sprinting: bool,
}

/// What the game does for an entity action.
#[derive(Clone, Copy, Debug, PartialEq, Eq, Structural)]
pub enum ActionEffect {
    /// Nothing changes.
    Nothing,
    /// The player starts (`true`) or stops sneaking: a sneak event fires.
    Sneak(bool),
    /// The player starts (`true`) or stops sprinting: a sprint event fires
    /// and the sprinting flag of its metadata is set accordingly.
    Sprint(bool),
    /// The player leaves its bed.
    LeaveBed,
}

/// The effect of an entity action on a player in the given state: sneaking
/// and sprinting change, with their events, only when they differ from the
/// current state.
pub fn entity_action_effect(action: EntityActionKind, state: MovementState) -> (r: (
    ActionEffect,
    MovementState,
))
    ensures
        r == spec_effect(action, state),
{
    match action {
        EntityActionKind::StartSneaking => {
            if !state.sneaking {
                return (ActionEffect::Sneak(true), MovementState { sneaking: true, ..state });
            }
            (ActionEffect::Nothing, state)
        },
        EntityActionKind::StopSneaking => {
            if state.sneaking {
                return (ActionEffect::Sneak(false), MovementState { sneaking: false, ..state });
            }
            (ActionEffect::Nothing, state)
        },
        EntityActionKind::LeaveBed => (ActionEffect::LeaveBed, state),
        EntityActionKind::StartSprinting | EntityActionKind::StopSprinting => {
            let start_sprinting = match action {
                EntityActionKind::StartSprinting => true,
                _ => false,
            };
            if state.sprinting != start_sprinting {
                return (
                    ActionEffect::Sprint(start_sprinting),
                    MovementState { sprinting: start_sprinting, ..state },
                );
            }
            (ActionEffect::Nothing, state)
        },
    }
}

/// Repeating an action changes nothing the second time.
pub proof fn law_entity_action_idempotent(action: EntityActionKind, state: MovementState)
    requires
        action != EntityActionKind::LeaveBed,
    ensures
        ({
            let after = spec_effect(action, state).1;
            spec_effect(action, after) == (ActionEffect::Nothing, after)
        }),
{
}

/// The effect and state that `entity_action_effect` gives.
pub open spec fn spec_effect(action: EntityActionKind, state: MovementState) -> (ActionEffect, MovementState) {
    match action {
        EntityActionKind::StartSneaking => if state.sneaking {
            (ActionEffect::Nothing, state)
        } else {
            (ActionEffect::Sneak(true), MovementState { sneaking: true, ..state })
        },
        EntityActionKind::StopSneaking => if state.sneaking {
            (ActionEffect::Sneak(false), MovementState { sneaking: false, ..state })
        } else {
            (ActionEffect::Nothing, state)
        },
        EntityActionKind::LeaveBed => (ActionEffect::LeaveBed, state),
        EntityActionKind::StartSprinting => if state.sprinting {
            (ActionEffect::Nothing, state)
        } else {
            (ActionEffect::Sprint(true), MovementState { sprinting: true, ..state })
        },
        EntityActionKind::StopSprinting => if state.sprinting {
            (ActionEffect::Sprint(false), MovementState { sprinting: false, ..state })
        } else {
            (ActionEffect::Nothing, state)
        },
    }
}

} // verus!
