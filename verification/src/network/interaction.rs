//! What the server does when a player digs or places a block: the
//! decisions of the digging and block placement handlers, on the values the
//! game looks up for them.
use vstd::prelude::*;
use vstd::utf8::*;

use crate::item::stack::{ItemStack, ItemStackType};
use crate::protocol::packets::DiggingStatus;
use crate::world::BlockState;

verus! {

/// What the game does for a digging packet.
#[derive(Clone, Copy, Debug, PartialEq, Eq, Structural)]
pub enum DiggingAction {
    /// Nothing happens.
    Nothing,
    /// The dig is refused: the player is sent the block back.
    Resync(BlockState),
    /// The block breaks. In survival (`drops`) its drops spawn, the held
    /// item is used on it when it is an item (`use_held_item`), and the
    /// player gets the inventory again; the break effect goes to the nearby
    /// players, and to the digger too when `notify_digger`.
    Break { drops: bool, use_held_item: bool, notify_digger: bool },
    /// One item of the held stack is dropped.
    DropHeldItem,
    /// The item in use stops being used.
    StopUsing,
}

/// Whether the held stack is a stack of an item (not of a block).
pub open spec fn holds_item(held: Option<ItemStack>) -> bool {
    held matches Some(s) && s.kind() is Item
}

/// The action for a dig of the block `block` (`None` where no chunk holds
/// it) whose kind has `hardness` (`None` for an unknown kind). `in_reach`:
/// the block is inside the world border and nearer than six blocks.
/// Starting to dig breaks the block at once in creative mode or where its
/// hardness is 1; finishing a dig breaks it. Out of reach, the player gets
/// the block back.
pub open spec fn spec_digging_action(
    status: DiggingStatus,
    in_reach: bool,
    block: Option<BlockState>,
    creative: bool,
    survival: bool,
    hardness: Option<i32>,
    held: Option<ItemStack>,
) -> DiggingAction {
    match status {
        DiggingStatus::StartedDigging => if !in_reach {
            match block {
                Some(b) => DiggingAction::Resync(b),
                None => DiggingAction::Nothing,
            }
        } else if block is None || hardness is None {
            DiggingAction::Nothing
        } else if creative || hardness == Some(1i32) {
            DiggingAction::Break {
                drops: !creative,
                use_held_item: !creative && holds_item(held),
                notify_digger: creative,
            }
        } else {
            DiggingAction::Nothing
        },
        DiggingStatus::FinishedDigging => if !in_reach {
            match block {
                Some(b) => DiggingAction::Resync(b),
                None => DiggingAction::Nothing,
            }
        } else if block is None || hardness is None {
            DiggingAction::Nothing
        } else {
            DiggingAction::Break {
                drops: survival,
                use_held_item: survival && holds_item(held),
                notify_digger: !survival,
            }
        },
        DiggingStatus::DropItem => DiggingAction::DropHeldItem,
        DiggingStatus::ShootArrow => DiggingAction::StopUsing,
    }
}

/// Decides what a digging packet does; see `spec_digging_action`.
/// `creative` and `survival` tell the player's game mode.
pub fn digging_action(
    status: DiggingStatus,
    in_reach: bool,
    block: Option<BlockState>,
    creative: bool,
    survival: bool,
    hardness: Option<i32>,
    held: Option<ItemStack>,
) -> (r: DiggingAction)
    ensures
        r == spec_digging_action(status, in_reach, block, creative, survival, hardness, held),
{
    let held_item = match held {
        Some(s) => match s.item() {
            ItemStackType::Item(_) => true,
            ItemStackType::Block(_) => false,
        },
        None => false,
    };
    match status {
        DiggingStatus::StartedDigging | DiggingStatus::FinishedDigging => {
            if !in_reach {
                return match block {
                    Some(b) => DiggingAction::Resync(b),
                    None => DiggingAction::Nothing,
                };
            }
            if block.is_none() || hardness.is_none() {
                return DiggingAction::Nothing;
            }
            match status {
                DiggingStatus::StartedDigging => {
                    let one = match hardness {
                        Some(h) => h == 1,
                        None => false,
                    };
                    if creative || one {
                        DiggingAction::Break {
                            drops: !creative,
                            use_held_item: !creative && held_item,
                            notify_digger: creative,
                        }
                    } else {
                        DiggingAction::Nothing
                    }
                },
                _ => DiggingAction::Break {
                    drops: survival,
                    use_held_item: survival && held_item,
                    notify_digger: !survival,
                },
            }
        },
        DiggingStatus::DropItem => DiggingAction::DropHeldItem,
        DiggingStatus::ShootArrow => DiggingAction::StopUsing,
    }
}


/// How a block placement packet begins.
#[derive(Clone, Copy, Debug, PartialEq, Eq, Structural)]
pub enum PlacementStart {
    /// A click into the air with an item: the item is used on nothing.
    UseItemInAir,
    /// Nothing happens.
    Nothing,
    /// The position next to the clicked face lies in no loaded chunk: the
    /// player is disconnected ("Attempted to interact with an unloaded
    /// block!").
    Disconnect,
    /// The clicked block is asked to react first; on success the packet is
    /// done, else `placement_action` decides.
    Interact,
    /// `placement_action` decides.
    Place,
}

/// How a placement begins: with no face (`face_invalid`) only an item in
/// the packet is used; else the target position must be loaded, and a
/// clicked block of a known kind (`clicked_known`) reacts first.
pub open spec fn spec_placement_start(
    face_invalid: bool,
    packet_item: Option<ItemStack>,
    target_loaded: bool,
    clicked_known: bool,
) -> PlacementStart {
    if face_invalid {
        if holds_item(packet_item) {
            PlacementStart::UseItemInAir
        } else {
            PlacementStart::Nothing
        }
    } else if !target_loaded {
        PlacementStart::Disconnect
    } else if clicked_known {
        PlacementStart::Interact
    } else {
        PlacementStart::Place
    }
}

/// Decides how a placement begins; see `spec_placement_start`.
pub fn placement_start(
    face_invalid: bool,
    packet_item: Option<ItemStack>,
    target_loaded: bool,
    clicked_known: bool,
) -> (r: PlacementStart)
    ensures
        r == spec_placement_start(face_invalid, packet_item, target_loaded, clicked_known),
{
    if face_invalid {
        let item = match packet_item {
            Some(s) => match s.item() {
                ItemStackType::Item(_) => true,
                ItemStackType::Block(_) => false,
            },
            None => false,
        };
        if item {
            PlacementStart::UseItemInAir
        } else {
            PlacementStart::Nothing
        }
    } else if !target_loaded {
        PlacementStart::Disconnect
    } else if clicked_known {
        PlacementStart::Interact
    } else {
        PlacementStart::Place
    }
}

/// What a block placement does once the clicked block has not taken it.
#[derive(Clone, Copy, Debug, PartialEq, Eq, Structural)]
pub enum PlacementAction {
    /// The held item is used on the clicked block.
    UseItemOnBlock,
    /// `block` is set at the target position and scheduled for an update;
    /// with `take_one` (survival) one item leaves the held stack and the
    /// player gets the inventory again.
    PlaceBlock { block: BlockState, take_one: bool },
    /// The player is sent the target block back.
    ResyncTarget(BlockState),
    /// The player is sent the inventory back.
    ResyncInventory,
}

/// Whether the stack a packet names is the held one: the same, or the same
/// with one item fewer.
pub open spec fn names_held(item: ItemStack, held: ItemStack) -> bool {
    held == item || held.with_amount((held.amount() - 1) as i8) == item
}

/// The block a stack of a block kind places: the kind's id, the stack's
/// damage as metadata, no block light and full sky light.
pub open spec fn placed_block(item: ItemStack) -> BlockState {
    BlockState {
        b_type: (item.kind()->Block_0).id,
        b_metadata: item.meta() as u8,
        b_light: 0,
        b_skylight: 15,
    }
}

/// The action of a placement of the packet's stack, the player holding
/// `held`, next to the clicked face at a position holding `target`. A
/// stack of an item is used on the block. A stack of a block is placed
/// when the target is inside the border and within reach (`in_reach`),
/// the target block may be placed over, the block may stand on the clicked
/// one, the block kind places it (`placed`) and no entity is in its way
/// (`collides`); else the target block is sent back. A packet whose stack
/// is not the held one, or that names no stack, gets the inventory sent
/// back.
pub open spec fn spec_placement_action(
    packet_item: Option<ItemStack>,
    held: Option<ItemStack>,
    in_reach: bool,
    target: BlockState,
    can_place_over: bool,
    can_place_on: bool,
    placed: bool,
    collides: bool,
    survival: bool,
) -> PlacementAction {
    match (packet_item, held) {
        (Some(item), Some(h)) => if names_held(item, h) {
            match item.kind() {
                ItemStackType::Item(_) => PlacementAction::UseItemOnBlock,
                ItemStackType::Block(_) => if in_reach && can_place_over && can_place_on && placed
                    && !collides {
                    PlacementAction::PlaceBlock { block: placed_block(item), take_one: survival }
                } else {
                    PlacementAction::ResyncTarget(target)
                },
            }
        } else {
            PlacementAction::ResyncInventory
        },
        _ => PlacementAction::ResyncInventory,
    }
}

/// Decides what a placement does; see `spec_placement_action`.
pub fn placement_action(
    packet_item: Option<ItemStack>,
    held: Option<ItemStack>,
    in_reach: bool,
    target: BlockState,
    can_place_over: bool,
    can_place_on: bool,
    placed: bool,
    collides: bool,
    survival: bool,
) -> (r: PlacementAction)
    requires
        held matches Some(h) ==> h.amount() >= 1,
    ensures
        r == spec_placement_action(
            packet_item,
            held,
            in_reach,
            target,
            can_place_over,
            can_place_on,
            placed,
            collides,
            survival,
        ),
{
    let (item, h) = match (packet_item, held) {
        (Some(item), Some(h)) => (item, h),
        _ => {
            return PlacementAction::ResyncInventory;
        },
    };
    let (rest, _) = h.take(1);
    let rest = rest.unwrap();
    if !(h == item || rest == item) {
        return PlacementAction::ResyncInventory;
    }
    match item.item() {
        ItemStackType::Item(_) => PlacementAction::UseItemOnBlock,
        ItemStackType::Block(b) => {
            if in_reach && can_place_over && can_place_on && placed && !collides {
                let block = BlockState {
                    b_type: b.id,
                    b_metadata: #[verifier::truncate] (item.damage_taken() as u8),
                    b_light: 0,
                    b_skylight: 15,
                };
                PlacementAction::PlaceBlock { block, take_one: survival }
            } else {
                PlacementAction::ResyncTarget(target)
            }
        },
    }
}

/// The most bytes a line of a sign holds.
pub const SIGN_LINE_BYTES: usize = 15;

/// Whether the four lines of a sign update each take at most
/// `SIGN_LINE_BYTES` bytes; a longer line has the update refused ("Text
/// too long!").
pub fn sign_text_fits(text1: &str, text2: &str, text3: &str, text4: &str) -> (r: bool)
    ensures
        r == (encode_utf8(text1@).len() <= SIGN_LINE_BYTES && encode_utf8(text2@).len()
            <= SIGN_LINE_BYTES && encode_utf8(text3@).len() <= SIGN_LINE_BYTES && encode_utf8(
            text4@,
        ).len() <= SIGN_LINE_BYTES),
{
    let b1 = text1.as_bytes();
    let b2 = text2.as_bytes();
    let b3 = text3.as_bytes();
    let b4 = text4.as_bytes();
    b1.len() <= SIGN_LINE_BYTES && b2.len() <= SIGN_LINE_BYTES && b3.len() <= SIGN_LINE_BYTES
        && b4.len() <= SIGN_LINE_BYTES
}

/// A dig that breaks a block, finished in survival mode, spawns the drops
/// and uses the held stack on the block exactly when it is a stack of an
/// item, and tells every nearby player but the digger; in any other game
/// mode no drops spawn, no item is used and the digger is told too.
pub proof fn law_finished_dig_uses_the_held_item(
    in_reach: bool,
    block: BlockState,
    creative: bool,
    survival: bool,
    hardness: i32,
    held: Option<ItemStack>,
)
    ensures
        spec_digging_action(
            DiggingStatus::FinishedDigging,
            in_reach,
            Some(block),
            creative,
            survival,
            Some(hardness),
            held,
        ) == if in_reach {
            DiggingAction::Break {
                drops: survival,
                use_held_item: survival && (held matches Some(s) && s.kind() is Item),
                notify_digger: !survival,
            }
        } else {
            DiggingAction::Resync(block)
        },
{
}

/// Whenever a dig breaks a block, the held stack is used exactly when drops
/// spawn and the stack is a stack of an item, and the digger is told of the
/// break exactly when no drops spawn.
pub proof fn law_dig_uses_held_item_with_drops(
    status: DiggingStatus,
    in_reach: bool,
    block: Option<BlockState>,
    creative: bool,
    survival: bool,
    hardness: Option<i32>,
    held: Option<ItemStack>,
)
    ensures
        spec_digging_action(status, in_reach, block, creative, survival, hardness, held) matches DiggingAction::Break {
            drops,
            use_held_item,
            notify_digger,
        } ==> use_held_item == (drops && (held matches Some(s) && s.kind() is Item)) && notify_digger
            == !drops,
{
}

/// A placement that places a block takes one item from the held stack
/// exactly when the player is in survival mode, and places the block of
/// the named stack: its block kind's id, its damage as metadata.
pub proof fn law_placing_takes_an_item_only_in_survival(
    packet_item: Option<ItemStack>,
    held: Option<ItemStack>,
    in_reach: bool,
    target: BlockState,
    can_place_over: bool,
    can_place_on: bool,
    placed: bool,
    collides: bool,
    survival: bool,
)
    ensures
        spec_placement_action(
            packet_item,
            held,
            in_reach,
            target,
            can_place_over,
            can_place_on,
            placed,
            collides,
            survival,
        ) matches PlacementAction::PlaceBlock { block, take_one } ==> (take_one == survival && (
        packet_item matches Some(item) && (item.kind() matches ItemStackType::Block(b) && block.b_type
            == b.id && block.b_metadata == item.meta() as u8))),
{
}

/// Starting to dig a block in reach breaks it at once exactly in creative
/// mode or where its hardness is 1, with drops and the held item's use only
/// outside creative mode; out of reach the player gets the block back.
/// Dropping an item drops one from the held stack, and shooting stops the
/// item in use.
pub proof fn law_started_dig_breaks_soft_blocks(
    in_reach: bool,
    block: BlockState,
    creative: bool,
    survival: bool,
    hardness: i32,
    held: Option<ItemStack>,
)
    ensures
        spec_digging_action(
            DiggingStatus::StartedDigging,
            in_reach,
            Some(block),
            creative,
            survival,
            Some(hardness),
            held,
        ) == if !in_reach {
            DiggingAction::Resync(block)
        } else if creative || hardness == 1 {
            DiggingAction::Break {
                drops: !creative,
                use_held_item: !creative && (held matches Some(s) && s.kind() is Item),
                notify_digger: creative,
            }
        } else {
            DiggingAction::Nothing
        },
        spec_digging_action(DiggingStatus::DropItem, in_reach, Some(block), creative, survival, Some(hardness), held)
            == DiggingAction::DropHeldItem,
        spec_digging_action(DiggingStatus::ShootArrow, in_reach, Some(block), creative, survival, Some(hardness), held)
            == DiggingAction::StopUsing,
{
}

/// A placement of a block stack that names the held stack places the block
/// exactly when the target is in reach, may be placed over, the block may
/// stand there, its kind places it and nothing is in the way; otherwise the
/// player gets the target block back.
pub proof fn law_block_placed_exactly_when_allowed(
    item: ItemStack,
    held: ItemStack,
    in_reach: bool,
    target: BlockState,
    can_place_over: bool,
    can_place_on: bool,
    placed: bool,
    collides: bool,
    survival: bool,
)
    requires
        held == item,
        item.kind() is Block,
    ensures
        ({
            let r = spec_placement_action(
                Some(item),
                Some(held),
                in_reach,
                target,
                can_place_over,
                can_place_on,
                placed,
                collides,
                survival,
            );
            if in_reach && can_place_over && can_place_on && placed && !collides {
                r is PlaceBlock
            } else {
                r == PlacementAction::ResyncTarget(target)
            }
        }),
{
}

} // verus!
