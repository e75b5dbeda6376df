//! What a creative-mode inventory action does.
use vstd::prelude::*;

use crate::item::registry::ItemRegistry;
use crate::item::stack::ItemStack;
use crate::protocol::client::CreativeInventoryAction;

verus! {

/// What the game does for a creative inventory action.
#[derive(Debug)]
pub enum CreativeAction {
    /// Put the item (or nothing) in the slot of the player's own window.
    SetSlot { slot: i16, item: Option<ItemStack> },
    /// Drop the item in front of the player.
    Drop(ItemStack),
    /// Nothing to do.
    Nothing,
}

/// Why a creative inventory action was refused.
#[derive(Debug)]
pub enum CreativeError {
    /// The player is not in creative mode.
    NotCreative,
}

/// The item that a creative inventory action names: none for id -1; for
/// an id above 255 a stack of the item kind with that id, if there is one;
/// else a stack of the block kind whose id is the low byte of it, if there
/// is one. Unknown ids give no item.
pub open spec fn clicked_item(
    registry: &ItemRegistry,
    item_id: i16,
    quantity: i16,
) -> Option<(crate::item::stack::ItemStackType, i8)> {
    if item_id == -1 {
        None
    } else if item_id > 255 {
        match registry.spec_get_item(item_id) {
            Some(i) => Some((ItemStack::kind_for_id(registry, i.id), quantity as i8)),
            None => None,
        }
    } else {
        match registry.spec_get_block(item_id as u8) {
            Some(b) => Some((ItemStack::kind_for_id(registry, b.id as i16), quantity as i8)),
            None => None,
        }
    }
}

/// Whether `item` is the stack that the action names: of the named kind
/// and quantity, with the action's damage value.
pub open spec fn names_stack(
    registry: &ItemRegistry,
    packet: &CreativeInventoryAction,
    item: Option<ItemStack>,
) -> bool {
    match clicked_item(registry, packet.item_id, packet.quantity) {
        None => item is None,
        Some((kind, count)) => item matches Some(s) && s.kind() == kind && s.amount() == count
            && s.meta() == packet.meta,
    }
}

/// The stack that a creative inventory action names, if any.
pub fn clicked_stack(registry: &ItemRegistry, packet: &CreativeInventoryAction) -> (r: Option<ItemStack>)
    ensures
        names_stack(registry, packet, r),
{
    #[verifier::truncate]
    let quantity: i8 = packet.quantity as i8;
    if packet.item_id == -1 {
        None
    } else if packet.item_id > 255 {
        proof {
            registry.lemma_found_kinds_have_their_id(packet.item_id, 0);
        }
        match registry.get_item(packet.item_id) {
            Some(i) => Some(ItemStack::new(registry, i.id, quantity, packet.meta)),
            None => None,
        }
    } else {
        #[verifier::truncate]
        let block_id: u8 = packet.item_id as u8;
        proof {
            registry.lemma_found_kinds_have_their_id(0, block_id);
        }
        match registry.get_block(block_id) {
            Some(b) => {
                proof {
                    assert((b.id as i16) as u8 == b.id);
                }
                Some(ItemStack::new(registry, b.id as i16, quantity, packet.meta))
            },
            None => None,
        }
    }
}

/// What a creative inventory action does: refused outside creative mode;
/// for slot -1 the named item is dropped; for any other slot the slot is
/// set to it.
pub fn creative_inventory_action(
    registry: &ItemRegistry,
    packet: &CreativeInventoryAction,
    creative: bool,
) -> (r: Result<CreativeAction, CreativeError>)
    ensures
        !creative ==> r matches Err(CreativeError::NotCreative),
        creative && packet.slot_id != -1 ==> (r matches Ok(CreativeAction::SetSlot { slot, item })
            && slot == packet.slot_id && names_stack(registry, packet, item)),
        creative && packet.slot_id == -1 && clicked_item(registry, packet.item_id, packet.quantity)
            is Some ==> (r matches Ok(CreativeAction::Drop(s)) && names_stack(
            registry,
            packet,
            Some(s),
        )),
        creative && packet.slot_id == -1 && clicked_item(registry, packet.item_id, packet.quantity)
            is None ==> r matches Ok(CreativeAction::Nothing),
{
    let clicked_item = clicked_stack(registry, packet);
    if !creative {
        return Err(CreativeError::NotCreative);
    }
    if packet.slot_id != -1 {
        Ok(CreativeAction::SetSlot { slot: packet.slot_id, item: clicked_item })
    } else if let Some(item) = clicked_item {
        Ok(CreativeAction::Drop(item))
    } else {
        Ok(CreativeAction::Nothing)
    }
}

} // verus!
