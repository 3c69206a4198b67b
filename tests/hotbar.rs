use voxel_engine::inventory::{Inventory, InventoryEvent, InventoryHandleInput, ItemStack, HOTBAR_SIZE};
use voxel_engine::voxel::{BlockID, VoxelGrid};

#[test]
fn select_item_reports_change() {
    let mut inv = Inventory::new();
    assert!(InventoryHandleInput::select_item(&mut inv, 4));
    assert_eq!(inv.selected_hotbar_slot, 4);
    assert!(!InventoryHandleInput::select_item(&mut inv, 4));
}

#[test]
fn scrolling_wraps_around() {
    let mut inv = Inventory::new();
    inv.select_previous_item();
    assert_eq!(inv.selected_hotbar_slot, HOTBAR_SIZE - 1);
    inv.select_next_item();
    assert_eq!(inv.selected_hotbar_slot, 0);
}

#[test]
fn events_apply_in_order() {
    let mut w = VoxelGrid::new(0, 0, 0, 4, 4, 4);
    w.set_block(BlockID::OakLog, 1, 2, 3);
    let mut inv = Inventory::new();
    let events = vec![
        InventoryEvent::Scroll { up: false },
        InventoryEvent::SelectSlot(12),
        InventoryEvent::PickBlock,
    ];
    assert!(InventoryHandleInput::run(&mut inv, &events, Some((1, 2, 3)), &w));
    assert_eq!(inv.selected_hotbar_slot, 1);
    assert_eq!(inv.slots[1], Some(ItemStack::new(1, BlockID::OakLog)));
    assert_eq!(inv.get_selected_item(), Some(BlockID::OakLog));
    let quiet = vec![InventoryEvent::SelectSlot(1), InventoryEvent::PickBlock];
    assert!(!InventoryHandleInput::run(&mut inv, &quiet, None, &w));
}
