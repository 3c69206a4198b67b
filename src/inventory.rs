//! The hotbar inventory, its input handling, and placing and breaking blocks.
use vstd::prelude::*;
use crate::collision::{get_block_aabb, Aabb, Vec3};
use crate::voxel::{BlockID, VoxelGrid, GRID_LIMIT};

verus! {

/// Number of hotbar slots.
pub const HOTBAR_SIZE: usize = 9;

#[derive(Clone, Copy, Debug, PartialEq, Eq, Structural)]
pub struct ItemStack {
    pub item: BlockID,
    pub amount: u32,
}

impl ItemStack {
    pub fn new(amount: u32, block: BlockID) -> (r: ItemStack)
        ensures
            r == (ItemStack { item: block, amount }),
    {
        ItemStack { item: block, amount }
    }
}

pub struct Inventory {
    pub slots: Vec<Option<ItemStack>>,
    pub selected_hotbar_slot: usize,
}

impl Inventory {
    pub open spec fn wf(&self) -> bool {
        &&& self.slots@.len() == HOTBAR_SIZE
        &&& self.selected_hotbar_slot < HOTBAR_SIZE
    }

    /// An empty hotbar with the first slot selected.
    pub fn new() -> (r: Inventory)
        ensures
            r.wf(),
            r.selected_hotbar_slot == 0,
            forall|i: int| 0 <= i < HOTBAR_SIZE ==> r.slots@[i] is None,
    {
        let mut slots: Vec<Option<ItemStack>> = Vec::new();
        let mut i: usize = 0;
        while i < HOTBAR_SIZE
            invariant
                i <= HOTBAR_SIZE,
                slots@.len() == i,
                forall|j: int| 0 <= j < i ==> slots@[j] is None,
            decreases HOTBAR_SIZE - i,
        {
            slots.push(None);
            i = i + 1;
        }
        Inventory { slots, selected_hotbar_slot: 0 }
    }

    pub fn select_item(&mut self, index: usize)
        requires
            old(self).wf(),
            index < HOTBAR_SIZE,
        ensures
            final(self).wf(),
            final(self).slots == old(self).slots,
            final(self).selected_hotbar_slot == index,
    {
        self.selected_hotbar_slot = index;
    }

    /// Selects the slot after the selected one, wrapping around.
    pub fn select_next_item(&mut self)
        requires
            old(self).wf(),
        ensures
            final(self).wf(),
            final(self).slots == old(self).slots,
            final(self).selected_hotbar_slot == (old(self).selected_hotbar_slot + 1) % (HOTBAR_SIZE as int),
    {
        self.selected_hotbar_slot = (self.selected_hotbar_slot + 1) % HOTBAR_SIZE;
    }

    /// Selects the slot before the selected one, wrapping around.
    pub fn select_previous_item(&mut self)
        requires
            old(self).wf(),
        ensures
            final(self).wf(),
            final(self).slots == old(self).slots,
            final(self).selected_hotbar_slot == (old(self).selected_hotbar_slot + HOTBAR_SIZE - 1) % (
            HOTBAR_SIZE as int),
    {
        self.selected_hotbar_slot = (self.selected_hotbar_slot + HOTBAR_SIZE - 1) % HOTBAR_SIZE;
    }

    /// The block in the selected slot, if any.
    pub fn get_selected_item(&self) -> (r: Option<BlockID>)
        requires
            self.wf(),
        ensures
            r == match self.slots@[self.selected_hotbar_slot as int] {
                Some(stack) => Some(stack.item),
                None => None,
            },
    {
        match self.slots[self.selected_hotbar_slot] {
            Some(stack) => Some(stack.item),
            None => None,
        }
    }
}

/// An input event that the inventory reacts to.
#[derive(Clone, Copy, Debug, PartialEq, Eq, Structural)]
pub enum InventoryEvent {
    /// A scroll; `up` when the scroll offset is positive.
    Scroll { up: bool },
    /// The pick-block button, which puts the targeted block in the selected slot.
    PickBlock,
    /// A number key choosing a hotbar slot.
    SelectSlot(usize),
}

/// What `event` makes of `inv`, and whether the item in hand changed.
pub open spec fn handled(
    inv_slots: Seq<Option<ItemStack>>,
    selected: int,
    event: InventoryEvent,
    targeted: Option<BlockID>,
) -> (Seq<Option<ItemStack>>, int, bool) {
    match event {
        InventoryEvent::Scroll { up } => if up {
            (inv_slots, (selected + HOTBAR_SIZE - 1) % (HOTBAR_SIZE as int), true)
        } else {
            (inv_slots, (selected + 1) % (HOTBAR_SIZE as int), true)
        },
        InventoryEvent::PickBlock => match targeted {
            Some(block) => (inv_slots.update(selected, Some(ItemStack { item: block, amount: 1 })), selected, true),
            None => (inv_slots, selected, false),
        },
        InventoryEvent::SelectSlot(index) => if index < HOTBAR_SIZE && index != selected {
            (inv_slots, index as int, true)
        } else {
            (inv_slots, selected, false)
        },
    }
}

/// The block at the targeted voxel, if a voxel is targeted and the grid holds it.
pub open spec fn targeted_block(world: VoxelGrid, targeted: Option<(i64, i64, i64)>) -> Option<BlockID> {
    match targeted {
        Some((x, y, z)) => if world.in_grid(x as int, y as int, z as int) {
            Some(world.block(x as int, y as int, z as int))
        } else {
            None
        },
        None => None,
    }
}

pub struct InventoryHandleInput;

impl InventoryHandleInput {
    /// Selects hotbar slot `index`; true when that changed the selection.
    pub fn select_item(inventory: &mut Inventory, index: usize) -> (changed: bool)
        requires
            old(inventory).wf(),
            index < HOTBAR_SIZE,
        ensures
            final(inventory).wf(),
            final(inventory).slots == old(inventory).slots,
            final(inventory).selected_hotbar_slot == index,
            changed == (old(inventory).selected_hotbar_slot != index),
    {
        if inventory.selected_hotbar_slot != index {
            inventory.select_item(index);
            true
        } else {
            false
        }
    }

    /// Applies one event; true when the item in hand may have changed.
    /// `targeted` is the voxel the player looks at, if any.
    pub fn handle_event(
        inventory: &mut Inventory,
        event: InventoryEvent,
        targeted: Option<(i64, i64, i64)>,
        world: &VoxelGrid,
    ) -> (changed: bool)
        requires
            old(inventory).wf(),
            world.wf(),
        ensures
            final(inventory).wf(),
            (final(inventory).slots@, final(inventory).selected_hotbar_slot as int, changed) == handled(
                old(inventory).slots@,
                old(inventory).selected_hotbar_slot as int,
                event,
                targeted_block(*world, targeted),
            ),
    {
        match event {
            InventoryEvent::Scroll { up } => {
                if up {
                    inventory.select_previous_item();
                } else {
                    inventory.select_next_item();
                }
                true
            },
            InventoryEvent::PickBlock => {
                let block = match targeted {
                    Some((x, y, z)) => world.get_block(x, y, z),
                    None => None,
                };
                match block {
                    Some(block) => {
                        let slot = inventory.selected_hotbar_slot;
                        inventory.slots.set(slot, Some(ItemStack::new(1, block)));
                        true
                    },
                    None => false,
                }
            },
            InventoryEvent::SelectSlot(index) => {
                if index < HOTBAR_SIZE {
                    Self::select_item(inventory, index)
                } else {
                    false
                }
            },
        }
    }

    /// Applies a frame's events in order; true when any of them may have
    /// changed the item in hand.
    pub fn run(
        inventory: &mut Inventory,
        events: &Vec<InventoryEvent>,
        targeted: Option<(i64, i64, i64)>,
        world: &VoxelGrid,
    ) -> (changed: bool)
        requires
            old(inventory).wf(),
            world.wf(),
        ensures
            final(inventory).wf(),
            ({
                let r = handled_all(
                    old(inventory).slots@,
                    old(inventory).selected_hotbar_slot as int,
                    events@,
                    targeted_block(*world, targeted),
                );
                &&& final(inventory).slots@ == r.0
                &&& final(inventory).selected_hotbar_slot == r.1
                &&& changed == r.2
            }),
    {
        let mut changed = false;
        let mut i: usize = 0;
        while i < events.len()
            invariant
                inventory.wf(),
                world.wf(),
                i <= events@.len(),
                ({
                    let r = handled_all(
                        old(inventory).slots@,
                        old(inventory).selected_hotbar_slot as int,
                        events@.take(i as int),
                        targeted_block(*world, targeted),
                    );
                    &&& inventory.slots@ == r.0
                    &&& inventory.selected_hotbar_slot == r.1
                    &&& changed == r.2
                }),
            decreases events@.len() - i,
        {
            let c = Self::handle_event(inventory, events[i], targeted, world);
            changed = changed || c;
            proof {
                assert(events@.take(i + 1).drop_last() =~= events@.take(i as int));
            }
            i = i + 1;
        }
        proof {
            assert(events@.take(events@.len() as int) =~= events@);
        }
        changed
    }
}

/// What the events make of the inventory in turn, and whether any reported a change.
pub open spec fn handled_all(
    inv_slots: Seq<Option<ItemStack>>,
    selected: int,
    events: Seq<InventoryEvent>,
    targeted: Option<BlockID>,
) -> (Seq<Option<ItemStack>>, int, bool)
    decreases events.len(),
{
    if events.len() == 0 {
        (inv_slots, selected, false)
    } else {
        let (s, k, c) = handled_all(inv_slots, selected, events.drop_last(), targeted);
        let (s2, k2, c2) = handled(s, k, events.last(), targeted);
        (s2, k2, c || c2)
    }
}

/// Removes the block at `(x, y, z)`, returning what stood there; `None`
/// outside the grid, where nothing changes.
pub fn break_block(x: i64, y: i64, z: i64, world: &mut VoxelGrid) -> (r: Option<BlockID>)
    requires
        old(world).wf(),
    ensures
        final(world).wf(),
        final(world).origin() == old(world).origin(),
        final(world).size() == old(world).size(),
        r is None <==> !old(world).in_grid(x as int, y as int, z as int),
        r matches Some(b) ==> b == old(world).block(x as int, y as int, z as int),
        forall|a: int, b: int, c: int|
            #![trigger final(world).block(a, b, c)]
            final(world).block(a, b, c) == if a == x && b == y && c == z {
                BlockID::Air
            } else {
                old(world).block(a, b, c)
            },
{
    let block = world.get_block(x, y, z);
    world.set_block(BlockID::Air, x, y, z);
    proof {
        if !old(world).in_grid(x as int, y as int, z as int) {
            old(world).lemma_air_outside(x as int, y as int, z as int);
        }
    }
    block
}

/// Places the selected item next to voxel `(x, y, z)`, on the side that
/// `normal` points to, unless that voxel would overlap the player's box or no
/// item is selected. True when a block was placed.
pub fn place_block(
    x: i64,
    y: i64,
    z: i64,
    normal: Vec3,
    player_aabb: &Aabb,
    inventory: &Inventory,
    world: &mut VoxelGrid,
) -> (placed: bool)
    requires
        old(world).wf(),
        inventory.wf(),
        -GRID_LIMIT <= x + normal.x < GRID_LIMIT,
        -GRID_LIMIT <= y + normal.y < GRID_LIMIT,
        -GRID_LIMIT <= z + normal.z < GRID_LIMIT,
    ensures
        final(world).wf(),
        final(world).origin() == old(world).origin(),
        final(world).size() == old(world).size(),
        ({
            let (ax, ay, az) = (x + normal.x, y + normal.y, z + normal.z);
            let blocked = player_overlaps_voxel(*player_aabb, ax, ay, az);
            let item = inventory.slots@[inventory.selected_hotbar_slot as int];
            &&& placed == (!blocked && item is Some)
            &&& forall|a: int, b: int, c: int|
                #![trigger final(world).block(a, b, c)]
                final(world).block(a, b, c) == if placed && a == ax && b == ay && c == az && old(world).in_grid(
                    a,
                    b,
                    c,
                ) {
                    item->Some_0.item
                } else {
                    old(world).block(a, b, c)
                }
        }),
{
    let (ax, ay, az) = (x + normal.x, y + normal.y, z + normal.z);
    let adjacent_block_aabb = get_block_aabb(ax, ay, az);
    if !player_aabb.intersects(&adjacent_block_aabb) {
        if let Some(block) = inventory.get_selected_item() {
            world.set_block(block, ax, ay, az);
            return true;
        }
    }
    false
}

/// Whether the box shares interior points with voxel `(x, y, z)`.
pub open spec fn player_overlaps_voxel(b: Aabb, x: int, y: int, z: int) -> bool {
    overlaps_unit_box(b, x * crate::fixed::BLOCK, y * crate::fixed::BLOCK, z * crate::fixed::BLOCK)
}

/// Whether the box shares interior points with the unit voxel whose low corner is `(x, y, z)`.
pub open spec fn overlaps_unit_box(b: Aabb, x: int, y: int, z: int) -> bool {
    &&& b.mins.x < x + crate::fixed::BLOCK && x < b.maxs.x
    &&& b.mins.y < y + crate::fixed::BLOCK && y < b.maxs.y
    &&& b.mins.z < z + crate::fixed::BLOCK && z < b.maxs.z
}

} // verus!
