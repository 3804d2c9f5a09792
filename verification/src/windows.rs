//! The item screens of a session: the player's inventory and the open menu.

use vstd::prelude::*;

use crate::clicks::{self, apply_container_click, apply_inventory_click, Change, PLAYER_INVENTORY_SLOTS};
use crate::component::{self, nbt_plain_text, plain_text};
use crate::items::{ItemRegistry, SlotItem};
use crate::nbt::{self, read_anonymous_nbt, read_nbt, Nbt, NbtModel};
use crate::wire::{self, Reader, Taken};

verus! {

/// A menu that the server opened. Its own slots come first, then the 36 of the
/// player's main inventory and hotbar.
#[derive(Debug)]
pub struct ContainerState {
    pub window_id: u8,
    pub menu_type: i32,
    pub title: String,
    pub slots: Vec<Option<SlotItem>>,
    /// What the items carry besides their kind and count, slot by slot.
    pub slot_metadata: Vec<Option<Nbt>>,
    pub state_id: i32,
    /// Numbers of the menu, such as the progress of a furnace.
    pub properties: [i16; 4],
}

/// The number of the player's slots behind those of a menu.
pub const SHARED_SLOTS: usize = 36;

impl ContainerState {
    /// Rows of a menu of nine columns; shulker boxes have three.
    pub open spec fn rows(&self) -> Option<usize> {
        if 0 <= self.menu_type <= 5 {
            Some((self.menu_type + 1) as usize)
        } else if self.menu_type == 19 {
            Some(3)
        } else {
            None
        }
    }

    pub fn generic_rows(&self) -> (r: Option<usize>)
        ensures
            r == self.rows(),
    {
        if self.menu_type >= 0 && self.menu_type <= 5 {
            Some(self.menu_type as usize + 1)
        } else if self.menu_type == 19 {
            Some(3)
        } else {
            None
        }
    }

    /// The number of the menu's own slots.
    pub open spec fn own_slots(&self) -> int {
        clicks::at_least(self.slots@.len() - SHARED_SLOTS, 0)
    }

    pub fn container_slot_count(&self) -> (r: usize)
        ensures
            r == self.own_slots(),
    {
        if self.slots.len() < SHARED_SLOTS {
            0
        } else {
            self.slots.len() - SHARED_SLOTS
        }
    }

    /// The texture of a furnace-like menu.
    pub open spec fn furnace_name(menu_type: i32) -> Option<Seq<char>> {
        if menu_type == 9 {
            Some("blast_furnace"@)
        } else if menu_type == 13 {
            Some("furnace"@)
        } else if menu_type == 21 {
            Some("smoker"@)
        } else {
            None
        }
    }

    pub fn furnace_texture(&self) -> (r: Option<&'static str>)
        ensures
            match r {
                Some(name) => Self::furnace_name(self.menu_type) == Some(name@),
                None => Self::furnace_name(self.menu_type) is None,
            },
    {
        if self.menu_type == 9 {
            Some("blast_furnace")
        } else if self.menu_type == 13 {
            Some("furnace")
        } else if self.menu_type == 21 {
            Some("smoker")
        } else {
            None
        }
    }

    /// The texture of any other workstation.
    pub open spec fn simple_name(menu_type: i32) -> Option<Seq<char>> {
        if menu_type == 6 {
            Some("dispenser"@)
        } else if menu_type == 7 {
            Some("anvil"@)
        } else if menu_type == 10 {
            Some("brewing_stand"@)
        } else if menu_type == 11 {
            Some("crafting_table"@)
        } else if menu_type == 12 {
            Some("enchanting_table"@)
        } else if menu_type == 14 {
            Some("grindstone"@)
        } else if menu_type == 15 {
            Some("hopper"@)
        } else if menu_type == 17 {
            Some("loom"@)
        } else if menu_type == 20 {
            Some("smithing"@)
        } else if menu_type == 22 {
            Some("cartography_table"@)
        } else if menu_type == 23 {
            Some("stonecutter"@)
        } else {
            None
        }
    }

    pub fn simple_container_texture(&self) -> (r: Option<&'static str>)
        ensures
            match r {
                Some(name) => Self::simple_name(self.menu_type) == Some(name@),
                None => Self::simple_name(self.menu_type) is None,
            },
    {
        if self.menu_type == 6 {
            Some("dispenser")
        } else if self.menu_type == 7 {
            Some("anvil")
        } else if self.menu_type == 10 {
            Some("brewing_stand")
        } else if self.menu_type == 11 {
            Some("crafting_table")
        } else if self.menu_type == 12 {
            Some("enchanting_table")
        } else if self.menu_type == 14 {
            Some("grindstone")
        } else if self.menu_type == 15 {
            Some("hopper")
        } else if self.menu_type == 17 {
            Some("loom")
        } else if self.menu_type == 20 {
            Some("smithing")
        } else if self.menu_type == 22 {
            Some("cartography_table")
        } else if self.menu_type == 23 {
            Some("stonecutter")
        } else {
            None
        }
    }
}

/// A menu has at most one of the three layouts.
pub proof fn layouts_exclude_each_other(menu: &ContainerState)
    ensures
        menu.rows() is Some ==> ContainerState::furnace_name(menu.menu_type) is None
            && ContainerState::simple_name(menu.menu_type) is None,
        ContainerState::furnace_name(menu.menu_type) is Some ==> ContainerState::simple_name(
            menu.menu_type,
        ) is None,
{
}

/// What carried data says.
pub open spec fn meta(value: Option<Nbt>) -> Option<NbtModel> {
    match value {
        Some(tag) => Some(tag@),
        None => None,
    }
}

pub open spec fn metas(values: Seq<Option<Nbt>>) -> Seq<Option<NbtModel>> {
    Seq::new(values.len(), |i: int| meta(values[i]))
}

pub fn copy_meta(value: &Option<Nbt>) -> (r: Option<Nbt>)
    ensures
        meta(r) == meta(*value),
{
    match value {
        Some(tag) => Some(tag.duplicate()),
        None => None,
    }
}

/// The first `n` entries, with nothing in those that are missing.
pub open spec fn resized<T>(items: Seq<Option<T>>, n: nat) -> Seq<Option<T>> {
    Seq::new(
        n,
        |i: int|
            if i < items.len() {
                items[i]
            } else {
                None
            },
    )
}

fn resize_slots(slots: &mut Vec<Option<SlotItem>>, n: usize)
    ensures
        final(slots)@ == resized(old(slots)@, n as nat),
{
    if slots.len() > n {
        slots.truncate(n);
    }
    while slots.len() < n
        invariant
            slots@.len() <= n,
            slots@.len() < n ==> old(slots)@.len() <= slots@.len(),
            slots@ == resized(old(slots)@, slots@.len()),
        decreases n - slots@.len(),
    {
        slots.push(None);
        proof {
            assert(slots@ =~= resized(old(slots)@, slots@.len()));
        }
    }
    proof {
        assert(slots@ =~= resized(old(slots)@, n as nat));
    }
}

fn resize_metas(values: &mut Vec<Option<Nbt>>, n: usize)
    ensures
        metas(final(values)@) == resized(metas(old(values)@), n as nat),
        final(values)@.len() == n,
{
    let ghost before = values@;
    if values.len() > n {
        values.truncate(n);
    }
    while values.len() < n
        invariant
            values@.len() <= n,
            before == old(values)@,
            values@.len() < n ==> before.len() <= values@.len(),
            metas(values@) == resized(metas(before), values@.len()),
        decreases n - values@.len(),
    {
        let ghost shorter = values@;
        values.push(None);
        proof {
            assert(metas(values@) =~= metas(shorter).push(None));
            assert(metas(values@) =~= resized(metas(before), values@.len()));
        }
    }
    proof {
        assert(metas(values@) =~= resized(metas(before), n as nat));
    }
}

/// The player's inventory after the last 36 slots of a menu were copied into
/// its main part and hotbar.
pub open spec fn synced<T>(inventory: Seq<T>, slots: Seq<T>) -> Seq<T> {
    if slots.len() < SHARED_SLOTS {
        inventory
    } else {
        Seq::new(
            inventory.len(),
            |i: int|
                if 9 <= i < 45 {
                    slots[slots.len() - SHARED_SLOTS + i - 9]
                } else {
                    inventory[i]
                },
        )
    }
}

fn sync_player_slots(inventory: &mut Vec<Option<SlotItem>>, slots: &Vec<Option<SlotItem>>)
    requires
        old(inventory)@.len() == PLAYER_INVENTORY_SLOTS,
    ensures
        final(inventory)@ == synced(old(inventory)@, slots@),
{
    if slots.len() < SHARED_SLOTS {
        return ;
    }
    let len: usize = slots.len();
    let start: usize = len - SHARED_SLOTS;
    let mut i: usize = 0;
    while i < SHARED_SLOTS
        invariant
            i <= SHARED_SLOTS,
            start + SHARED_SLOTS == len == slots@.len(),
            inventory@.len() == PLAYER_INVENTORY_SLOTS,
            old(inventory)@.len() == PLAYER_INVENTORY_SLOTS,
            forall|j: int|
                0 <= j < inventory@.len() ==> #[trigger] inventory@[j] == (if 9 <= j < 9 + i {
                    slots@[start + j - 9]
                } else {
                    old(inventory)@[j]
                }),
        decreases SHARED_SLOTS - i,
    {
        inventory[9 + i] = slots[start + i];
        i = i + 1;
    }
    proof {
        assert(inventory@ =~= synced(old(inventory)@, slots@));
    }
}

/// A full snapshot of a window.
#[derive(Debug)]
pub struct WindowContent {
    pub window_id: u8,
    pub state_id: i32,
    pub slots: Vec<Option<SlotItem>>,
    pub carried: Option<SlotItem>,
}

/// An update of one slot of a window.
#[derive(Clone, Copy, Debug, PartialEq, Eq, Structural)]
pub struct WindowSlot {
    pub window_id: i8,
    pub state_id: i32,
    pub slot: i16,
    pub item: Option<SlotItem>,
}

/// The player's inventory, the item on the cursor and the open menu.
#[derive(Debug)]
pub struct Windows {
    pub inventory: Vec<Option<SlotItem>>,
    /// What the items of the inventory carry besides their kind and count.
    pub inventory_nbt: Vec<Option<Nbt>>,
    pub container: Option<ContainerState>,
    pub carried: Option<SlotItem>,
    /// The revision of the player's inventory that clicks refer to.
    pub window_state: i32,
}

/// Whether a menu is open under that number.
pub open spec fn is_open(container: Option<ContainerState>, window_id: int) -> bool {
    container matches Some(menu) && menu.window_id == window_id
}

impl Windows {
    /// The inventory always has its 46 slots.
    pub open spec fn wf(&self) -> bool {
        &&& self.inventory@.len() == PLAYER_INVENTORY_SLOTS
        &&& self.inventory_nbt@.len() == PLAYER_INVENTORY_SLOTS
    }

    /// An empty inventory with no menu open.
    pub fn new() -> (r: Self)
        ensures
            r.wf(),
            forall|i: int| 0 <= i < PLAYER_INVENTORY_SLOTS ==> #[trigger] r.inventory@[i] is None,
            forall|i: int|
                0 <= i < PLAYER_INVENTORY_SLOTS ==> #[trigger] r.inventory_nbt@[i] is None,
            r.container is None,
            r.carried is None,
            r.window_state == 0,
    {
        let mut inventory: Vec<Option<SlotItem>> = Vec::new();
        resize_slots(&mut inventory, PLAYER_INVENTORY_SLOTS);
        let mut inventory_nbt: Vec<Option<Nbt>> = Vec::new();
        while inventory_nbt.len() < PLAYER_INVENTORY_SLOTS
            invariant
                inventory_nbt@.len() <= PLAYER_INVENTORY_SLOTS,
                forall|i: int|
                    0 <= i < inventory_nbt@.len() ==> #[trigger] inventory_nbt@[i] is None,
            decreases PLAYER_INVENTORY_SLOTS - inventory_nbt@.len(),
        {
            inventory_nbt.push(None);
        }
        Windows { inventory, inventory_nbt, container: None, carried: None, window_state: 0 }
    }

    /// The server opened a menu. A number that no window can have is ignored.
    pub fn handle_open_screen(&mut self, window_id: i32, menu_type: i32, title: &str)
        requires
            old(self).wf(),
        ensures
            final(self).wf(),
            final(self).inventory == old(self).inventory,
            final(self).inventory_nbt == old(self).inventory_nbt,
            final(self).carried == old(self).carried,
            final(self).window_state == old(self).window_state,
            0 <= window_id <= 255 ==> (final(self).container matches Some(menu) && {
                &&& menu.window_id == window_id
                &&& menu.menu_type == menu_type
                &&& menu.title@ == component::plain_json(title@)
                &&& menu.slots@.len() == 0
                &&& menu.slot_metadata@.len() == 0
                &&& menu.state_id == 0
                &&& menu.properties@ == seq![0i16, 0i16, 0i16, 0i16]
            }),
            !(0 <= window_id <= 255) ==> final(self).container == old(self).container,
    {
        if window_id < 0 || window_id > 255 {
            return ;
        }
        let properties: [i16; 4] = [0, 0, 0, 0];
        proof {
            assert(properties@ =~= seq![0i16, 0i16, 0i16, 0i16]);
        }
        self.container = Some(
            ContainerState {
                window_id: window_id as u8,
                menu_type,
                title: plain_text(title),
                slots: Vec::new(),
                slot_metadata: Vec::new(),
                state_id: 0,
                properties,
            },
        );
    }

    /// The server set a number of the open menu. Other windows and numbers
    /// beyond the four are ignored.
    pub fn handle_container_data(&mut self, window_id: u8, property: i16, value: i16)
        requires
            old(self).wf(),
        ensures
            final(self).wf(),
            final(self).inventory == old(self).inventory,
            final(self).inventory_nbt == old(self).inventory_nbt,
            final(self).carried == old(self).carried,
            final(self).window_state == old(self).window_state,
            is_open(old(self).container, window_id as int) && 0 <= property < 4 ==> (final(self).container matches Some(menu) && menu.properties@
                == old(self).container->0.properties@.update(property as int, value) && menu == (
            ContainerState { properties: menu.properties, ..old(self).container->0 })),
            !(is_open(old(self).container, window_id as int) && 0 <= property < 4) ==> final(self).container == old(self).container,
    {
        if property < 0 || property >= 4 {
            return ;
        }
        match &mut self.container {
            Some(menu) => {
                if menu.window_id == window_id {
                    menu.properties[property as usize] = value;
                }
            },
            None => {},
        }
    }

    /// The server closed a menu; what the cursor held goes with it. Any other
    /// window is ignored.
    pub fn handle_close_container(&mut self, window_id: u8)
        requires
            old(self).wf(),
        ensures
            final(self).wf(),
            final(self).inventory == old(self).inventory,
            final(self).inventory_nbt == old(self).inventory_nbt,
            final(self).window_state == old(self).window_state,
            is_open(old(self).container, window_id as int) ==> final(self).container is None
                && final(self).carried is None,
            !is_open(old(self).container, window_id as int) ==> final(self).container
                == old(self).container && final(self).carried == old(self).carried,
    {
        let open = match &self.container {
            Some(menu) => menu.window_id == window_id,
            None => false,
        };
        if open {
            self.container = None;
            self.carried = None;
        }
    }

    /// The server sent a full snapshot of a window. That of the player's own
    /// window replaces the inventory; that of the open menu replaces its slots
    /// and carries over to the inventory; any other is ignored.
    pub fn handle_container_content(&mut self, content: WindowContent)
        requires
            old(self).wf(),
        ensures
            final(self).wf(),
            final(self).inventory_nbt == old(self).inventory_nbt,
            content.window_id == 0 ==> {
                &&& final(self).inventory@ == resized(
                    content.slots@,
                    PLAYER_INVENTORY_SLOTS as nat,
                )
                &&& final(self).carried == content.carried
                &&& final(self).window_state == content.state_id
                &&& final(self).container == old(self).container
            },
            content.window_id != 0 && is_open(old(self).container, content.window_id as int)
                ==> {
                &&& final(self).container == Some(
                    ContainerState {
                        state_id: content.state_id,
                        slots: content.slots,
                        ..old(self).container->0
                    },
                )
                &&& final(self).inventory@ == synced(old(self).inventory@, content.slots@)
                &&& final(self).carried == content.carried
                &&& final(self).window_state == old(self).window_state
            },
            content.window_id != 0 && !is_open(old(self).container, content.window_id as int)
                ==> *final(self) == *old(self),
    {
        if content.window_id != 0 {
            match &mut self.container {
                Some(menu) => {
                    if menu.window_id == content.window_id {
                        sync_player_slots(&mut self.inventory, &content.slots);
                        menu.state_id = content.state_id;
                        menu.slots = content.slots;
                        self.carried = content.carried;
                    }
                },
                None => {},
            }
            return ;
        }
        self.window_state = content.state_id;
        self.carried = content.carried;
        self.inventory = content.slots;
        resize_slots(&mut self.inventory, PLAYER_INVENTORY_SLOTS);
    }

    /// The place in the player's inventory that a slot of a menu stands for.
    pub open spec fn mirrored(own: int, slot: int) -> bool {
        own <= slot < own + SHARED_SLOTS
    }

    /// The server changed one slot. Window -1 with slot -1 is the cursor,
    /// windows 0 and -2 are the player's inventory, a positive one is the open
    /// menu; anything else is ignored.
    pub fn handle_container_slot(&mut self, update: WindowSlot)
        requires
            old(self).wf(),
        ensures
            final(self).wf(),
            final(self).inventory_nbt == old(self).inventory_nbt,
            update.window_id == -1 && update.slot == -1 ==> {
                &&& final(self).carried == update.item
                &&& final(self).inventory == old(self).inventory
                &&& match old(self).container {
                    Some(menu) => final(self).container == Some(
                        ContainerState { state_id: update.state_id, ..menu },
                    ) && final(self).window_state == old(self).window_state,
                    None => final(self).container is None && final(self).window_state
                        == update.state_id,
                }
            },
            !(update.window_id == -1 && update.slot == -1) ==> final(self).carried == old(self).carried,
            update.window_id > 0 && update.slot >= 0 && is_open(
                old(self).container,
                update.window_id as int,
            ) ==> {
                let menu = old(self).container->0;
                &&& final(self).window_state == old(self).window_state
                &&& final(self).container matches Some(now)
                &&& now == (ContainerState {
                    state_id: update.state_id,
                    slots: now.slots,
                    ..menu
                })
                &&& now.slots@ == (if update.slot < menu.slots@.len() {
                    menu.slots@.update(update.slot as int, update.item)
                } else {
                    menu.slots@
                })
                &&& final(self).inventory@ == (if update.slot < menu.slots@.len()
                    && Self::mirrored(menu.own_slots(), update.slot as int) {
                    old(self).inventory@.update(
                        9 + update.slot - menu.own_slots(),
                        update.item,
                    )
                } else {
                    old(self).inventory@
                })
            },
            (update.window_id == 0 || update.window_id == -2) && update.slot >= 0 ==> {
                &&& final(self).window_state == update.state_id
                &&& final(self).container == old(self).container
                &&& final(self).inventory@ == (if update.slot < PLAYER_INVENTORY_SLOTS {
                    old(self).inventory@.update(update.slot as int, update.item)
                } else {
                    old(self).inventory@
                })
            },
            update.slot < 0 && !(update.window_id == -1 && update.slot == -1) ==> *final(self)
                == *old(self),
            update.window_id > 0 && !is_open(old(self).container, update.window_id as int)
                ==> *final(self) == *old(self),
            update.window_id < 0 && update.window_id != -2 && !(update.window_id == -1
                && update.slot == -1) ==> *final(self) == *old(self),
    {
        if update.window_id == -1 && update.slot == -1 {
            self.carried = update.item;
            match &mut self.container {
                Some(menu) => {
                    menu.state_id = update.state_id;
                },
                None => {
                    self.window_state = update.state_id;
                },
            }
            return ;
        }
        if update.slot < 0 {
            return ;
        }
        let index: usize = update.slot as usize;
        if update.window_id > 0 {
            match &mut self.container {
                Some(menu) => {
                    if menu.window_id == update.window_id as u8 {
                        menu.state_id = update.state_id;
                        if index < menu.slots.len() {
                            menu.slots[index] = update.item;
                            let own: usize = menu.container_slot_count();
                            if index >= own && index - own < SHARED_SLOTS {
                                self.inventory[9 + (index - own)] = update.item;
                            }
                        }
                    }
                },
                None => {},
            }
            return ;
        }
        if update.window_id != 0 && update.window_id != -2 {
            return ;
        }
        self.window_state = update.state_id;
        if index < self.inventory.len() {
            self.inventory[index] = update.item;
        }
    }

    /// What the items of a snapshot carry, for the window it is of: the
    /// player's own, or the open menu with its mirror in the inventory.
    pub fn capture_content_metadata(&mut self, window_id: u8, metadata: Vec<Option<Nbt>>)
        requires
            old(self).wf(),
        ensures
            final(self).wf(),
            final(self).inventory == old(self).inventory,
            final(self).carried == old(self).carried,
            final(self).window_state == old(self).window_state,
            window_id == 0 ==> final(self).container == old(self).container && metas(
                final(self).inventory_nbt@,
            ) == resized(metas(metadata@), PLAYER_INVENTORY_SLOTS as nat),
            window_id != 0 && is_open(old(self).container, window_id as int) ==> {
                let menu = old(self).container->0;
                &&& final(self).container == Some(
                    ContainerState { slot_metadata: metadata, ..menu },
                )
                &&& metas(final(self).inventory_nbt@) == (if metadata@.len() >= menu.own_slots()
                    + SHARED_SLOTS {
                    synced(
                        metas(old(self).inventory_nbt@),
                        metas(metadata@).subrange(0, menu.own_slots() + SHARED_SLOTS),
                    )
                } else {
                    metas(old(self).inventory_nbt@)
                })
            },
            window_id != 0 && !is_open(old(self).container, window_id as int) ==> *final(self)
                == *old(self),
    {
        if window_id == 0 {
            self.inventory_nbt = metadata;
            resize_metas(&mut self.inventory_nbt, PLAYER_INVENTORY_SLOTS);
            return ;
        }
        match &mut self.container {
            Some(menu) => {
                if menu.window_id == window_id {
                    let own: usize = menu.container_slot_count();
                    if metadata.len() >= SHARED_SLOTS && metadata.len() - SHARED_SLOTS >= own {
                        sync_player_metas(&mut self.inventory_nbt, &metadata, own);
                    }
                    menu.slot_metadata = metadata;
                }
            },
            None => {},
        }
    }

    /// What the item of one slot carries, for the window of the update.
    pub fn capture_slot_metadata(&mut self, update: WindowSlot, metadata: Option<Nbt>)
        requires
            old(self).wf(),
        ensures
            final(self).wf(),
            final(self).inventory == old(self).inventory,
            final(self).carried == old(self).carried,
            final(self).window_state == old(self).window_state,
            (update.window_id == 0 || update.window_id == -2) ==> final(self).container == old(self).container && metas(final(self).inventory_nbt@) == (if 0 <= update.slot
                < PLAYER_INVENTORY_SLOTS {
                metas(old(self).inventory_nbt@).update(update.slot as int, meta(metadata))
            } else {
                metas(old(self).inventory_nbt@)
            }),
            update.window_id > 0 && update.slot >= 0 && is_open(
                old(self).container,
                update.window_id as int,
            ) ==> {
                let menu = old(self).container->0;
                let longer = clicks::at_least(
                    menu.slot_metadata@.len() as int,
                    update.slot + 1,
                ) as nat;
                &&& final(self).container matches Some(now)
                &&& now == (ContainerState { slot_metadata: now.slot_metadata, ..menu })
                &&& metas(now.slot_metadata@) == resized(
                    metas(menu.slot_metadata@),
                    longer,
                ).update(update.slot as int, meta(metadata))
                &&& metas(final(self).inventory_nbt@) == (if Self::mirrored(
                    menu.own_slots(),
                    update.slot as int,
                ) {
                    metas(old(self).inventory_nbt@).update(
                        9 + update.slot - menu.own_slots(),
                        meta(metadata),
                    )
                } else {
                    metas(old(self).inventory_nbt@)
                })
            },
            update.window_id > 0 && (update.slot < 0 || !is_open(
                old(self).container,
                update.window_id as int,
            )) ==> *final(self) == *old(self),
            update.window_id < 0 && update.window_id != -2 ==> *final(self) == *old(self),
    {
        if update.window_id == 0 || update.window_id == -2 {
            if update.slot >= 0 && (update.slot as usize) < self.inventory_nbt.len() {
                let ghost before = self.inventory_nbt@;
                self.inventory_nbt[update.slot as usize] = metadata;
                proof {
                    assert(metas(self.inventory_nbt@) =~= metas(before).update(
                        update.slot as int,
                        meta(metadata),
                    ));
                }
            }
            return ;
        }
        if update.window_id <= 0 || update.slot < 0 {
            return ;
        }
        let index: usize = update.slot as usize;
        match &mut self.container {
            Some(menu) => {
                if menu.window_id == update.window_id as u8 {
                    let ghost start = menu.slot_metadata@;
                    let ghost longer = clicks::at_least(start.len() as int, index + 1) as nat;
                    if index >= menu.slot_metadata.len() {
                        resize_metas(&mut menu.slot_metadata, index + 1);
                    }
                    proof {
                        assert(metas(menu.slot_metadata@) =~= resized(metas(start), longer));
                    }
                    let ghost before = menu.slot_metadata@;
                    menu.slot_metadata[index] = copy_meta(&metadata);
                    proof {
                        assert(metas(menu.slot_metadata@) =~= metas(before).update(
                            index as int,
                            meta(metadata),
                        ));
                    }
                    let own: usize = menu.container_slot_count();
                    if index >= own && index - own < SHARED_SLOTS {
                        let ghost nbts = self.inventory_nbt@;
                        self.inventory_nbt[9 + (index - own)] = metadata;
                        proof {
                            assert(metas(self.inventory_nbt@) =~= metas(nbts).update(
                                9 + (index - own),
                                meta(metadata),
                            ));
                        }
                    }
                }
            },
            None => {},
        }
    }

    /// Puts an item into a slot of the player's inventory; a slot it does not
    /// have is ignored.
    pub fn set_player_slot(&mut self, slot: i32, item: Option<SlotItem>)
        requires
            old(self).wf(),
        ensures
            final(self).wf(),
            final(self).inventory@ == (if 0 <= slot < PLAYER_INVENTORY_SLOTS {
                old(self).inventory@.update(slot as int, item)
            } else {
                old(self).inventory@
            }),
            final(self).inventory_nbt == old(self).inventory_nbt,
            final(self).container == old(self).container,
            final(self).carried == old(self).carried,
            final(self).window_state == old(self).window_state,
    {
        if slot >= 0 && (slot as usize) < self.inventory.len() {
            self.inventory[slot as usize] = item;
        }
    }

    /// Notes what the item in a slot of the player's inventory carries.
    pub fn set_player_metadata(&mut self, slot: i32, metadata: Option<Nbt>)
        requires
            old(self).wf(),
        ensures
            final(self).wf(),
            metas(final(self).inventory_nbt@) == (if 0 <= slot < PLAYER_INVENTORY_SLOTS {
                metas(old(self).inventory_nbt@).update(slot as int, meta(metadata))
            } else {
                metas(old(self).inventory_nbt@)
            }),
            final(self).inventory == old(self).inventory,
            final(self).container == old(self).container,
            final(self).carried == old(self).carried,
            final(self).window_state == old(self).window_state,
    {
        if slot >= 0 && (slot as usize) < self.inventory_nbt.len() {
            let ghost before = self.inventory_nbt@;
            self.inventory_nbt[slot as usize] = metadata;
            proof {
                assert(metas(self.inventory_nbt@) =~= metas(before).update(
                    slot as int,
                    meta(metadata),
                ));
            }
        }
    }
}

fn sync_player_metas(inventory: &mut Vec<Option<Nbt>>, metadata: &Vec<Option<Nbt>>, own: usize)
    requires
        old(inventory)@.len() == PLAYER_INVENTORY_SLOTS,
        own + SHARED_SLOTS <= metadata@.len(),
    ensures
        final(inventory)@.len() == PLAYER_INVENTORY_SLOTS,
        metas(final(inventory)@) == synced(
            metas(old(inventory)@),
            metas(metadata@).subrange(0, own + SHARED_SLOTS),
        ),
{
    let len: usize = metadata.len();
    let mut i: usize = 0;
    let ghost before = metas(inventory@);
    while i < SHARED_SLOTS
        invariant
            i <= SHARED_SLOTS,
            own + SHARED_SLOTS <= len == metadata@.len(),
            inventory@.len() == PLAYER_INVENTORY_SLOTS,
            before.len() == PLAYER_INVENTORY_SLOTS,
            forall|j: int|
                0 <= j < inventory@.len() ==> meta(#[trigger] inventory@[j]) == (if 9 <= j < 9
                    + i {
                    meta(metadata@[own + j - 9])
                } else {
                    before[j]
                }),
        decreases SHARED_SLOTS - i,
    {
        inventory[9 + i] = copy_meta(&metadata[own + i]);
        i = i + 1;
    }
    proof {
        assert(metas(inventory@) =~= synced(
            before,
            metas(metadata@).subrange(0, own + SHARED_SLOTS),
        ));
    }
}

/// What an item carries, in the form before data components: nothing for an
/// empty slot and for an end tag.
pub open spec fn take_item_nbt(s: Seq<u8>) -> Taken<Option<NbtModel>> {
    match wire::take_bool(s) {
        (Some(present), rest) => if !present {
            (Some(None), rest)
        } else {
            match wire::take_varint(rest) {
                (Some(_), rest) => match wire::take_i8(rest) {
                    (Some(_), rest) => match nbt::take_named_nbt(rest) {
                        (Some(NbtModel::End), rest) => (Some(None), rest),
                        (Some(tag), rest) => (Some(Some(tag)), rest),
                        (None, rest) => (None, rest),
                    },
                    (None, rest) => (None, rest),
                },
                (None, rest) => (None, rest),
            }
        },
        (None, rest) => (None, rest),
    }
}

fn read_item_nbt(r: &mut Reader) -> (v: Option<Option<Nbt>>)
    ensures
        match take_item_nbt(old(r)@) {
            (Some(model), rest) => v matches Some(value) && meta(value) == model && final(r)@
                == rest,
            (None, rest) => v is None && final(r)@ == rest,
        },
{
    let present: bool = match r.bool() {
        Some(present) => present,
        None => return None,
    };
    if !present {
        return Some(None);
    }
    if r.varint().is_none() {
        return None;
    }
    if r.i8().is_none() {
        return None;
    }
    match read_nbt(r) {
        Some(Nbt::End) => Some(None),
        Some(tag) => {
            proof {
                assert(tag@ !is End);
            }
            Some(Some(tag))
        },
        None => None,
    }
}

/// `n` more items' data behind those in `acc`.
pub open spec fn take_item_nbts(
    s: Seq<u8>,
    n: nat,
    acc: Seq<Option<NbtModel>>,
) -> Taken<Seq<Option<NbtModel>>>
    decreases n,
{
    if n == 0 {
        (Some(acc), s)
    } else {
        match take_item_nbt(s) {
            (Some(value), rest) => take_item_nbts(rest, (n - 1) as nat, acc.push(value)),
            (None, rest) => (None, rest),
        }
    }
}

/// The most slots that a snapshot may have.
pub const MAX_SLOTS: i32 = 65536;

/// The window of a snapshot and what its items carry; nothing where the
/// snapshot is malformed or has too many slots.
pub open spec fn content_nbt(body: Seq<u8>) -> Option<(u8, Seq<Option<NbtModel>>)> {
    match wire::take_u8(body) {
        (Some(window_id), rest) => match wire::take_varint(rest) {
            (Some(_), rest) => match wire::take_varint(rest) {
                (Some(count), rest) => if 0 <= count <= MAX_SLOTS {
                    match take_item_nbts(rest, count as nat, Seq::empty()) {
                        (Some(values), rest) => match take_item_nbt(rest) {
                            (Some(_), _) => Some((window_id, values)),
                            (None, _) => None,
                        },
                        (None, _) => None,
                    }
                } else {
                    None
                },
                (None, _) => None,
            },
            (None, _) => None,
        },
        (None, _) => None,
    }
}

fn decode_content_nbt(body: &[u8]) -> (r: Option<(u8, Vec<Option<Nbt>>)>)
    ensures
        match content_nbt(body@) {
            Some((window_id, models)) => r matches Some(got) && got.0 == window_id && metas(got.1@)
                == models,
            None => r is None,
        },
{
    let mut r = Reader::new(body);
    let window_id: u8 = match r.u8() {
        Some(id) => id,
        None => return None,
    };
    if r.varint().is_none() {
        return None;
    }
    let count: i32 = match r.varint() {
        Some(count) => count,
        None => return None,
    };
    if count < 0 || count > MAX_SLOTS {
        return None;
    }
    let ghost start = r@;
    let mut out: Vec<Option<Nbt>> = Vec::new();
    let mut left: i32 = count;
    proof {
        assert(metas(out@) =~= Seq::empty());
    }
    while left > 0
        invariant
            0 <= left <= count,
            content_nbt(body@) is Some ==> take_item_nbts(start, count as nat, Seq::empty()).0 is Some,
            take_item_nbts(start, count as nat, Seq::empty()) == take_item_nbts(
                r@,
                left as nat,
                metas(out@),
            ),
        decreases left,
    {
        match read_item_nbt(&mut r) {
            Some(value) => {
                let ghost before = out@;
                out.push(value);
                proof {
                    assert(metas(out@) =~= metas(before).push(meta(value)));
                }
            },
            None => return None,
        }
        left = left - 1;
    }
    match read_item_nbt(&mut r) {
        Some(_) => Some((window_id, out)),
        None => None,
    }
}

impl Windows {
    /// Takes over what the items of a snapshot of the player's own window
    /// carry, in the form before data components. A malformed body and any
    /// other window change nothing.
    pub fn capture_container_content_nbt(&mut self, body: &[u8])
        requires
            old(self).wf(),
        ensures
            final(self).wf(),
            final(self).inventory == old(self).inventory,
            final(self).container == old(self).container,
            final(self).carried == old(self).carried,
            final(self).window_state == old(self).window_state,
            metas(final(self).inventory_nbt@) == match content_nbt(body@) {
                Some((window_id, models)) => if window_id == 0 {
                    resized(models, PLAYER_INVENTORY_SLOTS as nat)
                } else {
                    metas(old(self).inventory_nbt@)
                },
                None => metas(old(self).inventory_nbt@),
            },
    {
        match decode_content_nbt(body) {
            Some((window_id, metadata)) => {
                if window_id == 0 {
                    self.inventory_nbt = metadata;
                    resize_metas(&mut self.inventory_nbt, PLAYER_INVENTORY_SLOTS);
                }
            },
            None => {},
        }
    }

    /// Takes over what the item of one slot of the player's own window carries,
    /// in the form before data components.
    pub fn capture_container_slot_nbt(&mut self, body: &[u8])
        requires
            old(self).wf(),
        ensures
            final(self).wf(),
            final(self).inventory == old(self).inventory,
            final(self).container == old(self).container,
            final(self).carried == old(self).carried,
            final(self).window_state == old(self).window_state,
            metas(final(self).inventory_nbt@) == match slot_nbt(body@) {
                Some((window_id, slot, model)) => if (window_id == 0 || window_id == -2) && 0
                    <= slot < PLAYER_INVENTORY_SLOTS {
                    metas(old(self).inventory_nbt@).update(slot as int, model)
                } else {
                    metas(old(self).inventory_nbt@)
                },
                None => metas(old(self).inventory_nbt@),
            },
    {
        let mut r = Reader::new(body);
        let window_id: i8 = match r.i8() {
            Some(id) => id,
            None => return ,
        };
        if r.varint().is_none() {
            return ;
        }
        let slot: i16 = match r.i16() {
            Some(slot) => slot,
            None => return ,
        };
        match read_item_nbt(&mut r) {
            Some(metadata) => {
                if window_id == 0 || window_id == -2 {
                    self.set_player_metadata(slot as i32, metadata);
                }
            },
            None => {},
        }
    }
}

/// The window and slot of an update, and what its item carries.
pub open spec fn slot_nbt(body: Seq<u8>) -> Option<(i8, i16, Option<NbtModel>)> {
    match wire::take_i8(body) {
        (Some(window_id), rest) => match wire::take_varint(rest) {
            (Some(_), rest) => match wire::take_i16(rest) {
                (Some(slot), rest) => match take_item_nbt(rest) {
                    (Some(model), _) => Some((window_id, slot, model)),
                    (None, _) => None,
                },
                (None, _) => None,
            },
            (None, _) => None,
        },
        (None, _) => None,
    }
}

/// The window, menu and title of an opened menu, from protocol 765 on.
pub open spec fn open_screen(body: Seq<u8>) -> Option<(i32, i32, Seq<char>)> {
    match wire::take_varint(body) {
        (Some(window_id), rest) => match wire::take_varint(rest) {
            (Some(menu_type), rest) => match nbt::take_anonymous_nbt(rest) {
                (Some(title), _) => Some((window_id, menu_type, component::nbt_component(title))),
                (None, _) => None,
            },
            (None, _) => None,
        },
        (None, _) => None,
    }
}

pub fn decode_open_screen_765(body: &[u8]) -> (r: Option<(i32, i32, String)>)
    ensures
        match open_screen(body@) {
            Some((window_id, menu_type, title)) => r matches Some(got) && got.0 == window_id
                && got.1 == menu_type && got.2@ == title,
            None => r is None,
        },
{
    let mut r = Reader::new(body);
    let window_id: i32 = match r.varint() {
        Some(id) => id,
        None => return None,
    };
    let menu_type: i32 = match r.varint() {
        Some(menu) => menu,
        None => return None,
    };
    match read_anonymous_nbt(&mut r) {
        Some(title) => Some((window_id, menu_type, nbt_plain_text(&title))),
        None => None,
    }
}

/// A click that the server is to be told of: the revision it refers to, the
/// slots it changed and the cursor after it.
#[derive(Debug)]
pub struct PredictedClick {
    pub state_id: i32,
    pub changed: Vec<Change>,
    pub carried: Option<SlotItem>,
}

impl Windows {
    /// Predicts a click. In window 0 it is one in the player's inventory, else
    /// in the open menu of that number. A slot that is not there, or another
    /// window, makes no click.
    pub fn click(
        &mut self,
        registry: &ItemRegistry,
        window_id: u8,
        slot: i16,
        button: i8,
        mode: i32,
    ) -> (r: Option<PredictedClick>)
        requires
            old(self).wf(),
        ensures
            final(self).wf(),
            final(self).inventory_nbt == old(self).inventory_nbt,
            final(self).window_state == old(self).window_state,
            r is Some <==> old(self).click_lands(window_id, slot as int),
            r is None ==> *final(self) == *old(self),
            r matches Some(click) ==> {
                &&& click.carried == final(self).carried
                &&& window_id == 0 ==> {
                    &&& click.state_id == old(self).window_state
                    &&& final(self).container == old(self).container
                    &&& Self::clicked_slots(
                        registry,
                        old(self).inventory@,
                        old(self).carried,
                        slot as int,
                        button,
                        mode,
                        clicks::inventory_targets(slot as int),
                    ) == (final(self).inventory@, final(self).carried, click.changed@)
                }
                &&& window_id != 0 ==> {
                    let menu = old(self).container->0;
                    &&& final(self).inventory == old(self).inventory
                    &&& click.state_id == menu.state_id
                    &&& final(self).container matches Some(now)
                    &&& now == (ContainerState { slots: now.slots, ..menu })
                    &&& Self::clicked_slots(
                        registry,
                        menu.slots@,
                        old(self).carried,
                        slot as int,
                        button,
                        mode,
                        clicks::container_targets(
                            registry,
                            menu.slots@,
                            slot as int,
                            menu.own_slots(),
                            menu.menu_type,
                        ),
                    ) == (now.slots@, final(self).carried, click.changed@)
                }
            },
    {
        if slot < 0 {
            return None;
        }
        let index: usize = slot as usize;
        if window_id == 0 {
            if index >= self.inventory.len() {
                return None;
            }
            let changed = apply_inventory_click(
                registry,
                &mut self.inventory,
                &mut self.carried,
                index,
                button,
                mode,
            );
            return Some(
                PredictedClick { state_id: self.window_state, changed, carried: self.carried },
            );
        }
        match &mut self.container {
            Some(menu) => {
                if menu.window_id == window_id && index < menu.slots.len() {
                    let own: usize = menu.container_slot_count();
                    let menu_type: i32 = menu.menu_type;
                    let changed = apply_container_click(
                        registry,
                        &mut menu.slots,
                        &mut self.carried,
                        index,
                        button,
                        mode,
                        own,
                        menu_type,
                    );
                    Some(
                        PredictedClick { state_id: menu.state_id, changed, carried: self.carried },
                    )
                } else {
                    None
                }
            },
            None => None,
        }
    }

    /// Whether a click meets a slot.
    pub open spec fn click_lands(&self, window_id: u8, slot: int) -> bool {
        if window_id == 0 {
            0 <= slot < PLAYER_INVENTORY_SLOTS
        } else {
            is_open(self.container, window_id as int) && 0 <= slot
                < self.container->0.slots@.len()
        }
    }

    /// Slots, cursor and changes after a click on a slot: a quick move into the
    /// targets in mode 1, else a plain click.
    pub open spec fn clicked_slots(
        registry: &ItemRegistry,
        slots: Seq<Option<SlotItem>>,
        carried: Option<SlotItem>,
        slot: int,
        button: i8,
        mode: i32,
        targets: Seq<usize>,
    ) -> (Seq<Option<SlotItem>>, Option<SlotItem>, Seq<Change>) {
        if mode == 1 {
            let (after, changed) = clicks::quick_moved(registry, slots, slot as usize, targets);
            (after, carried, changed)
        } else {
            let after = clicks::clicked(registry, slots[slot], carried, button);
            (slots.update(slot, after.0), after.1, seq![(slot as i16, after.0)])
        }
    }
}

/// The selected hotbar slot, as a place in the player's inventory.
pub open spec fn selected_place(selected_slot: u8) -> int {
    36 + clicks::least(selected_slot as int, 8)
}

/// The inventory with the selected hotbar slot and the offhand exchanged.
pub open spec fn hands_swapped(
    inventory: Seq<Option<SlotItem>>,
    selected_slot: u8,
) -> Seq<Option<SlotItem>> {
    let selected = selected_place(selected_slot);
    if inventory.len() > 45 {
        inventory.update(selected, inventory[45]).update(45, inventory[selected])
    } else {
        inventory
    }
}

/// Predicts the swap of main hand and offhand.
pub fn swap_selected_with_offhand(inventory: &mut Vec<Option<SlotItem>>, selected_slot: u8)
    ensures
        final(inventory)@ == hands_swapped(old(inventory)@, selected_slot),
{
    let selected: usize = if selected_slot < 8 { 36 + selected_slot as usize } else { 44 };
    if inventory.len() > 45 {
        let main: Option<SlotItem> = inventory[selected];
        let off: Option<SlotItem> = inventory[45];
        inventory[selected] = off;
        inventory[45] = main;
    }
}

/// Swapping the hands twice changes nothing.
pub proof fn swapping_hands_twice_is_nothing(
    inventory: Seq<Option<SlotItem>>,
    selected_slot: u8,
)
    ensures
        hands_swapped(hands_swapped(inventory, selected_slot), selected_slot) == inventory,
{
    assert(hands_swapped(hands_swapped(inventory, selected_slot), selected_slot) =~= inventory);
}

/// A snapshot of a menu shows up in the player's inventory slot by slot, and
/// touches neither the crafting grid and armour nor the offhand.
pub proof fn snapshots_reach_the_inventory(
    inventory: Seq<Option<SlotItem>>,
    slots: Seq<Option<SlotItem>>,
    i: int,
)
    requires
        inventory.len() == PLAYER_INVENTORY_SLOTS,
        slots.len() >= SHARED_SLOTS,
        0 <= i < PLAYER_INVENTORY_SLOTS,
    ensures
        9 <= i < 45 ==> synced(inventory, slots)[i] == slots[slots.len() - 45 + i],
        i < 9 || i == 45 ==> synced(inventory, slots)[i] == inventory[i],
{
}

impl Windows {
    /// The player closed the open menu; what the cursor held goes with it.
    /// Returns its number, which the server is to be told.
    pub fn close_screen(&mut self) -> (r: Option<u8>)
        requires
            old(self).wf(),
        ensures
            final(self).wf(),
            match old(self).container {
                Some(menu) => r == Some(menu.window_id) && final(self).container is None
                    && final(self).carried is None,
                None => r is None && final(self).container is None && final(self).carried == old(self).carried,
            },
            final(self).inventory == old(self).inventory,
            final(self).inventory_nbt == old(self).inventory_nbt,
            final(self).window_state == old(self).window_state,
    {
        let r: Option<u8> = match &self.container {
            Some(menu) => Some(menu.window_id),
            None => None,
        };
        if r.is_some() {
            self.container = None;
            self.carried = None;
        }
        r
    }
}

/// Chests have a row for every step of their menu's number from 0 on, shulker boxes
/// three, and no other menu has rows.
pub proof fn chests_have_rows(menu: &ContainerState)
    ensures
        menu.rows() is Some <==> 0 <= menu.menu_type <= 5 || menu.menu_type == 19,
        0 <= menu.menu_type <= 5 ==> menu.rows() == Some((menu.menu_type + 1) as usize),
        menu.menu_type == 19 ==> menu.rows() == Some(3usize),
        menu.slots@.len() >= 36 ==> menu.own_slots() + 36 == menu.slots@.len(),
        menu.slots@.len() < 36 ==> menu.own_slots() == 0,
{
}

/// Each menu with a texture of its own has the one of its workstation.
pub proof fn menus_have_their_textures()
    ensures
        ContainerState::furnace_name(9) == Some("blast_furnace"@),
        ContainerState::furnace_name(13) == Some("furnace"@),
        ContainerState::furnace_name(21) == Some("smoker"@),
        ContainerState::simple_name(6) == Some("dispenser"@),
        ContainerState::simple_name(7) == Some("anvil"@),
        ContainerState::simple_name(10) == Some("brewing_stand"@),
        ContainerState::simple_name(11) == Some("crafting_table"@),
        ContainerState::simple_name(12) == Some("enchanting_table"@),
        ContainerState::simple_name(14) == Some("grindstone"@),
        ContainerState::simple_name(15) == Some("hopper"@),
        ContainerState::simple_name(17) == Some("loom"@),
        ContainerState::simple_name(20) == Some("smithing"@),
        ContainerState::simple_name(22) == Some("cartography_table"@),
        ContainerState::simple_name(23) == Some("stonecutter"@),
{
}

/// A list brought to a length keeps its entries at their places, and what is missing is
/// empty.
pub proof fn resizing_keeps_places<T>(items: Seq<Option<T>>, n: nat, i: int)
    requires
        0 <= i < n,
    ensures
        resized(items, n).len() == n,
        i < items.len() ==> resized(items, n)[i] == items[i],
        i >= items.len() ==> resized(items, n)[i] is None,
        items.len() == n ==> resized(items, n) == items,
{
    if items.len() == n {
        assert(resized(items, n) =~= items);
    }
}

/// The last 36 slots of a menu are the player's main inventory and hotbar, in their order.
pub proof fn menus_end_with_the_inventory(menu: &ContainerState, slot: int)
    requires
        menu.slots@.len() >= 36,
        0 <= slot < menu.slots@.len(),
    ensures
        Windows::mirrored(menu.own_slots(), slot) <==> slot >= menu.slots@.len() - 36,
        Windows::mirrored(menu.own_slots(), slot) ==> 9 <= 9 + slot - menu.own_slots() < 45,
{
}

/// A click meets a slot of the player's 46 in window 0, and else a slot of the menu that is
/// open under that number.
pub proof fn clicks_meet_slots(windows: &Windows, window_id: u8, slot: int)
    ensures
        window_id == 0 ==> (windows.click_lands(window_id, slot) <==> 0 <= slot < 46),
        window_id != 0 ==> (windows.click_lands(window_id, slot) <==> windows.container is Some
            && windows.container->0.window_id == window_id && 0 <= slot
            < windows.container->0.slots@.len()),
{
}

/// A plain click changes its slot and the cursor, reports that slot, and touches no other;
/// a quick move leaves the cursor.
pub proof fn clicks_change_one_slot(
    registry: &ItemRegistry,
    slots: Seq<Option<SlotItem>>,
    carried: Option<SlotItem>,
    slot: int,
    button: i8,
    mode: i32,
    targets: Seq<usize>,
    other: int,
)
    requires
        0 <= slot < slots.len(),
    ensures
        ({
            let (after, cursor, changed) = Windows::clicked_slots(
                registry,
                slots,
                carried,
                slot,
                button,
                mode,
                targets,
            );
            &&& mode != 1 ==> after.len() == slots.len() && changed.len() == 1 && changed[0].1
                == after[slot] && (after[slot], cursor) == clicks::clicked(
                registry,
                slots[slot],
                carried,
                button,
            )
            &&& mode != 1 && 0 <= other < slots.len() && other != slot ==> after[other]
                == slots[other]
            &&& mode != 1 && slot <= 0x7fff ==> changed[0].0 == slot
            &&& mode == 1 ==> cursor == carried && (after, changed) == clicks::quick_moved(
                registry,
                slots,
                slot as usize,
                targets,
            )
        }),
{
}

/// Swapping the hands exchanges the selected slot of the hotbar with the offhand, and
/// touches no other slot.
pub proof fn hands_exchange_their_items(
    inventory: Seq<Option<SlotItem>>,
    selected_slot: u8,
    other: int,
)
    requires
        inventory.len() == 46,
        selected_slot < 9,
        0 <= other < 46,
    ensures
        hands_swapped(inventory, selected_slot)[45] == inventory[36 + selected_slot],
        hands_swapped(inventory, selected_slot)[36 + selected_slot] == inventory[45],
        other != 45 && other != 36 + selected_slot ==> hands_swapped(inventory, selected_slot)[other]
            == inventory[other],
{
}

/// A menu opens with its number, its kind and its title.
pub proof fn menus_open_with_a_title(
    body: Seq<u8>,
    window_id: i32,
    r1: Seq<u8>,
    menu_type: i32,
    r2: Seq<u8>,
    title: NbtModel,
)
    requires
        wire::take_varint(body) == (Some(window_id), r1),
        wire::take_varint(r1) == (Some(menu_type), r2),
        nbt::take_anonymous_nbt(r2).0 == Some(title),
    ensures
        open_screen(body) == Some((window_id, menu_type, component::nbt_component(title))),
{
}

/// What a stack carries comes behind its flag, its item and its count; an empty slot and an
/// end tag carry nothing.
pub proof fn stacks_carry_their_tag(
    s: Seq<u8>,
    item_id: i32,
    r1: Seq<u8>,
    tag: NbtModel,
    rest: Seq<u8>,
)
    requires
        s.len() > 0,
        s[0] != 0 ==> wire::take_varint(s.subrange(1, s.len() as int)) == (Some(item_id), r1)
            && r1.len() > 0 && nbt::take_named_nbt(r1.subrange(1, r1.len() as int)) == (
            Some(tag),
            rest,
        ),
    ensures
        s[0] == 0 ==> take_item_nbt(s) == (Some(None::<NbtModel>), s.subrange(1, s.len() as int)),
        s[0] != 0 && tag !is End ==> take_item_nbt(s) == (Some(Some(tag)), rest),
        s[0] != 0 && tag is End ==> take_item_nbt(s) == (Some(None::<NbtModel>), rest),
{
}

/// The update of a slot names its window, a revision, the slot and then the stack.
pub proof fn slot_updates_name_their_slot(
    body: Seq<u8>,
    window_id: i8,
    r1: Seq<u8>,
    state: i32,
    r2: Seq<u8>,
    slot: i16,
    r3: Seq<u8>,
    model: Option<NbtModel>,
)
    requires
        wire::take_i8(body) == (Some(window_id), r1),
        wire::take_varint(r1) == (Some(state), r2),
        wire::take_i16(r2) == (Some(slot), r3),
        take_item_nbt(r3).0 == Some(model),
    ensures
        slot_nbt(body) == Some((window_id, slot, model)),
{
}

/// The stacks of a snapshot are read one by one, in the order of their slots.
pub proof fn snapshots_are_read_in_order(
    s: Seq<u8>,
    n: nat,
    acc: Seq<Option<NbtModel>>,
    value: Option<NbtModel>,
    rest: Seq<u8>,
)
    ensures
        take_item_nbts(s, 0, acc) == (Some(acc), s),
        take_item_nbt(s) == (Some(value), rest) ==> take_item_nbts(s, n + 1, acc) == take_item_nbts(
            rest,
            n,
            acc.push(value),
        ),
{
}

/// A snapshot names its window, a revision and its number of slots, which is 65536 at the
/// most, before what the stacks carry; the stack on the cursor comes last.
pub proof fn snapshots_name_their_window(
    body: Seq<u8>,
    state: i32,
    r1: Seq<u8>,
    count: i32,
    r2: Seq<u8>,
    values: Seq<Option<NbtModel>>,
    r3: Seq<u8>,
)
    requires
        body.len() > 0,
        wire::take_varint(body.subrange(1, body.len() as int)) == (Some(state), r1),
        wire::take_varint(r1) == (Some(count), r2),
    ensures
        0 <= count <= 65536 && take_item_nbts(r2, count as nat, Seq::empty()) == (Some(values), r3)
            && take_item_nbt(r3).0 is Some ==> content_nbt(body) == Some((body[0], values)),
        count < 0 || count > 65536 ==> content_nbt(body) is None,
{
}

/// What stacks carry stands for what their tags stand for, slot by slot.
pub proof fn metadata_stands_for_its_tags(values: Seq<Option<Nbt>>, i: int)
    requires
        0 <= i < values.len(),
    ensures
        metas(values).len() == values.len(),
        values[i] matches Some(tag) ==> metas(values)[i] == Some(tag@),
        values[i] is None ==> metas(values)[i] is None,
{
}

/// A screen that closes takes its menu and what was on the cursor with it; without a menu
/// nothing is reported.
pub proof fn closed_screens_are_gone(windows: &mut Windows, closed: Option<u8>)
    requires
        old(windows).wf(),
        call_ensures(Windows::close_screen, (windows,), closed),
    ensures
        old(windows).container matches Some(menu) ==> closed == Some(menu.window_id)
            && final(windows).container is None && final(windows).carried is None,
        old(windows).container is None ==> closed is None,
{
}

/// A slot of the player's inventory takes the stack that the server names; one that there
/// is not takes none, and the other slots stay.
pub proof fn slots_take_their_stack(
    windows: &mut Windows,
    slot: i32,
    item: Option<SlotItem>,
    other: int,
)
    requires
        old(windows).wf(),
        call_ensures(Windows::set_player_slot, (windows, slot, item), ()),
    ensures
        0 <= slot < 46 ==> final(windows).inventory@[slot as int] == item,
        0 <= other < 46 && other != slot ==> final(windows).inventory@[other]
            == old(windows).inventory@[other],
        final(windows).carried == old(windows).carried,
        final(windows).container == old(windows).container,
{
}

/// A menu opens empty, under its number, with its kind and its title; a number that no
/// window can have opens none. The inventory and the cursor stay.
pub proof fn menus_open_empty(windows: &mut Windows, window_id: i32, menu_type: i32, title: &str)
    requires
        old(windows).wf(),
        call_ensures(Windows::handle_open_screen, (windows, window_id, menu_type, title), ()),
    ensures
        0 <= window_id < 256 ==> final(windows).container is Some && {
            let menu = final(windows).container->0;
            &&& menu.window_id == window_id
            &&& menu.menu_type == menu_type
            &&& menu.title@ == component::plain_json(title@)
            &&& menu.slots@.len() == 0
            &&& menu.properties@[0] == 0 && menu.properties@[1] == 0 && menu.properties@[2] == 0
                && menu.properties@[3] == 0
        },
        window_id < 0 || window_id >= 256 ==> final(windows).container == old(windows).container,
        final(windows).inventory == old(windows).inventory,
        final(windows).carried == old(windows).carried,
{
}

/// A number of a menu changes at its place, in the menu that is open under the window's
/// number, and nothing else does.
pub proof fn menu_numbers_change_at_their_place(
    windows: &mut Windows,
    window_id: u8,
    property: i16,
    value: i16,
    other: int,
)
    requires
        old(windows).wf(),
        call_ensures(Windows::handle_container_data, (windows, window_id, property, value), ()),
        old(windows).container is Some,
        0 <= other < 4,
    ensures
        ({
            let before = old(windows).container->0;
            let met = before.window_id == window_id && 0 <= property < 4;
            &&& !met ==> final(windows).container == old(windows).container
            &&& met ==> final(windows).container is Some
                && final(windows).container->0.properties@[property as int] == value
                && final(windows).container->0.slots == before.slots
                && final(windows).container->0.title == before.title
            &&& met && other != property ==> final(windows).container->0.properties@[other]
                == before.properties@[other]
            &&& final(windows).inventory == old(windows).inventory && final(windows).carried
                == old(windows).carried
        }),
{
}

/// The server closes the menu of a number, and what was on the cursor is gone with it; any
/// other menu stays.
pub proof fn closings_reach_their_menu(windows: &mut Windows, window_id: u8)
    requires
        old(windows).wf(),
        call_ensures(Windows::handle_close_container, (windows, window_id), ()),
    ensures
        old(windows).container matches Some(menu) ==> (menu.window_id == window_id
            ==> final(windows).container is None && final(windows).carried is None),
        old(windows).container matches Some(menu) ==> (menu.window_id != window_id
            ==> final(windows).container == old(windows).container && final(windows).carried
            == old(windows).carried),
        final(windows).inventory == old(windows).inventory,
{
}

/// A snapshot of window 0 fills the inventory slot by slot, and leaves a menu that is open.
pub proof fn snapshots_fill_the_inventory(windows: &mut Windows, content: WindowContent, i: int)
    requires
        old(windows).wf(),
        call_ensures(Windows::handle_container_content, (windows, content), ()),
        content.window_id == 0,
        0 <= i < 46,
    ensures
        i < content.slots@.len() ==> final(windows).inventory@[i] == content.slots@[i],
        i >= content.slots@.len() ==> final(windows).inventory@[i] is None,
        final(windows).carried == content.carried,
        final(windows).window_state == content.state_id,
        final(windows).container == old(windows).container,
{
    resizing_keeps_places(content.slots@, 46, i);
}

/// A snapshot of the menu that is open fills it, and its last 36 slots are the main part of
/// the inventory; one of a menu that is not open changes nothing.
pub proof fn snapshots_fill_the_menu(windows: &mut Windows, content: WindowContent, i: int)
    requires
        old(windows).wf(),
        call_ensures(Windows::handle_container_content, (windows, content), ()),
        content.window_id != 0,
        0 <= i < 36,
    ensures
        old(windows).container matches Some(menu) ==> (menu.window_id == content.window_id ==> {
            &&& final(windows).container is Some
            &&& final(windows).container->0.slots@ == content.slots@
            &&& final(windows).container->0.state_id == content.state_id
            &&& final(windows).container->0.menu_type == menu.menu_type
            &&& final(windows).carried == content.carried
            &&& content.slots@.len() >= 36 ==> final(windows).inventory@[9 + i]
                == content.slots@[content.slots@.len() - 36 + i]
        }),
        old(windows).container matches Some(menu) ==> (menu.window_id != content.window_id
            ==> *final(windows) == *old(windows)),
        old(windows).container is None ==> *final(windows) == *old(windows),
{
}

/// An update of window -1 and slot -1 is for the cursor, one of windows 0 and -2 for the
/// inventory, and any other for the menu that is open under that number.
pub proof fn updates_reach_their_slot(windows: &mut Windows, update: WindowSlot, other: int)
    requires
        old(windows).wf(),
        call_ensures(Windows::handle_container_slot, (windows, update), ()),
        0 <= other < 46,
    ensures
        ({
            let before = *old(windows);
            let after = *final(windows);
            let cursor = update.window_id == -1 && update.slot == -1;
            let own = (update.window_id == 0 || update.window_id == -2) && 0 <= update.slot < 46;
            &&& cursor ==> after.carried == update.item && after.inventory == before.inventory
            &&& !cursor ==> after.carried == before.carried
            &&& own ==> after.inventory@[update.slot as int] == update.item && after.window_state
                == update.state_id && after.container == before.container
            &&& own && other != update.slot ==> after.inventory@[other] == before.inventory@[other]
            &&& update.window_id > 0 && 0 <= update.slot && before.container is Some
                && before.container->0.window_id == update.window_id && update.slot
                < before.container->0.slots@.len() ==> {
                &&& after.container is Some
                &&& after.container->0.slots@[update.slot as int] == update.item
                &&& after.container->0.state_id == update.state_id
                &&& before.container->0.slots@.len() >= 36 && update.slot
                    >= before.container->0.slots@.len() - 36 ==> after.inventory@[9 + update.slot
                    - (before.container->0.slots@.len() - 36)] == update.item
                &&& before.container->0.slots@.len() >= 36 && update.slot
                    < before.container->0.slots@.len() - 36 ==> after.inventory@ == before.inventory@
            }
            &&& update.window_id > 0 && (before.container is None
                || before.container->0.window_id != update.window_id) ==> after == before
            &&& !cursor && update.slot < 0 ==> after == before
        }),
{
}

/// A plain click in the inventory exchanges what the rules of clicks exchange between the
/// slot and the cursor, reports it with the revision of the inventory, and leaves the other
/// slots and a menu that is open.
pub proof fn clicks_exchange_slot_and_cursor(
    windows: &mut Windows,
    registry: &ItemRegistry,
    slot: i16,
    button: i8,
    mode: i32,
    click: Option<PredictedClick>,
    other: int,
)
    requires
        old(windows).wf(),
        call_ensures(Windows::click, (windows, registry, 0u8, slot, button, mode), click),
        mode != 1,
        0 <= slot < 46,
        0 <= other < 46,
        other != slot,
    ensures
        click is Some,
        (final(windows).inventory@[slot as int], final(windows).carried) == clicks::clicked(
            registry,
            old(windows).inventory@[slot as int],
            old(windows).carried,
            button,
        ),
        final(windows).inventory@[other] == old(windows).inventory@[other],
        final(windows).container == old(windows).container,
        click matches Some(told) ==> told.carried == final(windows).carried && told.state_id
            == old(windows).window_state && told.changed@.len() == 1 && told.changed@[0] == (
            slot,
            final(windows).inventory@[slot as int],
        ),
{
    clicks_change_one_slot(
        registry,
        old(windows).inventory@,
        old(windows).carried,
        slot as int,
        button,
        mode,
        clicks::inventory_targets(slot as int),
        other,
    );
}

/// A plain click in a menu does the same to the slots of the menu, and leaves the inventory.
pub proof fn clicks_in_menus_leave_the_inventory(
    windows: &mut Windows,
    registry: &ItemRegistry,
    window_id: u8,
    slot: i16,
    button: i8,
    mode: i32,
    click: Option<PredictedClick>,
    other: int,
)
    requires
        old(windows).wf(),
        call_ensures(Windows::click, (windows, registry, window_id, slot, button, mode), click),
        mode != 1,
        window_id != 0,
        old(windows).container is Some,
        old(windows).container->0.window_id == window_id,
        0 <= slot < old(windows).container->0.slots@.len(),
        0 <= other < old(windows).container->0.slots@.len(),
        other != slot,
    ensures
        click is Some,
        final(windows).inventory == old(windows).inventory,
        final(windows).container is Some,
        (final(windows).container->0.slots@[slot as int], final(windows).carried)
            == clicks::clicked(
            registry,
            old(windows).container->0.slots@[slot as int],
            old(windows).carried,
            button,
        ),
        final(windows).container->0.slots@[other] == old(windows).container->0.slots@[other],
        click matches Some(told) ==> told.state_id == old(windows).container->0.state_id,
{
    let menu = old(windows).container->0;
    clicks_change_one_slot(
        registry,
        menu.slots@,
        old(windows).carried,
        slot as int,
        button,
        mode,
        clicks::container_targets(
            registry,
            menu.slots@,
            slot as int,
            menu.own_slots(),
            menu.menu_type,
        ),
        other,
    );
}

} // verus!
