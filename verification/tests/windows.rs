//! Items, clicks and windows.

use crabcraft::clicks::{apply_container_click, apply_inventory_click, PLAYER_INVENTORY_SLOTS};
use crabcraft::component_windows::{
    decode_component_container_content, decode_component_container_slot, decode_cursor_item,
    decode_player_slot,
};
use crabcraft::digging::predict_place;
use crabcraft::items::{
    armour_material, is_interactable_block, ItemDef, ItemRegistry, Material, SlotItem,
};
use crabcraft::nbt::Nbt;
use crabcraft::protocol::ProtocolVersion;
use crabcraft::slots::{FedSlot, Outcome};
use crabcraft::windows::{
    swap_selected_with_offhand, ContainerState, WindowContent, WindowSlot, Windows,
};

fn slot(item_id: i32, count: i8) -> Option<SlotItem> {
    Some(SlotItem { item_id, count })
}

fn define(items: &mut Vec<ItemDef>, id: usize, name: &str, stack_size: u32, state: Option<u32>) {
    items[id] = ItemDef { name: name.to_string(), stack_size, block_state: state };
}

/// Some items under their numbers of version 1.20.1; the others are fillers.
fn registry() -> ItemRegistry {
    let mut items: Vec<ItemDef> = (0..1200)
        .map(|id| ItemDef { name: format!("filler_{id}"), stack_size: 64, block_state: None })
        .collect();
    define(&mut items, 0, "air", 64, Some(0));
    define(&mut items, 1, "stone", 64, Some(1));
    define(&mut items, 51, "iron_ore", 64, Some(131));
    define(&mut items, 762, "coal", 64, None);
    define(&mut items, 764, "diamond", 64, None);
    define(&mut items, 797, "diamond_sword", 1, None);
    define(&mut items, 898, "bucket", 16, None);
    ItemRegistry { items }
}

#[test]
fn only_real_blocks_are_placeable() {
    let registry = registry();
    let air = vec![0];
    assert_eq!(registry.placeable_state(None, &air), None);
    assert_eq!(registry.placeable_state(slot(0, 1), &air), None);
    assert_eq!(registry.placeable_state(slot(1, 0), &air), None);
    assert_eq!(registry.placeable_state(slot(797, 1), &air), None);
    assert_eq!(registry.placeable_state(slot(1, 64), &air), Some(1));
}

#[test]
fn shift_click_merges_before_using_empty_slots() {
    let mut inv = vec![None; PLAYER_INVENTORY_SLOTS];
    inv[9] = slot(1, 10);
    inv[36] = slot(1, 60);
    let mut carried = None;

    let changed = apply_inventory_click(&registry(), &mut inv, &mut carried, 9, 0, 1);

    assert_eq!(inv[9], None);
    assert_eq!(inv[36], slot(1, 64));
    assert_eq!(inv[37], slot(1, 6));
    assert_eq!(carried, None);
    assert_eq!(changed, vec![(36, slot(1, 64)), (37, slot(1, 6)), (9, None)]);
}

#[test]
fn shift_click_moves_hotbar_stack_to_main_inventory() {
    let mut inv = vec![None; PLAYER_INVENTORY_SLOTS];
    inv[40] = slot(764, 3);
    let mut carried = None;

    let changed = apply_inventory_click(&registry(), &mut inv, &mut carried, 40, 0, 1);

    assert_eq!(inv[9], slot(764, 3));
    assert_eq!(inv[40], None);
    assert_eq!(changed, vec![(9, slot(764, 3)), (40, None)]);
}

#[test]
fn shift_click_from_special_slot_prefers_hotbar_end() {
    let mut inv = vec![None; PLAYER_INVENTORY_SLOTS];
    inv[0] = slot(1, 1);
    let mut carried = None;

    apply_inventory_click(&registry(), &mut inv, &mut carried, 0, 0, 1);

    assert_eq!(inv[0], None);
    assert_eq!(inv[44], slot(1, 1));
}

#[test]
fn plain_clicks_pick_up_split_and_swap() {
    let registry = registry();
    let mut inv = vec![None; PLAYER_INVENTORY_SLOTS];
    inv[9] = slot(1, 9);
    let mut carried = None;
    apply_inventory_click(&registry, &mut inv, &mut carried, 9, 1, 0);
    assert_eq!((inv[9], carried), (slot(1, 4), slot(1, 5)));
    inv[10] = slot(764, 2);
    apply_inventory_click(&registry, &mut inv, &mut carried, 10, 0, 0);
    assert_eq!((inv[10], carried), (slot(1, 5), slot(764, 2)));
    apply_inventory_click(&registry, &mut inv, &mut carried, 10, 0, 0);
    assert_eq!((inv[10], carried), (slot(764, 2), slot(1, 5)));
    apply_inventory_click(&registry, &mut inv, &mut carried, 11, 1, 0);
    assert_eq!((inv[11], carried), (slot(1, 1), slot(1, 4)));
}

#[test]
fn shift_clicks_conserve_items() {
    let registry = registry();
    let mut inv = vec![None; PLAYER_INVENTORY_SLOTS];
    inv[12] = slot(898, 16);
    inv[36] = slot(898, 10);
    inv[40] = slot(898, 15);
    let mut carried = None;
    apply_inventory_click(&registry, &mut inv, &mut carried, 12, 0, 1);
    let total: i32 = inv.iter().flatten().map(|item| i32::from(item.count)).sum();
    assert_eq!(total, 41);
    assert!(inv.iter().flatten().all(|item| item.count <= 16));
}

#[test]
fn server_snapshots_and_corrections_update_carried_stack() {
    let mut windows = Windows::new();
    windows.handle_container_content(WindowContent {
        window_id: 0,
        state_id: 4,
        slots: vec![None; PLAYER_INVENTORY_SLOTS],
        carried: slot(764, 2),
    });
    assert_eq!(windows.carried, slot(764, 2));
    assert_eq!(windows.window_state, 4);

    windows.handle_container_slot(WindowSlot {
        window_id: -1,
        state_id: 5,
        slot: -1,
        item: slot(1, 12),
    });
    assert_eq!(windows.carried, slot(1, 12));
    assert_eq!(windows.window_state, 5);
}

#[test]
fn server_container_lifecycle_syncs_player_inventory() {
    let mut windows = Windows::new();
    windows.handle_open_screen(7, 2, r#"{"translate":"container.chest"}"#);
    let mut slots = vec![None; 27 + 36];
    slots[0] = slot(1, 8);
    slots[27] = slot(764, 3);
    windows.handle_container_content(WindowContent {
        window_id: 7,
        state_id: 12,
        slots,
        carried: None,
    });
    let open = windows.container.as_ref().unwrap();
    assert_eq!(open.title, "Chest");
    assert_eq!(open.generic_rows(), Some(3));
    assert_eq!(open.slots[0], slot(1, 8));
    assert_eq!(windows.inventory[9], slot(764, 3));

    windows.handle_container_slot(WindowSlot {
        window_id: 7,
        state_id: 13,
        slot: 27,
        item: slot(764, 4),
    });
    assert_eq!(windows.inventory[9], slot(764, 4));
    windows.handle_close_container(7);
    assert!(windows.container.is_none());
}

#[test]
fn container_shift_click_moves_to_player_inventory() {
    let mut slots = vec![None; 27 + 36];
    slots[0] = slot(1, 10);
    slots[62] = slot(1, 60);
    let mut carried = None;

    let changed = apply_container_click(&registry(), &mut slots, &mut carried, 0, 0, 1, 27, 2);

    assert_eq!(slots[0], None);
    assert_eq!(slots[62], slot(1, 64));
    assert_eq!(slots[61], slot(1, 6));
    assert_eq!(changed[0], (62, slot(1, 64)));
    assert_eq!(changed.last(), Some(&(0, None)));
}

#[test]
fn furnace_properties_and_shift_click_routes_are_tracked() {
    let registry = registry();
    let mut windows = Windows::new();
    windows.handle_open_screen(8, 13, r#"{"translate":"container.furnace"}"#);
    windows.handle_container_data(8, 2, 75);
    let open = windows.container.as_ref().unwrap();
    assert_eq!(open.furnace_texture(), Some("furnace"));
    assert_eq!(open.properties[2], 75);

    let mut slots = vec![None; 39];
    slots[3] = slot(51, 4);
    let mut carried = None;
    apply_container_click(&registry, &mut slots, &mut carried, 3, 0, 1, 3, 13);
    assert_eq!(slots[0], slot(51, 4));
    assert_eq!(slots[3], None);

    slots[4] = slot(762, 2);
    apply_container_click(&registry, &mut slots, &mut carried, 4, 0, 1, 3, 13);
    assert_eq!(slots[1], slot(762, 2));

    slots[5] = slot(764, 1);
    apply_container_click(&registry, &mut slots, &mut carried, 5, 0, 1, 3, 13);
    assert_eq!(slots[30], slot(764, 1));
}

#[test]
fn simple_workstation_menu_types_select_vanilla_layouts() {
    for (menu_type, texture, slots) in [
        (6, "dispenser", 9),
        (7, "anvil", 3),
        (10, "brewing_stand", 5),
        (11, "crafting_table", 10),
        (12, "enchanting_table", 2),
        (14, "grindstone", 3),
        (15, "hopper", 5),
        (17, "loom", 4),
        (20, "smithing", 4),
        (22, "cartography_table", 3),
        (23, "stonecutter", 2),
    ] {
        let state = ContainerState {
            window_id: 1,
            menu_type,
            title: String::new(),
            slots: vec![None; slots + 36],
            slot_metadata: (0..slots + 36).map(|_| None).collect(),
            state_id: 0,
            properties: [0; 4],
        };
        assert_eq!(state.simple_container_texture(), Some(texture));
        assert_eq!(state.container_slot_count(), slots);
    }
}

#[test]
fn crafting_table_shift_click_keeps_result_slot_server_owned() {
    let registry = registry();
    let mut slots = vec![None; 46];
    slots[10] = slot(1, 8);
    let mut carried = None;
    apply_container_click(&registry, &mut slots, &mut carried, 10, 0, 1, 10, 11);
    assert_eq!(slots[0], None);
    assert_eq!(slots[1], None);
    assert_eq!(slots[37], slot(1, 8));

    slots[0] = slot(764, 1);
    apply_container_click(&registry, &mut slots, &mut carried, 0, 0, 1, 10, 11);
    assert_eq!(slots[0], None);
    assert_eq!(slots[45], slot(764, 1));
}

#[test]
fn interaction_blocks_suppress_normal_placement_prediction() {
    for name in [
        "minecraft:chest",
        "minecraft:furnace",
        "minecraft:oak_door",
        "minecraft:stone_button",
    ] {
        assert!(is_interactable_block(name));
    }
    assert!(!is_interactable_block("minecraft:stone"));
}

#[test]
fn placements_are_predicted_unless_the_target_is_used() {
    assert_eq!(predict_place(false, Some("minecraft:chest"), Some(9)), None);
    assert_eq!(predict_place(true, Some("minecraft:chest"), Some(9)), Some(9));
    assert_eq!(predict_place(false, Some("minecraft:stone"), Some(9)), Some(9));
    assert_eq!(predict_place(false, None, Some(9)), Some(9));
    assert_eq!(predict_place(false, None, None), None);
}

#[test]
fn swap_hands_exchanges_selected_hotbar_and_offhand_slots() {
    let mut inventory = vec![None; 46];
    inventory[38] = slot(1, 12);
    inventory[45] = slot(764, 1);

    swap_selected_with_offhand(&mut inventory, 2);

    assert_eq!(inventory[38], slot(764, 1));
    assert_eq!(inventory[45], slot(1, 12));

    swap_selected_with_offhand(&mut inventory, 2);
    assert_eq!(inventory[38], slot(1, 12));
}

#[test]
fn clicks_in_windows_report_their_revision() {
    let registry = registry();
    let mut windows = Windows::new();
    windows.inventory[9] = slot(1, 3);
    windows.window_state = 17;
    let click = windows.click(&registry, 0, 9, 0, 0).unwrap();
    assert_eq!(click.state_id, 17);
    assert_eq!(click.carried, slot(1, 3));
    assert_eq!(click.changed, vec![(9, None)]);
    assert!(windows.click(&registry, 0, 46, 0, 0).is_none());
    assert!(windows.click(&registry, 3, 0, 0, 0).is_none());
}

#[test]
fn closing_a_screen_empties_the_cursor() {
    let mut windows = Windows::new();
    assert_eq!(windows.close_screen(), None);
    windows.handle_open_screen(5, 2, "\"Box\"");
    windows.carried = slot(1, 1);
    assert_eq!(windows.close_screen(), Some(5));
    assert!(windows.container.is_none());
    assert_eq!(windows.carried, None);
}

#[test]
fn labels_and_summaries_name_items() {
    let registry = registry();
    assert_eq!(registry.item_label(764), "diamond");
    assert_eq!(registry.item_label(-3), "item#-3");
    assert_eq!(registry.inventory_summary(&vec![None, None]), "empty");
    assert_eq!(
        registry.inventory_summary(&vec![slot(1, 2), None, slot(764, 5)]),
        "[0]=stonex2 [2]=diamondx5"
    );
    assert_eq!(registry.stack_max(898), 16);
    assert!(registry.is_furnace_fuel(762));
    assert!(!registry.is_furnace_fuel(764));
    assert!(registry.is_smeltable(51));
    assert!(!registry.is_smeltable(762));
}

#[test]
fn armour_materials_come_from_names() {
    assert_eq!(armour_material("leather_boots"), Material::Leather);
    assert_eq!(armour_material("golden_helmet"), Material::Gold);
    assert_eq!(armour_material("diamond_chestplate"), Material::Diamond);
    assert_eq!(armour_material("netherite_boots"), Material::Netherite);
    assert_eq!(armour_material("chainmail_boots"), Material::Chainmail);
    assert_eq!(armour_material("turtle_helmet"), Material::Turtle);
    assert_eq!(armour_material("iron_boots"), Material::Plain);
}

fn fed(item: Option<SlotItem>, metadata: Option<Nbt>, used: usize) -> FedSlot {
    FedSlot { item, metadata, used }
}

#[test]
fn component_snapshots_are_read_in_rounds() {
    // Window 3, revision 5, two slots of two bytes each, and the cursor.
    let body = [3, 5, 2, 0xaa, 0xab, 0xba, 0xbb, 0xcc];
    let mut slots = Vec::new();
    match decode_component_container_content(&body, &slots) {
        Outcome::NeedSlot(left) => assert_eq!(left, 5),
        _ => panic!("a stack is missing"),
    }
    slots.push(fed(slot(1, 2), Some(Nbt::Int(9)), 2));
    slots.push(fed(None, None, 2));
    match decode_component_container_content(&body, &slots) {
        Outcome::NeedSlot(left) => assert_eq!(left, 1),
        _ => panic!("the cursor is missing"),
    }
    slots.push(fed(slot(764, 1), None, 1));
    match decode_component_container_content(&body, &slots) {
        Outcome::Done(read) => {
            assert_eq!(read.content.window_id, 3);
            assert_eq!(read.content.state_id, 5);
            assert_eq!(read.content.slots, vec![slot(1, 2), None]);
            assert_eq!(read.content.carried, slot(764, 1));
            assert!(matches!(read.metadata[0], Some(Nbt::Int(9))));
            assert!(read.metadata[1].is_none());
        }
        _ => panic!("everything is there"),
    }
    assert!(matches!(
        decode_component_container_content(&[3, 5], &slots),
        Outcome::Malformed
    ));
}

#[test]
fn component_slot_updates_carry_their_data() {
    let body = [0xff, 7, 0, 4, 0x55];
    match decode_component_container_slot(&body, &vec![fed(slot(1, 1), Some(Nbt::Byte(3)), 1)]) {
        Outcome::Done((update, data)) => {
            assert_eq!(
                update,
                WindowSlot { window_id: -1, state_id: 7, slot: 4, item: slot(1, 1) }
            );
            assert!(matches!(data, Some(Nbt::Byte(3))));
        }
        _ => panic!("the update is complete"),
    }
}

#[test]
fn lone_stacks_are_optional_in_768_only() {
    let none: Vec<FedSlot> = Vec::new();
    assert!(matches!(
        decode_cursor_item(&[0], ProtocolVersion::V1_21_2, &none),
        Outcome::Done(None)
    ));
    assert!(matches!(
        decode_cursor_item(&[0], ProtocolVersion::V1_21_4, &none),
        Outcome::NeedSlot(1)
    ));
    let one = vec![fed(slot(5, 6), Some(Nbt::Byte(1)), 1)];
    match decode_player_slot(&[12, 1, 0], ProtocolVersion::V1_21_2, &one) {
        Outcome::Done(read) => {
            assert_eq!((read.slot, read.item), (12, slot(5, 6)));
            assert!(read.keeps_metadata);
        }
        _ => panic!("the slot is complete"),
    }
    match decode_player_slot(&[12, 1], ProtocolVersion::V1_21_5, &one) {
        Outcome::Done(read) => {
            assert!(!read.keeps_metadata);
            assert!(matches!(read.metadata, Some(Nbt::Byte(1))));
        }
        _ => panic!("the slot is complete"),
    }
}

#[test]
fn shulker_boxes_are_opened_dyed_or_not() {
    assert!(is_interactable_block("minecraft:shulker_box"));
    assert!(is_interactable_block("minecraft:red_shulker_box"));
    assert!(is_interactable_block("shulker_box"));
    assert!(!is_interactable_block("minecraft:shulker_box_lid"));
    assert_eq!(predict_place(false, Some("minecraft:shulker_box"), Some(1)), None);
    assert_eq!(predict_place(true, Some("minecraft:shulker_box"), Some(1)), Some(1));
}

#[test]
fn quick_moves_reach_no_further_than_they_must() {
    let registry = registry();
    let mut carried = None;
    let mut few = vec![None, slot(1, 3)];
    let changed = apply_container_click(&registry, &mut few, &mut carried, 1, 0, 1, 5, 2);
    assert_eq!(few, vec![None, slot(1, 3)]);
    assert_eq!(changed, vec![(1, slot(1, 3))]);
    assert!(apply_container_click(&registry, &mut few, &mut carried, 0, 0, 1, 3, 13).is_empty());
    let mut short = vec![None; 37];
    assert!(apply_inventory_click(&registry, &mut short, &mut carried, 9, 0, 1).is_empty());
    short[9] = slot(1, 4);
    short[36] = slot(1, 60);
    apply_inventory_click(&registry, &mut short, &mut carried, 9, 0, 1);
    assert_eq!((short[9], short[36]), (None, slot(1, 64)));
}

#[test]
fn quick_moves_leave_no_stack_of_nothing() {
    let mut inv = vec![None; PLAYER_INVENTORY_SLOTS];
    for place in 0..9 {
        inv[36 + place] = slot(1, 60);
    }
    inv[9] = slot(1, 36);
    let mut carried = None;
    apply_inventory_click(&registry(), &mut inv, &mut carried, 9, 0, 1);
    assert!(inv.iter().flatten().all(|item| item.count > 0));
    assert_eq!(inv[9], None);
    assert_eq!(inv[44], slot(1, 64));
}

#[test]
fn quick_moves_merge_before_they_fill() {
    let mut inv = vec![None; PLAYER_INVENTORY_SLOTS];
    inv[9] = slot(1, 40);
    inv[36] = slot(2, 5);
    inv[38] = slot(1, 50);
    inv[40] = slot(1, 60);
    let mut carried = None;
    apply_inventory_click(&registry(), &mut inv, &mut carried, 9, 0, 1);
    assert_eq!((inv[9], inv[36], inv[37]), (None, slot(2, 5), slot(1, 22)));
    assert_eq!((inv[38], inv[40]), (slot(1, 64), slot(1, 64)));
    assert!((41..45).all(|place| inv[place].is_none()));
}

#[test]
fn quick_moves_fill_nothing_while_stacks_have_room() {
    let mut inv = vec![None; PLAYER_INVENTORY_SLOTS];
    inv[9] = slot(1, 14);
    inv[44] = slot(1, 50);
    let mut carried = None;
    apply_inventory_click(&registry(), &mut inv, &mut carried, 9, 0, 1);
    assert_eq!((inv[9], inv[36], inv[44]), (None, None, slot(1, 64)));
}

#[test]
fn quick_moves_neither_shrink_nor_overfill_other_stacks() {
    let mut inv = vec![None; PLAYER_INVENTORY_SLOTS];
    inv[9] = slot(1, 64);
    for place in 36..45 {
        inv[place] = slot(1, 100);
    }
    let before = inv.clone();
    let mut carried = None;
    apply_inventory_click(&registry(), &mut inv, &mut carried, 9, 0, 1);
    assert_eq!(inv, before);
}
