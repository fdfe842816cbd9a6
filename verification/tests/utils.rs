use rs_internal_ue_palia::sdk::{FBagSlotLocation, FFishCaughtResult, FValeriaItem};
use rs_internal_ue_palia::ue::SpawnObjectParams;
use rs_internal_ue_palia::utils::{get_g_names, get_g_objects, get_g_world, PressedKeys};

#[test]
fn global_addresses() {
    let base = 0x7FF7_D000_0000u64;
    assert_eq!(get_g_objects(base), base + 0x81b5060);
    assert_eq!(get_g_names(base), base + 0x8115540);
    assert_eq!(get_g_world(base), base + 0x830fd50);
}

#[test]
fn key_release_reported_once() {
    let mut keys = PressedKeys::new();
    let down: i16 = i16::MIN;
    let up: i16 = 0;
    assert!(!keys.key_released(0x2D, up));
    assert!(!keys.key_released(0x2D, down));
    assert!(!keys.key_released(0x2D, down | 1));
    assert!(keys.key_released(0x2D, up));
    assert!(!keys.key_released(0x2D, up));
}

#[test]
fn key_states_are_independent() {
    let mut keys = PressedKeys::new();
    assert!(!keys.key_released(0x23, -1));
    assert!(!keys.key_released(0x24, 1));
    assert!(keys.key_released(0x23, 1));
    assert!(!keys.key_released(0x24, 0));
}

#[test]
fn spawn_params_start_empty() {
    let p = SpawnObjectParams::new(0x10, 0x20);
    assert_eq!(p.return_val(), 0);
}

#[test]
fn game_values() {
    let r = FFishCaughtResult::perfect_catch();
    assert_eq!(r.fish_quality, 1);
    assert_eq!(r.fish_type, 0);
    let item = FValeriaItem::from_parts(4, [0; 0x4a]);
    assert_eq!(item.amount, 4);
    let _ = FBagSlotLocation::first_slot();
    let _ = FBagSlotLocation::new(1, 2);
}

#[test]
fn key_release_once_per_cycle_over_a_run() {
    let mut keys = PressedKeys::new();
    let states: [i16; 10] = [0, -1, -2, 0, 0, 0x7FFF, i16::MIN, 0, -1, 1];
    let mut reports = Vec::new();
    for s in states {
        reports.push(keys.key_released(0x7B, s));
    }
    assert_eq!(reports, vec![false, false, false, true, false, false, false, true, false, true]);
    for (s, r) in states.iter().zip(reports.iter()) {
        if *s < 0 {
            assert!(!*r);
        }
    }
}

#[test]
fn catch_result_fields() {
    let r = FFishCaughtResult::perfect_catch();
    assert!(r.was_perfect_catch);
    assert!(!r.was_first_time_catch);
    assert_eq!(r.item_category, 7);
    assert_eq!(r.pad_3, [0; 5]);
    assert_eq!(r.pad_14, [0; 4]);
    let item = FValeriaItem::from_parts(9, [3; 0x4a]);
    assert_eq!(item.pad, [3; 0x4a]);
}
