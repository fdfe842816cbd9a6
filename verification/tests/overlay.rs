use rs_internal_ue_palia::overlay::{
    actor_label_color, is_draw_hud_event, is_player_character, is_pregame_controller,
    is_skipped_actor, is_start_fishing_event, should_sell_catch, FishingBot, FishingStep,
};
use rs_internal_ue_palia::ue::Color;

#[test]
fn event_names() {
    assert!(is_draw_hud_event("Function Engine.HUD.ReceiveDrawHUD"));
    assert!(!is_draw_hud_event("Function Engine.HUD.ReceiveDrawHUDs"));
    assert!(!is_draw_hud_event("Function Engine.HUD"));
    assert!(is_start_fishing_event("Function Palia.FishingComponent.RpcClient_StartFishingAt"));
    assert!(!is_start_fishing_event("Function Engine.HUD.ReceiveDrawHUD"));
}

#[test]
fn catch_selling() {
    assert!(should_sell_catch("DA_Fish_Bass"));
    assert!(should_sell_catch("Fish"));
    assert!(!should_sell_catch("DA_Junk_Boot"));
    assert!(!should_sell_catch("fish"));
    assert!(!should_sell_catch(""));
}

#[test]
fn controller_and_character_names() {
    assert!(is_pregame_controller("BP_PregamePlayerController_C_0"));
    assert!(!is_pregame_controller("BP_ValeriaPlayerController_C"));
    assert!(is_player_character("BP_ValeriaCharacter_C_3"));
    assert!(!is_player_character("Valeria"));
}

#[test]
fn skipped_actors() {
    assert!(is_skipped_actor(0, 0x10));
    assert!(is_skipped_actor(0x10, 0x10));
    assert!(!is_skipped_actor(0x20, 0x10));
}

#[test]
fn label_colors() {
    assert_eq!(actor_label_color("BP_Tree_Oak_2"), Some(Color::Green));
    assert_eq!(actor_label_color("BP_Loot_C"), Some(Color::Purple));
    assert_eq!(actor_label_color("BP_Mining_Iron"), Some(Color::Yellow));
    assert_eq!(actor_label_color("BP_Bug_Beetle"), Some(Color::White));
    assert_eq!(actor_label_color("Choppable_Log"), Some(Color::White));
    assert_eq!(actor_label_color("BP_ValeriaHuntingCreature_Chapaa"), Some(Color::White));
    assert_eq!(actor_label_color("Item_Spiced"), Some(Color::White));
    assert_eq!(actor_label_color("BP_Villager"), None);
    assert_eq!(actor_label_color(""), None);
}

#[test]
fn label_color_priority() {
    assert_eq!(actor_label_color("X_Tree_Loot"), Some(Color::Purple));
    assert_eq!(actor_label_color("X_Loot_Mining"), Some(Color::Yellow));
    assert_eq!(actor_label_color("X_Tree_Mining_Loot"), Some(Color::Yellow));
}

#[test]
fn fishing_idle_until_switched_on() {
    let mut bot = FishingBot::new();
    let s = bot.step(true, 10_000, true);
    assert_eq!(s, FishingStep { engaged: false, cast: false, recast: false });
    bot.toggle();
    let s = bot.step(false, 10_000, true);
    assert!(!s.engaged);
}

#[test]
fn fishing_casts_once_then_recasts() {
    let mut bot = FishingBot::new();
    bot.toggle();
    assert_eq!(bot.step(true, 400, true), FishingStep { engaged: true, cast: false, recast: false });
    assert_eq!(bot.step(true, 600, false), FishingStep { engaged: true, cast: false, recast: false });
    assert_eq!(bot.step(true, 600, true), FishingStep { engaged: true, cast: true, recast: false });
    assert_eq!(bot.step(true, 900, true), FishingStep { engaged: true, cast: false, recast: false });
    assert_eq!(bot.step(true, 1800, true), FishingStep { engaged: true, cast: false, recast: true });
    assert_eq!(bot.step(true, 600, true), FishingStep { engaged: true, cast: true, recast: false });
}

#[test]
fn fishing_start_event_rearms() {
    let mut bot = FishingBot::new();
    bot.toggle();
    assert!(bot.step(true, 501, true).cast);
    assert!(!bot.step(true, 502, true).cast);
    bot.on_fishing_started();
    assert!(bot.step(true, 503, true).cast);
}

#[test]
fn fishing_toggle_off() {
    let mut bot = FishingBot::new();
    bot.toggle();
    bot.toggle();
    assert!(!bot.step(true, 5000, true).engaged);
}

#[test]
fn engine_readiness() {
    assert!(!rs_internal_ue_palia::overlay::engine_ready(0, 10));
    assert!(!rs_internal_ue_palia::overlay::engine_ready(0x1000, 0));
    assert!(rs_internal_ue_palia::overlay::engine_ready(0x1000, 1));
}
