use shojiwm_backend::notes::{
    browser_cpu_debug_allowed, clip_selection_debug_allowed, direct_scanout_debug_log_allowed,
    direct_scanout_state_map, flag_enabled, fullscreen_fast_path_state_map,
    note_direct_scanout_transition, note_fullscreen_fast_path_transition, note_present_rate,
    note_tearing_transition, output_has_visible_mpv, output_has_visible_x11_chrome,
    present_rate_state_map, previous_frame_state, previous_snapshot_visual_transform,
    record_animation_gap, tearing_state_map, Transition,
};
use shojiwm_backend::table::{colon_key, str_eq, NameSet, NameTable};
use shojiwm_backend::text::{append_decimal, append_i32, append_usize, decimal_text};

const SECOND: u128 = 1_000_000_000;

#[test]
fn flags_are_set_by_any_other_value_than_zero() {
    assert!(!flag_enabled(None));
    assert!(!flag_enabled(Some(b"")));
    assert!(!flag_enabled(Some(b"0")));
    assert!(flag_enabled(Some(b"1")));
    assert!(flag_enabled(Some(b"00")));
}

#[test]
fn browsers_are_known_by_their_class() {
    let class = |name: &str| Some(name.to_string());
    assert!(output_has_visible_x11_chrome(&[None, class("Google-Chrome")]));
    assert!(output_has_visible_x11_chrome(&[class("CHROMIUM")]));
    assert!(!output_has_visible_x11_chrome(&[class("firefox"), None]));
    assert!(output_has_visible_mpv(&[class("mpv")]));
    assert!(!output_has_visible_mpv(&[None, class("kitty")]));
}

#[test]
fn logs_are_spaced() {
    let mut times: NameTable<u128> = NameTable::new();
    assert!(direct_scanout_debug_log_allowed(&mut times, "DP-1", SECOND));
    assert!(!direct_scanout_debug_log_allowed(&mut times, "DP-1", SECOND + 1));
    assert!(direct_scanout_debug_log_allowed(&mut times, "DP-2", SECOND + 1));
    assert!(direct_scanout_debug_log_allowed(&mut times, "DP-1", 2 * SECOND));
}

#[test]
fn logs_that_are_switched_off_are_never_due() {
    let mut times: NameTable<u128> = NameTable::new();
    assert!(!browser_cpu_debug_allowed(false, &mut times, "DP-1", 0));
    assert!(browser_cpu_debug_allowed(true, &mut times, "DP-1", 0));
    assert!(!clip_selection_debug_allowed(false, &mut times, "7", Some("app"), 0));
}

#[test]
fn gaps_are_measured_from_the_time_before() {
    let mut times: NameTable<u128> = NameTable::new();
    assert_eq!(record_animation_gap(&mut times, "frame", "DP-1", 10), None);
    assert_eq!(record_animation_gap(&mut times, "frame", "DP-1", 25), Some(15));
    assert_eq!(record_animation_gap(&mut times, "callback", "DP-1", 30), None);
}

#[test]
fn states_of_the_frame_before_are_handed_back() {
    let mut states: NameTable<u8> = NameTable::new();
    assert_eq!(previous_frame_state(&mut states, "a", 1), None);
    assert_eq!(previous_frame_state(&mut states, "a", 2), Some(1));
    assert_eq!(previous_frame_state(&mut states, "b", 3), None);
    let mut transforms: NameTable<u8> = NameTable::new();
    assert_eq!(previous_snapshot_visual_transform(&mut transforms, "w", "DP-1", 1), None);
    assert_eq!(previous_snapshot_visual_transform(&mut transforms, "w", "DP-2", 2), None);
    assert_eq!(previous_snapshot_visual_transform(&mut transforms, "w", "DP-1", 3), Some(1));
}

#[test]
fn transitions_are_reported_once() {
    let mut states = fullscreen_fast_path_state_map();
    assert_eq!(
        note_fullscreen_fast_path_transition(&mut states, "DP-1", true),
        Transition::Engaged
    );
    assert_eq!(
        note_fullscreen_fast_path_transition(&mut states, "DP-1", true),
        Transition::Unchanged
    );
    assert_eq!(
        note_fullscreen_fast_path_transition(&mut states, "DP-1", false),
        Transition::Disengaged
    );
    let mut states = direct_scanout_state_map();
    assert_eq!(
        note_direct_scanout_transition(&mut states, "DP-1", false),
        Transition::Disengaged
    );
    assert_eq!(
        note_direct_scanout_transition(&mut states, "DP-1", true),
        Transition::Engaged
    );
    let mut states = tearing_state_map();
    assert_eq!(note_tearing_transition(&mut states, "DP-1", true), Transition::Engaged);
    assert_eq!(note_tearing_transition(&mut states, "DP-2", false), Transition::Disengaged);
}

#[test]
fn present_rates_are_reported_every_second() {
    let mut counts = present_rate_state_map();
    assert_eq!(note_present_rate(false, &mut counts, "DP-1", 0), None);
    assert_eq!(note_present_rate(true, &mut counts, "DP-1", 0), None);
    assert_eq!(note_present_rate(true, &mut counts, "DP-1", SECOND / 2), None);
    let rate = note_present_rate(true, &mut counts, "DP-1", SECOND).unwrap();
    assert_eq!(rate.window, SECOND);
    assert_eq!(rate.presents, 3);
    assert_eq!(note_present_rate(true, &mut counts, "DP-1", SECOND + 1), None);
}

#[test]
fn numbers_are_written_in_decimal() {
    let mut text = String::new();
    append_decimal(&mut text, -120);
    append_i32(&mut text, 7);
    append_usize(&mut text, 10);
    assert_eq!(text, "-120710");
    assert_eq!(decimal_text(0), "0");
    assert_eq!(decimal_text(u32::MAX), "4294967295");
    let mut least = String::new();
    append_i32(&mut least, i32::MIN);
    assert_eq!(least, "-2147483648");
}

#[test]
fn keys_with_a_colon_tell_their_parts_apart() {
    assert_eq!(colon_key("a", "b:c"), "a:b:c");
    assert_ne!(colon_key("a", "bc"), colon_key("ab", "c"));
    assert_ne!(colon_key("a:b", "c"), colon_key("a", "bc"));
    assert!(str_eq("name", "name"));
    assert!(!str_eq("name", "nam"));
}

#[test]
fn tables_and_sets_of_names_work() {
    let mut set = NameSet::new();
    assert!(set.insert("a"));
    assert!(!set.insert("a"));
    assert!(set.contains("a"));
    set.remove("a");
    assert!(!set.contains("a"));
    let mut table: NameTable<u32> = NameTable::new();
    assert_eq!(table.insert("a", 1), None);
    assert_eq!(table.insert("a", 2), Some(1));
    assert_eq!(table.get("a"), Some(2));
    assert_eq!(table.get_ref("b"), None);
    table.set("b", 5);
    assert_eq!(table.get_ref("b"), Some(&5));
    table.remove("a");
    assert!(!table.contains("a"));
}
