use shojiwm_backend::modes::{select_output_mode, DisplayModePreference, DrmMode, WlMode};
use shojiwm_backend::timing::{
    blend_render_duration, elapsed_between, sanitize_next_frame_target, saturating_add, MAX_NANOS,
};

fn mode(width: u16, height: u16, hertz: u32, preferred: bool) -> DrmMode {
    DrmMode {
        width,
        height,
        clock: hertz,
        htotal: 1000,
        vtotal: 1,
        vscan: 0,
        vrefresh: hertz,
        interlaced: false,
        double_scan: false,
        preferred,
    }
}

#[test]
fn spans_are_held_at_the_range() {
    assert_eq!(saturating_add(MAX_NANOS, 1), MAX_NANOS);
    assert_eq!(saturating_add(2, 3), 5);
    assert_eq!(elapsed_between(3, 5), 0);
    assert_eq!(elapsed_between(5, 3), 2);
}

#[test]
fn fresh_targets_are_kept_and_stale_ones_dropped() {
    assert_eq!(sanitize_next_frame_target(None, 100, 16), (100, false));
    assert_eq!(sanitize_next_frame_target(Some(84), 100, 16), (84, false));
    assert_eq!(sanitize_next_frame_target(Some(83), 100, 16), (100, true));
    assert_eq!(sanitize_next_frame_target(Some(500), 100, 16), (500, false));
    let (target, stale) = sanitize_next_frame_target(Some(1), 100, 16);
    assert!(stale);
    assert_eq!(sanitize_next_frame_target(Some(target), 100, 16), (target, false));
}

#[test]
fn first_measurement_is_taken_as_it_is() {
    assert_eq!(blend_render_duration(0, 40, 7), 40);
    assert_eq!(blend_render_duration(80, 40, 70), 70);
}

#[test]
fn refresh_rates_are_in_millihertz() {
    let full_hd = DrmMode {
        width: 1920,
        height: 1080,
        clock: 148500,
        htotal: 2200,
        vtotal: 1125,
        vscan: 0,
        vrefresh: 60,
        interlaced: false,
        double_scan: false,
        preferred: true,
    };
    assert_eq!(
        full_hd.wl_mode(),
        WlMode { width: 1920, height: 1080, refresh: 60000 }
    );
    let interlaced = DrmMode { interlaced: true, ..full_hd };
    assert_eq!(interlaced.wl_mode().refresh, 120000);
    let doubled = DrmMode { double_scan: true, ..full_hd };
    assert_eq!(doubled.wl_mode().refresh, 30000);
    let scanned = DrmMode { vscan: 3, ..full_hd };
    assert_eq!(scanned.wl_mode().refresh, 20000);
}

#[test]
fn native_mode_is_chosen_before_larger_ones() {
    let modes = [
        mode(3840, 2160, 60, false),
        mode(1920, 1080, 60, true),
        mode(1920, 1080, 144, false),
    ];
    assert_eq!(
        select_output_mode(&modes, &DisplayModePreference::Auto),
        modes[1]
    );
    assert_eq!(
        select_output_mode(&modes[..1], &DisplayModePreference::Auto),
        modes[0]
    );
}

#[test]
fn without_a_native_mode_the_largest_and_fastest_wins() {
    let modes = [
        mode(1920, 1080, 144, false),
        mode(2560, 1440, 60, false),
        mode(2560, 1440, 75, false),
    ];
    assert_eq!(
        select_output_mode(&modes, &DisplayModePreference::Auto),
        modes[2]
    );
}

#[test]
fn exact_sizes_take_the_nearest_rate() {
    let modes = [
        mode(1920, 1080, 60, true),
        mode(1920, 1080, 75, false),
        mode(1920, 1080, 144, false),
        mode(1280, 720, 60, false),
    ];
    let exact = |refresh_mhz: Option<i32>| DisplayModePreference::Exact {
        width: 1920,
        height: 1080,
        refresh_mhz,
    };
    assert_eq!(select_output_mode(&modes, &exact(Some(80000))), modes[1]);
    assert_eq!(select_output_mode(&modes, &exact(Some(1000))), modes[0]);
    assert_eq!(select_output_mode(&modes, &exact(None)), modes[2]);
    let untimed = DrmMode { vtotal: 0, ..mode(800, 600, 60, true) };
    assert_eq!(select_output_mode(&[untimed, modes[0]], &exact(None)), modes[0]);
}

#[test]
fn sizes_that_are_not_offered_are_no_preference() {
    let modes = [mode(1280, 720, 60, false), mode(1920, 1080, 60, true)];
    assert_eq!(
        select_output_mode(
            &modes,
            &DisplayModePreference::Exact { width: 800, height: 600, refresh_mhz: None }
        ),
        modes[1]
    );
}
