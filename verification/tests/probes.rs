use shojiwm_backend::formats::{
    advertised_formats, is_nvidia_compressed_modifier, surface_dmabuf_feedback, Format, FormatSet,
    MODIFIER_INVALID, MODIFIER_LINEAR,
};
use shojiwm_backend::geometry::{LogicalPoint, LogicalRect};
use shojiwm_backend::probes::{
    alpha_stats, debug_scene_geometry_snapshot, edge_delta, final_readback_is_due,
    log_gap_final_composite_readback, log_gap_readback_edge_probes, log_gap_readback_probe,
    probe_is_drawn, sample_raw, titlebar_buffer, translate_physical_rect, AlphaStats,
    DecorationBuffer, EdgeDelta, Probe, MAX_FINAL_READBACKS,
};

const COMPRESSED: u64 = 0x0300_0000_0080_0010;
const BLOCKS: u64 = 0x0300_0000_0000_0010;

fn format(code: u32, modifier: u64) -> Format {
    Format { code, modifier }
}

fn all(set: &FormatSet, candidates: &[Format]) -> Vec<Format> {
    candidates.iter().copied().filter(|format| set.contains(*format)).collect()
}

fn probe<'a>(probes: &'a [Probe], side: &str) -> Option<&'a Probe> {
    probes.iter().find(|probe| probe.side == side)
}

#[test]
fn compressed_layouts_are_recognized() {
    assert!(is_nvidia_compressed_modifier(COMPRESSED));
    assert!(!is_nvidia_compressed_modifier(BLOCKS));
    assert!(!is_nvidia_compressed_modifier(0x0100_0000_0080_0010));
    assert!(!is_nvidia_compressed_modifier(0x0300_0000_0080_0000));
    assert!(!is_nvidia_compressed_modifier(MODIFIER_LINEAR));
    assert!(!is_nvidia_compressed_modifier(MODIFIER_INVALID));
}

#[test]
fn format_sets_hold_each_format_once() {
    let (a, b) = (format(1, 0), format(2, 0));
    let mut set = FormatSet::from_list(&[a, b, a]);
    set.insert(b);
    assert_eq!(set.intersection(&FormatSet::from_list(&[b, a])), vec![a, b]);
    assert!(FormatSet::new().intersection(&set).is_empty());
}

#[test]
fn feedback_leaves_compressed_formats_out() {
    let linear = format(1, MODIFIER_LINEAR);
    let blocks = format(1, BLOCKS);
    let compressed = format(1, COMPRESSED);
    let unrendered = format(9, MODIFIER_LINEAR);
    let feedback = surface_dmabuf_feedback(
        &FormatSet::from_list(&[linear, compressed, blocks]),
        &FormatSet::from_list(&[compressed, linear, unrendered]),
        &[blocks, linear],
    );
    assert_eq!(
        all(&feedback.scanout, &[linear, blocks, compressed, unrendered]),
        vec![linear, blocks]
    );
    assert_eq!(feedback.primary, vec![linear]);
    assert_eq!(feedback.primary_or_overlay, vec![linear, blocks]);
}

#[test]
fn advertised_formats_can_be_plain_only() {
    let formats =
        [format(1, BLOCKS), format(1, MODIFIER_LINEAR), format(2, MODIFIER_INVALID)];
    let set = FormatSet::from_list(&formats);
    assert_eq!(all(&advertised_formats(&set, false), &formats), formats.to_vec());
    assert_eq!(all(&advertised_formats(&set, true), &formats), formats[1..].to_vec());
}

#[test]
fn edges_are_probed_within_the_element() {
    let rect = LogicalRect::new(10, 20, 6, 30);
    let probes = log_gap_readback_edge_probes(rect);
    assert_eq!(probe(&probes, "left-4px").unwrap().rect, LogicalRect::new(10, 20, 4, 30));
    assert_eq!(probe(&probes, "right-2px").unwrap().rect, LogicalRect::new(14, 20, 2, 30));
    assert_eq!(probe(&probes, "bottom-1px").unwrap().rect, LogicalRect::new(10, 49, 6, 1));
    assert_eq!(probe(&probes, "right-inset-4px").unwrap().rect, LogicalRect::new(11, 20, 1, 30));
    assert!(probe(&probes, "right-inset-8px").is_none());
    assert_eq!(probe(&probes, "bottom-inset-8px").unwrap().rect, LogicalRect::new(10, 41, 6, 1));
    assert_eq!(probes.len(), 12 + 7);
}

#[test]
fn title_bars_are_found_by_their_shader() {
    let buffer = |key: &str, height| DecorationBuffer { stable_key: key.to_string(), height };
    let buffers = [buffer("border", 30), buffer("bar:shader", 20), buffer("title:shader", 30)];
    assert_eq!(titlebar_buffer(&buffers), Some(2));
    assert_eq!(titlebar_buffer(&buffers[..2]), Some(0));
    assert_eq!(titlebar_buffer(&[]), None);
}

#[test]
fn whole_windows_are_read_back_a_few_times() {
    let mut count: usize = 0;
    assert!(!final_readback_is_due(&mut count, false, true, 5));
    assert!(!final_readback_is_due(&mut count, true, false, 5));
    assert!(!final_readback_is_due(&mut count, true, true, 1));
    assert_eq!(count, 0);
    for _ in 0..MAX_FINAL_READBACKS {
        assert!(final_readback_is_due(&mut count, true, true, 2));
    }
    assert!(!final_readback_is_due(&mut count, true, true, 2));
    assert_eq!(count, 13);
}

#[test]
fn title_bars_are_probed_along_their_hole() {
    let titlebar = LogicalRect::new(0, 0, 4, 30);
    let probes = log_gap_final_composite_readback(titlebar, Some(LogicalRect::new(0, 0, 6, 40)));
    assert_eq!(
        probe(&probes, "titlebar-right-inset-0px").unwrap().rect,
        LogicalRect::new(3, 0, 1, 30)
    );
    assert!(probe(&probes, "titlebar-right-inset-4px").is_none());
    assert_eq!(
        probe(&probes, "parent-hole-right-offset--2px").unwrap().rect,
        LogicalRect::new(4, 0, 1, 30)
    );
    assert_eq!(probes.len(), 4 + 5);
    assert_eq!(log_gap_final_composite_readback(titlebar, None).len(), 4);
    assert_eq!(
        edge_delta(titlebar, LogicalRect::new(1, 2, 6, 40)),
        EdgeDelta { left: -1, top: -2, right: -3, bottom: -12 }
    );
}

#[test]
fn probes_are_moved_and_need_something_to_draw() {
    let rect = LogicalRect::new(1, 2, 3, 4);
    assert_eq!(
        translate_physical_rect(rect, LogicalPoint { x: -1, y: 5 }),
        LogicalRect::new(0, 7, 3, 4)
    );
    assert_eq!(
        translate_physical_rect(rect, LogicalPoint { x: i32::MAX, y: 5 }),
        LogicalRect::new(i32::MAX, 7, 3, 4)
    );
    assert!(probe_is_drawn(rect, 1));
    assert!(!probe_is_drawn(rect, 0));
    assert!(!probe_is_drawn(LogicalRect::new(1, 2, 0, 4), 1));
}

#[test]
fn alpha_values_are_summed_up() {
    let bytes = [1, 2, 3, 0, 4, 5, 6, 200, 7, 8, 9, 90, 255];
    assert_eq!(
        alpha_stats(&bytes),
        AlphaStats { transparent: 1, opaque: 2, min_alpha: 0, max_alpha: 200 }
    );
    assert_eq!(
        alpha_stats(&[]),
        AlphaStats { transparent: 0, opaque: 0, min_alpha: 255, max_alpha: 0 }
    );
}

#[test]
fn pixels_are_sampled_within_the_area() {
    let bytes: Vec<u8> = (0..24).collect();
    assert_eq!(sample_raw(&bytes, 3, 2, 1, 1), Some((16, 17, 18, 19)));
    assert_eq!(sample_raw(&bytes, 3, 2, 3, 0), None);
    assert_eq!(sample_raw(&bytes, 3, 2, 0, -1), None);
    assert_eq!(sample_raw(&bytes[..20], 3, 2, 2, 1), None);
    let report = log_gap_readback_probe(&bytes, 3, 2);
    assert_eq!(report.stats.opaque, 6);
    let points: Vec<(i32, i32)> = report.samples.iter().map(|s| (s.x, s.y)).collect();
    assert_eq!(points, vec![(0, 0), (1, 1), (2, 0), (2, 1), (2, 1)]);
    assert_eq!(report.samples[2].pixel, (8, 9, 10, 11));
}

#[test]
fn scenes_are_summed_up_by_their_extent() {
    let rects: Vec<LogicalRect> = (0..10).map(|i| LogicalRect::new(i, -i, 5, 5)).collect();
    let (union, first) = debug_scene_geometry_snapshot(rects.clone());
    assert_eq!(union, Some(LogicalRect::new(0, -9, 14, 14)));
    assert_eq!(first, rects[..8].to_vec());
    assert_eq!(debug_scene_geometry_snapshot(Vec::new()), (None, Vec::new()));
}
