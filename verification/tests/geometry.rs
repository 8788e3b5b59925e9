use shojiwm_backend::geometry::{
    bounding_box_for_rects, clip_capture_to_output, expand_logical_rect, intersect_logical_rects,
    logical_rects_intersect, rectangle_intersection, saturating_add_i32, saturating_sub_i32,
    subtract_logical_rect, EffectOutsets, LogicalPoint, LogicalRect,
};
use shojiwm_backend::region::{
    protocol_background_effect_rects_for_layer, protocol_background_effect_rects_for_popup,
    protocol_background_effect_rects_for_window, region_rects_within_bounds, RectangleKind,
    RegionAttributes,
};

fn rect(x: i32, y: i32, width: i32, height: i32) -> LogicalRect {
    LogicalRect::new(x, y, width, height)
}

fn covers(rects: &[LogicalRect], px: i32, py: i32) -> usize {
    rects
        .iter()
        .filter(|r| r.x <= px && px < r.x + r.width && r.y <= py && py < r.y + r.height)
        .count()
}

#[test]
fn capture_is_clipped_to_the_output() {
    let output = rect(0, 0, 100, 50);
    assert_eq!(
        clip_capture_to_output(rect(-10, -10, 30, 30), output),
        rect(0, 0, 20, 20)
    );
    assert_eq!(
        clip_capture_to_output(rect(200, 200, 5, 5), output),
        rect(200, 200, 5, 5)
    );
}

#[test]
fn bounding_box_of_nothing_is_none() {
    assert_eq!(bounding_box_for_rects(&[]), None);
}

#[test]
fn bounding_box_holds_all_rects() {
    assert_eq!(
        bounding_box_for_rects(&[rect(0, 0, 10, 10), rect(20, -5, 5, 5), rect(3, 8, 2, 30)]),
        Some(rect(0, -5, 25, 43))
    );
}

#[test]
fn bounding_box_takes_rects_of_negative_size() {
    assert_eq!(
        bounding_box_for_rects(&[rect(i32::MIN, 0, 0, 1), rect(5, 0, -10, 1)]),
        Some(rect(i32::MIN, 0, i32::MAX - 4, 1))
    );
}

#[test]
fn bounding_box_does_not_depend_on_order() {
    let (a, b, c) = (rect(0, 0, 10, 10), rect(20, -5, 5, 5), rect(3, 8, 2, 30));
    assert_eq!(bounding_box_for_rects(&[a, b, c]), bounding_box_for_rects(&[c, a, c, b, b]));
}

#[test]
fn intersection_is_the_common_part() {
    assert_eq!(
        intersect_logical_rects(rect(0, 0, 10, 10), rect(5, 5, 10, 10)),
        Some(rect(5, 5, 5, 5))
    );
    assert_eq!(
        intersect_logical_rects(rect(0, 0, 10, 10), rect(10, 0, 10, 10)),
        None
    );
    assert!(logical_rects_intersect(rect(0, 0, 10, 10), rect(9, 9, 1, 1)));
    assert!(!logical_rects_intersect(rect(0, 0, 10, 10), rect(0, 10, 10, 1)));
}

#[test]
fn both_intersections_agree_on_solid_rects() {
    let a = rect(-4, 2, 30, 12);
    let b = rect(10, -6, 9, 40);
    assert_eq!(intersect_logical_rects(a, b), rectangle_intersection(a, b));
    assert_eq!(rectangle_intersection(a, b), Some(rect(10, 2, 9, 12)));
}

#[test]
fn intersection_saturates_at_the_far_edge() {
    assert_eq!(
        rectangle_intersection(rect(0, 0, i32::MAX, 10), rect(5, 0, i32::MAX, 10)),
        Some(rect(5, 0, i32::MAX - 5, 10))
    );
}

#[test]
fn cutting_a_hole_leaves_four_pieces() {
    let pieces = subtract_logical_rect(rect(0, 0, 10, 10), rect(3, 4, 2, 2));
    assert_eq!(
        pieces,
        vec![
            rect(0, 0, 10, 4),
            rect(0, 6, 10, 4),
            rect(0, 4, 3, 2),
            rect(5, 4, 5, 2),
        ]
    );
    for px in 0..10 {
        for py in 0..10 {
            let in_hole = (3..5).contains(&px) && (4..6).contains(&py);
            assert_eq!(covers(&pieces, px, py), if in_hole { 0 } else { 1 });
        }
    }
}

#[test]
fn cutting_elsewhere_changes_nothing() {
    assert_eq!(
        subtract_logical_rect(rect(0, 0, 10, 10), rect(10, 10, 5, 5)),
        vec![rect(0, 0, 10, 10)]
    );
    assert_eq!(
        subtract_logical_rect(rect(2, 2, 4, 4), rect(0, 0, 10, 10)),
        vec![]
    );
}

#[test]
fn expanding_adds_the_outsets() {
    let outsets = EffectOutsets { left: 1, right: 2, top: 3, bottom: 4 };
    assert_eq!(
        expand_logical_rect(rect(10, 20, 30, 40), outsets),
        rect(9, 17, 33, 47)
    );
    assert_eq!(
        expand_logical_rect(rect(i32::MIN, 0, i32::MAX, 1), outsets),
        rect(i32::MIN, -3, i32::MAX, 8)
    );
}

#[test]
fn sums_are_held_at_the_range() {
    assert_eq!(saturating_add_i32(i32::MAX, 1), i32::MAX);
    assert_eq!(saturating_sub_i32(i32::MIN, 1), i32::MIN);
    assert_eq!(saturating_add_i32(-3, 5), 2);
}

#[test]
fn rects_are_seen_from_another_origin() {
    assert_eq!(
        rect(5, 6, 7, 8).relative_to(LogicalPoint { x: 10, y: -1 }),
        rect(-5, 7, 7, 8)
    );
    assert_eq!(rect(5, 6, 7, 8).translated(1, 2), rect(6, 8, 7, 8));
    assert_eq!(rect(5, 6, 7, 8).location(), LogicalPoint { x: 5, y: 6 });
}

#[test]
fn regions_become_pieces_that_do_not_overlap() {
    let region = RegionAttributes {
        rects: vec![
            (RectangleKind::Add, rect(0, 0, 20, 20)),
            (RectangleKind::Add, rect(10, 10, 20, 20)),
            (RectangleKind::Subtract, rect(5, 5, 3, 3)),
        ],
    };
    let pieces = region_rects_within_bounds(&region, rect(0, 0, 25, 25));
    for px in -1..30 {
        for py in -1..30 {
            let in_bounds = (0..25).contains(&px) && (0..25).contains(&py);
            let added = ((0..20).contains(&px) && (0..20).contains(&py))
                || ((10..30).contains(&px) && (10..30).contains(&py));
            let cut = (5..8).contains(&px) && (5..8).contains(&py);
            assert_eq!(
                covers(&pieces, px, py),
                usize::from(in_bounds && added && !cut)
            );
        }
    }
}

#[test]
fn adding_after_subtracting_brings_the_area_back() {
    let region = RegionAttributes {
        rects: vec![
            (RectangleKind::Add, rect(0, 0, 4, 4)),
            (RectangleKind::Subtract, rect(0, 0, 4, 4)),
            (RectangleKind::Add, rect(1, 1, 2, 2)),
        ],
    };
    assert_eq!(
        region_rects_within_bounds(&region, rect(0, 0, 10, 10)),
        vec![rect(1, 1, 2, 2)]
    );
}

#[test]
fn blur_regions_follow_their_surface() {
    let region = Some(RegionAttributes {
        rects: vec![(RectangleKind::Add, rect(0, 0, 100, 10))],
    });
    assert_eq!(
        protocol_background_effect_rects_for_window(&region, rect(50, 60, 20, 30)),
        vec![rect(50, 60, 20, 10)]
    );
    assert_eq!(
        protocol_background_effect_rects_for_layer(
            &region,
            Some(rect(5, 6, 7, 8)),
            LogicalPoint { x: 100, y: 200 }
        ),
        vec![rect(105, 206, 7, 8)]
    );
    assert_eq!(
        protocol_background_effect_rects_for_popup(
            &region,
            rect(-2, 0, 12, 4),
            LogicalPoint { x: 1, y: 1 }
        ),
        vec![rect(1, 1, 10, 4)]
    );
    assert_eq!(
        protocol_background_effect_rects_for_window(&None, rect(0, 0, 10, 10)),
        vec![]
    );
}
