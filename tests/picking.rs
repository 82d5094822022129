use cgar_viewer::picking::{
    classify_release, collapse_direction, plan_hit, release_pointer, HighlightedEdges, HitPlan,
    MeshHit, PointerKey, PointerPresses, PressRecord, Release, ScreenPos, ToggledEdgeOperations,
    HIT_PARAM_HALF,
};

fn pos(x: i32, y: i32) -> ScreenPos {
    ScreenPos { x, y }
}

fn press_at(x: i32, y: i32, target: Option<u64>) -> PressRecord {
    PressRecord { pointer: PointerKey::Mouse, position: pos(x, y), target }
}

fn highlighted(ids: &[u64]) -> HighlightedEdges {
    let mut h = HighlightedEdges::new();
    for id in ids {
        h.record(*id);
    }
    h
}

#[test]
fn release_within_deadzone_on_same_target_is_a_click() {
    let r = classify_release(Some(press_at(100_000, 100_000, Some(4))), pos(102_000, 102_000), Some(4));
    assert_eq!(r, Release::Click);
    // exactly on the deadzone: 3 pixels straight across
    let r = classify_release(Some(press_at(0, 0, Some(4))), pos(3000, 0), Some(4));
    assert_eq!(r, Release::Click);
}

#[test]
fn release_beyond_deadzone_is_a_drag() {
    let r = classify_release(Some(press_at(0, 0, Some(4))), pos(3001, 0), Some(4));
    assert_eq!(r, Release::Drag);
    let r = classify_release(Some(press_at(0, 0, Some(4))), pos(2200, 2200), Some(4));
    assert_eq!(r, Release::Drag);
}

#[test]
fn release_on_another_target_is_a_drag() {
    let r = classify_release(Some(press_at(0, 0, Some(4))), pos(0, 0), Some(5));
    assert_eq!(r, Release::Drag);
}

#[test]
fn unknown_target_counts_as_the_same() {
    assert_eq!(classify_release(Some(press_at(0, 0, None)), pos(10, 10), Some(5)), Release::Click);
    assert_eq!(classify_release(Some(press_at(0, 0, Some(4))), pos(10, 10), None), Release::Click);
}

#[test]
fn release_without_press_is_unmatched() {
    assert_eq!(classify_release(None, pos(0, 0), Some(1)), Release::Unmatched);
}

#[test]
fn extreme_positions_do_not_overflow() {
    let r = classify_release(Some(press_at(i32::MIN, i32::MIN, None)), pos(i32::MAX, i32::MAX), None);
    assert_eq!(r, Release::Drag);
}

#[test]
fn click_on_mesh_clears_the_selection() {
    let mut presses = PointerPresses::new();
    let mut highlights = highlighted(&[11, 12, 13]);
    presses.press(PointerKey::Mouse, pos(5000, 5000), Some(42));
    let effect = release_pointer(&mut presses, &mut highlights, PointerKey::Mouse, pos(5500, 5000), Some(42), true);
    assert_eq!(effect.outcome, Release::Click);
    assert_eq!(effect.despawn, vec![11, 12, 13]);
    assert!(highlights.cylinders.is_empty());
}

#[test]
fn drag_leaves_the_selection() {
    let mut presses = PointerPresses::new();
    let mut highlights = highlighted(&[11, 12]);
    presses.press(PointerKey::Mouse, pos(0, 0), Some(42));
    let effect = release_pointer(&mut presses, &mut highlights, PointerKey::Mouse, pos(40_000, 0), Some(42), true);
    assert_eq!(effect.outcome, Release::Drag);
    assert!(effect.despawn.is_empty());
    assert_eq!(highlights.cylinders, vec![11, 12]);
}

#[test]
fn click_off_any_mesh_leaves_the_selection() {
    let mut presses = PointerPresses::new();
    let mut highlights = highlighted(&[11]);
    presses.press(PointerKey::Touch(3), pos(0, 0), Some(8));
    let effect = release_pointer(&mut presses, &mut highlights, PointerKey::Touch(3), pos(0, 0), Some(8), false);
    assert_eq!(effect.outcome, Release::Click);
    assert!(effect.despawn.is_empty());
    assert_eq!(highlights.cylinders, vec![11]);
}

#[test]
fn press_record_is_consumed_by_its_release() {
    let mut presses = PointerPresses::new();
    let mut highlights = HighlightedEdges::new();
    presses.press(PointerKey::Mouse, pos(0, 0), None);
    let first = release_pointer(&mut presses, &mut highlights, PointerKey::Mouse, pos(0, 0), None, true);
    assert_eq!(first.outcome, Release::Click);
    let second = release_pointer(&mut presses, &mut highlights, PointerKey::Mouse, pos(0, 0), None, true);
    assert_eq!(second.outcome, Release::Unmatched);
}

#[test]
fn pointers_are_tracked_apart() {
    let mut presses = PointerPresses::new();
    presses.press(PointerKey::Touch(1), pos(0, 0), Some(1));
    presses.press(PointerKey::Touch(2), pos(90_000, 0), Some(2));
    presses.press(PointerKey::Custom(7), pos(50_000, 50_000), None);
    assert_eq!(presses.take(PointerKey::Touch(2)), Some(PressRecord { pointer: PointerKey::Touch(2), position: pos(90_000, 0), target: Some(2) }));
    assert_eq!(presses.take(PointerKey::Touch(2)), None);
    assert_eq!(presses.take(PointerKey::Mouse), None);
    assert_eq!(presses.take(PointerKey::Touch(1)), Some(PressRecord { pointer: PointerKey::Touch(1), position: pos(0, 0), target: Some(1) }));
    assert_eq!(presses.take(PointerKey::Custom(7)).map(|r| r.position), Some(pos(50_000, 50_000)));
}

#[test]
fn a_second_press_replaces_the_first() {
    let mut presses = PointerPresses::new();
    presses.press(PointerKey::Mouse, pos(0, 0), Some(1));
    presses.press(PointerKey::Mouse, pos(70_000, 0), Some(2));
    assert_eq!(presses.take(PointerKey::Mouse), Some(PressRecord { pointer: PointerKey::Mouse, position: pos(70_000, 0), target: Some(2) }));
    assert_eq!(presses.take(PointerKey::Mouse), None);
}

#[test]
fn clear_hands_back_every_entity() {
    let mut h = highlighted(&[1, 2, 3]);
    assert_eq!(h.clear(), vec![1, 2, 3]);
    assert!(h.cylinders.is_empty());
    assert!(h.clear().is_empty());
}

#[test]
fn face_hit_marks_every_boundary_edge() {
    let boundary = vec![(0, 1), (1, 5), (5, 0)];
    match plan_hit(MeshHit::Face { face: 3, boundary: boundary.clone() }, false) {
        HitPlan::Highlight(edges) => {
            assert_eq!(edges, boundary);
            let mut h = highlighted(&[77]);
            h.clear();
            for (i, _) in edges.iter().enumerate() {
                h.record(100 + i as u64);
            }
            assert_eq!(h.cylinders.len(), 3);
        }
        other => panic!("expected highlights, got {:?}", other),
    }
}

#[test]
fn face_hit_marks_even_in_collapse_mode() {
    match plan_hit(MeshHit::Face { face: 0, boundary: vec![(2, 3), (3, 4), (4, 2)] }, true) {
        HitPlan::Highlight(edges) => assert_eq!(edges.len(), 3),
        other => panic!("expected highlights, got {:?}", other),
    }
}

#[test]
fn edge_hit_marks_one_edge() {
    match plan_hit(MeshHit::Edge { v0: 4, v1: 9, u: 300_000_000 }, false) {
        HitPlan::Highlight(edges) => assert_eq!(edges, vec![(4, 9)]),
        other => panic!("expected highlights, got {:?}", other),
    }
}

#[test]
fn miss_and_vertex_hit_mark_nothing() {
    for hit in [MeshHit::Miss, MeshHit::Vertex(2)] {
        match plan_hit(hit, false) {
            HitPlan::Highlight(edges) => assert!(edges.is_empty()),
            other => panic!("expected no highlights, got {:?}", other),
        }
    }
}

#[test]
fn repeated_miss_clicks_leave_nothing_behind() {
    let mut presses = PointerPresses::new();
    let mut highlights = highlighted(&[5, 6]);
    let mut retired: Vec<u64> = Vec::new();
    for _ in 0..2 {
        presses.press(PointerKey::Mouse, pos(1000, 1000), Some(9));
        let effect = release_pointer(&mut presses, &mut highlights, PointerKey::Mouse, pos(1000, 1000), Some(9), true);
        assert_eq!(effect.outcome, Release::Click);
        retired.extend(effect.despawn);
        match plan_hit(MeshHit::Miss, false) {
            HitPlan::Highlight(edges) => assert!(edges.is_empty()),
            other => panic!("expected no highlights, got {:?}", other),
        }
        assert!(highlights.cylinders.is_empty());
    }
    assert_eq!(retired, vec![5, 6]);
}

#[test]
fn collapse_removes_the_endpoint_nearer_the_hit() {
    // u = 0.2: nearer v0, so v0 goes and v1 stays
    assert_eq!(collapse_direction(4, 9, 200_000_000), (9, 4));
    // u = 0.8: nearer v1, so v1 goes and v0 stays
    assert_eq!(collapse_direction(4, 9, 800_000_000), (4, 9));
    // the middle itself counts as nearer v1
    assert_eq!(collapse_direction(4, 9, HIT_PARAM_HALF), (4, 9));
    assert_eq!(collapse_direction(4, 9, HIT_PARAM_HALF - 1), (9, 4));
}

#[test]
fn armed_edge_hit_plans_a_collapse() {
    match plan_hit(MeshHit::Edge { v0: 4, v1: 9, u: 200_000_000 }, true) {
        HitPlan::Collapse { keep, remove } => assert_eq!((keep, remove), (9, 4)),
        other => panic!("expected a collapse, got {:?}", other),
    }
    match plan_hit(MeshHit::Edge { v0: 4, v1: 9, u: 800_000_000 }, true) {
        HitPlan::Collapse { keep, remove } => assert_eq!((keep, remove), (4, 9)),
        other => panic!("expected a collapse, got {:?}", other),
    }
}

#[test]
fn collapse_mode_toggles() {
    let mut t = ToggledEdgeOperations::new();
    assert!(!t.collapse);
    t.toggle_collapse();
    assert!(t.collapse);
    t.toggle_collapse();
    assert!(!t.collapse);
}

#[test]
fn defaults_are_empty_and_disarmed() {
    assert!(HighlightedEdges::default().cylinders.is_empty());
    assert!(!ToggledEdgeOperations::default().collapse);
    let mut presses = PointerPresses::default();
    assert_eq!(presses.take(PointerKey::Mouse), None);
}
