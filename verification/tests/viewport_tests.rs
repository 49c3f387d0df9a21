use jaxbrain::graph::NodeId;
use jaxbrain::viewport::{
    displaced_positions, Viewport, WheelDelta, WorldPoint, MAX_VB_W, MIN_VB_W,
};

#[test]
fn zoom_in_once_divides_the_width_by_the_step() {
    let mut vp = Viewport::new();
    assert_eq!(vp.view.w, 1_000_000);
    assert_eq!(vp.view.h, 250_000);
    vp.on_wheel(WheelDelta::Lines(-1000));
    // One zoom-in step: old_width / ZOOM_STEP, i.e. * 25 / 28.
    assert_eq!(vp.view.w, 1_000_000 * 25 / 28);
    // Height keeps the aspect ratio.
    assert_eq!(vp.view.h, vp.view.w * 250_000 / 1_000_000);
}

#[test]
fn zoom_in_clamps_at_the_minimum_width() {
    let mut vp = Viewport::new();
    for _ in 0..200 {
        vp.on_wheel(WheelDelta::Pixels(-100_000));
        assert!(vp.view.w >= MIN_VB_W);
    }
    assert_eq!(vp.view.w, MIN_VB_W);
}

#[test]
fn repeated_zoom_out_never_exceeds_the_maximum_width() {
    let mut vp = Viewport::new();
    for _ in 0..200 {
        vp.on_wheel(WheelDelta::Pages(1000));
        assert!(vp.view.w <= MAX_VB_W);
    }
    assert_eq!(vp.view.w, MAX_VB_W);
}

#[test]
fn zoom_keeps_the_view_center() {
    let mut vp = Viewport::new();
    let cx = vp.view.x + vp.view.w / 2;
    let cy = vp.view.y + vp.view.h / 2;
    vp.on_wheel(WheelDelta::Lines(-1000));
    assert_eq!(vp.view.x, cx - vp.view.w / 2);
    assert_eq!(vp.view.y, cy - vp.view.h / 2);
}

#[test]
fn zero_delta_zooms_out() {
    let mut vp = Viewport::new();
    vp.on_wheel(WheelDelta::Pixels(0));
    assert_eq!(vp.view.w, 1_000_000 * 28 / 25);
}

#[test]
fn pan_shifts_against_the_pointer_scaled_to_world_units() {
    let mut vp = Viewport::new();
    vp.on_pointer_down(0, 0);
    assert!(vp.panning);
    // Drag right 100 px and down 50 px (in milli pixels).
    vp.on_pointer_move(100_000, 50_000);
    // Shift: -dx * vw / SVG_PX_W and -dy * vh / SVG_PX_H.
    assert_eq!(vp.view.x, -200_000 - 100_000 * 1_000_000 / 2_500_000);
    assert_eq!(vp.view.y, 100_000 - 50_000 * 250_000 / 1_250_000);
    assert_eq!(vp.view.w, 1_000_000);
    assert_eq!(vp.view.h, 250_000);
    // The pointer position was captured: a second move of the same
    // pointer is a no-op shift.
    vp.on_pointer_move(100_000, 50_000);
    assert_eq!(vp.view.x, -240_000);
    assert_eq!(vp.view.y, 90_000);
}

#[test]
fn pan_drag_left_moves_the_view_right() {
    let mut vp = Viewport::new();
    vp.on_pointer_down(100_000, 0);
    vp.on_pointer_move(0, 0);
    assert_eq!(vp.view.x, -200_000 + 100_000 * 1_000_000 / 2_500_000);
}

#[test]
fn moves_while_not_panning_are_ignored() {
    let mut vp = Viewport::new();
    vp.on_pointer_move(500_000, 500_000);
    assert_eq!(vp.view.x, -200_000);
    assert_eq!(vp.view.y, 100_000);
    assert!(!vp.panning);
}

#[test]
fn pointer_up_and_leave_end_panning() {
    let mut vp = Viewport::new();
    vp.on_pointer_down(0, 0);
    vp.on_pointer_up();
    assert!(!vp.panning);
    vp.on_pointer_down(0, 0);
    vp.on_pointer_leave();
    assert!(!vp.panning);
}

#[test]
fn hover_wins_over_pin_as_the_focus() {
    let mut vp = Viewport::new();
    assert!(vp.focus_id().is_none());
    vp.on_click(NodeId::Term("apple".to_string()));
    assert!(matches!(vp.focus_id(), Some(NodeId::Term(t)) if t == "apple"));
    vp.on_hover_enter(NodeId::Term("ash".to_string()));
    assert!(matches!(vp.focus_id(), Some(NodeId::Term(t)) if t == "ash"));
    vp.on_hover_leave();
    assert!(matches!(vp.focus_id(), Some(NodeId::Term(t)) if t == "apple"));
}

#[test]
fn click_pins_without_moving_the_view() {
    let mut vp = Viewport::new();
    let before = vp.view;
    vp.on_click(NodeId::Master);
    assert_eq!(vp.view, before);
}

#[test]
fn hover_with_no_neighbors_in_radius_moves_nothing() {
    // All points at least the hover radius (80 world units) away from
    // the focus: the render pass leaves every position unchanged.
    let focus = WorldPoint { x: 0, y: 0 };
    let points = vec![
        WorldPoint { x: 80_000, y: 0 },
        WorldPoint { x: 0, y: -90_000 },
        WorldPoint { x: 60_000, y: 60_000 },
        WorldPoint { x: 0, y: 0 },
    ];
    let out = displaced_positions(&points, focus);
    assert_eq!(out, points);
}

#[test]
fn nearby_nodes_are_pushed_outward() {
    let focus = WorldPoint { x: 0, y: 0 };
    let points = vec![WorldPoint { x: 30_000, y: 40_000 }];
    let out = displaced_positions(&points, focus);
    // Distance 50; push factor (80 - 50) / 80 * 0.4; displacement along
    // each axis: delta * (80 - 50) * 2 / (5 * 50).
    let mx = 30_000 * 30_000 * 2 / (5 * 50_000);
    let my = 40_000 * 30_000 * 2 / (5 * 50_000);
    assert_eq!(out[0], WorldPoint { x: 30_000 + mx, y: 40_000 + my });
    assert_eq!(out[0], WorldPoint { x: 37_200, y: 49_600 });
}

#[test]
fn push_points_away_on_the_negative_side_too() {
    let focus = WorldPoint { x: 1_000, y: 1_000 };
    let points = vec![WorldPoint { x: -29_000, y: -39_000 }];
    let out = displaced_positions(&points, focus);
    let mx = 30_000 * 30_000 * 2 / (5 * 50_000);
    let my = 40_000 * 30_000 * 2 / (5 * 50_000);
    assert_eq!(out[0], WorldPoint { x: -29_000 - mx, y: -39_000 - my });
}
