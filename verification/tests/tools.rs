use snip::tools::brush::BrushTool;
use snip::tools::rect::RectTool;
use snip::tools::Stroke;

type Rgba = [f32; 4];

const DEFAULT_COLOR: Rgba = [1.0, 0.2, 0.2, 1.0];
const DEFAULT_WIDTH: f64 = 2.0;

fn default_brush() -> BrushTool<f64, Rgba, f64> {
    BrushTool::new(DEFAULT_COLOR, DEFAULT_WIDTH)
}

#[test]
fn test_brush_stroke_lifecycle() {
    let mut brush = default_brush();
    brush.press(10.0, 20.0);
    assert!(brush.current_stroke().is_some());
    brush.motion(30.0, 40.0);
    brush.motion(50.0, 60.0);
    assert_eq!(brush.current_stroke().unwrap().points.len(), 3);
    let stroke = brush.release().unwrap();
    assert_eq!(stroke.points.len(), 3);
    assert!(brush.current_stroke().is_none());
}

#[test]
fn test_brush_single_point_returns_none() {
    let mut brush = default_brush();
    brush.press(10.0, 20.0);
    let stroke = brush.release();
    assert!(stroke.is_none());
}

#[test]
fn test_brush_uses_configured_color_and_width() {
    let mut brush = default_brush();
    brush.set_color([0.0, 1.0, 0.0, 1.0]);
    brush.set_width(5.0);
    brush.press(0.0, 0.0);
    brush.motion(10.0, 10.0);
    let stroke = brush.release().unwrap();
    assert_eq!(stroke.color, [0.0, 1.0, 0.0, 1.0]);
    assert_eq!(stroke.width, 5.0);
}

#[test]
fn brush_stroke_keeps_points_in_order() {
    let mut brush = default_brush();
    brush.press(1.0, 2.0);
    brush.motion(3.0, 4.0);
    brush.motion(5.0, 6.0);
    let stroke = brush.release().unwrap();
    assert_eq!(stroke.points, vec![(1.0, 2.0), (3.0, 4.0), (5.0, 6.0)]);
    assert_eq!(stroke.color, DEFAULT_COLOR);
    assert_eq!(stroke.width, DEFAULT_WIDTH);
}

#[test]
fn brush_motion_without_press_is_ignored() {
    let mut brush = default_brush();
    brush.motion(3.0, 4.0);
    assert!(brush.current_stroke().is_none());
    assert!(brush.release().is_none());
}

#[test]
fn brush_second_release_returns_none() {
    let mut brush = default_brush();
    brush.press(1.0, 1.0);
    brush.motion(2.0, 2.0);
    assert!(brush.release().is_some());
    assert!(brush.release().is_none());
}

#[test]
fn brush_settings_do_not_change_stroke_in_progress() {
    let mut brush = default_brush();
    brush.press(1.0, 1.0);
    brush.set_color([0.0, 0.0, 1.0, 1.0]);
    brush.set_width(8.0);
    brush.motion(2.0, 2.0);
    let stroke = brush.release().unwrap();
    assert_eq!(stroke.color, DEFAULT_COLOR);
    assert_eq!(stroke.width, DEFAULT_WIDTH);
    assert_eq!(brush.color(), [0.0, 0.0, 1.0, 1.0]);
    assert_eq!(brush.width(), 8.0);
}

#[test]
fn brush_new_press_replaces_stroke() {
    let mut brush = default_brush();
    brush.press(1.0, 1.0);
    brush.motion(2.0, 2.0);
    brush.press(7.0, 8.0);
    assert_eq!(brush.current_stroke().unwrap().points, vec![(7.0, 8.0)]);
}

#[test]
fn stroke_new_and_add_point() {
    let mut stroke: Stroke<f64, Rgba, f64> = Stroke::new(DEFAULT_COLOR, 4.0);
    assert!(stroke.points.is_empty());
    stroke.add_point(1.5, 2.5);
    assert_eq!(stroke.points, vec![(1.5, 2.5)]);
    assert_eq!(stroke.width, 4.0);
}

#[test]
fn rect_release_hands_back_drag_corners() {
    let mut tool: RectTool<f64> = RectTool::new();
    tool.press(10.0, 20.0);
    tool.motion(50.0, 60.0);
    let (start, end) = tool.release().unwrap();
    assert_eq!(start, (10.0, 20.0));
    assert_eq!(end, (50.0, 60.0));
    assert!(tool.current_rect().is_none());
}

#[test]
fn rect_corners_keep_drag_direction() {
    let mut tool: RectTool<f64> = RectTool::new();
    tool.press(50.0, 60.0);
    tool.motion(10.0, 20.0);
    let (start, end) = tool.release().unwrap();
    assert_eq!(start, (50.0, 60.0));
    assert_eq!(end, (10.0, 20.0));
}

#[test]
fn rect_click_without_drag_gives_equal_corners() {
    let mut tool: RectTool<f64> = RectTool::new();
    tool.press(10.0, 20.0);
    assert_eq!(tool.release(), Some(((10.0, 20.0), (10.0, 20.0))));
}

#[test]
fn rect_preview_and_idle_tool() {
    let mut tool: RectTool<f64> = RectTool::new();
    tool.motion(5.0, 5.0);
    assert!(tool.current_rect().is_none());
    assert!(tool.release().is_none());
    tool.press(1.0, 2.0);
    tool.motion(3.0, 4.0);
    assert_eq!(tool.current_rect(), Some(((1.0, 2.0), (3.0, 4.0))));
    tool.motion(6.0, 7.0);
    assert_eq!(tool.current_rect(), Some(((1.0, 2.0), (6.0, 7.0))));
    assert_eq!(tool.release(), Some(((1.0, 2.0), (6.0, 7.0))));
    assert!(tool.release().is_none());
}
