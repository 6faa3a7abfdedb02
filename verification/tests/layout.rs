use lanta::groups::{Group, GroupBuilder};
use lanta::layout::{Layout, TiledLayout};
use lanta::x::{Request, WindowId};
use lanta::Viewport;

fn group_of(windows: &[u64]) -> Group<TiledLayout> {
    let builder = GroupBuilder::new("g".to_string(), "tiled".to_string());
    let mut group = builder.build(vec![Box::new(TiledLayout::new())]);
    for window in windows {
        group.add_window(WindowId(*window));
    }
    group
}

fn tiled(viewport: Viewport, windows: &[u64]) -> Vec<Request> {
    let group = group_of(windows);
    TiledLayout::new().layout(&viewport, group.get_focused(), group.iter())
}

fn tile(id: u64, y: u32, width: u32, height: u32) -> Request {
    Request::ConfigureWindow { id: WindowId(id), x: 0, y, width, height }
}

#[test]
fn tiled_layout_is_named_tiled() {
    assert_eq!(TiledLayout::new().name(), "tiled");
}

#[test]
fn tiled_layout_of_no_windows_asks_for_nothing() {
    let viewport = Viewport { x: 0, y: 0, width: 800, height: 600 };
    assert_eq!(tiled(viewport, &[]), vec![]);
}

#[test]
fn tiled_layout_gives_one_window_the_whole_viewport() {
    let viewport = Viewport { x: 0, y: 0, width: 800, height: 600 };
    assert_eq!(tiled(viewport, &[7]), vec![tile(7, 0, 800, 600)]);
}

#[test]
fn tiled_layout_divides_the_height_evenly() {
    let viewport = Viewport { x: 0, y: 0, width: 800, height: 600 };
    assert_eq!(
        tiled(viewport, &[1, 2, 3]),
        vec![tile(1, 0, 800, 200), tile(2, 200, 800, 200), tile(3, 400, 800, 200)]
    );
}

#[test]
fn tiled_layout_rounds_the_tile_height_down() {
    let viewport = Viewport { x: 0, y: 0, width: 640, height: 100 };
    assert_eq!(
        tiled(viewport, &[1, 2, 3]),
        vec![tile(1, 0, 640, 33), tile(2, 33, 640, 33), tile(3, 66, 640, 33)]
    );
}

#[test]
fn tiled_layout_with_more_windows_than_rows_gives_tiles_of_no_height() {
    let viewport = Viewport { x: 0, y: 0, width: 10, height: 2 };
    assert_eq!(
        tiled(viewport, &[1, 2, 3]),
        vec![tile(1, 0, 10, 0), tile(2, 0, 10, 0), tile(3, 0, 10, 0)]
    );
}

#[test]
fn tiled_layout_starts_at_the_left_edge_and_the_top() {
    let viewport = Viewport { x: 30, y: 40, width: 500, height: 400 };
    assert_eq!(tiled(viewport, &[1, 2]), vec![tile(1, 0, 500, 200), tile(2, 200, 500, 200)]);
}

#[test]
fn tiled_layout_of_the_largest_viewport_does_not_overflow() {
    let viewport = Viewport { x: 0, y: 0, width: u32::MAX, height: u32::MAX };
    assert_eq!(
        tiled(viewport, &[1, 2]),
        vec![tile(1, 0, u32::MAX, 2147483647), tile(2, 2147483647, u32::MAX, 2147483647)]
    );
}

#[test]
fn tiled_layout_gives_the_same_answer_each_time() {
    let viewport = Viewport { x: 0, y: 0, width: 800, height: 600 };
    let group = group_of(&[4, 5, 6]);
    let layout = TiledLayout::new();
    let first = layout.layout(&viewport, group.get_focused(), group.iter());
    let second = layout.layout(&viewport, group.get_focused(), group.iter());
    assert_eq!(first, second);
}

#[test]
fn tiled_layout_does_not_look_at_the_focus() {
    let viewport = Viewport { x: 0, y: 0, width: 800, height: 600 };
    let mut group = group_of(&[4, 5]);
    let layout = TiledLayout::new();
    let unfocused = layout.layout(&viewport, group.get_focused(), group.iter());
    group.focus(&WindowId(5));
    let focused = layout.layout(&viewport, group.get_focused(), group.iter());
    assert_eq!(unfocused, focused);
}

#[test]
fn default_viewport_is_empty() {
    assert_eq!(Viewport::default(), Viewport { x: 0, y: 0, width: 0, height: 0 });
}
