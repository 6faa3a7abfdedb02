use lanta::groups::GroupBuilder;
use lanta::keys::{Handler, KeyCombo, KeyHandlers, ModKey};
use lanta::layout::TiledLayout;
use lanta::x::{Event, Request, WindowId};
use lanta::{
    close_window, focus_next, focus_previous, layout_next, layout_previous, shuffle_next,
    shuffle_previous, spawn_command, Config, RustWindowManager, Viewport,
};

const SCREEN: Viewport = Viewport { x: 0, y: 0, width: 800, height: 600 };

fn key(keysym: u32) -> KeyCombo {
    KeyCombo::new(vec![ModKey::Mod4], keysym)
}

fn manager() -> RustWindowManager<TiledLayout> {
    let keys = KeyHandlers::new(vec![
        (key(1), Handler::CloseWindow),
        (key(2), Handler::FocusNext),
        (key(3), Handler::FocusPrevious),
        (key(4), Handler::ShuffleNext),
        (key(5), Handler::ShufflePrevious),
        (key(6), Handler::LayoutNext),
        (key(7), Handler::LayoutPrevious),
        (key(8), Handler::Spawn(0)),
    ]);
    let config = Config {
        group: GroupBuilder::new("main".to_string(), "tiled".to_string()),
        layouts: vec![Box::new(TiledLayout::new())],
        keys,
    };
    let mut wm = RustWindowManager::new(config, SCREEN);
    assert_eq!(wm.take_requests(), vec![Request::FocusNothing]);
    wm
}

fn manager_with(windows: &[u64], focus: Option<u64>) -> RustWindowManager<TiledLayout> {
    let mut wm = manager();
    for window in windows {
        wm.dispatch(Event::MapRequest(WindowId(*window)));
    }
    if let Some(window) = focus {
        wm.dispatch(Event::EnterNotify(WindowId(window)));
    }
    wm.take_requests();
    wm
}

fn tile(id: u64, y: u32, height: u32) -> Request {
    Request::ConfigureWindow { id: WindowId(id), x: 0, y, width: 800, height }
}

fn focused(wm: &RustWindowManager<TiledLayout>) -> Option<WindowId> {
    wm.get_focused().map(|window| *window.id())
}

#[test]
fn new_manager_shows_its_group_and_clears_the_input_focus() {
    let config = Config {
        group: GroupBuilder::new("main".to_string(), "tiled".to_string()),
        layouts: vec![Box::new(TiledLayout::new())],
        keys: KeyHandlers::new(vec![]),
    };
    let mut wm = RustWindowManager::new(config, SCREEN);
    assert_eq!(wm.take_requests(), vec![Request::FocusNothing]);
    assert_eq!(wm.take_requests(), vec![]);
    assert_eq!(focused(&wm), None);
}

#[test]
fn map_request_registers_maps_adds_and_lays_out() {
    let mut wm = manager();
    wm.dispatch(Event::MapRequest(WindowId(1)));
    assert_eq!(
        wm.take_requests(),
        vec![
            Request::RegisterWindowEvents(WindowId(1)),
            Request::MapWindow(WindowId(1)),
            tile(1, 0, 600),
            Request::FocusNothing,
            tile(1, 0, 600),
            Request::FocusNothing,
        ]
    );
    wm.dispatch(Event::MapRequest(WindowId(2)));
    assert_eq!(
        wm.take_requests(),
        vec![
            Request::RegisterWindowEvents(WindowId(2)),
            Request::MapWindow(WindowId(2)),
            tile(1, 0, 300),
            tile(2, 300, 300),
            Request::FocusNothing,
            tile(1, 0, 300),
            tile(2, 300, 300),
            Request::FocusNothing,
        ]
    );
}

#[test]
fn enter_notify_focuses_a_managed_window() {
    let mut wm = manager_with(&[1, 2], None);
    wm.dispatch(Event::EnterNotify(WindowId(2)));
    assert_eq!(
        wm.take_requests(),
        vec![tile(1, 0, 300), tile(2, 300, 300), Request::FocusWindow(WindowId(2))]
    );
    assert_eq!(focused(&wm), Some(WindowId(2)));
}

#[test]
fn enter_notify_for_a_stranger_does_nothing() {
    let mut wm = manager_with(&[1], Some(1));
    wm.dispatch(Event::EnterNotify(WindowId(9)));
    assert_eq!(wm.take_requests(), vec![]);
    assert_eq!(focused(&wm), Some(WindowId(1)));
}

#[test]
fn destroy_notify_removes_the_window_and_lays_out() {
    let mut wm = manager_with(&[1, 2], Some(2));
    wm.dispatch(Event::DestroyNotify(WindowId(2)));
    assert_eq!(
        wm.take_requests(),
        vec![
            tile(1, 0, 600),
            Request::FocusWindow(WindowId(1)),
            tile(1, 0, 600),
            Request::FocusWindow(WindowId(1)),
        ]
    );
    assert_eq!(focused(&wm), Some(WindowId(1)));
}

#[test]
fn destroy_notify_for_a_stranger_only_lays_out() {
    let mut wm = manager_with(&[1], Some(1));
    wm.dispatch(Event::DestroyNotify(WindowId(9)));
    assert_eq!(wm.take_requests(), vec![tile(1, 0, 600), Request::FocusWindow(WindowId(1))]);
    wm.dispatch(Event::DestroyNotify(WindowId(1)));
    wm.take_requests();
    wm.dispatch(Event::DestroyNotify(WindowId(1)));
    assert_eq!(wm.take_requests(), vec![Request::FocusNothing]);
}

#[test]
fn key_press_without_a_binding_does_nothing() {
    let mut wm = manager_with(&[1], Some(1));
    wm.dispatch(Event::KeyPress(key(99)));
    wm.dispatch(Event::KeyPress(KeyCombo::new(vec![], 1)));
    assert_eq!(wm.take_requests(), vec![]);
}

#[test]
fn key_press_closes_the_focused_window() {
    let mut wm = manager_with(&[1, 2], Some(2));
    wm.dispatch(Event::KeyPress(key(1)));
    assert_eq!(wm.take_requests(), vec![Request::CloseWindow(WindowId(2))]);
    assert_eq!(focused(&wm), Some(WindowId(2)));
}

#[test]
fn close_window_without_a_focus_asks_for_nothing() {
    let mut wm = manager_with(&[1], None);
    close_window(&mut wm);
    assert_eq!(wm.take_requests(), vec![]);
}

#[test]
fn key_press_moves_the_focus() {
    let mut wm = manager_with(&[1, 2, 3], Some(1));
    wm.dispatch(Event::KeyPress(key(2)));
    assert_eq!(
        wm.take_requests(),
        vec![tile(1, 0, 200), tile(2, 200, 200), tile(3, 400, 200), Request::FocusWindow(WindowId(2))]
    );
    wm.dispatch(Event::KeyPress(key(3)));
    wm.dispatch(Event::KeyPress(key(3)));
    assert_eq!(focused(&wm), Some(WindowId(3)));
}

#[test]
fn focus_handlers_do_what_the_methods_do() {
    let mut by_handler = manager_with(&[1, 2], Some(1));
    let mut by_method = manager_with(&[1, 2], Some(1));
    focus_next(&mut by_handler);
    by_method.focus_next();
    assert_eq!(by_handler.take_requests(), by_method.take_requests());
    assert_eq!(focused(&by_handler), Some(WindowId(2)));
    focus_previous(&mut by_handler);
    by_method.focus_previous();
    assert_eq!(by_handler.take_requests(), by_method.take_requests());
    assert_eq!(focused(&by_handler), Some(WindowId(1)));
}

#[test]
fn shuffle_next_moves_the_focused_window_and_lays_out_twice() {
    let mut wm = manager_with(&[1, 2], Some(1));
    shuffle_next(&mut wm);
    let layout = vec![tile(2, 0, 300), tile(1, 300, 300), Request::FocusWindow(WindowId(1))];
    assert_eq!(wm.take_requests(), [layout.clone(), layout].concat());
    wm.dispatch(Event::KeyPress(key(5)));
    let layout = vec![tile(1, 0, 300), tile(2, 300, 300), Request::FocusWindow(WindowId(1))];
    assert_eq!(wm.take_requests(), [layout.clone(), layout].concat());
}

#[test]
fn shuffle_without_a_focus_only_lays_out() {
    let mut wm = manager_with(&[1, 2], None);
    shuffle_next(&mut wm);
    let layout = vec![tile(1, 0, 300), tile(2, 300, 300), Request::FocusNothing];
    assert_eq!(wm.take_requests(), layout);
    shuffle_previous(&mut wm);
    assert_eq!(wm.take_requests(), layout);
}

#[test]
fn layout_handlers_lay_out_again() {
    let mut wm = manager_with(&[1], Some(1));
    let layout = vec![tile(1, 0, 600), Request::FocusWindow(WindowId(1))];
    layout_next(&mut wm);
    assert_eq!(wm.take_requests(), layout);
    layout_previous(&mut wm);
    assert_eq!(wm.take_requests(), layout);
    wm.invoke(Handler::LayoutNext);
    assert_eq!(wm.take_requests(), layout);
}

#[test]
fn spawn_command_asks_for_the_numbered_command() {
    let mut wm = manager_with(&[1], Some(1));
    spawn_command(&mut wm, 7);
    wm.dispatch(Event::KeyPress(key(8)));
    assert_eq!(wm.take_requests(), vec![Request::Spawn(7), Request::Spawn(0)]);
}

#[test]
fn layout_uses_the_screen_of_the_manager() {
    let mut wm = manager_with(&[1, 2], None);
    wm.layout();
    assert_eq!(
        wm.take_requests(),
        vec![tile(1, 0, 300), tile(2, 300, 300), Request::FocusNothing]
    );
    wm.update_viewport(Viewport { x: 0, y: 0, width: 400, height: 100 });
    assert_eq!(
        wm.take_requests(),
        vec![
            Request::ConfigureWindow { id: WindowId(1), x: 0, y: 0, width: 400, height: 50 },
            Request::ConfigureWindow { id: WindowId(2), x: 0, y: 50, width: 400, height: 50 },
            Request::FocusNothing,
        ]
    );
}

#[test]
fn run_event_loop_dispatches_the_events_in_order() {
    let events = vec![
        Event::MapRequest(WindowId(1)),
        Event::MapRequest(WindowId(2)),
        Event::EnterNotify(WindowId(1)),
        Event::KeyPress(key(4)),
        Event::DestroyNotify(WindowId(2)),
        Event::KeyPress(key(1)),
    ];
    let mut at_once = manager();
    at_once.run_event_loop(events.clone());
    let mut one_by_one = manager();
    for event in events {
        one_by_one.dispatch(event);
    }
    let requests = at_once.take_requests();
    assert_eq!(requests, one_by_one.take_requests());
    assert_eq!(requests.len(), 6 + 8 + 3 + 6 + 4 + 1);
    assert_eq!(requests.last(), Some(&Request::CloseWindow(WindowId(1))));
    assert_eq!(focused(&at_once), Some(WindowId(1)));
}

#[test]
fn run_event_loop_without_events_does_nothing() {
    let mut wm = manager_with(&[1], Some(1));
    wm.run_event_loop(vec![]);
    assert_eq!(wm.take_requests(), vec![]);
    assert_eq!(focused(&wm), Some(WindowId(1)));
}

#[test]
fn requests_are_kept_until_they_are_taken() {
    let mut wm = manager();
    wm.dispatch(Event::MapRequest(WindowId(1)));
    wm.dispatch(Event::EnterNotify(WindowId(1)));
    let requests = wm.take_requests();
    assert_eq!(requests.len(), 6 + 2);
    assert_eq!(requests[0], Request::RegisterWindowEvents(WindowId(1)));
    assert_eq!(requests[7], Request::FocusWindow(WindowId(1)));
    assert_eq!(wm.take_requests(), vec![]);
}
