use vstd::prelude::*;
use crate::groups::{Group, GroupBuilder, GroupView, GroupWindow};
use crate::keys::{Handler, KeyCombo, KeyHandlers};
use crate::layout::Layout;
use crate::x::{Event, Request, WindowId};

pub mod groups;
pub mod keys;
pub mod layout;
pub mod stack;
pub mod x;

verus! {

/// The rectangle of the screen that a group may place its windows in.
#[derive(Clone, Copy, Debug, PartialEq, Eq, Structural)]
pub struct Viewport {
    pub x: u32,
    pub y: u32,
    pub width: u32,
    pub height: u32,
}

impl Default for Viewport {
    fn default() -> (viewport: Viewport)
        ensures
            viewport == (Viewport { x: 0, y: 0, width: 0, height: 0 }),
    {
        Viewport { x: 0, y: 0, width: 0, height: 0 }
    }
}

/// What a window manager starts from: the group to build, the layouts it
/// can choose from, and the key bindings.
pub struct Config<L: Layout + ?Sized> {
    pub group: GroupBuilder,
    pub layouts: Vec<Box<L>>,
    pub keys: KeyHandlers,
}

/// The state of a window manager, as its contracts speak of it.
pub struct ManagerView<L: Layout + ?Sized> {
    /// The handler of each bound key combination.
    pub keys: Map<KeyCombo, Handler>,
    pub group: GroupView<L>,
    /// The screen.
    pub viewport: Viewport,
    /// The requests made and not yet handed out, oldest first.
    pub pending: Seq<Request>,
}

impl<L: Layout + ?Sized> ManagerView<L> {
    pub open spec fn wf(self) -> bool {
        self.group.wf()
    }

    /// The manager that `requests` have been added to, behind those that
    /// are pending.
    pub open spec fn send(self, requests: Seq<Request>) -> Self {
        ManagerView { pending: self.pending + requests, ..self }
    }

    /// The manager once its group has become `group` and has been laid out.
    pub open spec fn relayout(self, group: GroupView<L>) -> Self {
        ManagerView { group, pending: self.pending + group.layout_requests(), ..self }
    }

    /// The manager as it starts: the group built, shown on the whole screen
    /// and laid out.
    pub open spec fn start(
        keys: Map<KeyCombo, Handler>,
        group: GroupView<L>,
        viewport: Viewport,
    ) -> Self {
        ManagerView { keys, group, viewport, pending: Seq::empty() }.relayout(
            group.activate(viewport),
        )
    }

    /// The group laid out on the whole screen.
    pub open spec fn layout(self) -> Self {
        self.relayout(self.group.update_viewport(self.viewport))
    }

    pub open spec fn update_viewport(self, viewport: Viewport) -> Self {
        ManagerView { viewport, ..self }.layout()
    }

    pub open spec fn take_requests(self) -> Self {
        ManagerView { pending: Seq::empty(), ..self }
    }

    pub open spec fn focus_next(self) -> Self {
        self.relayout(self.group.focus_next())
    }

    pub open spec fn focus_previous(self) -> Self {
        self.relayout(self.group.focus_previous())
    }

    /// The focused window exchanged with the next one, where a window is
    /// focused; then the group laid out on the whole screen.
    pub open spec fn shuffle_next(self) -> Self {
        (if self.group.windows.focus is Some {
            self.relayout(self.group.shuffle_next())
        } else {
            self
        }).layout()
    }

    /// The focused window exchanged with the one before, where a window is
    /// focused; then the group laid out on the whole screen.
    pub open spec fn shuffle_previous(self) -> Self {
        (if self.group.windows.focus is Some {
            self.relayout(self.group.shuffle_previous())
        } else {
            self
        }).layout()
    }

    pub open spec fn layout_next(self) -> Self {
        self.relayout(self.group.layout_next())
    }

    pub open spec fn layout_previous(self) -> Self {
        self.relayout(self.group.layout_previous())
    }

    /// The focused window asked to close; nothing where none is focused.
    pub open spec fn close_window(self) -> Self {
        match self.group.windows.focused() {
            Some(id) => self.send(seq![Request::CloseWindow(id)]),
            None => self,
        }
    }

    pub open spec fn spawn_command(self, command: u32) -> Self {
        self.send(seq![Request::Spawn(command)])
    }

    pub open spec fn invoke(self, handler: Handler) -> Self {
        match handler {
            Handler::CloseWindow => self.close_window(),
            Handler::FocusNext => self.focus_next(),
            Handler::FocusPrevious => self.focus_previous(),
            Handler::ShuffleNext => self.shuffle_next(),
            Handler::ShufflePrevious => self.shuffle_previous(),
            Handler::LayoutNext => self.layout_next(),
            Handler::LayoutPrevious => self.layout_previous(),
            Handler::Spawn(command) => self.spawn_command(command),
        }
    }

    /// A window asks to be shown: its events and the bound keys are
    /// registered, it is mapped and taken into the group, and the group is
    /// laid out on the whole screen.
    pub open spec fn on_map_request(self, id: WindowId) -> Self {
        self.send(seq![Request::RegisterWindowEvents(id), Request::MapWindow(id)]).relayout(
            self.group.add_window(id),
        ).layout()
    }

    /// A window is gone: it leaves the group, where the group holds it, and
    /// the group is laid out on the whole screen.
    pub open spec fn on_destroy_notify(self, id: WindowId) -> Self {
        (if self.group.windows.items.contains(id) {
            self.relayout(self.group.remove_window(id))
        } else {
            self
        }).layout()
    }

    /// A key combination was pressed: its handler is invoked, where it is
    /// bound to one.
    pub open spec fn on_key_press(self, combo: KeyCombo) -> Self {
        if self.keys.dom().contains(combo) {
            self.invoke(self.keys[combo])
        } else {
            self
        }
    }

    /// The pointer has moved into a window: the window gets the focus, where
    /// the group holds it.
    pub open spec fn on_enter_notify(self, id: WindowId) -> Self {
        if self.group.windows.items.contains(id) {
            self.relayout(self.group.focus(id))
        } else {
            self
        }
    }

    pub open spec fn dispatch(self, event: Event) -> Self {
        match event {
            Event::MapRequest(id) => self.on_map_request(id),
            Event::DestroyNotify(id) => self.on_destroy_notify(id),
            Event::KeyPress(combo) => self.on_key_press(combo),
            Event::EnterNotify(id) => self.on_enter_notify(id),
        }
    }

    /// The manager after `events`, each dispatched to its end before the
    /// next.
    pub open spec fn after(self, events: Seq<Event>) -> Self
        decreases events.len(),
    {
        if events.len() == 0 {
            self
        } else {
            self.after(events.drop_last()).dispatch(events.last())
        }
    }
}

impl<L: Layout + ?Sized> ManagerView<L> {
    /// Every event leaves the manager with a focus that stands on a window
    /// and a chosen layout that is one of the layouts.
    pub proof fn lemma_dispatch_keeps_wf(self, event: Event)
        requires
            self.wf(),
        ensures
            self.dispatch(event).wf(),
    {
        let group: GroupView<L> = self.group;
        let viewport: Viewport = self.viewport;
        match event {
            Event::MapRequest(id) => {
                group.lemma_operations_keep_wf(viewport, id);
                group.add_window(id).lemma_operations_keep_wf(viewport, id);
            },
            Event::DestroyNotify(id) => {
                group.lemma_operations_keep_wf(viewport, id);
                group.remove_window(id).lemma_operations_keep_wf(viewport, id);
            },
            Event::KeyPress(combo) => {
                let id: WindowId = WindowId(0);
                group.lemma_operations_keep_wf(viewport, id);
                group.shuffle_next().lemma_operations_keep_wf(viewport, id);
                group.shuffle_previous().lemma_operations_keep_wf(viewport, id);
            },
            Event::EnterNotify(id) => {
                group.lemma_operations_keep_wf(viewport, id);
            },
        }
    }

    /// No event takes a pending request away or moves one: what was pending
    /// before it is pending after it, in the same order and before all that
    /// the event adds. The key bindings and the screen stay as they are.
    pub proof fn lemma_dispatch_keeps_requests(self, event: Event)
        ensures
            self.pending.is_prefix_of(self.dispatch(event).pending),
            self.dispatch(event).keys == self.keys,
            self.dispatch(event).viewport == self.viewport,
    {
    }

    /// Events dispatched in two runs, one after the other, leave the manager
    /// as the same events dispatched in one run.
    pub proof fn lemma_after_events_in_two_runs(self, first: Seq<Event>, second: Seq<Event>)
        ensures
            self.after(first + second) == self.after(first).after(second),
        decreases second.len(),
    {
        if second.len() == 0 {
            assert(first + second =~= first);
        } else {
            assert((first + second).drop_last() =~= first + second.drop_last());
            self.lemma_after_events_in_two_runs(first, second.drop_last());
        }
    }

    /// A manager that takes no events stays as it is, and one event alone is
    /// dispatched.
    pub proof fn lemma_after_no_event_and_one(self, event: Event)
        ensures
            self.after(Seq::empty()) == self,
            self.after(seq![event]) == self.dispatch(event),
    {
        assert(seq![event].drop_last() =~= Seq::<Event>::empty());
        reveal_with_fuel(ManagerView::after, 2);
    }
}

/// Keeps the windows of one group on the screen: it turns what the display
/// server reports into changes of the group, and into requests to the
/// server, which it holds until they are taken from it.
pub struct RustWindowManager<L: Layout + ?Sized> {
    keys: KeyHandlers,
    group: Group<L>,
    viewport: Viewport,
    pending: Vec<Request>,
}

impl<L: Layout + ?Sized> View for RustWindowManager<L> {
    type V = ManagerView<L>;

    closed spec fn view(&self) -> ManagerView<L> {
        ManagerView {
            keys: self.keys@,
            group: self.group@,
            viewport: self.viewport,
            pending: self.pending@,
        }
    }
}

impl<L: Layout + ?Sized> RustWindowManager<L> {
    /// A window manager for a screen of the size of `viewport`. Its group is
    /// built from `config`, shown on the whole screen and laid out.
    pub fn new(config: Config<L>, viewport: Viewport) -> (wm: Self)
        ensures
            wm@.wf(),
            wm@ == ManagerView::start(config.keys@, config.group@.build(config.layouts@), viewport),
    {
        let mut group: Group<L> = config.group.build(config.layouts);
        let pending: Vec<Request> = group.activate(viewport);
        let wm = RustWindowManager { keys: config.keys, group, viewport, pending };
        assert(wm@.pending =~= Seq::<Request>::empty() + wm@.group.layout_requests());
        wm
    }

    fn send(&mut self, requests: Vec<Request>)
        ensures
            final(self)@ == old(self)@.send(requests@),
    {
        let mut requests = requests;
        self.pending.append(&mut requests);
    }

    /// Hands out the pending requests, oldest first, and keeps none.
    pub fn take_requests(&mut self) -> (requests: Vec<Request>)
        ensures
            requests@ == old(self)@.pending,
            final(self)@ == old(self)@.take_requests(),
    {
        let mut requests: Vec<Request> = Vec::new();
        requests.append(&mut self.pending);
        assert(requests@ =~= old(self)@.pending);
        requests
    }

    /// Lays the group out on the whole screen.
    pub fn layout(&mut self)
        ensures
            final(self)@ == old(self)@.layout(),
            old(self)@.wf() ==> final(self)@.wf(),
    {
        let requests: Vec<Request> = self.group.update_viewport(self.viewport);
        self.send(requests);
    }

    /// Takes `viewport` for the screen, and lays the group out on it.
    pub fn update_viewport(&mut self, viewport: Viewport)
        ensures
            final(self)@ == old(self)@.update_viewport(viewport),
            old(self)@.wf() ==> final(self)@.wf(),
    {
        self.viewport = viewport;
        self.layout();
    }

    /// The focused window of the group.
    pub fn get_focused<'a>(&'a self) -> (focused: Option<GroupWindow<'a>>)
        ensures
            self@.group.windows.wf(),
            match focused {
                Some(window) => Some(window@) == self@.group.windows.focused(),
                None => self@.group.windows.focused() is None,
            },
    {
        self.group.get_focused()
    }

    pub fn focus_next(&mut self)
        ensures
            final(self)@ == old(self)@.focus_next(),
            old(self)@.wf() ==> final(self)@.wf(),
    {
        let requests: Vec<Request> = self.group.focus_next();
        self.send(requests);
    }

    pub fn focus_previous(&mut self)
        ensures
            final(self)@ == old(self)@.focus_previous(),
            old(self)@.wf() ==> final(self)@.wf(),
    {
        let requests: Vec<Request> = self.group.focus_previous();
        self.send(requests);
    }

    /// Dispatches `events` in their order, each to its end before the next.
    pub fn run_event_loop(&mut self, events: Vec<Event>)
        ensures
            final(self)@ == old(self)@.after(events@),
            old(self)@.wf() ==> final(self)@.wf(),
    {
        let mut i: usize = 0;
        while i < events.len()
            invariant
                i <= events.len(),
                self@ == old(self)@.after(events@.take(i as int)),
                old(self)@.wf() ==> self@.wf(),
            decreases events.len() - i,
        {
            assert(events@.take(i + 1).drop_last() =~= events@.take(i as int));
            self.dispatch(events[i]);
            i += 1;
        }
        assert(events@.take(i as int) =~= events@);
    }

    /// Does what `event` asks for.
    pub fn dispatch(&mut self, event: Event)
        ensures
            final(self)@ == old(self)@.dispatch(event),
            old(self)@.wf() ==> final(self)@.wf(),
    {
        match event {
            Event::MapRequest(window_id) => self.on_map_request(window_id),
            Event::DestroyNotify(window_id) => self.on_destroy_notify(window_id),
            Event::KeyPress(key) => self.on_key_press(key),
            Event::EnterNotify(window_id) => self.on_enter_notify(window_id),
        }
    }

    fn on_map_request(&mut self, window_id: WindowId)
        ensures
            final(self)@ == old(self)@.on_map_request(window_id),
            old(self)@.wf() ==> final(self)@.wf(),
    {
        self.pending.push(Request::RegisterWindowEvents(window_id));
        self.pending.push(Request::MapWindow(window_id));
        assert(self@ == old(self)@.send(
            seq![Request::RegisterWindowEvents(window_id), Request::MapWindow(window_id)],
        )) by {
            assert(self@.pending =~= old(self)@.pending + seq![
                Request::RegisterWindowEvents(window_id),
                Request::MapWindow(window_id),
            ]);
        }
        let requests: Vec<Request> = self.group.add_window(window_id);
        self.send(requests);
        self.layout();
    }

    fn on_destroy_notify(&mut self, window_id: WindowId)
        ensures
            final(self)@ == old(self)@.on_destroy_notify(window_id),
            old(self)@.wf() ==> final(self)@.wf(),
    {
        if self.group.contains(&window_id) {
            let removed: (WindowId, Vec<Request>) = self.group.remove_window(&window_id);
            self.send(removed.1);
        }
        self.layout();
    }

    fn on_key_press(&mut self, key: KeyCombo)
        ensures
            final(self)@ == old(self)@.on_key_press(key),
            old(self)@.wf() ==> final(self)@.wf(),
    {
        match self.keys.get(&key) {
            Some(handler) => self.invoke(handler),
            None => {},
        }
    }

    fn on_enter_notify(&mut self, window_id: WindowId)
        ensures
            final(self)@ == old(self)@.on_enter_notify(window_id),
            old(self)@.wf() ==> final(self)@.wf(),
    {
        if self.group.contains(&window_id) {
            let requests: Vec<Request> = self.group.focus(&window_id);
            self.send(requests);
        }
    }

    /// Does what `handler` stands for.
    pub fn invoke(&mut self, handler: Handler)
        ensures
            final(self)@ == old(self)@.invoke(handler),
            old(self)@.wf() ==> final(self)@.wf(),
    {
        match handler {
            Handler::CloseWindow => close_window(self),
            Handler::FocusNext => focus_next(self),
            Handler::FocusPrevious => focus_previous(self),
            Handler::ShuffleNext => shuffle_next(self),
            Handler::ShufflePrevious => shuffle_previous(self),
            Handler::LayoutNext => layout_next(self),
            Handler::LayoutPrevious => layout_previous(self),
            Handler::Spawn(command) => spawn_command(self, command),
        }
    }
}

/// Asks the focused window to close. Without a focused window nothing is
/// asked.
pub fn close_window<L: Layout + ?Sized>(wm: &mut RustWindowManager<L>)
    ensures
        final(wm)@ == old(wm)@.close_window(),
        old(wm)@.wf() ==> final(wm)@.wf(),
{
    let request: Option<Request> = match wm.get_focused() {
        Some(window) => Some(window.close()),
        None => None,
    };
    match request {
        Some(request) => {
            wm.pending.push(request);
            assert(wm@.pending =~= old(wm)@.pending + seq![request]);
        },
        None => {},
    }
}

/// Gives the focus to the next window.
pub fn focus_next<L: Layout + ?Sized>(wm: &mut RustWindowManager<L>)
    ensures
        final(wm)@ == old(wm)@.focus_next(),
        old(wm)@.wf() ==> final(wm)@.wf(),
{
    wm.focus_next();
}

/// Gives the focus to the window before.
pub fn focus_previous<L: Layout + ?Sized>(wm: &mut RustWindowManager<L>)
    ensures
        final(wm)@ == old(wm)@.focus_previous(),
        old(wm)@.wf() ==> final(wm)@.wf(),
{
    wm.focus_previous();
}

/// Exchanges the focused window with the next one, and lays the group out.
pub fn shuffle_next<L: Layout + ?Sized>(wm: &mut RustWindowManager<L>)
    ensures
        final(wm)@ == old(wm)@.shuffle_next(),
        old(wm)@.wf() ==> final(wm)@.wf(),
{
    if wm.get_focused().is_some() {
        let requests: Vec<Request> = wm.group.shuffle_next();
        wm.send(requests);
    }
    wm.layout();
}

/// Exchanges the focused window with the one before, and lays the group out.
pub fn shuffle_previous<L: Layout + ?Sized>(wm: &mut RustWindowManager<L>)
    ensures
        final(wm)@ == old(wm)@.shuffle_previous(),
        old(wm)@.wf() ==> final(wm)@.wf(),
{
    if wm.get_focused().is_some() {
        let requests: Vec<Request> = wm.group.shuffle_previous();
        wm.send(requests);
    }
    wm.layout();
}

/// Arranges the windows by the next layout.
pub fn layout_next<L: Layout + ?Sized>(wm: &mut RustWindowManager<L>)
    ensures
        final(wm)@ == old(wm)@.layout_next(),
        old(wm)@.wf() ==> final(wm)@.wf(),
{
    let requests: Vec<Request> = wm.group.layout_next();
    wm.send(requests);
}

/// Arranges the windows by the layout before.
pub fn layout_previous<L: Layout + ?Sized>(wm: &mut RustWindowManager<L>)
    ensures
        final(wm)@ == old(wm)@.layout_previous(),
        old(wm)@.wf() ==> final(wm)@.wf(),
{
    let requests: Vec<Request> = wm.group.layout_previous();
    wm.send(requests);
}

/// Asks for the command that the configuration lists under `command` to be
/// started.
pub fn spawn_command<L: Layout + ?Sized>(wm: &mut RustWindowManager<L>, command: u32)
    ensures
        final(wm)@ == old(wm)@.spawn_command(command),
        old(wm)@.wf() ==> final(wm)@.wf(),
{
    wm.pending.push(Request::Spawn(command));
    assert(wm@.pending =~= old(wm)@.pending + seq![Request::Spawn(command)]);
}

} // verus!
