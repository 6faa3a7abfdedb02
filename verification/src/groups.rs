use vstd::prelude::*;
use crate::Viewport;
use crate::layout::Layout;
use crate::stack::{
    FocusSeq, Stack, always_matches, decides, first_match, first_position,
    lemma_first_match_decided, lemma_first_position_exists, lemma_no_match_decided, no_match,
};
use crate::x::{Request, WindowId, unmap_untracked};

verus! {

/// A window of a group, borrowed from the group's stack.
#[derive(Clone, Copy)]
pub struct GroupWindow<'a> {
    window_id: &'a WindowId,
}

impl<'a> View for GroupWindow<'a> {
    type V = WindowId;

    closed spec fn view(&self) -> WindowId {
        *self.window_id
    }
}

impl<'a> GroupWindow<'a> {
    pub fn id(&self) -> (id: &WindowId)
        ensures
            *id == self@,
    {
        self.window_id
    }

    /// The request that shows the window.
    pub fn map(&self) -> (request: Request)
        ensures
            request == Request::MapWindow(self@),
    {
        Request::MapWindow(*self.window_id)
    }

    /// The request that hides the window.
    pub fn unmap(&self) -> (request: Request)
        ensures
            request == Request::UnmapWindow(self@),
    {
        Request::UnmapWindow(*self.window_id)
    }

    /// The request that places the window at `(x, y)` with the given size.
    pub fn configure(&self, x: u32, y: u32, width: u32, height: u32) -> (request: Request)
        ensures
            request == (Request::ConfigureWindow { id: self@, x, y, width, height }),
    {
        Request::ConfigureWindow { id: *self.window_id, x, y, width, height }
    }

    /// The request that asks the window to close.
    pub fn close(&self) -> (request: Request)
        ensures
            request == Request::CloseWindow(self@),
    {
        Request::CloseWindow(*self.window_id)
    }
}

/// A pass over the windows of a group, in the order in which the group holds
/// them. It borrows the group, and can be started again at any time.
pub struct GroupIter<'a> {
    inner: &'a [WindowId],
}

impl<'a> View for GroupIter<'a> {
    type V = Seq<WindowId>;

    /// The windows that are still to come.
    closed spec fn view(&self) -> Seq<WindowId> {
        self.inner@
    }
}

impl<'a> GroupIter<'a> {
    /// The next window, until none is left.
    pub fn next(&mut self) -> (window: Option<GroupWindow<'a>>)
        ensures
            match window {
                Some(w) => old(self)@.len() > 0 && w@ == old(self)@[0] && final(self)@ == old(
                    self,
                )@.drop_first(),
                None => old(self)@.len() == 0 && final(self)@ == old(self)@,
            },
    {
        let inner: &'a [WindowId] = self.inner;
        if inner.len() == 0 {
            None
        } else {
            let window_id: &'a WindowId = &inner[0];
            self.inner = vstd::slice::slice_subrange(inner, 1, inner.len());
            Some(GroupWindow { window_id })
        }
    }

    /// How many windows are still to come.
    pub fn len(&self) -> (len: usize)
        ensures
            len == self@.len(),
    {
        self.inner.len()
    }
}

/// Holds of the window `id` and of no other.
pub open spec fn is_window(id: WindowId) -> spec_fn(WindowId) -> bool {
    |window: WindowId| window == id
}

/// Holds of the layouts that go by `name`.
pub open spec fn has_name<L: Layout + ?Sized>(name: Seq<char>) -> spec_fn(Box<L>) -> bool {
    |layout: Box<L>| layout.spec_name() == name
}

/// A test that answers whether a layout goes by `name` decides `has_name`.
proof fn lemma_decides_name<L: Layout + ?Sized, P: Fn(&Box<L>) -> bool>(p: P, name: Seq<char>)
    requires
        forall|layout: Box<L>, r: bool| #[trigger]
            call_ensures(p, (&layout,), r) ==> r == (layout.spec_name() == name),
    ensures
        decides(p, has_name::<L>(name)),
{
}

/// The first position at which `windows` holds `id`.
pub open spec fn position_of(windows: Seq<WindowId>, id: WindowId) -> Option<int> {
    first_position(windows, is_window(id))
}

/// Each of `windows` hidden in turn, without hearing of it.
pub open spec fn unmap_all(windows: Seq<WindowId>) -> Seq<Request>
    decreases windows.len(),
{
    if windows.len() == 0 {
        Seq::empty()
    } else {
        unmap_all(windows.drop_last()) + unmap_untracked(windows.last())
    }
}

/// Three requests hide each window: the one at position `i` has its events
/// switched off, is unmapped, and has its events switched on again, after all
/// the windows before it and before all those after it.
pub proof fn lemma_unmap_all(windows: Seq<WindowId>, i: int)
    requires
        0 <= i < windows.len(),
    ensures
        unmap_all(windows).len() == 3 * windows.len(),
        unmap_all(windows)[3 * i] == Request::DisableWindowTracking(windows[i]),
        unmap_all(windows)[3 * i + 1] == Request::UnmapWindow(windows[i]),
        unmap_all(windows)[3 * i + 2] == Request::EnableWindowTracking(windows[i]),
    decreases windows.len(),
{
    lemma_unmap_all_len(windows);
    lemma_unmap_all_len(windows.drop_last());
    if i < windows.len() - 1 {
        lemma_unmap_all(windows.drop_last(), i);
    }
}

/// Hiding the windows takes three requests for each, and none where there is
/// no window.
pub proof fn lemma_unmap_all_len(windows: Seq<WindowId>)
    ensures
        unmap_all(windows).len() == 3 * windows.len(),
    decreases windows.len(),
{
    if windows.len() > 0 {
        lemma_unmap_all_len(windows.drop_last());
    }
}

/// A change to the windows or the layouts of a group.
pub enum Mutation {
    AddWindow(WindowId),
    RemoveWindow(WindowId),
    RemoveFocused,
    Focus(WindowId),
    FocusNext,
    FocusPrevious,
    ShuffleNext,
    ShufflePrevious,
    LayoutNext,
    LayoutPrevious,
}

/// The state of a group, as its contracts speak of it.
pub struct GroupView<L: Layout + ?Sized> {
    pub name: Seq<char>,
    /// Whether the group is the one shown.
    pub active: bool,
    /// The managed windows, and the one that has the focus.
    pub windows: FocusSeq<WindowId>,
    /// The layouts to choose from, and the chosen one.
    pub layouts: FocusSeq<Box<L>>,
    /// The part of the screen that the group may use.
    pub viewport: Viewport,
}

impl<L: Layout + ?Sized> GroupView<L> {
    pub open spec fn wf(self) -> bool {
        self.windows.wf() && self.layouts.wf()
    }

    /// What the chosen layout asks for; nothing where no layout is chosen.
    pub open spec fn arrangement(self) -> Seq<Request> {
        match self.layouts.focused() {
            Some(layout) => layout.arrangement(
                self.viewport,
                self.windows.focused(),
                self.windows.items,
            ),
            None => Seq::empty(),
        }
    }

    /// The request that gives the input focus to the focused window, or
    /// takes it from all where no window is focused.
    pub open spec fn input_focus(self) -> Request {
        match self.windows.focused() {
            Some(id) => Request::FocusWindow(id),
            None => Request::FocusNothing,
        }
    }

    /// The requests that bring the screen in line with the group: none while
    /// the group is inactive; else the chosen layout's, and then the one for
    /// the input focus.
    pub open spec fn layout_requests(self) -> Seq<Request> {
        if self.active {
            self.arrangement().push(self.input_focus())
        } else {
            Seq::empty()
        }
    }

    pub open spec fn with_windows(self, windows: FocusSeq<WindowId>) -> Self {
        GroupView { windows, ..self }
    }

    pub open spec fn with_layouts(self, layouts: FocusSeq<Box<L>>) -> Self {
        GroupView { layouts, ..self }
    }

    pub open spec fn activate(self, viewport: Viewport) -> Self {
        GroupView { active: true, viewport, ..self }
    }

    pub open spec fn update_viewport(self, viewport: Viewport) -> Self {
        GroupView { viewport, ..self }
    }

    pub open spec fn deactivate(self) -> Self {
        GroupView { active: false, ..self }
    }

    pub open spec fn add_window(self, id: WindowId) -> Self {
        self.with_windows(self.windows.push(id))
    }

    /// The group without the first of its windows that is `id`.
    pub open spec fn remove_window(self, id: WindowId) -> Self {
        match position_of(self.windows.items, id) {
            Some(k) => self.with_windows(self.windows.remove_at(k)),
            None => self,
        }
    }

    pub open spec fn remove_focused(self) -> Self {
        self.with_windows(self.windows.remove_focused())
    }

    /// The group with the focus on the first of its windows that is `id`;
    /// the group as it is where it has no such window.
    pub open spec fn focus(self, id: WindowId) -> Self {
        match position_of(self.windows.items, id) {
            Some(k) => self.with_windows(self.windows.focus_at(k)),
            None => self,
        }
    }

    pub open spec fn focus_next(self) -> Self {
        self.with_windows(self.windows.focus_next())
    }

    pub open spec fn focus_previous(self) -> Self {
        self.with_windows(self.windows.focus_previous())
    }

    pub open spec fn shuffle_next(self) -> Self {
        self.with_windows(self.windows.shuffle_next())
    }

    pub open spec fn shuffle_previous(self) -> Self {
        self.with_windows(self.windows.shuffle_previous())
    }

    pub open spec fn layout_next(self) -> Self {
        self.with_layouts(self.layouts.focus_next())
    }

    pub open spec fn layout_previous(self) -> Self {
        self.with_layouts(self.layouts.focus_previous())
    }

    /// The group after `mutation`.
    pub open spec fn apply(self, mutation: Mutation) -> Self {
        match mutation {
            Mutation::AddWindow(id) => self.add_window(id),
            Mutation::RemoveWindow(id) => self.remove_window(id),
            Mutation::RemoveFocused => self.remove_focused(),
            Mutation::Focus(id) => self.focus(id),
            Mutation::FocusNext => self.focus_next(),
            Mutation::FocusPrevious => self.focus_previous(),
            Mutation::ShuffleNext => self.shuffle_next(),
            Mutation::ShufflePrevious => self.shuffle_previous(),
            Mutation::LayoutNext => self.layout_next(),
            Mutation::LayoutPrevious => self.layout_previous(),
        }
    }

    /// The group after `mutations`, made in their order.
    pub open spec fn apply_all(self, mutations: Seq<Mutation>) -> Self
        decreases mutations.len(),
    {
        if mutations.len() == 0 {
            self
        } else {
            self.apply_all(mutations.drop_last()).apply(mutations.last())
        }
    }

    /// An inactive group asks for nothing, whatever has been done to it.
    pub proof fn lemma_inactive_is_silent(self, mutations: Seq<Mutation>)
        requires
            !self.active,
        ensures
            self.layout_requests() == Seq::<Request>::empty(),
            !self.apply_all(mutations).active,
            self.apply_all(mutations).layout_requests() == Seq::<Request>::empty(),
        decreases mutations.len(),
    {
        if mutations.len() > 0 {
            self.lemma_inactive_is_silent(mutations.drop_last());
        }
    }

    /// A run of changes made to a group before it is activated leaves the
    /// group that the same run leaves when it is made after the activation:
    /// the layout that follows asks for the same in both.
    pub proof fn lemma_activation_commutes_with_all(
        self,
        viewport: Viewport,
        mutations: Seq<Mutation>,
    )
        ensures
            self.apply_all(mutations).activate(viewport) == self.activate(viewport).apply_all(
                mutations,
            ),
            self.apply_all(mutations).activate(viewport).layout_requests() == self.activate(
                viewport,
            ).apply_all(mutations).layout_requests(),
        decreases mutations.len(),
    {
        if mutations.len() > 0 {
            let front: Seq<Mutation> = mutations.drop_last();
            self.lemma_activation_commutes_with_all(viewport, front);
            let id: WindowId = match mutations.last() {
                Mutation::AddWindow(id) => id,
                Mutation::RemoveWindow(id) => id,
                Mutation::Focus(id) => id,
                _ => WindowId(0),
            };
            self.apply_all(front).lemma_activation_commutes(viewport, id);
        }
    }

    /// What happens to the windows and the layouts of a group does not
    /// depend on whether the group is active: each change gives the same
    /// group, and so the same requests at the next layout, whether it is made
    /// before the group is activated or after.
    pub proof fn lemma_activation_commutes(self, viewport: Viewport, id: WindowId)
        ensures
            self.add_window(id).activate(viewport) == self.activate(viewport).add_window(id),
            self.remove_window(id).activate(viewport) == self.activate(viewport).remove_window(id),
            self.remove_focused().activate(viewport) == self.activate(viewport).remove_focused(),
            self.focus(id).activate(viewport) == self.activate(viewport).focus(id),
            self.focus_next().activate(viewport) == self.activate(viewport).focus_next(),
            self.focus_previous().activate(viewport) == self.activate(viewport).focus_previous(),
            self.shuffle_next().activate(viewport) == self.activate(viewport).shuffle_next(),
            self.shuffle_previous().activate(viewport) == self.activate(
                viewport,
            ).shuffle_previous(),
            self.layout_next().activate(viewport) == self.activate(viewport).layout_next(),
            self.layout_previous().activate(viewport) == self.activate(viewport).layout_previous(),
    {
    }

    /// Activating an active group in the viewport it has leaves it as it is,
    /// and asks for its layout once more.
    pub proof fn lemma_activate_again(self, viewport: Viewport)
        ensures
            self.activate(viewport).activate(viewport) == self.activate(viewport),
            self.activate(viewport).activate(viewport).layout_requests() == self.activate(
                viewport,
            ).layout_requests(),
            self.activate(viewport).update_viewport(viewport) == self.activate(viewport),
    {
    }

    /// Hiding a group and showing it again in the same viewport changes
    /// nothing of it: the windows, their order, the focus and the chosen
    /// layout are kept while it is hidden.
    pub proof fn lemma_deactivate_keeps_state(self)
        requires
            self.active,
        ensures
            self.deactivate().windows == self.windows,
            self.deactivate().layouts == self.layouts,
            self.deactivate().activate(self.viewport) == self,
    {
    }

    /// Every operation keeps the focus of the windows on a window, and the
    /// choice of the layout on a layout.
    pub proof fn lemma_operations_keep_wf(self, viewport: Viewport, id: WindowId)
        requires
            self.wf(),
        ensures
            self.activate(viewport).wf(),
            self.update_viewport(viewport).wf(),
            self.deactivate().wf(),
            self.add_window(id).wf(),
            self.remove_window(id).wf(),
            self.remove_focused().wf(),
            self.focus(id).wf(),
            self.focus_next().wf(),
            self.focus_previous().wf(),
            self.shuffle_next().wf(),
            self.shuffle_previous().wf(),
            self.layout_next().wf(),
            self.layout_previous().wf(),
    {
        lemma_first_position_exists(self.windows.items, is_window(id));
    }

    /// Taking a window out of the group leaves the focus on the window that
    /// had it, unless that is the very window that leaves.
    pub proof fn lemma_remove_window_keeps_focused(self, id: WindowId)
        requires
            self.wf(),
            self.windows.items.contains(id),
            position_of(self.windows.items, id) != self.windows.focus,
        ensures
            self.remove_window(id).windows.focused() == self.windows.focused(),
            self.remove_window(id).windows.items.len() == self.windows.items.len() - 1,
    {
        lemma_first_position_exists(self.windows.items, is_window(id));
        assert(position_of(self.windows.items, id) is Some) by {
            let i: int = choose|i: int|
                0 <= i < self.windows.items.len() && self.windows.items[i] == id;
            assert(is_window(id)(self.windows.items[i]));
        }
        self.windows.lemma_remove_other_keeps_focused(position_of(self.windows.items, id)->0);
    }

    /// Stepping to the next layout and to the one before undo each other.
    pub proof fn lemma_layout_steps_are_inverse(self)
        requires
            self.wf(),
        ensures
            self.layout_next().layout_previous() == self,
            self.layout_previous().layout_next() == self,
    {
        self.layouts.lemma_next_and_previous_are_inverse();
    }
}

/// The name of a group to be, and the name of the layout it starts with.
pub struct GroupBuilderView {
    pub name: Seq<char>,
    pub default_layout: Seq<char>,
}

impl GroupBuilderView {
    /// The group as it is built: inactive, without windows, in an empty
    /// viewport, with `layouts` and the first of them that goes by the
    /// builder's layout name chosen.
    pub open spec fn build<L: Layout + ?Sized>(self, layouts: Seq<Box<L>>) -> GroupView<L> {
        GroupView {
            name: self.name,
            active: false,
            windows: FocusSeq::empty(),
            layouts: FocusSeq {
                items: layouts,
                focus: first_position(layouts, has_name::<L>(self.default_layout)),
            },
            viewport: Viewport { x: 0, y: 0, width: 0, height: 0 },
        }
    }
}

/// Makes a group from its name and the name of its first layout.
#[derive(Clone)]
pub struct GroupBuilder {
    name: String,
    default_layout: String,
}

impl View for GroupBuilder {
    type V = GroupBuilderView;

    closed spec fn view(&self) -> GroupBuilderView {
        GroupBuilderView { name: self.name@, default_layout: self.default_layout@ }
    }
}

impl GroupBuilder {
    pub fn new(name: String, default_layout: String) -> (builder: GroupBuilder)
        ensures
            builder@ == (GroupBuilderView { name: name@, default_layout: default_layout@ }),
    {
        GroupBuilder { name, default_layout }
    }

    /// The group: inactive, without windows, with the given layouts, and the
    /// first of them that goes by the builder's layout name chosen. Where
    /// none goes by that name, no layout is chosen.
    pub fn build<L: Layout + ?Sized>(self, layouts: Vec<Box<L>>) -> (group: Group<L>)
        ensures
            group@.wf(),
            group@ == self@.build(layouts@),
    {
        let ghost all: Seq<Box<L>> = layouts@;
        let mut layouts_stack: Stack<Box<L>> = Stack::from(layouts);
        let default_layout: &String = &self.default_layout;
        let named = |layout: &Box<L>| -> (r: bool)
            ensures
                r == (layout.spec_name() == default_layout@),
            { layout.name().to_owned() == *default_layout };
        layouts_stack.focus(named);
        proof {
            let pred = has_name::<L>(self@.default_layout);
            lemma_decides_name(named, self@.default_layout);
            if no_match(named, all) && layouts_stack@.focus is None {
                lemma_no_match_decided(named, pred, all);
            } else {
                let k: int = choose|k: int| #[trigger]
                    first_match(named, all, k) && layouts_stack@.focus == Some(k);
                lemma_first_match_decided(named, pred, all, k);
            }
        }
        Group {
            name: self.name.clone(),
            active: false,
            stack: Stack::new(),
            layouts: layouts_stack,
            viewport: Viewport::default(),
        }
    }
}

/// A workspace: the windows it manages, the one of them that has the focus,
/// the layouts it can arrange them by and the one in use, and the part of the
/// screen it may fill while it is active.
pub struct Group<L: Layout + ?Sized> {
    name: String,
    active: bool,
    stack: Stack<WindowId>,
    layouts: Stack<Box<L>>,
    viewport: Viewport,
}

impl<L: Layout + ?Sized> View for Group<L> {
    type V = GroupView<L>;

    closed spec fn view(&self) -> GroupView<L> {
        GroupView {
            name: self.name@,
            active: self.active,
            windows: self.stack@,
            layouts: self.layouts@,
            viewport: self.viewport,
        }
    }
}

impl<L: Layout + ?Sized> Group<L> {
    pub fn name(&self) -> (name: &str)
        ensures
            name@ == self@.name,
    {
        self.name.as_str()
    }

    /// Whether the group is the one shown.
    pub fn is_active(&self) -> (active: bool)
        ensures
            active == self@.active,
    {
        self.active
    }

    /// Shows the group in `viewport`, and lays it out.
    pub fn activate(&mut self, viewport: Viewport) -> (requests: Vec<Request>)
        ensures
            final(self)@ == old(self)@.activate(viewport),
            final(self)@.wf(),
            requests@ == final(self)@.layout_requests(),
    {
        self.active = true;
        self.viewport = viewport;
        self.perform_layout()
    }

    /// Gives the group another viewport, and lays it out.
    pub fn update_viewport(&mut self, viewport: Viewport) -> (requests: Vec<Request>)
        ensures
            final(self)@ == old(self)@.update_viewport(viewport),
            final(self)@.wf(),
            requests@ == final(self)@.layout_requests(),
    {
        self.viewport = viewport;
        self.perform_layout()
    }

    /// Hides the group: each window is unmapped, and stays in the group.
    pub fn deactivate(&mut self) -> (requests: Vec<Request>)
        ensures
            final(self)@ == old(self)@.deactivate(),
            old(self)@.wf() ==> final(self)@.wf(),
            requests@ == unmap_all(old(self)@.windows.items),
    {
        let mut requests: Vec<Request> = Vec::new();
        let mut windows: GroupIter = self.iter();
        let ghost all: Seq<WindowId> = windows@;
        let ghost mut done: int = 0;
        loop
            invariant
                0 <= done <= all.len(),
                windows@ == all.skip(done),
                requests@ == unmap_all(all.take(done)),
            ensures
                requests@ == unmap_all(all),
            decreases windows@.len(),
        {
            match windows.next() {
                None => {
                    assert(all.take(done) =~= all);
                    break;
                },
                Some(window) => {
                    let id: WindowId = *window.id();
                    requests.push(Request::DisableWindowTracking(id));
                    requests.push(window.unmap());
                    requests.push(Request::EnableWindowTracking(id));
                    proof {
                        assert(all.take(done + 1).drop_last() =~= all.take(done));
                        assert(requests@ =~= unmap_all(all.take(done)) + unmap_untracked(id));
                        done = done + 1;
                        assert(windows@ =~= all.skip(done));
                    }
                },
            }
        }
        self.active = false;
        requests
    }

    /// The requests that bring the screen in line with the group.
    ///
    /// An inactive group asks for nothing. An active one has its chosen
    /// layout arrange the windows, and then gives the input focus to the
    /// focused window, or takes it from all where none is focused.
    pub fn perform_layout(&self) -> (requests: Vec<Request>)
        ensures
            self@.wf(),
            requests@ == self@.layout_requests(),
    {
        let focused: Option<GroupWindow> = self.get_focused();
        let chosen: Option<&Box<L>> = self.layouts.focused();
        let mut requests: Vec<Request> = Vec::new();
        if !self.active {
            return requests;
        }
        match chosen {
            Some(layout) => {
                requests = layout.layout(&self.viewport, focused, self.iter());
            },
            None => {},
        }
        match focused {
            Some(window) => {
                requests.push(Request::FocusWindow(*window.id()));
            },
            None => {
                requests.push(Request::FocusNothing);
            },
        }
        requests
    }

    /// Takes `window_id` into the group, behind the windows it has.
    pub fn add_window(&mut self, window_id: WindowId) -> (requests: Vec<Request>)
        ensures
            final(self)@ == old(self)@.add_window(window_id),
            final(self)@.wf(),
            requests@ == final(self)@.layout_requests(),
    {
        self.stack.push(window_id);
        self.perform_layout()
    }

    /// Takes `window_id` out of the group, and hands it back.
    ///
    /// The caller makes sure that the group holds the window.
    pub fn remove_window(&mut self, window_id: &WindowId) -> (removed: (WindowId, Vec<Request>))
        requires
            old(self)@.windows.items.contains(*window_id),
        ensures
            removed.0 == *window_id,
            final(self)@ == old(self)@.remove_window(*window_id),
            final(self)@.wf(),
            removed.1@ == final(self)@.layout_requests(),
    {
        let id: WindowId = *window_id;
        let ghost before: Seq<WindowId> = self.stack@.items;
        let same = |window: &WindowId| -> (r: bool)
            ensures
                r == (*window == id),
            { *window == id };
        proof {
            let i: int = choose|i: int| 0 <= i < before.len() && before[i] == id;
            assert(always_matches(same, before[i]));
        }
        let removed: WindowId = self.stack.remove(same);
        proof {
            let k: int = choose|k: int|
                {
                    &&& #[trigger] first_match(same, before, k)
                    &&& removed == before[k]
                    &&& self.stack@ == old(self).stack@.remove_at(k)
                };
            assert(decides(same, is_window(id)));
            lemma_first_match_decided(same, is_window(id), before, k);
        }
        let requests: Vec<Request> = self.perform_layout();
        (removed, requests)
    }

    /// Takes `window_id` out of the group and lays the group out, where the
    /// group holds the window. Where it does not, nothing happens and nothing
    /// is asked for.
    pub fn try_remove_window(&mut self, window_id: &WindowId) -> (removed: (
        Option<WindowId>,
        Vec<Request>,
    ))
        ensures
            old(self)@.wf() ==> final(self)@.wf(),
            old(self)@.windows.items.contains(*window_id) ==> {
                &&& removed.0 == Some(*window_id)
                &&& final(self)@ == old(self)@.remove_window(*window_id)
                &&& removed.1@ == final(self)@.layout_requests()
            },
            !old(self)@.windows.items.contains(*window_id) ==> {
                &&& removed.0 is None
                &&& final(self)@ == old(self)@
                &&& removed.1@ == Seq::<Request>::empty()
            },
    {
        if self.contains(window_id) {
            let removed: (WindowId, Vec<Request>) = self.remove_window(window_id);
            (Some(removed.0), removed.1)
        } else {
            (None, Vec::new())
        }
    }

    /// Takes the focused window out of the group, if there is one, and hands
    /// it back. After the layout the window is hidden, without hearing of it.
    pub fn remove_focused(&mut self) -> (removed: (Option<WindowId>, Vec<Request>))
        ensures
            removed.0 == old(self)@.windows.focused(),
            final(self)@ == old(self)@.remove_focused(),
            final(self)@.wf(),
            removed.1@ == final(self)@.layout_requests() + match removed.0 {
                Some(id) => unmap_untracked(id),
                None => Seq::empty(),
            },
    {
        let removed: Option<WindowId> = self.stack.remove_focused();
        let mut requests: Vec<Request> = self.perform_layout();
        match removed {
            Some(id) => {
                requests.push(Request::DisableWindowTracking(id));
                requests.push(Request::UnmapWindow(id));
                requests.push(Request::EnableWindowTracking(id));
                assert(requests@ =~= self@.layout_requests() + unmap_untracked(id));
            },
            None => {
                assert(requests@ =~= self@.layout_requests() + Seq::<Request>::empty());
            },
        }
        (removed, requests)
    }

    /// Whether the group holds `window_id`.
    pub fn contains(&self, window_id: &WindowId) -> (found: bool)
        ensures
            found == self@.windows.items.contains(*window_id),
    {
        let id: WindowId = *window_id;
        let same = |window: &WindowId| -> (r: bool)
            ensures
                r == (*window == id),
            { *window == id };
        let found: Option<usize> = self.stack.position(same);
        proof {
            assert(decides(same, is_window(id)));
            match found {
                Some(k) => {
                    assert(self@.windows.items[k as int] == id);
                },
                None => {
                    if self@.windows.items.contains(id) {
                        let i: int = choose|i: int|
                            0 <= i < self@.windows.items.len() && self@.windows.items[i] == id;
                        assert(call_ensures(same, (&self@.windows.items[i],), false));
                    }
                },
            }
        }
        found.is_some()
    }

    /// Gives the focus to the first window that is `window_id`. Where the
    /// group holds no such window, the focus stays as it is.
    pub fn focus(&mut self, window_id: &WindowId) -> (requests: Vec<Request>)
        ensures
            final(self)@ == old(self)@.focus(*window_id),
            final(self)@.wf(),
            requests@ == final(self)@.layout_requests(),
    {
        let id: WindowId = *window_id;
        let ghost before: Seq<WindowId> = self.stack@.items;
        let same = |window: &WindowId| -> (r: bool)
            ensures
                r == (*window == id),
            { *window == id };
        self.stack.focus(same);
        proof {
            assert(decides(same, is_window(id)));
            if no_match(same, before) && self.stack@ == old(self).stack@ {
                lemma_no_match_decided(same, is_window(id), before);
            } else {
                let k: int = choose|k: int| #[trigger]
                    first_match(same, before, k) && self.stack@ == old(self).stack@.focus_at(k);
                lemma_first_match_decided(same, is_window(id), before, k);
            }
        }
        self.perform_layout()
    }

    /// A pass over the windows, in the order in which the group holds them.
    pub fn iter<'a>(&'a self) -> (windows: GroupIter<'a>)
        ensures
            windows@ == self@.windows.items,
            self@.windows.wf(),
    {
        GroupIter { inner: self.stack.as_slice() }
    }

    /// The focused window.
    pub fn get_focused<'a>(&'a self) -> (focused: Option<GroupWindow<'a>>)
        ensures
            self@.windows.wf(),
            match focused {
                Some(window) => Some(window@) == self@.windows.focused(),
                None => self@.windows.focused() is None,
            },
    {
        match self.stack.focused() {
            Some(window_id) => Some(GroupWindow { window_id }),
            None => None,
        }
    }

    /// Gives the focus to the next window, and from the last to the first.
    pub fn focus_next(&mut self) -> (requests: Vec<Request>)
        ensures
            final(self)@ == old(self)@.focus_next(),
            final(self)@.wf(),
            requests@ == final(self)@.layout_requests(),
    {
        self.stack.focus_next();
        self.perform_layout()
    }

    /// Gives the focus to the window before, and from the first to the last.
    pub fn focus_previous(&mut self) -> (requests: Vec<Request>)
        ensures
            final(self)@ == old(self)@.focus_previous(),
            final(self)@.wf(),
            requests@ == final(self)@.layout_requests(),
    {
        self.stack.focus_previous();
        self.perform_layout()
    }

    /// Exchanges the focused window with the next one; it keeps the focus.
    pub fn shuffle_next(&mut self) -> (requests: Vec<Request>)
        ensures
            final(self)@ == old(self)@.shuffle_next(),
            final(self)@.wf(),
            requests@ == final(self)@.layout_requests(),
    {
        self.stack.shuffle_next();
        self.perform_layout()
    }

    /// Exchanges the focused window with the one before; it keeps the focus.
    pub fn shuffle_previous(&mut self) -> (requests: Vec<Request>)
        ensures
            final(self)@ == old(self)@.shuffle_previous(),
            final(self)@.wf(),
            requests@ == final(self)@.layout_requests(),
    {
        self.stack.shuffle_previous();
        self.perform_layout()
    }

    /// Chooses the next layout, and after the last one the first.
    pub fn layout_next(&mut self) -> (requests: Vec<Request>)
        ensures
            final(self)@ == old(self)@.layout_next(),
            final(self)@.wf(),
            requests@ == final(self)@.layout_requests(),
    {
        self.layouts.focus_next();
        self.perform_layout()
    }

    /// Chooses the layout before, and before the first one the last.
    pub fn layout_previous(&mut self) -> (requests: Vec<Request>)
        ensures
            final(self)@ == old(self)@.layout_previous(),
            final(self)@.wf(),
            requests@ == final(self)@.layout_requests(),
    {
        self.layouts.focus_previous();
        self.perform_layout()
    }
}

} // verus!


