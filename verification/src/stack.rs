use vstd::prelude::*;
use vstd::std_specs::iter::IteratorSpec;

verus! {

/// The mathematical model of a focus stack: its items in storage order, and
/// the position of the focused item, if one is focused.
pub struct FocusSeq<T> {
    pub items: Seq<T>,
    pub focus: Option<int>,
}

/// Where the focus stands once the item at `k` has left a sequence of `len`
/// items.
///
/// An item before the focus pulls the focus down with it, so that the same
/// item stays focused. When the focused item itself leaves, the focus stays on
/// its slot, into which the following item has slid; it steps back when the
/// slot was the last one, and is lost when no item is left.
pub open spec fn focus_after_removal(focus: Option<int>, k: int, len: int) -> Option<int> {
    match focus {
        None => None,
        Some(f) => if k < f {
            Some(f - 1)
        } else if k > f {
            Some(f)
        } else if len == 1 {
            None
        } else if f == len - 1 {
            Some(f - 1)
        } else {
            Some(f)
        },
    }
}

/// The position after `f` in a cycle of `len` positions.
pub open spec fn cyclic_next(f: int, len: int) -> int {
    if f + 1 == len {
        0
    } else {
        f + 1
    }
}

/// The position before `f` in a cycle of `len` positions.
pub open spec fn cyclic_previous(f: int, len: int) -> int {
    if f == 0 {
        len - 1
    } else {
        f - 1
    }
}

/// `items` with the items at `i` and `j` exchanged.
pub open spec fn swapped<T>(items: Seq<T>, i: int, j: int) -> Seq<T> {
    items.update(i, items[j]).update(j, items[i])
}

impl<T> FocusSeq<T> {
    /// The focus, where there is one, is the position of an item.
    pub open spec fn wf(self) -> bool {
        match self.focus {
            Some(f) => 0 <= f < self.items.len(),
            None => true,
        }
    }

    /// There is a focus exactly when there is an item.
    pub open spec fn tracks_focus(self) -> bool {
        self.wf() && (self.focus is None <==> self.items.len() == 0)
    }

    pub open spec fn empty() -> Self {
        FocusSeq { items: Seq::empty(), focus: None }
    }

    /// The focused item.
    pub open spec fn focused(self) -> Option<T> {
        match self.focus {
            Some(f) => Some(self.items[f]),
            None => None,
        }
    }

    pub open spec fn push(self, item: T) -> Self {
        FocusSeq { items: self.items.push(item), focus: self.focus }
    }

    pub open spec fn remove_at(self, k: int) -> Self {
        FocusSeq {
            items: self.items.remove(k),
            focus: focus_after_removal(self.focus, k, self.items.len() as int),
        }
    }

    pub open spec fn remove_focused(self) -> Self {
        match self.focus {
            Some(f) => self.remove_at(f),
            None => self,
        }
    }

    pub open spec fn focus_at(self, k: int) -> Self {
        FocusSeq { items: self.items, focus: Some(k) }
    }

    pub open spec fn focus_next(self) -> Self {
        match self.focus {
            Some(f) => self.focus_at(cyclic_next(f, self.items.len() as int)),
            None => self,
        }
    }

    pub open spec fn focus_previous(self) -> Self {
        match self.focus {
            Some(f) => self.focus_at(cyclic_previous(f, self.items.len() as int)),
            None => self,
        }
    }

    pub open spec fn shuffle_to(self, f: int, g: int) -> Self {
        FocusSeq { items: swapped(self.items, f, g), focus: Some(g) }
    }

    pub open spec fn shuffle_next(self) -> Self {
        match self.focus {
            Some(f) => self.shuffle_to(f, cyclic_next(f, self.items.len() as int)),
            None => self,
        }
    }

    pub open spec fn shuffle_previous(self) -> Self {
        match self.focus {
            Some(f) => self.shuffle_to(f, cyclic_previous(f, self.items.len() as int)),
            None => self,
        }
    }
}

impl<T> FocusSeq<T> {
    /// `self` after `n` moves of the focus to the next item.
    pub open spec fn focus_next_times(self, n: nat) -> Self
        decreases n,
    {
        if n == 0 {
            self
        } else {
            self.focus_next_times((n - 1) as nat).focus_next()
        }
    }

    /// `self` after `n` moves of the focus to the item before.
    pub open spec fn focus_previous_times(self, n: nat) -> Self
        decreases n,
    {
        if n == 0 {
            self
        } else {
            self.focus_previous_times((n - 1) as nat).focus_previous()
        }
    }

    /// Every operation keeps the focus on the position of an item.
    pub proof fn lemma_operations_keep_wf(self, item: T, k: int)
        requires
            self.wf(),
        ensures
            Self::empty().wf(),
            self.push(item).wf(),
            0 <= k < self.items.len() ==> self.remove_at(k).wf() && self.focus_at(k).wf(),
            self.remove_focused().wf(),
            self.focus_next().wf(),
            self.focus_previous().wf(),
            self.shuffle_next().wf(),
            self.shuffle_previous().wf(),
    {
    }

    /// A stack that has a focus whenever it has an item keeps one under every
    /// operation but a push onto the empty stack, which focuses nothing.
    pub proof fn lemma_operations_keep_tracking(self, item: T, k: int)
        requires
            self.tracks_focus(),
        ensures
            Self::empty().tracks_focus(),
            self.items.len() > 0 ==> self.push(item).tracks_focus(),
            0 <= k < self.items.len() ==> self.remove_at(k).tracks_focus() && self.focus_at(
                k,
            ).tracks_focus(),
            self.remove_focused().tracks_focus(),
            self.focus_next().tracks_focus(),
            self.focus_previous().tracks_focus(),
            self.shuffle_next().tracks_focus(),
            self.shuffle_previous().tracks_focus(),
    {
    }

    /// Moving the focus changes no item and no position of one.
    pub proof fn lemma_focus_moves_keep_items(self)
        ensures
            self.focus_next().items == self.items,
            self.focus_previous().items == self.items,
    {
    }

    proof fn lemma_focus_next_steps(self, n: nat)
        requires
            self.wf(),
            self.focus is Some,
            n <= self.items.len(),
        ensures
            self.focus_next_times(n) == self.focus_at(
                if self.focus->0 + n < self.items.len() {
                    self.focus->0 + n
                } else {
                    self.focus->0 + n - self.items.len()
                },
            ),
        decreases n,
    {
        if n > 0 {
            self.lemma_focus_next_steps((n - 1) as nat);
        }
    }

    proof fn lemma_focus_previous_steps(self, n: nat)
        requires
            self.wf(),
            self.focus is Some,
            n <= self.items.len(),
        ensures
            self.focus_previous_times(n) == self.focus_at(
                if self.focus->0 - n >= 0 {
                    self.focus->0 - n
                } else {
                    self.focus->0 - n + self.items.len()
                },
            ),
        decreases n,
    {
        if n > 0 {
            self.lemma_focus_previous_steps((n - 1) as nat);
        }
    }

    /// The focus moves in a cycle: as many moves to the next item as there
    /// are items bring it back to where it stood, and so do as many moves to
    /// the item before.
    pub proof fn lemma_focus_cycles(self)
        requires
            self.wf(),
        ensures
            self.focus_next_times(self.items.len()) == self,
            self.focus_previous_times(self.items.len()) == self,
    {
        if self.focus is Some {
            self.lemma_focus_next_steps(self.items.len());
            self.lemma_focus_previous_steps(self.items.len());
        } else {
            self.lemma_unfocused_stays(self.items.len());
        }
    }

    proof fn lemma_unfocused_stays(self, n: nat)
        requires
            self.focus is None,
        ensures
            self.focus_next_times(n) == self,
            self.focus_previous_times(n) == self,
        decreases n,
    {
        if n > 0 {
            self.lemma_unfocused_stays((n - 1) as nat);
        }
    }

    /// A move of the focus to the next item and one to the item before undo
    /// each other, and so do the two shuffles.
    pub proof fn lemma_next_and_previous_are_inverse(self)
        requires
            self.wf(),
        ensures
            self.focus_next().focus_previous() == self,
            self.focus_previous().focus_next() == self,
            self.shuffle_next().shuffle_previous() == self,
            self.shuffle_previous().shuffle_next() == self,
    {
        if self.focus is Some {
            let f: int = self.focus->0;
            let len: int = self.items.len() as int;
            let next: int = cyclic_next(f, len);
            let previous: int = cyclic_previous(f, len);
            assert(swapped(swapped(self.items, f, next), next, f) =~= self.items);
            assert(swapped(swapped(self.items, f, previous), previous, f) =~= self.items);
        }
    }

    /// On a stack of one item, and that item focused, removing the focused
    /// item hands out that item and leaves the empty, unfocused stack.
    pub proof fn lemma_remove_focused_of_one(self)
        requires
            self.wf(),
            self.items.len() == 1,
            self.focus is Some,
        ensures
            self.focused() == Some(self.items[0]),
            self.remove_focused() == Self::empty(),
    {
        assert(self.items.remove(0) =~= Seq::<T>::empty());
    }

    /// A shuffle exchanges two items and no others, and the item that was
    /// focused is focused after it.
    pub proof fn lemma_shuffle_follows_item(self)
        requires
            self.wf(),
            self.focus is Some,
        ensures
            self.shuffle_next().focused() == self.focused(),
            self.shuffle_previous().focused() == self.focused(),
            self.shuffle_next().items == swapped(
                self.items,
                self.focus->0,
                self.focus_next().focus->0,
            ),
            self.shuffle_previous().items == swapped(
                self.items,
                self.focus->0,
                self.focus_previous().focus->0,
            ),
            self.shuffle_next().items.to_multiset() == self.items.to_multiset(),
            self.shuffle_previous().items.to_multiset() == self.items.to_multiset(),
    {
        let f: int = self.focus->0;
        let len: int = self.items.len() as int;
        lemma_swapped_keeps_multiset(self.items, f, cyclic_next(f, len));
        lemma_swapped_keeps_multiset(self.items, f, cyclic_previous(f, len));
    }

    /// Removing an item that is not the focused one leaves the same item
    /// focused, whatever becomes of its position.
    pub proof fn lemma_remove_other_keeps_focused(self, k: int)
        requires
            self.wf(),
            0 <= k < self.items.len(),
            self.focus != Some(k),
        ensures
            self.remove_at(k).wf(),
            self.remove_at(k).focused() == self.focused(),
            self.focus is Some ==> self.remove_at(k).focus == Some(
                if k < self.focus->0 {
                    self.focus->0 - 1
                } else {
                    self.focus->0
                },
            ),
    {
    }
}

/// Exchanging two items of a sequence keeps each item as often as it was there.
pub proof fn lemma_swapped_keeps_multiset<T>(items: Seq<T>, i: int, j: int)
    requires
        0 <= i < items.len(),
        0 <= j < items.len(),
    ensures
        swapped(items, i, j).to_multiset() == items.to_multiset(),
{
    broadcast use vstd::multiset::group_multiset_axioms;

    let once: Seq<T> = items.update(i, items[j]);
    vstd::seq_lib::to_multiset_update(items, i, items[j]);
    vstd::seq_lib::to_multiset_update(once, j, items[i]);
    vstd::seq_lib::to_multiset_contains(items, items[i]);
    vstd::seq_lib::to_multiset_contains(items, items[j]);
    assert(items.contains(items[i]));
    assert(items.contains(items[j]));
    assert(swapped(items, i, j).to_multiset() =~= items.to_multiset());
}

/// `p` may answer `true` on the item at `k` and `false` on each item before it.
pub open spec fn first_match<T, P: Fn(&T) -> bool>(p: P, items: Seq<T>, k: int) -> bool {
    &&& 0 <= k < items.len()
    &&& call_ensures(p, (&items[k],), true)
    &&& forall|j: int| 0 <= j < k ==> call_ensures(p, (&#[trigger] items[j],), false)
}

/// `p` may answer `false` on every item.
pub open spec fn no_match<T, P: Fn(&T) -> bool>(p: P, items: Seq<T>) -> bool {
    forall|j: int| 0 <= j < items.len() ==> call_ensures(p, (&#[trigger] items[j],), false)
}

/// `p` can be called on every item.
pub open spec fn accepts_all<T, P: Fn(&T) -> bool>(p: P, items: Seq<T>) -> bool {
    forall|j: int| 0 <= j < items.len() ==> call_requires(p, (&#[trigger] items[j],))
}

/// `p` answers `true` on `item`, whenever it is asked.
pub open spec fn always_matches<T, P: Fn(&T) -> bool>(p: P, item: T) -> bool {
    forall|r: bool| call_ensures(p, (&item,), r) ==> r
}

/// `p` answers on every item what `pred` says of it.
pub open spec fn decides<T, P: Fn(&T) -> bool>(p: P, pred: spec_fn(T) -> bool) -> bool {
    forall|item: T, r: bool| #[trigger] call_ensures(p, (&item,), r) ==> r == pred(item)
}

/// `k` is the first position of `items` at which `pred` holds.
pub open spec fn is_first<T>(items: Seq<T>, pred: spec_fn(T) -> bool, k: int) -> bool {
    &&& 0 <= k < items.len()
    &&& pred(items[k])
    &&& forall|j: int| 0 <= j < k ==> !pred(#[trigger] items[j])
}

/// The first position of `items` at which `pred` holds, if there is one.
pub open spec fn first_position<T>(items: Seq<T>, pred: spec_fn(T) -> bool) -> Option<int> {
    if exists|k: int| is_first(items, pred, k) {
        Some(choose|k: int| is_first(items, pred, k))
    } else {
        None
    }
}

/// There is one first position at most.
pub proof fn lemma_first_position<T>(items: Seq<T>, pred: spec_fn(T) -> bool, k: int)
    requires
        is_first(items, pred, k),
    ensures
        first_position(items, pred) == Some(k),
{
    let chosen: int = choose|k: int| is_first(items, pred, k);
    if chosen < k {
        assert(!pred(items[chosen]));
    } else if k < chosen {
        assert(!pred(items[k]));
    }
}

/// There is a first position exactly where `pred` holds of some item.
pub proof fn lemma_first_position_exists<T>(items: Seq<T>, pred: spec_fn(T) -> bool)
    ensures
        first_position(items, pred) is Some <==> exists|j: int|
            0 <= j < items.len() && pred(#[trigger] items[j]),
        first_position(items, pred) matches Some(k) ==> is_first(items, pred, k),
    decreases items.len(),
{
    if exists|j: int| 0 <= j < items.len() && pred(#[trigger] items[j]) {
        let j: int = choose|j: int| 0 <= j < items.len() && pred(#[trigger] items[j]);
        lemma_least_position(items, pred, j);
    }
}

proof fn lemma_least_position<T>(items: Seq<T>, pred: spec_fn(T) -> bool, j: int)
    requires
        0 <= j < items.len(),
        pred(items[j]),
    ensures
        exists|k: int| is_first(items, pred, k),
    decreases j,
{
    if exists|i: int| 0 <= i < j && pred(#[trigger] items[i]) {
        let i: int = choose|i: int| 0 <= i < j && pred(#[trigger] items[i]);
        lemma_least_position(items, pred, i);
    } else {
        assert(is_first(items, pred, j));
    }
}

/// Where `p` decides `pred`, the item that `p` is seen to match first is the
/// first of which `pred` holds.
pub proof fn lemma_first_match_decided<T, P: Fn(&T) -> bool>(
    p: P,
    pred: spec_fn(T) -> bool,
    items: Seq<T>,
    k: int,
)
    requires
        decides(p, pred),
        first_match(p, items, k),
    ensures
        first_position(items, pred) == Some(k),
{
    assert forall|j: int| 0 <= j < k implies !pred(#[trigger] items[j]) by {
        assert(call_ensures(p, (&items[j],), false));
    }
    lemma_first_position(items, pred, k);
}

/// Where `p` decides `pred` and is seen to match no item, `pred` holds of
/// none.
pub proof fn lemma_no_match_decided<T, P: Fn(&T) -> bool>(
    p: P,
    pred: spec_fn(T) -> bool,
    items: Seq<T>,
)
    requires
        decides(p, pred),
        no_match(p, items),
    ensures
        first_position(items, pred) is None,
{
    if first_position(items, pred) is Some {
        let k: int = choose|k: int| is_first(items, pred, k);
        assert(call_ensures(p, (&items[k],), false));
    }
}

/// An ordered container with one distinguished, focused position.
///
/// The order of the items is the order in which they were pushed, but for
/// what the shuffles exchange. The focus is the position of one of the items,
/// or nothing: an empty stack has no focus, and a push gives none, so that a
/// stack has a focus only once `focus` has found an item. From then on it
/// keeps one until its last item has left.
pub struct Stack<T> {
    items: Vec<T>,
    focus: Option<usize>,
}

impl<T> View for Stack<T> {
    type V = FocusSeq<T>;

    closed spec fn view(&self) -> FocusSeq<T> {
        FocusSeq {
            items: self.items@,
            focus: match self.focus {
                Some(f) => Some(f as int),
                None => None,
            },
        }
    }
}

impl<T> Stack<T> {
    #[verifier::type_invariant]
    spec fn focus_in_range(self) -> bool {
        match self.focus {
            Some(f) => f < self.items.len(),
            None => true,
        }
    }

    /// An empty stack, with nothing focused.
    pub fn new() -> (stack: Self)
        ensures
            stack@ == FocusSeq::<T>::empty(),
    {
        Stack { items: Vec::new(), focus: None }
    }

    /// The number of items.
    pub fn len(&self) -> (len: usize)
        ensures
            len == self@.items.len(),
            self@.wf(),
    {
        proof {
            use_type_invariant(self);
        }
        self.items.len()
    }

    /// Whether the stack holds no item.
    pub fn is_empty(&self) -> (empty: bool)
        ensures
            empty == (self@.items.len() == 0),
            self@.wf(),
    {
        proof {
            use_type_invariant(self);
        }
        self.items.len() == 0
    }

    /// The items in storage order.
    pub fn as_slice(&self) -> (items: &[T])
        ensures
            items@ == self@.items,
            self@.wf(),
    {
        proof {
            use_type_invariant(self);
        }
        self.items.as_slice()
    }

    /// A pass over the items in storage order. It borrows the stack, takes
    /// nothing out of it, and can be asked for again and again.
    pub fn iter(&self) -> (iter: core::slice::Iter<'_, T>)
        ensures
            self@.wf(),
            iter.remaining() == self@.items.as_ref(),
            iter.decrease() is Some,
            iter.initial_value_relation(&iter),
    {
        proof {
            use_type_invariant(self);
        }
        broadcast use vstd::std_specs::slice::axiom_spec_slice_iter;
        self.items.as_slice().iter()
    }

    /// The focused item.
    pub fn focused(&self) -> (focused: Option<&T>)
        ensures
            self@.wf(),
            match focused {
                Some(item) => Some(*item) == self@.focused(),
                None => self@.focus is None,
            },
    {
        proof {
            use_type_invariant(self);
        }
        match self.focus {
            Some(f) => Some(&self.items[f]),
            None => None,
        }
    }

    /// Moves the items out, leaving the stack empty and unfocused.
    fn take_items(&mut self) -> (items: Vec<T>)
        ensures
            items@ == old(self)@.items,
            final(self)@ == FocusSeq::<T>::empty(),
    {
        self.focus = None;
        let mut items: Vec<T> = Vec::new();
        core::mem::swap(&mut self.items, &mut items);
        items
    }

    /// Appends `item` at the end. The focus stays where it is.
    pub fn push(&mut self, item: T)
        ensures
            final(self)@ == old(self)@.push(item),
            final(self)@.wf(),
    {
        proof {
            use_type_invariant(&*self);
        }
        let focus: Option<usize> = self.focus;
        let mut items: Vec<T> = self.take_items();
        items.push(item);
        self.items = items;
        self.focus = focus;
    }

    /// Removes the item at `k`, and moves the focus as the removal asks.
    fn remove_at(&mut self, k: usize) -> (removed: T)
        requires
            k < old(self)@.items.len(),
        ensures
            removed == old(self)@.items[k as int],
            final(self)@ == old(self)@.remove_at(k as int),
            final(self)@.wf(),
    {
        proof {
            use_type_invariant(&*self);
        }
        let focus: Option<usize> = self.focus;
        let mut items: Vec<T> = self.take_items();
        let removed: T = items.remove(k);
        let left: usize = items.len();
        self.items = items;
        self.focus = match focus {
            None => None,
            Some(f) => if k < f {
                Some(f - 1)
            } else if k > f {
                Some(f)
            } else if left == 0 {
                None
            } else if f == left {
                Some(f - 1)
            } else {
                Some(f)
            },
        };
        removed
    }

    /// Removes the focused item and returns it. The focus then stands on the
    /// item that followed it, on the one before it when it was the last, and
    /// on nothing when the stack is left empty.
    pub fn remove_focused(&mut self) -> (removed: Option<T>)
        ensures
            removed == old(self)@.focused(),
            final(self)@ == old(self)@.remove_focused(),
            final(self)@.wf(),
    {
        proof {
            use_type_invariant(&*self);
        }
        match self.focus {
            Some(f) => Some(self.remove_at(f)),
            None => None,
        }
    }

    /// Moves the focus to the next item, and from the last item to the first.
    pub fn focus_next(&mut self)
        ensures
            final(self)@ == old(self)@.focus_next(),
            final(self)@.wf(),
    {
        proof {
            use_type_invariant(&*self);
        }
        match self.focus {
            Some(f) => {
                let next: usize = if f + 1 == self.items.len() { 0 } else { f + 1 };
                self.focus = Some(next);
            },
            None => {},
        }
    }

    /// Moves the focus to the item before, and from the first item to the last.
    pub fn focus_previous(&mut self)
        ensures
            final(self)@ == old(self)@.focus_previous(),
            final(self)@.wf(),
    {
        proof {
            use_type_invariant(&*self);
        }
        match self.focus {
            Some(f) => {
                let previous: usize = if f == 0 { self.items.len() - 1 } else { f - 1 };
                self.focus = Some(previous);
            },
            None => {},
        }
    }

    /// Exchanges the focused item, at `f`, with the item at `g`; the focus
    /// goes with it.
    fn shuffle_to(&mut self, f: usize, g: usize)
        requires
            old(self)@.focus == Some(f as int),
            g < old(self)@.items.len(),
        ensures
            final(self)@ == old(self)@.shuffle_to(f as int, g as int),
            final(self)@.wf(),
    {
        proof {
            use_type_invariant(&*self);
        }
        let ghost before: Seq<T> = self@.items;
        let mut items: Vec<T> = self.take_items();
        if f != g {
            let low: usize = if f < g { f } else { g };
            let high: usize = if f < g { g } else { f };
            let upper: T = items.remove(high);
            let lower: T = items.remove(low);
            items.insert(low, upper);
            items.insert(high, lower);
        }
        assert(items@ =~= swapped(before, f as int, g as int));
        self.items = items;
        self.focus = Some(g);
    }

    /// Exchanges the focused item with the next one, and the last item with
    /// the first. The item stays focused at its new position.
    pub fn shuffle_next(&mut self)
        ensures
            final(self)@ == old(self)@.shuffle_next(),
            final(self)@.wf(),
    {
        proof {
            use_type_invariant(&*self);
        }
        match self.focus {
            Some(f) => {
                let next: usize = if f + 1 == self.items.len() { 0 } else { f + 1 };
                self.shuffle_to(f, next);
            },
            None => {},
        }
    }

    /// Exchanges the focused item with the one before, and the first item
    /// with the last. The item stays focused at its new position.
    pub fn shuffle_previous(&mut self)
        ensures
            final(self)@ == old(self)@.shuffle_previous(),
            final(self)@.wf(),
    {
        proof {
            use_type_invariant(&*self);
        }
        match self.focus {
            Some(f) => {
                let previous: usize = if f == 0 { self.items.len() - 1 } else { f - 1 };
                self.shuffle_to(f, previous);
            },
            None => {},
        }
    }

    /// The position of the first item on which `p` answers `true`.
    pub fn position<P: Fn(&T) -> bool>(&self, p: P) -> (found: Option<usize>)
        requires
            accepts_all(p, self@.items),
        ensures
            self@.wf(),
            match found {
                Some(k) => first_match(p, self@.items, k as int),
                None => no_match(p, self@.items),
            },
    {
        proof {
            use_type_invariant(self);
        }
        let mut i: usize = 0;
        while i < self.items.len()
            invariant
                i <= self.items.len(),
                self@.wf(),
                accepts_all(p, self@.items),
                forall|j: int| 0 <= j < i ==> call_ensures(p, (&#[trigger] self@.items[j],), false),
            decreases self.items.len() - i,
        {
            if p(&self.items[i]) {
                return Some(i);
            }
            i += 1;
        }
        None
    }

    /// Removes the first item on which `p` answers `true`, and returns it.
    ///
    /// The caller makes sure that there is such an item.
    pub fn remove<P: Fn(&T) -> bool>(&mut self, p: P) -> (removed: T)
        requires
            accepts_all(p, old(self)@.items),
            exists|i: int|
                0 <= i < old(self)@.items.len() && always_matches(p, #[trigger] old(self)@.items[i]),
        ensures
            final(self)@.wf(),
            exists|k: int|
                {
                    &&& #[trigger] first_match(p, old(self)@.items, k)
                    &&& removed == old(self)@.items[k]
                    &&& final(self)@ == old(self)@.remove_at(k)
                },
    {
        match self.position(p) {
            Some(k) => {
                let removed: T = self.remove_at(k);
                assert(first_match(p, old(self)@.items, k as int));
                removed
            },
            None => {
                proof {
                    let i: int = choose|i: int|
                        0 <= i < old(self)@.items.len() && always_matches(
                            p,
                            #[trigger] old(self)@.items[i],
                        );
                    assert(call_ensures(p, (&old(self)@.items[i],), false));
                }
                vstd::pervasive::unreached()
            },
        }
    }

    /// Removes the first item on which `p` answers `true`, if there is one.
    pub fn try_remove<P: Fn(&T) -> bool>(&mut self, p: P) -> (removed: Option<T>)
        requires
            accepts_all(p, old(self)@.items),
        ensures
            final(self)@.wf(),
            match removed {
                Some(item) => exists|k: int|
                    {
                        &&& #[trigger] first_match(p, old(self)@.items, k)
                        &&& item == old(self)@.items[k]
                        &&& final(self)@ == old(self)@.remove_at(k)
                    },
                None => no_match(p, old(self)@.items) && final(self)@ == old(self)@,
            },
    {
        match self.position(p) {
            Some(k) => {
                let removed: T = self.remove_at(k);
                assert(first_match(p, old(self)@.items, k as int));
                Some(removed)
            },
            None => None,
        }
    }

    /// Focuses the first item on which `p` answers `true`. Where there is
    /// none, the focus stays as it is.
    pub fn focus<P: Fn(&T) -> bool>(&mut self, p: P)
        requires
            accepts_all(p, old(self)@.items),
        ensures
            final(self)@.wf(),
            (no_match(p, old(self)@.items) && final(self)@ == old(self)@) || exists|k: int|
                #[trigger] first_match(p, old(self)@.items, k) && final(self)@ == old(self)@.focus_at(k),
    {
        match self.position(p) {
            Some(k) => {
                self.focus = Some(k);
                assert(first_match(p, old(self)@.items, k as int));
            },
            None => {},
        }
    }
}

impl<T> From<Vec<T>> for Stack<T> {
    /// A stack of `items`, in their order, with nothing focused.
    fn from(items: Vec<T>) -> (stack: Stack<T>)
        ensures
            stack@ == (FocusSeq { items: items@, focus: None::<int> }),
    {
        Stack { items, focus: None }
    }
}

impl<T> vstd::std_specs::convert::FromSpecImpl<Vec<T>> for Stack<T> {
    open spec fn obeys_from_spec() -> bool {
        true
    }

    closed spec fn from_spec(items: Vec<T>) -> Stack<T> {
        Stack { items, focus: None }
    }
}

} // verus!
