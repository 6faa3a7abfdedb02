use vstd::prelude::*;
use crate::Viewport;
use crate::groups::{GroupIter, GroupWindow};
use crate::x::{Request, WindowId};

verus! {

/// A way of arranging the windows of a group in its viewport.
///
/// A layout keeps no state of its own: what it asks for depends on the
/// viewport, on the windows and their order, and on which of them is focused,
/// and on nothing else. `arrangement` is that dependence, and `layout`
/// computes it. A layout changes nothing of the group: it is handed the
/// windows to read, and answers with requests.
///
/// A verified layout states its own `spec_name` and `arrangement`, and its
/// `name` and `layout` are proved against them. A layout that leaves the two
/// as they stand here promises that its answers depend on those inputs alone,
/// and nothing holds it to that promise.
pub trait Layout {
    /// The name under which the layout is chosen.
    closed spec fn spec_name(&self) -> Seq<char> {
        arbitrary::<spec_fn(&Self) -> Seq<char>>()(self)
    }

    fn name(&self) -> (name: &str)
        ensures
            name@ == self.spec_name(),
    ;

    /// The requests by which the layout arranges `windows` in `viewport`.
    closed spec fn arrangement(
        &self,
        viewport: Viewport,
        focused: Option<WindowId>,
        windows: Seq<WindowId>,
    ) -> Seq<Request> {
        arbitrary::<spec_fn(&Self, Viewport, Option<WindowId>, Seq<WindowId>) -> Seq<Request>>()(
            self,
            viewport,
            focused,
            windows,
        )
    }

    /// Arranges `windows` in `viewport`.
    fn layout(
        &self,
        viewport: &Viewport,
        focused: Option<GroupWindow>,
        windows: GroupIter,
    ) -> (requests: Vec<Request>)
        ensures
            requests@ == self.arrangement(
                *viewport,
                match focused {
                    Some(window) => Some(window@),
                    None => None,
                },
                windows@,
            ),
    ;
}

/// The height of each tile where `count` windows share a viewport of height
/// `height`.
pub open spec fn tile_height(height: u32, count: nat) -> int {
    height as int / count as int
}

/// The request that places the window at position `i` of `windows`: at the
/// left edge, as wide as the viewport, one tile high, below the tiles of the
/// windows before it.
pub open spec fn tile(viewport: Viewport, windows: Seq<WindowId>, i: int) -> Request {
    Request::ConfigureWindow {
        id: windows[i],
        x: 0,
        y: (i * tile_height(viewport.height, windows.len())) as u32,
        width: viewport.width,
        height: tile_height(viewport.height, windows.len()) as u32,
    }
}

/// One tile for each window, in the order of the windows.
pub open spec fn tiles(viewport: Viewport, windows: Seq<WindowId>) -> Seq<Request> {
    Seq::new(windows.len(), |i: int| tile(viewport, windows, i))
}

/// Every window gets one tile, in its place among the windows: at `x = 0`, as
/// wide as the viewport, `height / count` high with the quotient rounded down,
/// and `i` such heights below the top. No tile reaches below the viewport, so
/// that no number of a tile is cut short by the width that carries it.
pub proof fn lemma_tile_geometry(viewport: Viewport, windows: Seq<WindowId>, i: int)
    requires
        0 <= i < windows.len(),
    ensures
        tiles(viewport, windows).len() == windows.len(),
        tiles(viewport, windows)[i] == tile(viewport, windows, i),
        tile(viewport, windows, i) matches Request::ConfigureWindow { id, x, y, width, height }
            && id == windows[i] && x == 0 && width == viewport.width && height
            == viewport.height as int / windows.len() as int && y == i * (viewport.height as int
            / windows.len() as int),
        0 <= tile_height(viewport.height, windows.len()) <= viewport.height,
        0 <= i * tile_height(viewport.height, windows.len()),
        i * tile_height(viewport.height, windows.len()) + tile_height(
            viewport.height,
            windows.len(),
        ) <= viewport.height,
{
    lemma_tile_bounds(viewport.height, windows.len(), i);
}

/// The tile at position `i` of `count` ends at or above the bottom of the
/// viewport.
pub proof fn lemma_tile_bounds(height: u32, count: nat, i: int)
    requires
        0 <= i < count,
    ensures
        0 <= tile_height(height, count) <= height,
        0 <= i * tile_height(height, count),
        i * tile_height(height, count) + tile_height(height, count) <= height,
{
    let h: int = height as int;
    let n: int = count as int;
    let t: int = h / n;
    assert(0 <= t && n * t <= h && t <= h) by (nonlinear_arith)
        requires
            t == h / n,
            n > 0,
            h >= 0,
    ;
    assert(0 <= i * t && i * t + t <= h) by (nonlinear_arith)
        requires
            0 <= i < n,
            0 <= t,
            n * t <= h,
    ;
}

/// No windows, no tiles.
pub proof fn lemma_no_windows_no_tiles(viewport: Viewport)
    ensures
        tiles(viewport, Seq::<WindowId>::empty()) == Seq::<Request>::empty(),
{
    assert(tiles(viewport, Seq::<WindowId>::empty()) =~= Seq::<Request>::empty());
}

/// The windows one above the other, each as wide as the viewport, all of one
/// height. What the division of the height leaves over stays empty at the
/// bottom.
pub struct TiledLayout {
    name: String,
}

impl TiledLayout {
    /// The layout that goes by the name `tiled`.
    pub fn new() -> (layout: TiledLayout)
        ensures
            layout.spec_name() == "tiled"@,
    {
        TiledLayout { name: "tiled".to_owned() }
    }
}

impl Layout for TiledLayout {
    closed spec fn spec_name(&self) -> Seq<char> {
        self.name@
    }

    fn name(&self) -> (name: &str) {
        self.name.as_str()
    }

    open spec fn arrangement(
        &self,
        viewport: Viewport,
        focused: Option<WindowId>,
        windows: Seq<WindowId>,
    ) -> Seq<Request> {
        tiles(viewport, windows)
    }

    fn layout(
        &self,
        viewport: &Viewport,
        focused: Option<GroupWindow>,
        windows: GroupIter,
    ) -> (requests: Vec<Request>) {
        let ghost all: Seq<WindowId> = windows@;
        let mut windows = windows;
        let mut requests: Vec<Request> = Vec::new();
        let count: usize = windows.len();
        if count == 0 {
            assert(requests@ =~= tiles(*viewport, all));
            return requests;
        }
        let tile_height: u32 = (viewport.height as u64 / count as u64) as u32;
        let mut i: usize = 0;
        loop
            invariant
                count == all.len(),
                count > 0,
                i <= count,
                tile_height == self::tile_height(viewport.height, all.len()),
                windows@ == all.skip(i as int),
                requests@ == tiles(*viewport, all).take(i as int),
            ensures
                requests@ == tiles(*viewport, all),
            decreases windows@.len(),
        {
            match windows.next() {
                None => {
                    assert(requests@ =~= tiles(*viewport, all));
                    break;
                },
                Some(window) => {
                    proof {
                        lemma_tile_bounds(viewport.height, all.len(), i as int);
                        assert(0 <= i as int * tile_height as int <= viewport.height as int);
                    }
                    let y: u32 = (i as u64 * tile_height as u64) as u32;
                    requests.push(window.configure(0, y, viewport.width, tile_height));
                    i += 1;
                    assert(windows@ =~= all.skip(i as int));
                    assert(requests@ =~= tiles(*viewport, all).take(i as int));
                },
            }
        }
        requests
    }
}

} // verus!
