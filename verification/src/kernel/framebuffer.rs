//! The window manager behind the graphics calls: which process owns which window, how the
//! windows stack, what each window holds, and where input goes. Each window's queue of pending
//! input events collapses bursts of motion or resizing.
//!
//! Drawing the presented windows into the framebuffer is the kernel binary's; it takes the
//! windows and their stacking order from here.
use vstd::prelude::*;
use crate::kernel::input::{
    EventQueue, InputEvent, INPUT_EVENT_MOUSE, INPUT_EVENT_WINDOW, WINDOW_EVENT_CLOSE,
    WINDOW_EVENT_CONFIGURE,
};

verus! {

pub const MAX_WINDOW_EVENTS: usize = 8;

/// Whether `event`, arriving after `last`, replaces it: mouse motion replaces mouse motion, and
/// a configure event replaces a configure event.
pub open spec fn coalesces(event: InputEvent, last: InputEvent) -> bool {
    ||| event.kind == 1 && last.kind == 1
    ||| event.kind == 3 && event.code == 1 && last.kind == 3 && last.code == 1
}

/// The waiting events after `event` is queued behind `q`: it takes the newest event's place
/// where it coalesces with it; otherwise it is appended, displacing the oldest event when eight
/// are waiting.
pub open spec fn queue_after_push(q: Seq<InputEvent>, event: InputEvent) -> Seq<InputEvent> {
    if q.len() > 0 && coalesces(event, q.last()) {
        q.update(q.len() - 1, event)
    } else if q.len() == 8 {
        q.drop_first().push(event)
    } else {
        q.push(event)
    }
}

/// The input events waiting for a window, oldest first.
#[derive(Clone, Copy, Debug)]
pub struct WindowEvents {
    queue: EventQueue,
}

impl View for WindowEvents {
    type V = Seq<InputEvent>;

    closed spec fn view(&self) -> Seq<InputEvent> {
        self.queue@
    }
}

impl WindowEvents {
    pub fn empty() -> (r: Self)
        ensures
            r@ == Seq::<InputEvent>::empty(),
    {
        Self { queue: EventQueue::new() }
    }

    /// How many events are waiting.
    pub fn event_count(&self) -> (r: usize)
        ensures
            r == self@.len(),
            r <= 8,
    {
        self.queue.len()
    }

    /// Queues `event`. Where it coalesces with the newest waiting event it takes that event's
    /// place; otherwise it is appended, displacing the oldest event when eight are waiting.
    pub fn push_event(&mut self, event: InputEvent)
        ensures
            final(self)@ == queue_after_push(old(self)@, event),
    {
        match self.queue.last() {
            Some(last) => {
                let mouse = event.kind == INPUT_EVENT_MOUSE && last.kind == INPUT_EVENT_MOUSE;
                let configure = event.kind == INPUT_EVENT_WINDOW && event.code
                    == WINDOW_EVENT_CONFIGURE && last.kind == INPUT_EVENT_WINDOW && last.code
                    == WINDOW_EVENT_CONFIGURE;
                if mouse || configure {
                    self.queue.replace_last(event);
                    return;
                }
            },
            None => {},
        }
        self.queue.push(event);
    }

    /// Takes the oldest waiting event, if any.
    pub fn pop_event(&mut self) -> (r: Option<InputEvent>)
        ensures
            old(self)@.len() == 0 ==> r is None && final(self)@ == old(self)@,
            old(self)@.len() > 0 ==> r == Some(old(self)@[0]) && final(self)@ == old(self)@.drop_first(),
    {
        self.queue.pop()
    }
}

pub const MAX_GRAPHICS_TEXT_LENGTH: usize = 256;
pub const MAX_WINDOW_TEXT_LENGTH: usize = 96;
pub const MAX_WINDOW_COUNT: usize = 4;
pub const MAX_WINDOW_RECTS: usize = 24;
pub const MAX_WINDOW_TEXTS: usize = 8;
pub const MAX_WINDOW_DIMENSION: u32 = 4096;
pub const MAX_WINDOW_AREA: u64 = 0x40_0000;
pub const GRAPHICS_OWNER_NONE: u32 = 0;

/// The framebuffer's dimensions.
#[derive(Clone, Copy, Debug, Default, PartialEq, Eq, Structural)]
pub struct GraphicsInfo {
    pub width: u32,
    pub height: u32,
    pub stride: u32,
    pub bytes_per_pixel: u32,
}

/// A filled rectangle, in window or screen coordinates.
#[derive(Clone, Copy, Debug, Default, PartialEq, Eq, Structural)]
pub struct GraphicsRect {
    pub x: u32,
    pub y: u32,
    pub width: u32,
    pub height: u32,
    pub color: u32,
}

/// Where a window lies on the screen.
#[derive(Clone, Copy, Debug, Default, PartialEq, Eq, Structural)]
pub struct GraphicsWindow {
    pub x: u32,
    pub y: u32,
    pub width: u32,
    pub height: u32,
}

/// A line of text drawn into a window.
#[derive(Debug)]
pub struct WindowText {
    pub x: u32,
    pub y: u32,
    pub color: u32,
    pub bytes: Vec<u8>,
}

/// One window slot: its owner (none when free), where it lies, what has been drawn into it
/// since it was last cleared, whether it is presented and focused, and its pending input.
#[derive(Debug)]
pub struct WindowSurface {
    pub owner: u32,
    pub geometry: GraphicsWindow,
    pub rects: Vec<GraphicsRect>,
    pub texts: Vec<WindowText>,
    pub presented: bool,
    pub focused: bool,
    pub events: WindowEvents,
}

/// A window of at least one pixel, at most 4096 on a side and 4 Mi pixels in all, that lies
/// wholly on the screen.
pub open spec fn valid_geometry(g: GraphicsWindow, screen: Option<GraphicsInfo>) -> bool {
    &&& g.width != 0 && g.height != 0
    &&& g.width <= 4096 && g.height <= 4096
    &&& g.width * g.height <= 0x40_0000
    &&& screen matches Some(s) && g.x < s.width && g.y < s.height && g.width <= s.width - g.x
        && g.height <= s.height - g.y
}

/// Whether `geometry` may be given to a window on `screen`.
pub fn valid_window_geometry(geometry: GraphicsWindow, screen: Option<GraphicsInfo>) -> (r: bool)
    ensures
        r == valid_geometry(geometry, screen),
{
    if geometry.width == 0 || geometry.height == 0 || geometry.width > MAX_WINDOW_DIMENSION
        || geometry.height > MAX_WINDOW_DIMENSION {
        return false;
    }
    let width = geometry.width as u64;
    let height = geometry.height as u64;
    assert(width * height <= 4096 * 4096) by (nonlinear_arith)
        requires
            width <= 4096,
            height <= 4096,
    ;
    if width * height > MAX_WINDOW_AREA {
        return false;
    }
    let info = match screen {
        None => return false,
        Some(info) => info,
    };
    geometry.x < info.width && geometry.y < info.height && geometry.width
        <= info.width.saturating_sub(geometry.x) && geometry.height <= info.height.saturating_sub(
        geometry.y,
    )
}

/// The slot of window id `window_id`: ids count from one.
pub open spec fn slot_of(window_id: u32) -> Option<int> {
    if 1 <= window_id <= 4 {
        Some(window_id - 1)
    } else {
        None
    }
}

pub fn window_index(window_id: u32) -> (r: Option<usize>)
    ensures
        match slot_of(window_id) {
            Some(i) => r == Some(i as usize),
            None => r is None,
        },
{
    if window_id >= 1 && window_id <= 4 {
        Some((window_id - 1) as usize)
    } else {
        None
    }
}

/// `order` with every occurrence of `index` taken out.
pub open spec fn without(order: Seq<usize>, index: usize) -> Seq<usize>
    decreases order.len(),
{
    if order.len() == 0 {
        order
    } else if order.last() == index {
        without(order.drop_last(), index)
    } else {
        without(order.drop_last(), index).push(order.last())
    }
}

/// What `without` keeps: every other entry, and no duplicate where there was none.
pub proof fn lemma_without(order: Seq<usize>, index: usize)
    ensures
        forall|x: usize| #[trigger] without(order, index).contains(x) <==> (order.contains(x) && x != index),
        order.no_duplicates() ==> without(order, index).no_duplicates(),
    decreases order.len(),
{
    if order.len() > 0 {
        let rest = order.drop_last();
        lemma_without(rest, index);
        assert forall|x: usize| order.contains(x) <==> (rest.contains(x) || x == order.last()) by {
            if order.contains(x) {
                let k = choose|k: int| 0 <= k < order.len() && order[k] == x;
                if k < order.len() - 1 {
                    assert(rest[k] == x);
                }
            }
            if rest.contains(x) {
                let k = choose|k: int| 0 <= k < rest.len() && rest[k] == x;
                assert(order[k] == x);
            }
            if x == order.last() {
                assert(order[order.len() - 1] == x);
            }
        }
        if order.last() != index {
            lemma_push_contains(without(rest, index), order.last());
            if order.no_duplicates() {
                assert(!rest.contains(order.last())) by {
                    if rest.contains(order.last()) {
                        let k = choose|k: int| 0 <= k < rest.len() && rest[k] == order.last();
                        assert(order[k] == order[order.len() - 1]);
                    }
                }
                assert(rest.no_duplicates()) by {
                    assert forall|a: int, b: int|
                        0 <= a < rest.len() && 0 <= b < rest.len() && a != b implies rest[a]
                        != rest[b] by {
                        assert(order[a] == rest[a] && order[b] == rest[b]);
                    }
                }
                lemma_push_no_duplicates(without(rest, index), order.last());
            }
        } else if order.no_duplicates() {
            assert(rest.no_duplicates()) by {
                assert forall|a: int, b: int|
                    0 <= a < rest.len() && 0 <= b < rest.len() && a != b implies rest[a]
                    != rest[b] by {
                    assert(order[a] == rest[a] && order[b] == rest[b]);
                }
            }
        }
    }
}

/// The slot `topmost` finds satisfies `p` and is among the first `n` stacked.
pub proof fn lemma_topmost_found(
    windows: Seq<WindowSurface>,
    order: Seq<usize>,
    n: nat,
    p: spec_fn(WindowSurface) -> bool,
)
    requires
        n <= order.len(),
    ensures
        topmost(windows, order, n, p) matches Some(v) ==> p(windows[v as int]) && order.contains(
            v,
        ),
    decreases n,
{
    if n > 0 {
        if p(windows[order[n - 1] as int]) {
            assert(order[n - 1] == order[(n - 1) as int]);
        } else {
            lemma_topmost_found(windows, order, (n - 1) as nat, p);
        }
    }
}

/// Raising a stacked slot reorders the stack without changing which slots it holds.
pub proof fn lemma_raise_keeps_membership(order: Seq<usize>, index: usize)
    requires
        order.contains(index),
    ensures
        forall|x: usize| #[trigger] raised(order, index).contains(x) <==> order.contains(x),
{
    lemma_without(order, index);
    lemma_push_contains(without(order, index), index);
}

/// What `kept` keeps: the entries that satisfy `p`, and no duplicate where there was none.
pub proof fn lemma_kept(order: Seq<usize>, p: spec_fn(usize) -> bool)
    ensures
        forall|x: usize| #[trigger] kept(order, p).contains(x) <==> (order.contains(x) && p(x)),
        order.no_duplicates() ==> kept(order, p).no_duplicates(),
    decreases order.len(),
{
    if order.len() > 0 {
        let rest = order.drop_last();
        lemma_kept(rest, p);
        assert forall|x: usize| order.contains(x) <==> (rest.contains(x) || x == order.last()) by {
            if order.contains(x) {
                let k = choose|k: int| 0 <= k < order.len() && order[k] == x;
                if k < order.len() - 1 {
                    assert(rest[k] == x);
                }
            }
            if rest.contains(x) {
                let k = choose|k: int| 0 <= k < rest.len() && rest[k] == x;
                assert(order[k] == x);
            }
            if x == order.last() {
                assert(order[order.len() - 1] == x);
            }
        }
        if order.no_duplicates() {
            assert(rest.no_duplicates()) by {
                assert forall|a: int, b: int|
                    0 <= a < rest.len() && 0 <= b < rest.len() && a != b implies rest[a]
                    != rest[b] by {
                    assert(order[a] == rest[a] && order[b] == rest[b]);
                }
            }
        }
        if p(order.last()) {
            lemma_push_contains(kept(rest, p), order.last());
            if order.no_duplicates() {
                assert(!rest.contains(order.last())) by {
                    if rest.contains(order.last()) {
                        let k = choose|k: int| 0 <= k < rest.len() && rest[k] == order.last();
                        assert(order[k] == order[order.len() - 1]);
                    }
                }
                lemma_push_no_duplicates(kept(rest, p), order.last());
            }
        }
    }
}

proof fn lemma_push_contains(s: Seq<usize>, v: usize)
    ensures
        forall|x: usize| #[trigger] s.push(v).contains(x) <==> (s.contains(x) || x == v),
{
    assert forall|x: usize| #[trigger] s.push(v).contains(x) <==> (s.contains(x) || x == v) by {
        if s.push(v).contains(x) {
            let k = choose|k: int| 0 <= k < s.push(v).len() && s.push(v)[k] == x;
            if k < s.len() {
                assert(s[k] == x);
            }
        }
        if s.contains(x) {
            let k = choose|k: int| 0 <= k < s.len() && s[k] == x;
            assert(s.push(v)[k] == x);
        }
        if x == v {
            assert(s.push(v)[s.len() as int] == x);
        }
    }
}

proof fn lemma_push_no_duplicates(s: Seq<usize>, v: usize)
    requires
        s.no_duplicates(),
        !s.contains(v),
    ensures
        s.push(v).no_duplicates(),
{
    let t = s.push(v);
    assert forall|a: int, b: int| 0 <= a < t.len() && 0 <= b < t.len() && a != b implies t[a]
        != t[b] by {
        if a < s.len() && b < s.len() {
            assert(t[a] == s[a] && t[b] == s[b]);
        } else if a < s.len() {
            assert(t[a] == s[a]);
            assert(s.contains(s[a]));
        } else if b < s.len() {
            assert(t[b] == s[b]);
            assert(s.contains(s[b]));
        }
    }
}

/// `order` with `index` moved (or added) to the top.
pub open spec fn raised(order: Seq<usize>, index: usize) -> Seq<usize> {
    without(order, index).push(index)
}

/// The slot is taken by `owner`, which is a real owner.
pub open spec fn active_for(w: WindowSurface, owner: u32) -> bool {
    w.owner != 0 && w.owner == owner
}

/// The window was just created for `owner` at `geometry`: nothing drawn, not presented, not
/// focused, no input waiting.
pub open spec fn fresh(w: WindowSurface, owner: u32, geometry: GraphicsWindow) -> bool {
    &&& w.owner == owner
    &&& w.geometry == geometry
    &&& w.rects@.len() == 0
    &&& w.texts@.len() == 0
    &&& !w.presented
    &&& !w.focused
    &&& w.events@.len() == 0
}

/// Every slot but `i` is as it was.
pub open spec fn others_unchanged(a: Seq<WindowSurface>, b: Seq<WindowSurface>, i: int) -> bool {
    &&& b.len() == a.len()
    &&& forall|j: int| 0 <= j < a.len() && j != i ==> #[trigger] b[j] == a[j]
}

/// A rectangle of at least one pixel, at most 4096 on a side and 4 Mi pixels in all.
pub open spec fn rect_size_ok(rect: GraphicsRect) -> bool {
    &&& rect.width != 0 && rect.height != 0
    &&& rect.width <= 4096 && rect.height <= 4096
    &&& rect.width * rect.height <= 0x40_0000
}

/// `rect` lies wholly inside a window at `g`.
pub open spec fn rect_inside(rect: GraphicsRect, g: GraphicsWindow) -> bool {
    rect.x < g.width && rect.y < g.height && rect.width <= g.width - rect.x && rect.height
        <= g.height - rect.y
}

/// Only whether it is focused may differ between `a` and `b`.
pub open spec fn same_but_focus(a: WindowSurface, b: WindowSurface) -> bool {
    &&& b.owner == a.owner && b.geometry == a.geometry && b.presented == a.presented
    &&& b.rects == a.rects && b.texts == a.texts && b.events == a.events
}

/// The window event with code `code`: 1 configure, 2 close.
pub open spec fn window_event(code: u32) -> InputEvent {
    InputEvent { kind: 3, buttons: 0, dx: 0, dy: 0, wheel: 0, code }
}

/// `a + b`, saturating at `u32::MAX`.
pub open spec fn sat_add_u32(a: u32, b: u32) -> u32 {
    if a + b > u32::MAX {
        u32::MAX
    } else {
        (a + b) as u32
    }
}

/// The point (`x`, `y`) lies on the presented window `w`.
pub open spec fn hit_by(w: WindowSurface, x: u32, y: u32) -> bool {
    &&& w.owner != 0 && w.presented
    &&& x >= w.geometry.x && y >= w.geometry.y
    &&& x < sat_add_u32(w.geometry.x, w.geometry.width)
    &&& y < sat_add_u32(w.geometry.y, w.geometry.height)
}

/// The topmost of the first `n` stacked slots whose window satisfies `p`.
pub open spec fn topmost(
    windows: Seq<WindowSurface>,
    order: Seq<usize>,
    n: nat,
    p: spec_fn(WindowSurface) -> bool,
) -> Option<usize>
    decreases n,
{
    if n == 0 {
        None
    } else if p(windows[order[n - 1] as int]) {
        Some(order[n - 1])
    } else {
        topmost(windows, order, (n - 1) as nat, p)
    }
}

/// The slots of `order`, in order, that satisfy `p`.
pub open spec fn kept(order: Seq<usize>, p: spec_fn(usize) -> bool) -> Seq<usize>
    decreases order.len(),
{
    if order.len() == 0 {
        order
    } else if p(order.last()) {
        kept(order.drop_last(), p).push(order.last())
    } else {
        kept(order.drop_last(), p)
    }
}

/// Which stacked slot is topmost among those satisfying `p` depends only on the windows of
/// the stacked slots: a slot `i` that is not stacked may hold anything.
pub proof fn lemma_topmost_ignores_other_slots(
    a: Seq<WindowSurface>,
    b: Seq<WindowSurface>,
    order: Seq<usize>,
    n: nat,
    p: spec_fn(WindowSurface) -> bool,
    i: int,
)
    requires
        a.len() == b.len(),
        n <= order.len(),
        forall|j: int| 0 <= j < a.len() && j != i ==> #[trigger] b[j] == a[j],
        forall|k: int| 0 <= k < order.len() ==> #[trigger] order[k] < a.len() && order[k] != i,
    ensures
        topmost(a, order, n, p) == topmost(b, order, n, p),
    decreases n,
{
    if n > 0 {
        let k = n - 1;
        assert(order[k as int] < a.len() && order[k as int] != i);
        lemma_topmost_ignores_other_slots(a, b, order, (n - 1) as nat, p, i);
    }
}

/// The first free slot, if any.
pub open spec fn first_free(windows: Seq<WindowSurface>) -> Option<int> {
    if exists|i: int| 0 <= i < windows.len() && windows[i].owner == 0 {
        Some(
            choose|i: int|
                0 <= i < windows.len() && windows[i].owner == 0 && forall|j: int|
                    0 <= j < i ==> windows[j].owner != 0,
        )
    } else {
        None
    }
}

impl WindowSurface {
    /// A free slot.
    pub fn empty() -> (r: Self)
        ensures
            fresh(r, 0, GraphicsWindow { x: 0, y: 0, width: 0, height: 0 }),
    {
        WindowSurface {
            owner: GRAPHICS_OWNER_NONE,
            geometry: GraphicsWindow { x: 0, y: 0, width: 0, height: 0 },
            rects: Vec::new(),
            texts: Vec::new(),
            presented: false,
            focused: false,
            events: WindowEvents::empty(),
        }
    }
}

/// The four window slots and their stacking order, bottom first.
pub struct WindowManager {
    windows: Vec<WindowSurface>,
    order: Vec<usize>,
}

impl WindowManager {
    /// The window slots.
    pub closed spec fn slots(&self) -> Seq<WindowSurface> {
        self.windows@
    }

    /// The stacking order of the slots, bottom first.
    pub closed spec fn stacking(&self) -> Seq<usize> {
        self.order@
    }

    /// Four slots, and a stacking order of slots that names none twice.
    pub open spec fn shape(&self) -> bool {
        &&& self.slots().len() == 4
        &&& forall|k: int| 0 <= k < self.stacking().len() ==> #[trigger] self.stacking()[k] < 4
        &&& self.stacking().no_duplicates()
    }

    /// The stacking order lists exactly the slots in use, each once.
    pub open spec fn wf(&self) -> bool {
        &&& self.shape()
        &&& forall|x: usize|
            #[trigger] self.stacking().contains(x) ==> x < 4 && self.slots()[x as int].owner != 0
        &&& forall|i: int|
            0 <= i < 4 && (#[trigger] self.slots()[i]).owner != 0 ==> self.stacking().contains(
                i as usize,
            )
    }

    /// No windows.
    pub fn new() -> (r: Self)
        ensures
            r.wf(),
            r.stacking().len() == 0,
            forall|i: int| 0 <= i < 4 ==> fresh(#[trigger] r.slots()[i], 0, GraphicsWindow { x: 0, y: 0, width: 0, height: 0 }),
    {
        let mut windows: Vec<WindowSurface> = Vec::new();
        let mut i: usize = 0;
        while i < MAX_WINDOW_COUNT
            invariant
                i <= 4,
                windows@.len() == i,
                forall|k: int| 0 <= k < i ==> fresh(#[trigger] windows@[k], 0, GraphicsWindow { x: 0, y: 0, width: 0, height: 0 }),
            decreases 4 - i,
        {
            windows.push(WindowSurface::empty());
            i = i + 1;
        }
        WindowManager { windows, order: Vec::new() }
    }

    /// The window in slot `index`.
    pub fn window(&self, index: usize) -> (r: &WindowSurface)
        requires
            self.wf(),
            index < 4,
        ensures
            *r == self.slots()[index as int],
    {
        &self.windows[index]
    }

    /// The stacking order, bottom first.
    pub fn order(&self) -> (r: &[usize])
        ensures
            r@ == self.stacking(),
    {
        self.order.as_slice()
    }

    fn remove_from_order(&mut self, index: usize)
        requires
            old(self).shape(),
        ensures
            final(self).shape(),
            final(self).slots() == old(self).slots(),
            final(self).stacking() == without(old(self).stacking(), index),
            forall|k: int|
                0 <= k < final(self).stacking().len() ==> #[trigger] final(self).stacking()[k]
                    != index,
    {
        let mut kept: Vec<usize> = Vec::new();
        let mut k: usize = 0;
        let n = self.order.len();
        while k < n
            invariant
                n == self.order@.len(),
                k <= n,
                kept@ == without(self.order@.take(k as int), index),
                self.shape(),
                forall|m: int| 0 <= m < kept@.len() ==> #[trigger] kept@[m] < 4,
                forall|m: int| 0 <= m < kept@.len() ==> #[trigger] kept@[m] != index,
            decreases n - k,
        {
            assert(self.order@.take(k as int + 1).drop_last() =~= self.order@.take(k as int));
            let entry = self.order[k];
            assert(self.stacking()[k as int] < 4);
            if entry != index {
                kept.push(entry);
            }
            k = k + 1;
        }
        assert(self.order@.take(n as int) =~= self.order@);
        proof {
            lemma_without(self.order@, index);
        }
        self.order = kept;
    }

    fn raise(&mut self, index: usize)
        requires
            old(self).shape(),
            index < 4,
        ensures
            final(self).shape(),
            final(self).slots() == old(self).slots(),
            final(self).stacking() == raised(old(self).stacking(), index),
    {
        self.remove_from_order(index);
        proof {
            lemma_without(old(self).stacking(), index);
            lemma_push_no_duplicates(self.stacking(), index);
        }
        self.order.push(index);
    }

    /// Creates a window at `geometry` for `owner`, which must hold the graphics (held now by
    /// `graphics_owner`), in the first free slot, on top; gives its id, or `None` where the
    /// geometry does not fit `screen` or no slot is free.
    pub fn create_window(
        &mut self,
        graphics_owner: u32,
        screen: Option<GraphicsInfo>,
        owner: u32,
        geometry: GraphicsWindow,
    ) -> (r: Option<u32>)
        requires
            old(self).wf(),
        ensures
            final(self).wf(),
            (owner == 0 || graphics_owner == 0 || !valid_geometry(geometry, screen)
                || first_free(old(self).slots()) is None) ==> r is None && final(self).slots()
                == old(self).slots() && final(self).stacking() == old(self).stacking(),
            !(owner == 0 || graphics_owner == 0 || !valid_geometry(geometry, screen))
                ==> match first_free(old(self).slots()) {
                Some(i) => {
                    &&& r == Some((i + 1) as u32)
                    &&& fresh(final(self).slots()[i], owner, geometry)
                    &&& forall|j: int|
                        0 <= j < 4 && j != i ==> final(self).slots()[j] == old(self).slots()[j]
                    &&& final(self).stacking() == raised(old(self).stacking(), i as usize)
                },
                None => true,
            },
    {
        if owner == GRAPHICS_OWNER_NONE || graphics_owner == GRAPHICS_OWNER_NONE
            || !valid_window_geometry(geometry, screen) {
            return None;
        }
        let mut index: usize = 0;
        while index < MAX_WINDOW_COUNT
            invariant
                self.wf(),
                *self == *old(self),
                owner != 0 && graphics_owner != 0 && valid_geometry(geometry, screen),
                index <= 4,
                forall|j: int| 0 <= j < index ==> self.slots()[j].owner != 0,
            decreases 4 - index,
        {
            if self.windows[index].owner == GRAPHICS_OWNER_NONE {
                proof {
                    let s = old(self).slots();
                    assert(0 <= index < s.len() && s[index as int].owner == 0 && forall|j: int|
                        0 <= j < index ==> s[j].owner != 0);
                    let c = first_free(s)->0;
                    if c > index {
                        assert(s[index as int].owner != 0);
                    }
                    assert(first_free(s) == Some(index as int));
                }
                let mut surface = WindowSurface::empty();
                surface.owner = owner;
                surface.geometry = geometry;
                self.windows.set(index, surface);
                assert(self.stacking() =~= old(self).stacking());
                self.raise(index);
                proof {
                    lemma_without(old(self).stacking(), index);
                    lemma_push_contains(without(old(self).stacking(), index), index);
                    assert forall|i: int|
                        0 <= i < 4 && (#[trigger] self.slots()[i]).owner != 0 implies self.stacking().contains(
                        i as usize,
                    ) by {
                        if i != index {
                            assert(old(self).slots()[i] == self.slots()[i]);
                        }
                    }
                }
                return Some((index + 1) as u32);
            }
            index = index + 1;
        }
        None
    }

    /// Erases what has been drawn into window `window_id` of `owner`, and withdraws it until it
    /// is presented again.
    pub fn clear_window(&mut self, owner: u32, window_id: u32) -> (r: bool)
        requires
            old(self).wf(),
        ensures
            final(self).wf(),
            final(self).stacking() == old(self).stacking(),
            r == (slot_of(window_id) matches Some(i) && active_for(old(self).slots()[i], owner)),
            !r ==> final(self).slots() == old(self).slots(),
            r ==> ({
                let i = slot_of(window_id)->0;
                let (a, b) = (old(self).slots()[i], final(self).slots()[i]);
                &&& others_unchanged(old(self).slots(), final(self).slots(), i)
                &&& b.owner == a.owner && b.geometry == a.geometry && b.focused == a.focused
                &&& b.events == a.events
                &&& b.rects@.len() == 0 && b.texts@.len() == 0 && !b.presented
            }),
    {
        let index = match window_index(window_id) {
            None => return false,
            Some(index) => index,
        };
        if !(self.windows[index].owner != GRAPHICS_OWNER_NONE && self.windows[index].owner == owner) {
            return false;
        }
        let ghost before = self.slots();
        let window = &mut self.windows[index];
        window.rects.clear();
        window.texts.clear();
        window.presented = false;
        proof {
            assert(self.slots().len() == 4);
            assert(self.stacking() =~= old(self).stacking());
        }
        true
    }

    /// Adds `rect`, in window coordinates, to window `window_id` of `owner`: the rectangle must
    /// be non-empty, at most 4096 on a side and 4 Mi pixels, lie inside the window, and the
    /// window must have fewer than 24 rectangles. The window is withdrawn until presented again.
    pub fn window_fill_rect(&mut self, owner: u32, window_id: u32, rect: GraphicsRect) -> (r: bool)
        requires
            old(self).wf(),
        ensures
            final(self).wf(),
            final(self).stacking() == old(self).stacking(),
            r == (rect_size_ok(rect) && (slot_of(window_id) matches Some(i) && active_for(
                old(self).slots()[i],
                owner,
            ) && rect_inside(rect, old(self).slots()[i].geometry) && old(self).slots()[i].rects@.len()
                < 24)),
            !r ==> final(self).slots() == old(self).slots(),
            r ==> ({
                let i = slot_of(window_id)->0;
                let (a, b) = (old(self).slots()[i], final(self).slots()[i]);
                &&& others_unchanged(old(self).slots(), final(self).slots(), i)
                &&& b.owner == a.owner && b.geometry == a.geometry && b.focused == a.focused
                &&& b.events == a.events && b.texts == a.texts
                &&& b.rects@ == a.rects@.push(rect) && !b.presented
            }),
    {
        if rect.width == 0 || rect.height == 0 || rect.width > MAX_WINDOW_DIMENSION || rect.height
            > MAX_WINDOW_DIMENSION {
            return false;
        }
        let width = rect.width as u64;
        let height = rect.height as u64;
        assert(width * height <= 4096 * 4096) by (nonlinear_arith)
            requires
                width <= 4096,
                height <= 4096,
        ;
        if width * height > MAX_WINDOW_AREA {
            return false;
        }
        let index = match window_index(window_id) {
            None => return false,
            Some(index) => index,
        };
        let geometry = self.windows[index].geometry;
        if !(self.windows[index].owner != GRAPHICS_OWNER_NONE && self.windows[index].owner == owner)
            || rect.x >= geometry.width || rect.y >= geometry.height || rect.width
            > geometry.width.saturating_sub(rect.x) || rect.height > geometry.height.saturating_sub(
            rect.y,
        ) || self.windows[index].rects.len() >= MAX_WINDOW_RECTS {
            return false;
        }
        let window = &mut self.windows[index];
        window.rects.push(rect);
        window.presented = false;
        proof {
            assert(self.stacking() =~= old(self).stacking());
        }
        true
    }

    /// Adds the text `bytes` (at most 96) at (`x`, `y`) in window `window_id` of `owner`; the
    /// point must lie inside the window, which must have fewer than eight texts. The window is
    /// withdrawn until presented again.
    pub fn window_draw_text(
        &mut self,
        owner: u32,
        window_id: u32,
        x: u32,
        y: u32,
        color: u32,
        bytes: &[u8],
    ) -> (r: bool)
        requires
            old(self).wf(),
        ensures
            final(self).wf(),
            final(self).stacking() == old(self).stacking(),
            r == (bytes@.len() <= 96 && (slot_of(window_id) matches Some(i) && active_for(
                old(self).slots()[i],
                owner,
            ) && x < old(self).slots()[i].geometry.width && y < old(self).slots()[i].geometry.height
                && old(self).slots()[i].texts@.len() < 8)),
            !r ==> final(self).slots() == old(self).slots(),
            r ==> ({
                let i = slot_of(window_id)->0;
                let (a, b) = (old(self).slots()[i], final(self).slots()[i]);
                &&& others_unchanged(old(self).slots(), final(self).slots(), i)
                &&& b.owner == a.owner && b.geometry == a.geometry && b.focused == a.focused
                &&& b.events == a.events && b.rects == a.rects
                &&& b.texts@.len() == a.texts@.len() + 1
                &&& b.texts@.take(a.texts@.len() as int) == a.texts@
                &&& b.texts@.last().x == x && b.texts@.last().y == y && b.texts@.last().color
                    == color && b.texts@.last().bytes@ == bytes@
                &&& !b.presented
            }),
    {
        if bytes.len() > MAX_WINDOW_TEXT_LENGTH {
            return false;
        }
        let index = match window_index(window_id) {
            None => return false,
            Some(index) => index,
        };
        let geometry = self.windows[index].geometry;
        if !(self.windows[index].owner != GRAPHICS_OWNER_NONE && self.windows[index].owner == owner)
            || x >= geometry.width || y >= geometry.height || self.windows[index].texts.len()
            >= MAX_WINDOW_TEXTS {
            return false;
        }
        let text = WindowText { x, y, color, bytes: vstd::slice::slice_to_vec(bytes) };
        let window = &mut self.windows[index];
        window.texts.push(text);
        window.presented = false;
        proof {
            assert(self.stacking() =~= old(self).stacking());
            assert(self.slots()[index as int].texts@.take(old(self).slots()[index as int].texts@.len() as int)
                =~= old(self).slots()[index as int].texts@);
        }
        true
    }

    /// Marks window `window_id` of `owner` presented, so that it is composed onto the screen.
    pub fn present_window(&mut self, owner: u32, window_id: u32) -> (r: bool)
        requires
            old(self).wf(),
        ensures
            final(self).wf(),
            final(self).stacking() == old(self).stacking(),
            r == (slot_of(window_id) matches Some(i) && active_for(old(self).slots()[i], owner)),
            !r ==> final(self).slots() == old(self).slots(),
            r ==> ({
                let i = slot_of(window_id)->0;
                let (a, b) = (old(self).slots()[i], final(self).slots()[i]);
                &&& others_unchanged(old(self).slots(), final(self).slots(), i)
                &&& b.owner == a.owner && b.geometry == a.geometry && b.focused == a.focused
                &&& b.events == a.events && b.rects == a.rects && b.texts == a.texts
                &&& b.presented
            }),
    {
        let index = match window_index(window_id) {
            None => return false,
            Some(index) => index,
        };
        if !(self.windows[index].owner != GRAPHICS_OWNER_NONE && self.windows[index].owner == owner) {
            return false;
        }
        let window = &mut self.windows[index];
        window.presented = true;
        proof {
            assert(self.stacking() =~= old(self).stacking());
        }
        true
    }

    fn unfocus_all(&mut self)
        requires
            old(self).wf(),
        ensures
            final(self).wf(),
            final(self).stacking() == old(self).stacking(),
            forall|j: int|
                0 <= j < 4 ==> same_but_focus(#[trigger] old(self).slots()[j], final(self).slots()[j])
                    && !final(self).slots()[j].focused,
    {
        let mut k: usize = 0;
        while k < MAX_WINDOW_COUNT
            invariant
                self.shape(),
                old(self).wf(),
                k <= 4,
                self.stacking() == old(self).stacking(),
                forall|j: int|
                    0 <= j < 4 ==> same_but_focus(#[trigger] old(self).slots()[j], self.slots()[j]),
                forall|j: int| 0 <= j < k ==> !(#[trigger] self.slots()[j]).focused,
            decreases 4 - k,
        {
            let window = &mut self.windows[k];
            window.focused = false;
            proof {
                assert(self.stacking() =~= old(self).stacking());
            }
            k = k + 1;
        }
        proof {
            assert forall|i: int|
                0 <= i < 4 && (#[trigger] self.slots()[i]).owner != 0 implies self.stacking().contains(
                i as usize,
            ) by {
                assert(same_but_focus(old(self).slots()[i], self.slots()[i]));
            }
        }
    }

    /// Focuses window `window_id` of `owner` alone and raises it to the top.
    pub fn focus_window(&mut self, owner: u32, window_id: u32) -> (r: bool)
        requires
            old(self).wf(),
        ensures
            final(self).wf(),
            r == (slot_of(window_id) matches Some(i) && active_for(old(self).slots()[i], owner)),
            !r ==> final(self).slots() == old(self).slots() && final(self).stacking() == old(
                self,
            ).stacking(),
            r ==> ({
                let i = slot_of(window_id)->0;
                &&& final(self).stacking() == raised(old(self).stacking(), i as usize)
                &&& forall|j: int|
                    0 <= j < 4 ==> same_but_focus(
                        #[trigger] old(self).slots()[j],
                        final(self).slots()[j],
                    ) && final(self).slots()[j].focused == (j == i)
            }),
    {
        let index = match window_index(window_id) {
            None => return false,
            Some(index) => index,
        };
        if !(self.windows[index].owner != GRAPHICS_OWNER_NONE && self.windows[index].owner == owner) {
            return false;
        }
        self.unfocus_all();
        let ghost unfocused = self.stacking();
        proof {
            assert(unfocused.contains(index));
            lemma_raise_keeps_membership(unfocused, index);
        }
        self.raise(index);
        let window = &mut self.windows[index];
        window.focused = true;
        proof {
            assert(self.slots().len() == 4);
            assert forall|i: int|
                0 <= i < 4 && (#[trigger] self.slots()[i]).owner != 0 implies self.stacking().contains(
                i as usize,
            ) by {
                assert(same_but_focus(old(self).slots()[i], self.slots()[i]));
                assert(unfocused.contains(i as usize));
            }
        }
        true
    }

    /// The geometry of window `window_id`, to its owner or to the graphics owner.
    pub fn window_geometry(&self, graphics_owner: u32, owner: u32, window_id: u32) -> (r: Option<
        GraphicsWindow,
    >)
        requires
            self.wf(),
        ensures
            r == match slot_of(window_id) {
                None => None,
                Some(i) => if !active_for(self.slots()[i], owner) && graphics_owner != owner {
                    None
                } else {
                    Some(self.slots()[i].geometry)
                },
            },
    {
        let index = match window_index(window_id) {
            None => return None,
            Some(index) => index,
        };
        let window = &self.windows[index];
        if !(window.owner != GRAPHICS_OWNER_NONE && window.owner == owner) && graphics_owner != owner {
            return None;
        }
        Some(window.geometry)
    }

    /// Moves or resizes window `window_id` to `geometry`, as the graphics owner `owner` asks,
    /// and tells the window with a configure event.
    pub fn configure_window(
        &mut self,
        graphics_owner: u32,
        screen: Option<GraphicsInfo>,
        owner: u32,
        window_id: u32,
        geometry: GraphicsWindow,
    ) -> (r: bool)
        requires
            old(self).wf(),
        ensures
            final(self).wf(),
            final(self).stacking() == old(self).stacking(),
            r == (graphics_owner == owner && valid_geometry(geometry, screen) && (slot_of(
                window_id,
            ) matches Some(i) && old(self).slots()[i].owner != 0)),
            !r ==> final(self).slots() == old(self).slots(),
            r ==> ({
                let i = slot_of(window_id)->0;
                let (a, b) = (old(self).slots()[i], final(self).slots()[i]);
                &&& others_unchanged(old(self).slots(), final(self).slots(), i)
                &&& b.owner == a.owner && b.geometry == geometry && b.focused == a.focused
                &&& b.rects == a.rects && b.texts == a.texts && b.presented == a.presented
                &&& b.events@ == queue_after_push(a.events@, window_event(1))
            }),
    {
        if graphics_owner != owner || !valid_window_geometry(geometry, screen) {
            return false;
        }
        let index = match window_index(window_id) {
            None => return false,
            Some(index) => index,
        };
        if self.windows[index].owner == GRAPHICS_OWNER_NONE {
            return false;
        }
        let window = &mut self.windows[index];
        window.geometry = geometry;
        window.events.push_event(
            InputEvent {
                kind: INPUT_EVENT_WINDOW,
                buttons: 0,
                dx: 0,
                dy: 0,
                wheel: 0,
                code: WINDOW_EVENT_CONFIGURE,
            },
        );
        proof {
            assert(self.stacking() =~= old(self).stacking());
        }
        true
    }

    /// Asks window `window_id` to close, as the graphics owner `owner` requests: the window is
    /// focused and receives a close event.
    pub fn request_window_close(&mut self, graphics_owner: u32, owner: u32, window_id: u32) -> (r:
        bool)
        requires
            old(self).wf(),
        ensures
            final(self).wf(),
            final(self).stacking() == old(self).stacking(),
            r == (graphics_owner == owner && (slot_of(window_id) matches Some(i) && old(
                self,
            ).slots()[i].owner != 0)),
            !r ==> final(self).slots() == old(self).slots(),
            r ==> ({
                let i = slot_of(window_id)->0;
                let (a, b) = (old(self).slots()[i], final(self).slots()[i]);
                &&& others_unchanged(old(self).slots(), final(self).slots(), i)
                &&& b.owner == a.owner && b.geometry == a.geometry && b.focused
                &&& b.rects == a.rects && b.texts == a.texts && b.presented == a.presented
                &&& b.events@ == queue_after_push(a.events@, window_event(2))
            }),
    {
        if graphics_owner != owner {
            return false;
        }
        let index = match window_index(window_id) {
            None => return false,
            Some(index) => index,
        };
        if self.windows[index].owner == GRAPHICS_OWNER_NONE {
            return false;
        }
        let window = &mut self.windows[index];
        window.focused = true;
        window.events.push_event(
            InputEvent {
                kind: INPUT_EVENT_WINDOW,
                buttons: 0,
                dx: 0,
                dy: 0,
                wheel: 0,
                code: WINDOW_EVENT_CLOSE,
            },
        );
        proof {
            assert(self.stacking() =~= old(self).stacking());
        }
        true
    }

    /// Takes the oldest input event waiting for window `window_id` of `owner`.
    pub fn read_window_event(&mut self, owner: u32, window_id: u32) -> (r: Option<InputEvent>)
        requires
            old(self).wf(),
        ensures
            final(self).wf(),
            final(self).stacking() == old(self).stacking(),
            !(slot_of(window_id) matches Some(i) && active_for(old(self).slots()[i], owner)) ==> r
                is None && final(self).slots() == old(self).slots(),
            (slot_of(window_id) matches Some(i) && active_for(old(self).slots()[i], owner)) ==> ({
                let i = slot_of(window_id)->0;
                let (a, b) = (old(self).slots()[i], final(self).slots()[i]);
                &&& others_unchanged(old(self).slots(), final(self).slots(), i)
                &&& b.owner == a.owner && b.geometry == a.geometry && b.focused == a.focused
                &&& b.rects == a.rects && b.texts == a.texts && b.presented == a.presented
                &&& a.events@.len() == 0 ==> r is None && b.events@ == a.events@
                &&& a.events@.len() > 0 ==> r == Some(a.events@[0]) && b.events@
                    == a.events@.drop_first()
            }),
    {
        let index = match window_index(window_id) {
            None => return None,
            Some(index) => index,
        };
        if !(self.windows[index].owner != GRAPHICS_OWNER_NONE && self.windows[index].owner == owner) {
            return None;
        }
        let window = &mut self.windows[index];
        let event = window.events.pop_event();
        proof {
            assert(self.stacking() =~= old(self).stacking());
        }
        event
    }

    /// Delivers the pointer `event` at (`x`, `y`), for the graphics owner `owner`, to the
    /// topmost presented window under it, which alone becomes focused and, when a button is
    /// down, is raised; gives that window's id, or 0 where no window is hit.
    #[verifier::spinoff_prover]
    #[verifier::rlimit(40)]
    pub fn dispatch_pointer(
        &mut self,
        graphics_owner: u32,
        owner: u32,
        x: u32,
        y: u32,
        event: InputEvent,
    ) -> (r: Result<u32, ()>)
        requires
            old(self).wf(),
        ensures
            final(self).wf(),
            graphics_owner != owner ==> r == Err::<u32, ()>(()) && final(self).slots() == old(
                self,
            ).slots() && final(self).stacking() == old(self).stacking(),
            graphics_owner == owner ==> ({
                let hit = topmost(
                    old(self).slots(),
                    old(self).stacking(),
                    old(self).stacking().len(),
                    |w: WindowSurface| hit_by(w, x, y),
                );
                &&& r == Ok::<u32, ()>(
                    match hit {
                        None => 0u32,
                        Some(i) => (i + 1) as u32,
                    },
                )
                &&& final(self).stacking() == (match hit {
                    Some(i) if event.buttons != 0 => raised(old(self).stacking(), i),
                    _ => old(self).stacking(),
                })
                &&& forall|j: int|
                    0 <= j < 4 && hit != Some(j as usize) ==> same_but_focus(
                        #[trigger] old(self).slots()[j],
                        final(self).slots()[j],
                    ) && !final(self).slots()[j].focused
                &&& hit matches Some(i) ==> ({
                    let (a, b) = (old(self).slots()[i as int], final(self).slots()[i as int]);
                    &&& b.owner == a.owner && b.geometry == a.geometry && b.presented
                        == a.presented
                    &&& b.rects == a.rects && b.texts == a.texts && b.focused
                    &&& b.events@ == queue_after_push(a.events@, event)
                })
            }),
    {
        if graphics_owner != owner {
            return Err(());
        }
        let ghost p = |w: WindowSurface| hit_by(w, x, y);
        let mut hit: Option<usize> = None;
        let mut position = self.order.len();
        while position > 0
            invariant_except_break
                position <= self.stacking().len(),
                hit is None,
                topmost(self.slots(), self.stacking(), self.stacking().len(), p) == topmost(
                    self.slots(),
                    self.stacking(),
                    position as nat,
                    p,
                ),
            invariant
                self.wf(),
                *self == *old(self),
                p == (|w: WindowSurface| hit_by(w, x, y)),
            ensures
                hit == topmost(self.slots(), self.stacking(), self.stacking().len(), p),
                hit matches Some(i) ==> i < 4,
            decreases position,
        {
            position = position - 1;
            let index = self.order[position];
            assert(self.stacking()[position as int] < 4);
            let window = &self.windows[index];
            if window.owner != GRAPHICS_OWNER_NONE && window.presented && x >= window.geometry.x
                && y >= window.geometry.y && x < window.geometry.x.saturating_add(
                window.geometry.width,
            ) && y < window.geometry.y.saturating_add(window.geometry.height) {
                assert(p(self.slots()[index as int]));
                hit = Some(index);
                break;
            }
            assert(!p(self.slots()[index as int]));
        }
        self.unfocus_all();
        match hit {
            None => Ok(0),
            Some(index) => {
                let ghost unfocused = self.stacking();
                proof {
                    lemma_topmost_found(
                        old(self).slots(),
                        old(self).stacking(),
                        old(self).stacking().len(),
                        |w: WindowSurface| hit_by(w, x, y),
                    );
                    assert(hit_by(old(self).slots()[index as int], x, y));
                    assert(same_but_focus(old(self).slots()[index as int], self.slots()[index as int]));
                    assert(unfocused.contains(index));
                    lemma_raise_keeps_membership(unfocused, index);
                }
                if event.buttons != 0 {
                    self.raise(index);
                }
                let window = &mut self.windows[index];
                window.focused = true;
                window.events.push_event(event);
                proof {
                    assert(self.slots().len() == 4);
                    assert forall|i: int|
                        0 <= i < 4 && (#[trigger] self.slots()[i]).owner != 0 implies self.stacking().contains(
                        i as usize,
                    ) by {
                        assert(same_but_focus(old(self).slots()[i], self.slots()[i]) || i == index);
                        assert(unfocused.contains(i as usize));
                    }
                }
                Ok((index + 1) as u32)
            },
        }
    }

    /// The topmost stacked slot whose window satisfies `p`.
    fn find_topmost(&self, Ghost(p): Ghost<spec_fn(WindowSurface) -> bool>, kind: u8, owner: u32) -> (r:
        Option<usize>)
        requires
            self.shape(),
            kind == 0 ==> p == (|w: WindowSurface| w.owner != 0 && w.presented && w.focused),
            kind != 0 ==> p == (|w: WindowSurface| w.owner == owner && w.presented),
        ensures
            r == topmost(self.slots(), self.stacking(), self.stacking().len(), p),
            r matches Some(i) ==> i < 4 && exists|k: int|
                0 <= k < self.stacking().len() && #[trigger] self.stacking()[k] == i,
    {
        let mut found: Option<usize> = None;
        let mut position = self.order.len();
        while position > 0
            invariant_except_break
                position <= self.stacking().len(),
                found is None,
                topmost(self.slots(), self.stacking(), self.stacking().len(), p) == topmost(
                    self.slots(),
                    self.stacking(),
                    position as nat,
                    p,
                ),
            invariant
                self.shape(),
                kind == 0 ==> p == (|w: WindowSurface| w.owner != 0 && w.presented && w.focused),
                kind != 0 ==> p == (|w: WindowSurface| w.owner == owner && w.presented),
            ensures
                found == topmost(self.slots(), self.stacking(), self.stacking().len(), p),
                found matches Some(i) ==> i < 4 && exists|k: int|
                    0 <= k < self.stacking().len() && #[trigger] self.stacking()[k] == i,
            decreases position,
        {
            position = position - 1;
            let index = self.order[position];
            assert(self.stacking()[position as int] < 4);
            let window = &self.windows[index];
            let matched = if kind == 0 {
                window.owner != GRAPHICS_OWNER_NONE && window.presented && window.focused
            } else {
                window.owner == owner && window.presented
            };
            if matched {
                assert(p(self.slots()[index as int]));
                found = Some(index);
                break;
            }
            assert(!p(self.slots()[index as int]));
        }
        found
    }

    /// Delivers the keyboard `event`, for the graphics owner `owner`, to the topmost presented
    /// window that is focused, if any.
    pub fn dispatch_keyboard(&mut self, graphics_owner: u32, owner: u32, event: InputEvent) -> (r:
        bool)
        requires
            old(self).wf(),
        ensures
            final(self).wf(),
            final(self).stacking() == old(self).stacking(),
            r == (graphics_owner == owner),
            ({
                let target = topmost(
                    old(self).slots(),
                    old(self).stacking(),
                    old(self).stacking().len(),
                    |w: WindowSurface| w.owner != 0 && w.presented && w.focused,
                );
                if r && target is Some {
                    let i = target->0 as int;
                    let (a, b) = (old(self).slots()[i], final(self).slots()[i]);
                    &&& others_unchanged(old(self).slots(), final(self).slots(), i)
                    &&& b.owner == a.owner && b.geometry == a.geometry && b.focused == a.focused
                    &&& b.rects == a.rects && b.texts == a.texts && b.presented == a.presented
                    &&& b.events@ == queue_after_push(a.events@, event)
                } else {
                    final(self).slots() == old(self).slots()
                }
            }),
    {
        if graphics_owner != owner {
            return false;
        }
        let target = self.find_topmost(
            Ghost(|w: WindowSurface| w.owner != 0 && w.presented && w.focused),
            0,
            owner,
        );
        if let Some(index) = target {
            let window = &mut self.windows[index];
            window.events.push_event(event);
            proof {
                assert(self.stacking() =~= old(self).stacking());
            }
        }
        true
    }

    /// Destroys window `window_id` of `owner`: its slot is freed and leaves the stacking order;
    /// when it was focused, the topmost presented window left to the same owner takes the focus.
    pub fn destroy_window(&mut self, owner: u32, window_id: u32) -> (r: bool)
        requires
            old(self).wf(),
        ensures
            final(self).wf(),
            r == (slot_of(window_id) matches Some(i) && active_for(old(self).slots()[i], owner)),
            !r ==> final(self).slots() == old(self).slots() && final(self).stacking() == old(
                self,
            ).stacking(),
            r ==> ({
                let i = slot_of(window_id)->0;
                let order = without(old(self).stacking(), i as usize);
                let successor = if old(self).slots()[i].focused {
                    topmost(
                        old(self).slots(),
                        order,
                        order.len(),
                        |w: WindowSurface| w.owner == owner && w.presented,
                    )
                } else {
                    None
                };
                &&& final(self).stacking() == order
                &&& fresh(final(self).slots()[i], 0, GraphicsWindow { x: 0, y: 0, width: 0, height: 0 })
                &&& forall|j: int|
                    0 <= j < 4 && j != i ==> if successor == Some(j as usize) {
                        same_but_focus(#[trigger] old(self).slots()[j], final(self).slots()[j])
                            && final(self).slots()[j].focused
                    } else {
                        final(self).slots()[j] == old(self).slots()[j]
                    }
            }),
    {
        let index = match window_index(window_id) {
            None => return false,
            Some(index) => index,
        };
        if !(self.windows[index].owner != GRAPHICS_OWNER_NONE && self.windows[index].owner == owner) {
            return false;
        }
        let was_focused = self.windows[index].focused;
        self.windows.set(index, WindowSurface::empty());
        assert(self.stacking() =~= old(self).stacking());
        self.remove_from_order(index);
        let ghost freed = self.slots();
        if was_focused {
            let successor = self.find_topmost(
                Ghost(|w: WindowSurface| w.owner == owner && w.presented),
                1,
                owner,
            );
            proof {
                lemma_topmost_ignores_other_slots(
                    old(self).slots(),
                    freed,
                    self.stacking(),
                    self.stacking().len(),
                    |w: WindowSurface| w.owner == owner && w.presented,
                    index as int,
                );
            }
            if let Some(next) = successor {
                let window = &mut self.windows[next];
                window.focused = true;
                proof {
                    assert(self.stacking() =~= without(old(self).stacking(), index));
                }
            }
        }
        proof {
            lemma_without(old(self).stacking(), index);
            assert forall|x: usize| #[trigger] self.stacking().contains(x) implies x < 4
                && self.slots()[x as int].owner != 0 by {
                assert(old(self).stacking().contains(x) && x != index);
                assert(self.slots()[x as int].owner == old(self).slots()[x as int].owner);
            }
            assert forall|i: int|
                0 <= i < 4 && (#[trigger] self.slots()[i]).owner != 0 implies self.stacking().contains(
                i as usize,
            ) by {
                assert(i != index);
                assert(self.slots()[i].owner == old(self).slots()[i].owner);
                assert(old(self).stacking().contains(i as usize));
            }
        }
        true
    }

    fn retain_owned_in_order(&mut self)
        requires
            old(self).shape(),
        ensures
            final(self).shape(),
            final(self).slots() == old(self).slots(),
            final(self).stacking() == kept(
                old(self).stacking(),
                |i: usize| old(self).slots()[i as int].owner != 0,
            ),
    {
        let ghost p = |i: usize| self.slots()[i as int].owner != 0;
        let mut retained: Vec<usize> = Vec::new();
        let mut k: usize = 0;
        let n = self.order.len();
        while k < n
            invariant
                n == self.stacking().len(),
                k <= n,
                self.shape(),
                *self == *old(self),
                p == (|i: usize| self.slots()[i as int].owner != 0),
                retained@ == kept(self.stacking().take(k as int), p),
                forall|m: int| 0 <= m < retained@.len() ==> #[trigger] retained@[m] < 4,
            decreases n - k,
        {
            assert(self.stacking().take(k as int + 1).drop_last() =~= self.stacking().take(k as int));
            let entry = self.order[k];
            assert(self.stacking()[k as int] < 4);
            if self.windows[entry].owner != GRAPHICS_OWNER_NONE {
                retained.push(entry);
            }
            k = k + 1;
        }
        assert(self.stacking().take(n as int) =~= self.stacking());
        proof {
            lemma_kept(self.stacking(), p);
        }
        self.order = retained;
    }

    /// Destroys every window of `owner`, as when the process exits: their slots are freed and
    /// the stacking order keeps only slots still in use.
    pub fn destroy_windows_for_owner(&mut self, owner: u32)
        requires
            old(self).wf(),
        ensures
            final(self).wf(),
            owner == 0 ==> final(self).slots() == old(self).slots() && final(self).stacking() == old(
                self,
            ).stacking(),
            owner != 0 ==> {
                &&& forall|j: int|
                    0 <= j < 4 ==> if (#[trigger] old(self).slots()[j]).owner == owner {
                        fresh(final(self).slots()[j], 0, GraphicsWindow { x: 0, y: 0, width: 0, height: 0 })
                    } else {
                        final(self).slots()[j] == old(self).slots()[j]
                    }
                &&& final(self).stacking() == kept(
                    old(self).stacking(),
                    |i: usize| final(self).slots()[i as int].owner != 0,
                )
            },
    {
        if owner == GRAPHICS_OWNER_NONE {
            return;
        }
        let mut k: usize = 0;
        while k < MAX_WINDOW_COUNT
            invariant
                self.shape(),
                old(self).wf(),
                k <= 4,
                self.stacking() == old(self).stacking(),
                forall|j: int|
                    0 <= j < k ==> if (#[trigger] old(self).slots()[j]).owner == owner {
                        fresh(self.slots()[j], 0, GraphicsWindow { x: 0, y: 0, width: 0, height: 0 })
                    } else {
                        self.slots()[j] == old(self).slots()[j]
                    },
                forall|j: int| k <= j < 4 ==> #[trigger] self.slots()[j] == old(self).slots()[j],
            decreases 4 - k,
        {
            if self.windows[k].owner == owner {
                self.windows.set(k, WindowSurface::empty());
                assert(self.stacking() =~= old(self).stacking());
            }
            k = k + 1;
        }
        let ghost cleared = self.slots();
        self.retain_owned_in_order();
        proof {
            assert(self.slots() == cleared);
            let p = |i: usize| self.slots()[i as int].owner != 0;
            assert((|i: usize| cleared[i as int].owner != 0) == p);
            lemma_kept(old(self).stacking(), p);
            assert forall|i: int|
                0 <= i < 4 && (#[trigger] self.slots()[i]).owner != 0 implies self.stacking().contains(
                i as usize,
            ) by {
                assert(old(self).slots()[i].owner != 0);
            }
        }
    }

    /// The windows to compose, bottom first: the stacked slots whose windows are in use and
    /// presented.
    pub fn presented_windows(&self) -> (r: Vec<usize>)
        requires
            self.wf(),
        ensures
            r@ == kept(
                self.stacking(),
                |i: usize| self.slots()[i as int].owner != 0 && self.slots()[i as int].presented,
            ),
            forall|m: int| 0 <= m < r@.len() ==> #[trigger] r@[m] < 4,
    {
        let ghost p = |i: usize| self.slots()[i as int].owner != 0 && self.slots()[i as int].presented;
        let mut shown: Vec<usize> = Vec::new();
        let mut k: usize = 0;
        let n = self.order.len();
        while k < n
            invariant
                n == self.stacking().len(),
                k <= n,
                self.wf(),
                p == (|i: usize| self.slots()[i as int].owner != 0 && self.slots()[i as int].presented),
                shown@ == kept(self.stacking().take(k as int), p),
                forall|m: int| 0 <= m < shown@.len() ==> #[trigger] shown@[m] < 4,
            decreases n - k,
        {
            assert(self.stacking().take(k as int + 1).drop_last() =~= self.stacking().take(k as int));
            let entry = self.order[k];
            assert(self.stacking()[k as int] < 4);
            let window = &self.windows[entry];
            if window.owner != GRAPHICS_OWNER_NONE && window.presented {
                shown.push(entry);
            }
            k = k + 1;
        }
        assert(self.stacking().take(n as int) =~= self.stacking());
        shown
    }
}

} // verus!
