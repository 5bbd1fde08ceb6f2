//! Keyboard focus: a single focused widget across the whole surface.
//!
//! Widgets register in drawing order and ask for focus when clicked. What the
//! frame's keys and clicks do to the focus is settled at the end of the frame.

use crate::geometry::Rect;
use crate::input::InputState;
use vstd::prelude::*;

verus! {

/// Stable identity of a focusable widget.
pub type FocusId = u64;

/// Which way Tab moves in this frame.
#[derive(Clone, Copy, Debug, PartialEq, Eq, Structural)]
pub enum Tab {
    /// No Tab key.
    Still,
    /// Tab.
    Forward,
    /// Shift+Tab.
    Backward,
}

/// Which widget holds keyboard focus, and this frame's focusable widgets.
#[derive(Clone, Debug)]
pub struct FocusState {
    focused: Option<FocusId>,
    order: Vec<FocusId>,
    layer_orders: Vec<Vec<FocusId>>,
    tab: Tab,
    escape: bool,
    mouse_clicked: bool,
    click_claimed: bool,
    ime_request: Option<Rect>,
}

/// What a [`FocusState`] holds.
#[verifier::ext_equal]
pub struct FocusView {
    /// The focused widget.
    pub focused: Option<FocusId>,
    /// The base layer's focusable widgets, in drawing order.
    pub order: Seq<FocusId>,
    /// Each further layer's focusable widgets.
    pub layers: Seq<Seq<FocusId>>,
    /// This frame's Tab key.
    pub tab: Tab,
    /// Escape in this frame.
    pub escape: bool,
    /// A click in this frame.
    pub clicked: bool,
    /// A focusable widget took the click.
    pub claimed: bool,
    /// The caret rect of the text field that wants text composition.
    pub ime: Option<Rect>,
}

/// The first place of `id` in `order`.
pub open spec fn place_of(order: Seq<FocusId>, id: FocusId) -> int {
    choose|i: int| is_place(order, id, i)
}

/// Whether `id` stands in `order` at `i` and not before.
pub open spec fn is_place(order: Seq<FocusId>, id: FocusId, i: int) -> bool {
    &&& 0 <= i < order.len()
    &&& order[i] == id
    &&& forall|j: int| 0 <= j < i ==> #[trigger] order[j] != id
}

/// Where Tab goes from `focused` in the ring `order`: one step on, round the
/// ring; onto an end of it where nothing in it is focused.
pub open spec fn tab_target(order: Seq<FocusId>, focused: Option<FocusId>, tab: Tab) -> FocusId {
    let n = order.len() as int;
    if focused is Some && order.contains(focused->0) {
        let i = place_of(order, focused->0);
        if tab == Tab::Forward {
            order[(i + 1) % n]
        } else {
            order[(i + n - 1) % n]
        }
    } else if tab == Tab::Forward {
        order[0]
    } else {
        order[n - 1]
    }
}

impl FocusView {
    /// Nothing focused, nothing registered, no keys.
    pub open spec fn fresh() -> FocusView {
        FocusView {
            focused: None,
            order: Seq::empty(),
            layers: Seq::empty(),
            tab: Tab::Still,
            escape: false,
            clicked: false,
            claimed: false,
            ime: None,
        }
    }

    /// The state at the start of a frame with this input.
    pub open spec fn begun(self, input: InputState) -> FocusView {
        FocusView {
            order: Seq::empty(),
            tab: if input.nav.next {
                Tab::Forward
            } else if input.nav.prev {
                Tab::Backward
            } else {
                Tab::Still
            },
            escape: input.nav.cancel,
            clicked: input.mouse_clicked,
            claimed: false,
            ime: None,
            ..self
        }
    }

    /// The state after `id` registered in the base layer.
    pub open spec fn registered(self, id: FocusId) -> FocusView {
        FocusView { order: self.order.push(id), ..self }
    }

    /// What layer `layer` holds: nothing where nobody registered there.
    pub open spec fn layer(self, layer: int) -> Seq<FocusId> {
        if 0 <= layer < self.layers.len() {
            self.layers[layer]
        } else {
            Seq::empty()
        }
    }

    /// The state after `id` registered in layer `layer`.
    pub open spec fn registered_in(self, id: FocusId, layer: nat) -> FocusView {
        FocusView {
            layers: Seq::new(
                if layer < self.layers.len() {
                    self.layers.len()
                } else {
                    layer + 1
                },
                |i: int|
                    if i == layer {
                        self.layer(i).push(id)
                    } else {
                        self.layer(i)
                    },
            ),
            ..self
        }
    }

    /// The state after `id` registered in the layer being drawn, the base one
    /// where that is `None`.
    pub open spec fn joined(self, id: FocusId, layer: Option<usize>) -> FocusView {
        match layer {
            Some(layer) => self.registered_in(id, layer as nat),
            None => self.registered(id),
        }
    }

    /// The state after `id` was clicked.
    pub open spec fn requested(self, id: FocusId) -> FocusView {
        FocusView { focused: Some(id), claimed: true, ..self }
    }

    /// The focus after Escape and after a click that nobody claimed.
    pub open spec fn kept_focus(self) -> Option<FocusId> {
        if self.escape || (self.clicked && !self.claimed) {
            None
        } else {
            self.focused
        }
    }

    /// The ring that Tab moves in: the active layer's, or the base layer's
    /// where there is none.
    pub open spec fn ring(self, active: Option<usize>) -> Seq<FocusId> {
        if active is Some && self.layer(active->0 as int).len() > 0 {
            self.layer(active->0 as int)
        } else {
            self.order
        }
    }

    /// The state after the frame.
    pub open spec fn ended(self, active: Option<usize>) -> FocusView {
        let ring = self.ring(active);
        FocusView {
            focused: if self.tab != Tab::Still && ring.len() > 0 {
                Some(tab_target(ring, self.kept_focus(), self.tab))
            } else {
                self.kept_focus()
            },
            order: Seq::empty(),
            layers: Seq::empty(),
            ..self
        }
    }
}

impl View for FocusState {
    type V = FocusView;

    closed spec fn view(&self) -> FocusView {
        FocusView {
            focused: self.focused,
            order: self.order@,
            layers: Seq::new(self.layer_orders@.len(), |i: int| self.layer_orders@[i]@),
            tab: self.tab,
            escape: self.escape,
            clicked: self.mouse_clicked,
            claimed: self.click_claimed,
            ime: self.ime_request,
        }
    }
}

/// The first place of `id` in `order`, if it is there.
fn position(order: &Vec<FocusId>, id: FocusId) -> (r: Option<usize>)
    ensures
        r is Some ==> order@.contains(id) && r->0 == place_of(order@, id) && r->0 < order@.len(),
        r is None ==> !order@.contains(id),
{
    let mut i: usize = 0;
    while i < order.len()
        invariant
            i <= order@.len(),
            forall|j: int| 0 <= j < i ==> #[trigger] order@[j] != id,
        decreases order@.len() - i,
    {
        if order[i] == id {
            proof {
                assert(is_place(order@, id, i as int));
                let p = place_of(order@, id);
                assert(is_place(order@, id, p));
                assert(p == i);
            }
            return Some(i);
        }
        i = i + 1;
    }
    None
}

proof fn lemma_round_the_ring(i: int, n: int)
    by (nonlinear_arith)
    requires
        0 <= i < n,
    ensures
        (i + 1) % n == (if i + 1 == n { 0 } else { i + 1 }),
        (i + n - 1) % n == (if i == 0 { n - 1 } else { i - 1 }),
{
}

/// Where Tab goes in a ring that is not empty.
fn next_in(order: &Vec<FocusId>, focused: Option<FocusId>, tab: Tab) -> (r: FocusId)
    requires
        order@.len() > 0,
        tab != Tab::Still,
    ensures
        r == tab_target(order@, focused, tab),
{
    let n: usize = order.len();
    let at: Option<usize> = match focused {
        Some(id) => position(order, id),
        None => None,
    };
    match at {
        Some(i) => {
            proof {
                lemma_round_the_ring(i as int, n as int);
            }
            if tab == Tab::Forward {
                if i + 1 == n {
                    order[0]
                } else {
                    order[i + 1]
                }
            } else if i == 0 {
                order[n - 1]
            } else {
                order[i - 1]
            }
        },
        None => {
            if tab == Tab::Forward {
                order[0]
            } else {
                order[n - 1]
            }
        },
    }
}

impl FocusState {
    /// Nothing focused.
    pub fn new() -> (r: Self)
        ensures
            r@ == FocusView::fresh(),
    {
        let r = FocusState {
            focused: None,
            order: Vec::new(),
            layer_orders: Vec::new(),
            tab: Tab::Still,
            escape: false,
            mouse_clicked: false,
            click_claimed: false,
            ime_request: None,
        };
        assert(r@ =~= FocusView::fresh());
        r
    }

    /// Begin a frame: empty the base ring and note this frame's keys and click.
    pub fn begin_frame(&mut self, input: &InputState)
        ensures
            final(self)@ == old(self)@.begun(*input),
    {
        self.order.clear();
        self.tab = if input.nav.next {
            Tab::Forward
        } else if input.nav.prev {
            Tab::Backward
        } else {
            Tab::Still
        };
        self.escape = input.nav.cancel;
        self.mouse_clicked = input.mouse_clicked;
        self.ime_request = None;
        self.click_claimed = false;
        assert(self@ =~= old(self)@.begun(*input));
    }

    /// Register `id` in the base layer, after those registered before.
    pub fn register(&mut self, id: FocusId)
        ensures
            final(self)@ == old(self)@.registered(id),
    {
        self.order.push(id);
        assert(self@ =~= old(self)@.registered(id));
    }

    /// Register `id` in a modal or popup layer.
    pub fn register_layer(&mut self, id: FocusId, layer: usize)
        requires
            layer < usize::MAX,
        ensures
            final(self)@ == old(self)@.registered_in(id, layer as nat),
    {
        let ghost before = self@;
        while self.layer_orders.len() <= layer
            invariant
                layer < usize::MAX,
                before.layers.len() <= self@.layers.len(),
                self@.layers.len() <= before.layers.len() || self@.layers.len() <= layer + 1,
                forall|i: int| 0 <= i < self@.layers.len() ==> #[trigger] self@.layers[i] == before.layer(i),
                self@ == (FocusView { layers: self@.layers, ..before }),
            decreases layer + 1 - self.layer_orders@.len(),
        {
            let ghost mid = self@;
            self.layer_orders.push(Vec::new());
            assert(self@.layers =~= mid.layers.push(Seq::empty()));
        }
        let ghost mid = self@;
        let mut ring: Vec<FocusId> = Vec::new();
        std::mem::swap(&mut self.layer_orders[layer], &mut ring);
        ring.push(id);
        self.layer_orders[layer] = ring;
        assert(self@.layers =~= mid.layers.update(layer as int, mid.layers[layer as int].push(id)));
        assert(self@ =~= before.registered_in(id, layer as nat));
    }

    /// Register `id` in the layer being drawn.
    pub fn join(&mut self, id: FocusId, layer: Option<usize>)
        requires
            layer is Some ==> layer->0 < usize::MAX,
        ensures
            final(self)@ == old(self)@.joined(id, layer),
    {
        match layer {
            Some(layer) => self.register_layer(id, layer),
            None => self.register(id),
        }
    }

    /// Whether `id` holds focus.
    pub fn is_focused(&self, id: FocusId) -> (r: bool)
        ensures
            r == (self@.focused == Some(id)),
    {
        match self.focused {
            Some(f) => f == id,
            None => false,
        }
    }

    /// The widget that holds focus, if any.
    pub fn focused(&self) -> (r: Option<FocusId>)
        ensures
            r == self@.focused,
    {
        self.focused
    }

    /// Focus `id` and claim this frame's click.
    pub fn request(&mut self, id: FocusId)
        ensures
            final(self)@ == old(self)@.requested(id),
    {
        self.focused = Some(id);
        self.click_claimed = true;
        assert(self@ =~= old(self)@.requested(id));
    }

    /// Focus `id` without claiming a click.
    pub fn focus(&mut self, id: FocusId)
        ensures
            final(self)@ == (FocusView { focused: Some(id), ..old(self)@ }),
    {
        self.focused = Some(id);
        assert(self@ =~= (FocusView { focused: Some(id), ..old(self)@ }));
    }

    /// Focus nothing.
    pub fn blur(&mut self)
        ensures
            final(self)@ == (FocusView { focused: None, ..old(self)@ }),
    {
        self.focused = None;
        assert(self@ =~= (FocusView { focused: None, ..old(self)@ }));
    }

    /// Ask for text composition at `caret_rect`.
    pub fn request_ime(&mut self, caret_rect: Rect)
        ensures
            final(self)@ == (FocusView { ime: Some(caret_rect), ..old(self)@ }),
    {
        self.ime_request = Some(caret_rect);
        assert(self@ =~= (FocusView { ime: Some(caret_rect), ..old(self)@ }));
    }

    /// This frame's composition request.
    pub fn ime_request(&self) -> (r: Option<Rect>)
        ensures
            r == self@.ime,
    {
        self.ime_request
    }

    /// This frame's composition request, which is then gone.
    pub fn take_ime_request(&mut self) -> (r: Option<Rect>)
        ensures
            r == old(self)@.ime,
            final(self)@ == (FocusView { ime: None, ..old(self)@ }),
    {
        let r = self.ime_request.take();
        assert(self@ =~= (FocusView { ime: None, ..old(self)@ }));
        r
    }

    /// End a frame: Escape and an unclaimed click blur, Tab moves within the
    /// active layer's ring (the base ring where that is empty), and the rings
    /// are emptied.
    pub fn end_frame(&mut self, active_layer: Option<usize>)
        ensures
            final(self)@ == old(self)@.ended(active_layer),
    {
        let ghost before = self@;
        if self.escape {
            self.focused = None;
        }
        if self.mouse_clicked && !self.click_claimed {
            self.focused = None;
        }
        assert(self.focused == before.kept_focus());
        if self.tab != Tab::Still {
            let layered: bool = match active_layer {
                Some(i) => i < self.layer_orders.len() && self.layer_orders[i].len() > 0,
                None => false,
            };
            if layered {
                let i: usize = active_layer.unwrap();
                assert(before.ring(active_layer) == self.layer_orders@[i as int]@);
                let to = next_in(&self.layer_orders[i], self.focused, self.tab);
                self.focused = Some(to);
            } else {
                assert(before.ring(active_layer) == self.order@);
                if self.order.len() > 0 {
                    let to = next_in(&self.order, self.focused, self.tab);
                    self.focused = Some(to);
                }
            }
        }
        self.order.clear();
        self.layer_orders.clear();
        assert(self@ =~= before.ended(active_layer));
    }
}

impl Default for FocusState {
    fn default() -> (r: Self)
        ensures
            r@ == FocusView::fresh(),
    {
        Self::new()
    }
}

/// At most one widget is focused: asking for focus takes it from the holder.
pub proof fn law_request_replaces(state: FocusView, a: FocusId, b: FocusId)
    ensures
        state.requested(a).requested(b).focused == Some(b),
{
}

/// A click that a focusable widget claimed does not blur.
pub proof fn law_claimed_click_keeps_focus(state: FocusView, id: FocusId, active: Option<usize>)
    requires
        !state.escape,
        state.tab == Tab::Still,
    ensures
        state.requested(id).ended(active).focused == Some(id),
{
}

/// Escape blurs, and so does a click that nobody claimed, whatever layer is
/// active.
pub proof fn law_dismissal_blurs(state: FocusView, active: Option<usize>)
    requires
        state.escape || (state.clicked && !state.claimed),
        state.tab == Tab::Still,
    ensures
        state.ended(active).focused is None,
{
}

/// With an active layer that holds focusable widgets, Tab stays within it.
pub proof fn law_tab_is_trapped(state: FocusView, layer: usize)
    requires
        state.tab != Tab::Still,
        state.layer(layer as int).len() > 0,
    ensures
        state.ended(Some(layer)).focused is Some,
        state.layer(layer as int).contains(state.ended(Some(layer)).focused->0),
{
    let ring = state.layer(layer as int);
    lemma_target_in_ring(ring, state.kept_focus(), state.tab);
}

proof fn lemma_target_in_ring(ring: Seq<FocusId>, focused: Option<FocusId>, tab: Tab)
    requires
        ring.len() > 0,
    ensures
        ring.contains(tab_target(ring, focused, tab)),
{
    let n = ring.len() as int;
    if focused is Some && ring.contains(focused->0) {
        lemma_place(ring, focused->0);
        let i = place_of(ring, focused->0);
        assert(0 <= (i + 1) % n < n);
        assert(0 <= (i + n - 1) % n < n);
        assert(ring.contains(ring[(i + 1) % n]));
        assert(ring.contains(ring[(i + n - 1) % n]));
    } else {
        assert(ring.contains(ring[0]));
        assert(ring.contains(ring[n - 1]));
    }
}

proof fn lemma_place(ring: Seq<FocusId>, id: FocusId)
    requires
        ring.contains(id),
    ensures
        is_place(ring, id, place_of(ring, id)),
{
    let k = choose|k: int| 0 <= k < ring.len() && ring[k] == id;
    lemma_first(ring, id, k);
    let i = choose|i: int| is_place(ring, id, i);
    assert(is_place(ring, id, i));
}

proof fn lemma_first(ring: Seq<FocusId>, id: FocusId, k: int)
    requires
        0 <= k < ring.len(),
        ring[k] == id,
    ensures
        exists|i: int| is_place(ring, id, i),
    decreases k,
{
    if exists|j: int| 0 <= j < k && ring[j] == id {
        let j = choose|j: int| 0 <= j < k && ring[j] == id;
        lemma_first(ring, id, j);
    } else {
        assert(is_place(ring, id, k));
    }
}

/// Shift+Tab undoes Tab in a ring without repeated ids.
pub proof fn law_shift_tab_undoes_tab(ring: Seq<FocusId>, id: FocusId)
    requires
        ring.contains(id),
        forall|i: int, j: int| 0 <= i < j < ring.len() ==> ring[i] != ring[j],
    ensures
        tab_target(ring, Some(tab_target(ring, Some(id), Tab::Forward)), Tab::Backward) == id,
        tab_target(ring, Some(tab_target(ring, Some(id), Tab::Backward)), Tab::Forward) == id,
{
    let n = ring.len() as int;
    lemma_place(ring, id);
    let i = place_of(ring, id);
    let up = (i + 1) % n;
    let down = (i + n - 1) % n;
    lemma_round_the_ring(i, n);
    lemma_target_in_ring(ring, Some(id), Tab::Forward);
    lemma_target_in_ring(ring, Some(id), Tab::Backward);
    lemma_place(ring, ring[up]);
    lemma_place(ring, ring[down]);
    let a = place_of(ring, ring[up]);
    let b = place_of(ring, ring[down]);
    assert(a == up);
    assert(b == down);
    lemma_round_the_ring(up, n);
    lemma_round_the_ring(down, n);
}

/// A frame leaves no ring behind, so each frame's Tab sees only the widgets
/// drawn in it.
pub proof fn law_rings_last_one_frame(state: FocusView, active: Option<usize>, input: InputState)
    ensures
        state.ended(active).begun(input).order == Seq::<FocusId>::empty(),
        state.ended(active).begun(input).layers == Seq::<Seq<FocusId>>::empty(),
{
}

/// Tab goes to the widget after the focused one and Shift-Tab to the one before, each
/// around its end; without a focus in the ring, Tab goes to the first and Shift-Tab to the
/// last.
pub proof fn law_tab_goes_to_the_neighbours(ring: Seq<FocusId>, i: int)
    requires
        0 <= i < ring.len(),
        forall|a: int, b: int| 0 <= a < b < ring.len() ==> ring[a] != ring[b],
    ensures
        i + 1 < ring.len() ==> tab_target(ring, Some(ring[i]), Tab::Forward) == ring[i + 1],
        i + 1 == ring.len() ==> tab_target(ring, Some(ring[i]), Tab::Forward) == ring[0],
        i > 0 ==> tab_target(ring, Some(ring[i]), Tab::Backward) == ring[i - 1],
        i == 0 ==> tab_target(ring, Some(ring[i]), Tab::Backward) == ring[ring.len() - 1],
        tab_target(ring, None, Tab::Forward) == ring[0],
        tab_target(ring, None, Tab::Backward) == ring[ring.len() - 1],
{
    let n = ring.len() as int;
    assert(ring.contains(ring[i]));
    lemma_place(ring, ring[i]);
    assert(place_of(ring, ring[i]) == i);
    lemma_round_the_ring(i, n);
}

} // verus!
