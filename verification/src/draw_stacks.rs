//! The stacks of a draw list: clips, transforms, tints and debug scopes.

use crate::affine::Affine2;
use crate::draw_list::{DebugScope, DrawList, DrawState, ScopeView};
use crate::geometry::{Color, Point, Rect};
use crate::scalar::{whole, Scalar};
use vstd::prelude::*;

verus! {

impl DrawState {
    /// The clip that `rect` makes within the one in force; empty where they do
    /// not meet.
    pub open spec fn narrowed(self, rect: Rect) -> Rect {
        let world = self.transform().aabb(rect);
        match self.clip() {
            Some(current) => match current.intersection(world) {
                Some(both) => both,
                None => Rect { x: world.x, y: world.y, width: whole(0), height: whole(0) },
            },
            None => world,
        }
    }

    /// With the clip narrowed to `rect`.
    pub open spec fn clip_pushed(self, rect: Rect) -> DrawState {
        DrawState { clips: self.clips.push(self.narrowed(rect)), ..self }
    }

    /// Without the innermost clip.
    pub open spec fn clip_popped(self) -> DrawState {
        DrawState {
            clips: if self.clips.len() > 0 {
                self.clips.drop_last()
            } else {
                self.clips
            },
            ..self
        }
    }

    /// With a scope opened.
    pub open spec fn scope_opened(self, name: Seq<char>, declared: Option<Rect>) -> DrawState {
        let scope = ScopeView {
            name,
            parent: if self.open.len() > 0 {
                Some(self.open.last())
            } else {
                None
            },
            depth: self.open.len() as usize,
            declared,
            clip: self.clip(),
            start: self.counts(),
            end: self.counts(),
            closed: false,
        };
        DrawState {
            scopes: self.scopes.push(scope),
            open: self.open.push(self.scopes.len() as usize),
            ..self
        }
    }

    /// With a scope opened that declares the box it was given.
    #[verifier::opaque]
    pub open spec fn scoped(self, name: Seq<char>, rect: Rect) -> DrawState {
        self.scope_opened(name, Some(self.transform().aabb(rect)))
    }

    /// With the innermost scope closed.
    #[verifier::opaque]
    pub open spec fn scope_closed(self) -> DrawState {
        if self.open.len() == 0 {
            self
        } else {
            let i = self.open.last() as int;
            let scope = ScopeView { end: self.counts(), closed: true, ..self.scopes[i] };
            DrawState {
                scopes: if i < self.scopes.len() {
                    self.scopes.update(i, scope)
                } else {
                    self.scopes
                },
                open: self.open.drop_last(),
                ..self
            }
        }
    }

    /// With scopes closed until `depth` are open.
    pub open spec fn scopes_closed_to(self, depth: nat) -> DrawState
        decreases self.open.len(),
    {
        if self.open.len() <= depth {
            self
        } else {
            proof {
                reveal(DrawState::scope_closed);
            }
            self.scope_closed().scopes_closed_to(depth)
        }
    }

    /// With the transform in force kept on its stack.
    pub open spec fn transform_pushed(self) -> DrawState {
        DrawState { transforms: self.transforms.push(self.transform()), ..self }
    }

    /// With the transform that was kept last in force again.
    pub open spec fn transform_popped(self) -> DrawState {
        DrawState {
            transforms: if self.transforms.len() > 1 {
                self.transforms.drop_last()
            } else {
                self.transforms
            },
            ..self
        }
    }

    /// With the tint in force kept on its stack.
    pub open spec fn tint_pushed(self) -> DrawState {
        DrawState { tints: self.tints.push(self.tint()), ..self }
    }

    /// With the tint that was kept last in force again.
    pub open spec fn tint_popped(self) -> DrawState {
        DrawState {
            tints: if self.tints.len() > 1 {
                self.tints.drop_last()
            } else {
                self.tints
            },
            ..self
        }
    }

    /// The transform in force followed, from within, by `m`.
    pub open spec fn composed(self, m: Affine2) -> DrawState {
        if self.transforms.len() == 0 {
            self
        } else {
            DrawState {
                transforms: self.transforms.update(
                    self.transforms.len() - 1,
                    self.transforms.last().compose(m),
                ),
                ..self
            }
        }
    }

    /// Another tint in force.
    pub open spec fn retinted(self, tint: Color) -> DrawState {
        if self.tints.len() == 0 {
            self
        } else {
            DrawState { tints: self.tints.update(self.tints.len() - 1, tint), ..self }
        }
    }
}

impl DrawList {
    /// Narrow the clip to `rect`, in the list's own space. Under a rotation the
    /// smallest upright rectangle around it counts.
    pub fn push_clip(&mut self, rect: Rect)
        ensures
            final(self)@ == old(self)@.clip_pushed(rect),
    {
        let world = self.current_transform().aabb(rect);
        let clip = match self.current_clip() {
            Some(current) => match current.intersection(world) {
                Some(both) => both,
                None => Rect { x: world.x, y: world.y, width: whole(0), height: whole(0) },
            },
            None => world,
        };
        self.clip_stack.push(clip);
        assert(self@ =~= old(self)@.clip_pushed(rect));
    }

    /// Clip to `rect` alone, whatever clip is in force.
    pub fn push_clip_exact(&mut self, rect: Rect)
        ensures
            final(self)@ == (DrawState {
                clips: old(self)@.clips.push(old(self)@.transform().aabb(rect)),
                ..old(self)@
            }),
    {
        let world = self.current_transform().aabb(rect);
        self.clip_stack.push(world);
        assert(self@ =~= (DrawState {
            clips: old(self)@.clips.push(old(self)@.transform().aabb(rect)),
            ..old(self)@
        }));
    }

    /// Narrow the clip to a window onto contents that may be larger.
    pub fn push_clip_viewport(&mut self, rect: Rect)
        ensures
            final(self)@ == (DrawState {
                viewports: old(self)@.viewports.push(old(self)@.narrowed(rect)),
                ..old(self)@.clip_pushed(rect)
            }),
    {
        self.push_clip(rect);
        let clip = self.current_clip();
        match clip {
            Some(clip) => {
                self.viewport_clips.push(clip);
            },
            None => {},
        }
        assert(self@ =~= (DrawState {
            viewports: old(self)@.viewports.push(old(self)@.narrowed(rect)),
            ..old(self)@.clip_pushed(rect)
        }));
    }

    /// The windows clipped to in this frame.
    pub fn viewport_clips(&self) -> (r: &Vec<Rect>)
        ensures
            r@ == self@.viewports,
    {
        &self.viewport_clips
    }

    /// Drop the innermost clip.
    pub fn pop_clip(&mut self)
        ensures
            final(self)@ == old(self)@.clip_popped(),
    {
        let _ = self.clip_stack.pop();
        assert(self@ =~= old(self)@.clip_popped());
    }

    /// How many clips are in force.
    pub fn clip_len(&self) -> (r: usize)
        ensures
            r == self@.clips.len(),
    {
        self.clip_stack.len()
    }

    /// Drop clips until `len` are in force.
    pub fn truncate_clip(&mut self, len: usize)
        ensures
            final(self)@ == (DrawState {
                clips: if len < old(self)@.clips.len() {
                    old(self)@.clips.take(len as int)
                } else {
                    old(self)@.clips
                },
                ..old(self)@
            }),
    {
        self.clip_stack.truncate(len);
        assert(self@ =~= (DrawState {
            clips: if len < old(self)@.clips.len() {
                old(self)@.clips.take(len as int)
            } else {
                old(self)@.clips
            },
            ..old(self)@
        }));
    }

    /// Keep the transform in force, to come back to it.
    pub fn push_transform(&mut self)
        ensures
            final(self)@ == old(self)@.transform_pushed(),
    {
        let top = self.current_transform();
        self.transform_stack.push(top);
        assert(self@ =~= old(self)@.transform_pushed());
    }

    /// Come back to the transform kept last. The first one stays.
    pub fn pop_transform(&mut self)
        ensures
            final(self)@ == old(self)@.transform_popped(),
    {
        if self.transform_stack.len() > 1 {
            let _ = self.transform_stack.pop();
        }
        assert(self@ =~= old(self)@.transform_popped());
    }

    fn compose_top(&mut self, m: Affine2)
        ensures
            final(self)@ == old(self)@.composed(m),
    {
        let n: usize = self.transform_stack.len();
        if n > 0 {
            let top = self.transform_stack[n - 1].compose(m);
            self.transform_stack.set(n - 1, top);
        }
        assert(self@ =~= old(self)@.composed(m));
    }

    /// Move what is drawn next.
    pub fn translate(&mut self, dx: Scalar, dy: Scalar)
        ensures
            final(self)@ == old(self)@.composed(Affine2::translation(dx, dy)),
            old(self)@.transforms.len() > 0 ==> final(self)@.transform().tx
                == old(self)@.transform().apply(Point { x: dx, y: dy }).x,
            old(self)@.transforms.len() > 0 ==> final(self)@.transform().ty
                == old(self)@.transform().apply(Point { x: dx, y: dy }).y,
    {
        self.compose_top(Affine2::translation(dx, dy));
    }

    /// Turn what is drawn next by the angle with this cosine and sine.
    pub fn rotate(&mut self, cos: Scalar, sin: Scalar)
        ensures
            final(self)@ == old(self)@.composed(Affine2::rotation(cos, sin)),
            old(self)@.transform() == Affine2::identity() && cos.is_finite() && sin.is_finite()
                && old(self)@.transforms.len() > 0 ==> crate::affine::same_place(
                Point { x: final(self)@.transform().a, y: final(self)@.transform().b },
                Point { x: cos, y: sin },
            ),
    {
        proof {
            if cos.is_finite() && sin.is_finite() {
                crate::affine::law_turn_of_the_identity(cos, sin);
            }
        }
        self.compose_top(Affine2::rotation(cos, sin));
    }

    /// Stretch what is drawn next.
    pub fn scale(&mut self, sx: Scalar, sy: Scalar)
        ensures
            final(self)@ == old(self)@.composed(Affine2::scaling(sx, sy)),
            old(self)@.transform() == Affine2::identity() && sx.is_finite() && sy.is_finite()
                && old(self)@.transforms.len() > 0 ==> crate::affine::same_place(
                Point { x: final(self)@.transform().a, y: final(self)@.transform().d },
                Point { x: sx, y: sy },
            ),
    {
        proof {
            if sx.is_finite() && sy.is_finite() {
                crate::affine::law_stretch_of_the_identity(sx, sy);
            }
        }
        self.compose_top(Affine2::scaling(sx, sy));
    }

    /// Keep the tint in force, to come back to it.
    pub fn push_tint(&mut self)
        ensures
            final(self)@ == old(self)@.tint_pushed(),
    {
        let top = self.current_tint();
        self.tint_stack.push(top);
        assert(self@ =~= old(self)@.tint_pushed());
    }

    /// Come back to the tint kept last. The first one stays.
    pub fn pop_tint(&mut self)
        ensures
            final(self)@ == old(self)@.tint_popped(),
    {
        if self.tint_stack.len() > 1 {
            let _ = self.tint_stack.pop();
        }
        assert(self@ =~= old(self)@.tint_popped());
    }

    /// Tint what is drawn next with `rgba`.
    pub fn set_tint(&mut self, rgba: Color)
        ensures
            final(self)@ == old(self)@.retinted(rgba),
    {
        let n: usize = self.tint_stack.len();
        if n > 0 {
            self.tint_stack.set(n - 1, rgba);
        }
        assert(self@ =~= old(self)@.retinted(rgba));
    }

    /// Tint what is drawn next with `rgba` on top of the tint in force.
    pub fn multiply_tint(&mut self, rgba: Color)
        ensures
            final(self)@ == old(self)@.retinted(old(self)@.tint().times(rgba)),
    {
        let n: usize = self.tint_stack.len();
        if n > 0 {
            let top = self.tint_stack[n - 1].times(rgba);
            self.tint_stack.set(n - 1, top);
        }
        assert(self@ =~= old(self)@.retinted(old(self)@.tint().times(rgba)));
    }

    fn open_debug_scope(&mut self, name: String, declared: Option<Rect>)
        ensures
            final(self)@ == old(self)@.scope_opened(name@, declared),
    {
        let start = self.prim_counts();
        let n: usize = self.debug_scope_stack.len();
        let parent: Option<usize> = if n > 0 {
            Some(self.debug_scope_stack[n - 1])
        } else {
            None
        };
        let index: usize = self.debug_scopes.len();
        let clip = self.current_clip();
        self.debug_scopes.push(
            DebugScope { name, parent, depth: n, declared, clip, start, end: start, closed: false },
        );
        self.debug_scope_stack.push(index);
        assert(self@.scopes =~= old(self)@.scope_opened(name@, declared).scopes);
        assert(self@ =~= old(self)@.scope_opened(name@, declared));
    }

    /// Open a named scope: what is drawn until it is closed counts to it.
    pub fn push_debug_scope(&mut self, name: &str)
        ensures
            final(self)@ == old(self)@.scope_opened(name@, None),
    {
        self.open_debug_scope(name.to_owned(), None);
    }

    /// Open a named scope that declares the box it was given.
    pub fn push_debug_scope_rect(&mut self, name: &str, rect: Rect)
        ensures
            final(self)@ == old(self)@.scoped(name@, rect),
    {
        proof {
            reveal(DrawState::scoped);
        }
        let world = self.current_transform().aabb(rect);
        self.open_debug_scope(name.to_owned(), Some(world));
    }

    /// Close the innermost scope. Without one, nothing happens.
    pub fn pop_debug_scope(&mut self)
        ensures
            final(self)@ == old(self)@.scope_closed(),
            final(self)@.open == (if old(self)@.open.len() == 0 {
                old(self)@.open
            } else {
                old(self)@.open.drop_last()
            }),
    {
        proof {
            reveal(DrawState::scope_closed);
        }
        let end = self.prim_counts();
        match self.debug_scope_stack.pop() {
            Some(index) => {
                if index < self.debug_scopes.len() {
                    self.debug_scopes[index].end = end;
                    self.debug_scopes[index].closed = true;
                    assert(self@.scopes =~= old(self)@.scope_closed().scopes);
                }
            },
            None => {},
        }
        assert(self@ =~= old(self)@.scope_closed());
    }

    /// The scopes of this frame, in the order they were opened.
    pub fn debug_scopes(&self) -> (r: &Vec<DebugScope>)
        ensures
            crate::draw_list::scope_views(r@) == self@.scopes,
    {
        &self.debug_scopes
    }

    /// How many shapes were refused for want of a positive size.
    pub fn dropped_degenerate(&self) -> (r: u32)
        ensures
            r == self@.dropped,
    {
        self.dropped_degenerate
    }

    /// How many scopes are open.
    pub fn debug_scope_depth(&self) -> (r: usize)
        ensures
            r == self@.open.len(),
    {
        self.debug_scope_stack.len()
    }

    /// Close scopes until `depth` are open.
    pub fn truncate_debug_scopes(&mut self, depth: usize)
        ensures
            final(self)@ == old(self)@.scopes_closed_to(depth as nat),
    {
        let ghost before = self@;
        while self.debug_scope_stack.len() > depth
            invariant
                self@.scopes_closed_to(depth as nat) == before.scopes_closed_to(depth as nat),
            decreases self.debug_scope_stack@.len(),
        {
            self.pop_debug_scope();
        }
    }
}

/// A clip within a clip shows nothing outside the outer one: the narrowed clip
/// starts no further left and no higher than the clip in force.
pub proof fn law_clips_narrow(state: DrawState, rect: Rect, x: Scalar, y: Scalar)
    requires
        state.clip() is Some,
        state.narrowed(rect).contains(x, y),
        state.clip()->0.intersection(state.transform().aabb(rect)) is Some,
        !state.clip()->0.x.is_nan(),
        !state.clip()->0.y.is_nan(),
    ensures
        state.clip()->0.x.le(x),
        state.clip()->0.y.le(y),
{
    crate::geometry::law_intersection_starts_inside(
        state.clip()->0,
        state.transform().aabb(rect),
        x,
        y,
    );
}

/// Dropping the clip that was just pushed gives back the list as it was.
pub proof fn law_pop_undoes_push_clip(state: DrawState, rect: Rect)
    ensures
        state.clip_pushed(rect).clip_popped() == state,
{
    assert(state.clips.push(state.narrowed(rect)).drop_last() =~= state.clips);
}

/// Whatever happened to the transform since it was kept, it comes back.
pub proof fn law_pop_undoes_push_transform(state: DrawState, m: Affine2)
    requires
        state.transforms.len() > 0,
    ensures
        state.transform_pushed().transform() == state.transform(),
        state.transform_pushed().composed(m).transform_popped() == state,
{
    assert(state.transform_pushed().composed(m).transform_popped().transforms =~= state.transforms);
}

/// Whatever happened to the tint since it was kept, it comes back.
pub proof fn law_pop_undoes_push_tint(state: DrawState, tint: Color)
    requires
        state.tints.len() > 0,
    ensures
        state.tint_pushed().tint() == state.tint(),
        state.tint_pushed().retinted(tint).tint_popped() == state,
{
    assert(state.tint_pushed().retinted(tint).tint_popped().tints =~= state.tints);
}

/// The first transform and the first tint are never dropped.
pub proof fn law_stacks_keep_their_base(state: DrawState)
    requires
        state.transforms.len() > 0,
        state.tints.len() > 0,
    ensures
        state.transform_popped().transforms.len() > 0,
        state.transform_popped().transforms[0] == state.transforms[0],
        state.tint_popped().tints.len() > 0,
        state.tint_popped().tints[0] == state.tints[0],
{
}

/// Closing the scope that was just opened leaves the scopes around it open, and
/// records a scope that holds nothing.
pub proof fn law_empty_scope(state: DrawState, name: Seq<char>, rect: Rect)
    requires
        state.scopes.len() < usize::MAX,
    ensures
        state.scoped(name, rect).scope_closed().open == state.open,
        state.scoped(name, rect).scope_closed().scopes.last().closed,
        state.scoped(name, rect).scope_closed().scopes.last().start == state.scoped(
            name,
            rect,
        ).scope_closed().scopes.last().end,
{
    reveal(DrawState::scoped);
    reveal(DrawState::scope_closed);
    assert(state.open.push(state.scopes.len() as usize).drop_last() =~= state.open);
}

} // verus!
