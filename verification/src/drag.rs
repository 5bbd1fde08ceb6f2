//! Drag capture: a single owner for a pointer drag in progress.

use vstd::prelude::*;

verus! {

/// Stable identity of a draggable widget.
pub type DragId = u64;

/// Which draggable widget owns the pointer drag. At most one does.
#[derive(Clone, Debug, PartialEq, Eq, Structural)]
pub struct DragCapture {
    /// The owner, if any.
    pub active: Option<DragId>,
}

impl DragCapture {
    /// Nothing is being dragged.
    pub fn new() -> (r: Self)
        ensures
            r.active is None,
    {
        DragCapture { active: None }
    }

    /// The widget that owns the drag, if any.
    pub fn active(&self) -> (r: Option<DragId>)
        ensures
            r == self.active,
    {
        self.active
    }

    pub open spec fn spec_is_active(&self, id: DragId) -> bool {
        self.active == Some(id)
    }

    /// Whether `id` owns the drag.
    #[verifier::when_used_as_spec(spec_is_active)]
    pub fn is_active(&self, id: DragId) -> (r: bool)
        ensures
            r == self.spec_is_active(id),
    {
        match self.active {
            Some(cur) => cur == id,
            None => false,
        }
    }

    pub open spec fn spec_is_free(&self) -> bool {
        self.active is None
    }

    /// Whether nobody owns the drag.
    #[verifier::when_used_as_spec(spec_is_free)]
    pub fn is_free(&self) -> (r: bool)
        ensures
            r == self.spec_is_free(),
    {
        self.active.is_none()
    }

    /// The capture after `id` asked for the drag.
    pub open spec fn begun(self, id: DragId) -> DragCapture {
        if self.active is None {
            DragCapture { active: Some(id) }
        } else {
            self
        }
    }

    /// The capture after `id` let go.
    pub open spec fn released(self, id: DragId) -> DragCapture {
        if self.active == Some(id) {
            DragCapture { active: None }
        } else {
            self
        }
    }

    /// Ask for the drag. Granted where it is free or already `id`'s.
    pub fn try_begin(&mut self, id: DragId) -> (r: bool)
        ensures
            *final(self) == old(self).begun(id),
            r == final(self).is_active(id),
    {
        match self.active {
            None => {
                self.active = Some(id);
                true
            },
            Some(cur) => cur == id,
        }
    }

    /// Let the drag go, if it is `id`'s.
    pub fn release(&mut self, id: DragId)
        ensures
            *final(self) == old(self).released(id),
    {
        if self.is_active(id) {
            self.active = None;
        }
    }

    /// Drop the drag, whoever owns it.
    pub fn clear(&mut self)
        ensures
            final(self).is_free(),
    {
        self.active = None;
    }

    /// What a draggable region does with a frame: let go once the button is up,
    /// then take the drag on a press over it while the drag is free.
    pub open spec fn driven(self, id: DragId, down: bool, pressed: bool) -> DragCapture {
        let freed = if down {
            self
        } else {
            self.released(id)
        };
        if pressed && freed.is_free() {
            freed.begun(id)
        } else {
            freed
        }
    }

    /// One frame of a draggable region: let go once the button is up, then
    /// take the drag on a press over the region while the drag is free. Tells
    /// whether the region took the drag in this frame.
    pub fn drive(&mut self, id: DragId, down: bool, pressed: bool) -> (started: bool)
        ensures
            *final(self) == old(self).driven(id, down, pressed),
            started == (pressed && (if down {
                *old(self)
            } else {
                old(self).released(id)
            }).is_free()),
    {
        if !down {
            self.release(id);
        }
        if pressed && self.is_free() {
            self.try_begin(id)
        } else {
            false
        }
    }
}

/// What dragging one of several handles does to the capture and to the handle
/// held.
#[derive(Clone, Copy, Debug, PartialEq, Eq, Structural)]
pub struct Grip {
    /// The handle held, if any.
    pub held: Option<usize>,
    /// Whether it was taken in this frame.
    pub taken: bool,
}

impl DragCapture {
    /// The handle held at the start of a frame: none once the button is up.
    pub open spec fn held_over(drag: Option<usize>, down: bool) -> Option<usize> {
        if down {
            drag
        } else {
            None
        }
    }

    /// The capture at the start of a frame.
    pub open spec fn freed(self, id: DragId, down: bool) -> DragCapture {
        if down {
            self
        } else {
            self.released(id)
        }
    }

    /// The handle held after a press on handle `hit`, and whether it was taken.
    pub open spec fn grip(
        self,
        drag: Option<usize>,
        id: DragId,
        hit: Option<usize>,
        down: bool,
        pressed: bool,
    ) -> Grip {
        let taken = hit is Some && pressed && self.freed(id, down).is_free();
        let held = if taken {
            hit
        } else {
            Self::held_over(drag, down)
        };
        Grip {
            held: if self.driven(id, down, hit is Some && pressed).is_active(id) {
                held
            } else {
                None
            },
            taken,
        }
    }

    /// One frame of several handles that share an identity: let go once the
    /// button is up, take the drag on a press on handle `hit` while it is free,
    /// and hold no handle without the drag.
    pub fn drive_handles(
        &mut self,
        drag: &mut Option<usize>,
        id: DragId,
        hit: Option<usize>,
        down: bool,
        pressed: bool,
    ) -> (taken: bool)
        ensures
            *final(self) == old(self).driven(id, down, hit is Some && pressed),
            *final(drag) == old(self).grip(*old(drag), id, hit, down, pressed).held,
            taken == old(self).grip(*old(drag), id, hit, down, pressed).taken,
    {
        if !down {
            *drag = None;
        }
        let taken = self.drive(id, down, hit.is_some() && pressed);
        if taken {
            *drag = hit;
        }
        if !self.is_active(id) {
            *drag = None;
        }
        taken
    }
}

impl Default for DragCapture {
    fn default() -> (r: Self)
        ensures
            r.active is None,
    {
        Self::new()
    }
}

/// At most one widget owns the drag.
pub proof fn law_single_owner(capture: DragCapture, a: DragId, b: DragId)
    requires
        capture.is_active(a),
        capture.is_active(b),
    ensures
        a == b,
{
}

/// A drag cannot be stolen: while `a` owns it, neither a request nor a release
/// by another widget, nor a whole frame of it, changes anything.
pub proof fn law_no_stealing(capture: DragCapture, a: DragId, b: DragId, down: bool, pressed: bool)
    requires
        capture.is_active(a),
        a != b,
    ensures
        capture.begun(b) == capture,
        capture.released(b) == capture,
        capture.driven(b, down, pressed) == capture,
{
}

/// Asking again changes nothing, and letting go undoes the request.
pub proof fn law_begin_release(capture: DragCapture, id: DragId)
    requires
        capture.is_free(),
    ensures
        capture.begun(id).is_active(id),
        capture.begun(id).begun(id) == capture.begun(id),
        capture.begun(id).released(id) == capture,
{
}

/// Two regions that see the same press cannot both take the drag.
pub proof fn law_one_press_one_owner(capture: DragCapture, a: DragId, b: DragId)
    requires
        capture.is_free(),
        a != b,
    ensures
        capture.driven(a, true, true).driven(b, true, true).is_active(a),
        !capture.driven(a, true, true).driven(b, true, true).is_active(b),
{
}

/// A press on a free grip takes hold of what it hits; while the button is down the hold
/// lasts; when it is up nothing is held, and the grip is free for the next press.
pub proof fn law_grip_holds_while_the_button_is_down(capture: DragCapture, drag: Option<usize>, id: DragId, hit: Option<usize>)
    ensures
        capture.is_free() && hit is Some ==> capture.grip(drag, id, hit, true, true).held == hit
            && capture.grip(drag, id, hit, true, true).taken && capture.driven(
            id,
            true,
            true,
        ).is_active(id),
        capture.is_active(id) ==> capture.grip(drag, id, hit, true, false).held == drag
            && !capture.grip(drag, id, hit, true, false).taken && capture.driven(
            id,
            true,
            false,
        ).is_active(id),
        capture.grip(drag, id, hit, false, false).held is None,
        capture.is_active(id) ==> capture.driven(id, false, false).is_free(),
        capture.is_free() && hit is None ==> capture.grip(drag, id, hit, true, true).held is None,
{
}

/// What another one holds is left to it.
pub proof fn law_taken_capture_gives_no_hold(capture: DragCapture, drag: Option<usize>, id: DragId, owner: DragId, hit: Option<usize>, down: bool, pressed: bool)
    requires
        capture.is_active(owner),
        owner != id,
    ensures
        capture.grip(drag, id, hit, down, pressed).held is None,
        !capture.grip(drag, id, hit, down, pressed).taken,
{
}

} // verus!
