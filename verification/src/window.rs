//! Window-level decisions: tracking a left-button drag for the orbit camera,
//! what to do when a frame cannot be rendered, and the extent a surface is
//! configured with.
//!
//! The cursor positions themselves are floats and stay with the event loop;
//! this state only records whether the button is held and whether a last
//! position has been recorded, and says what the loop must do on each event.

use vstd::prelude::*;

verus! {

/// What the event loop does with a cursor move.
#[derive(Clone, Copy, Debug, PartialEq, Eq, Structural)]
pub enum DragAction {
    /// Not dragging: nothing.
    Ignore,
    /// Dragging, no previous position yet: record the position.
    Record,
    /// Dragging: orbit by the offset from the recorded position, then
    /// record the new one.
    OrbitAndRecord,
}

/// Left-button drag state.
#[derive(Clone, Copy, Debug, PartialEq, Eq, Structural)]
pub struct DragState {
    /// The left button is held.
    pub pressed: bool,
    /// A last cursor position has been recorded during this drag.
    pub has_last: bool,
}

impl DragState {
    /// A position is only ever recorded while the button is held.
    pub open spec fn wf(self) -> bool {
        self.has_last ==> self.pressed
    }

    /// State after the left button is pressed (`true`) or released.
    pub open spec fn after_button(self, pressed: bool) -> DragState {
        DragState { pressed, has_last: pressed && self.has_last }
    }

    /// State after the cursor moves.
    pub open spec fn after_move(self) -> DragState {
        if self.pressed {
            DragState { pressed: true, has_last: true }
        } else {
            self
        }
    }

    /// What a cursor move asks of the event loop.
    pub open spec fn move_action(self) -> DragAction {
        if !self.pressed {
            DragAction::Ignore
        } else if self.has_last {
            DragAction::OrbitAndRecord
        } else {
            DragAction::Record
        }
    }

    /// Button up, nothing recorded.
    pub fn new() -> (r: DragState)
        ensures
            r == (DragState { pressed: false, has_last: false }),
            r.wf(),
    {
        DragState { pressed: false, has_last: false }
    }

    /// The left button went down (`pressed`) or up. Releasing forgets the
    /// recorded position.
    pub fn left_button(&mut self, pressed: bool)
        ensures
            *final(self) == old(self).after_button(pressed),
            old(self).wf() ==> final(self).wf(),
    {
        self.pressed = pressed;
        if !pressed {
            self.has_last = false;
        }
    }

    /// The cursor moved: say what to do, and record that a position is now
    /// known if dragging.
    pub fn cursor_moved(&mut self) -> (a: DragAction)
        ensures
            a == old(self).move_action(),
            *final(self) == old(self).after_move(),
            old(self).wf() ==> final(self).wf(),
    {
        if self.pressed {
            let a = if self.has_last {
                DragAction::OrbitAndRecord
            } else {
                DragAction::Record
            };
            self.has_last = true;
            a
        } else {
            DragAction::Ignore
        }
    }
}

/// The first move after a press never orbits: there is no earlier
/// position of this drag to orbit from.
pub proof fn lemma_press_then_move_records(s: DragState)
    requires
        s.wf(),
        !s.pressed,
    ensures
        s.after_button(true).move_action() == DragAction::Record,
{
}

/// After a release, moving the cursor does nothing, however often.
pub proof fn lemma_release_then_moves_ignored(s: DragState)
    ensures
        s.after_button(false).move_action() == DragAction::Ignore,
        s.after_button(false).after_move() == s.after_button(false),
{
}

/// While the button stays down, every move after the first orbits.
pub proof fn lemma_drag_orbits_after_first_move(s: DragState)
    requires
        s.pressed,
    ensures
        s.after_move().move_action() == DragAction::OrbitAndRecord,
{
}

/// Why the next frame's surface texture could not be acquired.
#[derive(Clone, Copy, Debug, PartialEq, Eq, Structural)]
pub enum SurfaceFailure {
    /// Acquiring the texture timed out.
    Timeout,
    /// The surface no longer matches the window and must be reconfigured.
    Outdated,
    /// The surface was lost and must be reconfigured.
    Lost,
    /// There is no GPU memory left for the texture.
    OutOfMemory,
}

/// What the event loop does after a failed frame.
#[derive(Clone, Copy, Debug, PartialEq, Eq, Structural)]
pub enum FailureAction {
    /// Reconfigure the surface at the window's current size.
    Reconfigure,
    /// Report the failure and leave the event loop.
    ReportAndExit,
    /// Report the failure and carry on with the next frame.
    Report,
}

/// The response to a failed frame: a lost or outdated surface is
/// reconfigured, running out of GPU memory ends the program, and anything
/// else is reported and skipped. In every case the next frame is requested.
pub fn failure_action(f: SurfaceFailure) -> (a: FailureAction)
    ensures
        a == match f {
            SurfaceFailure::Lost | SurfaceFailure::Outdated => FailureAction::Reconfigure,
            SurfaceFailure::OutOfMemory => FailureAction::ReportAndExit,
            SurfaceFailure::Timeout => FailureAction::Report,
        },
{
    match f {
        SurfaceFailure::Lost | SurfaceFailure::Outdated => FailureAction::Reconfigure,
        SurfaceFailure::OutOfMemory => FailureAction::ReportAndExit,
        SurfaceFailure::Timeout => FailureAction::Report,
    }
}

/// Surface extent for a window of `width` x `height`: each side at least 1,
/// since a surface cannot be configured with a zero side.
pub fn surface_extent(width: u32, height: u32) -> (r: (u32, u32))
    ensures
        r.0 == if width == 0 { 1 } else { width },
        r.1 == if height == 0 { 1 } else { height },
{
    (if width == 0 { 1 } else { width }, if height == 0 { 1 } else { height })
}

} // verus!
