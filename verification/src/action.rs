//! Discrete input actions and the set tracking which of them are asserted.

use vstd::prelude::*;

verus! {

/// A discrete input action asserted against the renderer.
#[derive(Clone, Copy, Debug, PartialEq, Eq, Hash, Structural)]
pub enum Action {
    CameraMoveForward,
    CameraMoveBackward,
    CameraMoveLeft,
    CameraMoveRight,
    CameraMoveUp,
    CameraMoveDown,
    /// Horizontal clockwise camera rotation.
    CameraRotationCW,
    /// Horizontal counter-clockwise camera rotation.
    CameraRotationCCW,
    CameraRotationUp,
    CameraRotationDown,
    /// Ask for a frame although nothing changed.
    RequestRender,
}

/// The set of currently asserted actions: one flag per action, so that
/// triggering is idempotent and membership is answered in constant time.
#[derive(Clone, Copy, Debug, PartialEq, Eq, Structural)]
pub struct ActionManager {
    pub move_forward: bool,
    pub move_backward: bool,
    pub move_left: bool,
    pub move_right: bool,
    pub move_up: bool,
    pub move_down: bool,
    pub rotation_cw: bool,
    pub rotation_ccw: bool,
    pub rotation_up: bool,
    pub rotation_down: bool,
    pub request_render: bool,
}

impl ActionManager {
    /// Whether an action is in the set.
    pub open spec fn spec_triggered(self, action: Action) -> bool {
        match action {
            Action::CameraMoveForward => self.move_forward,
            Action::CameraMoveBackward => self.move_backward,
            Action::CameraMoveLeft => self.move_left,
            Action::CameraMoveRight => self.move_right,
            Action::CameraMoveUp => self.move_up,
            Action::CameraMoveDown => self.move_down,
            Action::CameraRotationCW => self.rotation_cw,
            Action::CameraRotationCCW => self.rotation_ccw,
            Action::CameraRotationUp => self.rotation_up,
            Action::CameraRotationDown => self.rotation_down,
            Action::RequestRender => self.request_render,
        }
    }

    /// Whether the set is empty.
    pub open spec fn spec_is_empty(self) -> bool {
        forall|a: Action| !self.spec_triggered(a)
    }

    pub fn new() -> (r: Self)
        ensures
            r.spec_is_empty(),
    {
        ActionManager {
            move_forward: false,
            move_backward: false,
            move_left: false,
            move_right: false,
            move_up: false,
            move_down: false,
            rotation_cw: false,
            rotation_ccw: false,
            rotation_up: false,
            rotation_down: false,
            request_render: false,
        }
    }

    /// Add an action to the set; adding one already present changes nothing.
    pub fn trigger(&mut self, action: Action)
        ensures
            forall|a: Action|
                final(self).spec_triggered(a) == (a == action || old(self).spec_triggered(a)),
    {
        match action {
            Action::CameraMoveForward => self.move_forward = true,
            Action::CameraMoveBackward => self.move_backward = true,
            Action::CameraMoveLeft => self.move_left = true,
            Action::CameraMoveRight => self.move_right = true,
            Action::CameraMoveUp => self.move_up = true,
            Action::CameraMoveDown => self.move_down = true,
            Action::CameraRotationCW => self.rotation_cw = true,
            Action::CameraRotationCCW => self.rotation_ccw = true,
            Action::CameraRotationUp => self.rotation_up = true,
            Action::CameraRotationDown => self.rotation_down = true,
            Action::RequestRender => self.request_render = true,
        }
    }

    /// Remove an action from the set; removing an absent one is a no-op.
    pub fn withdraw(&mut self, action: Action)
        ensures
            forall|a: Action|
                final(self).spec_triggered(a) == (a != action && old(self).spec_triggered(a)),
    {
        match action {
            Action::CameraMoveForward => self.move_forward = false,
            Action::CameraMoveBackward => self.move_backward = false,
            Action::CameraMoveLeft => self.move_left = false,
            Action::CameraMoveRight => self.move_right = false,
            Action::CameraMoveUp => self.move_up = false,
            Action::CameraMoveDown => self.move_down = false,
            Action::CameraRotationCW => self.rotation_cw = false,
            Action::CameraRotationCCW => self.rotation_ccw = false,
            Action::CameraRotationUp => self.rotation_up = false,
            Action::CameraRotationDown => self.rotation_down = false,
            Action::RequestRender => self.request_render = false,
        }
    }

    pub fn is_triggerred(&self, action: Action) -> (r: bool)
        ensures
            r == self.spec_triggered(action),
    {
        match action {
            Action::CameraMoveForward => self.move_forward,
            Action::CameraMoveBackward => self.move_backward,
            Action::CameraMoveLeft => self.move_left,
            Action::CameraMoveRight => self.move_right,
            Action::CameraMoveUp => self.move_up,
            Action::CameraMoveDown => self.move_down,
            Action::CameraRotationCW => self.rotation_cw,
            Action::CameraRotationCCW => self.rotation_ccw,
            Action::CameraRotationUp => self.rotation_up,
            Action::CameraRotationDown => self.rotation_down,
            Action::RequestRender => self.request_render,
        }
    }

    /// Empty the set.
    pub fn clear(&mut self)
        ensures
            final(self).spec_is_empty(),
    {
        self.move_forward = false;
        self.move_backward = false;
        self.move_left = false;
        self.move_right = false;
        self.move_up = false;
        self.move_down = false;
        self.rotation_cw = false;
        self.rotation_ccw = false;
        self.rotation_up = false;
        self.rotation_down = false;
        self.request_render = false;
    }

    /// Whether any action at all is asserted.
    pub fn has_actions(&self) -> (r: bool)
        ensures
            r == !self.spec_is_empty(),
    {
        let r = self.move_forward || self.move_backward || self.move_left || self.move_right
            || self.move_up || self.move_down || self.rotation_cw || self.rotation_ccw
            || self.rotation_up || self.rotation_down || self.request_render;
        proof {
            if r {
                if self.move_forward {
                    assert(self.spec_triggered(Action::CameraMoveForward));
                } else if self.move_backward {
                    assert(self.spec_triggered(Action::CameraMoveBackward));
                } else if self.move_left {
                    assert(self.spec_triggered(Action::CameraMoveLeft));
                } else if self.move_right {
                    assert(self.spec_triggered(Action::CameraMoveRight));
                } else if self.move_up {
                    assert(self.spec_triggered(Action::CameraMoveUp));
                } else if self.move_down {
                    assert(self.spec_triggered(Action::CameraMoveDown));
                } else if self.rotation_cw {
                    assert(self.spec_triggered(Action::CameraRotationCW));
                } else if self.rotation_ccw {
                    assert(self.spec_triggered(Action::CameraRotationCCW));
                } else if self.rotation_up {
                    assert(self.spec_triggered(Action::CameraRotationUp));
                } else if self.rotation_down {
                    assert(self.spec_triggered(Action::CameraRotationDown));
                } else {
                    assert(self.spec_triggered(Action::RequestRender));
                }
            }
        }
        r
    }
}

} // verus!
