//! The plain boolean action set consumed by the core.
//!
//! The host decodes raw key or button events into `Key` values; the core
//! never sees a device event.

use vstd::prelude::*;

verus! {

/// The keys the simulation reacts to.
#[derive(Clone, Copy, Debug, PartialEq, Eq, Structural)]
pub enum Key {
    Left,
    Right,
    Up,
    Space,
}

/// Active actions (toggled by user input).
#[derive(Clone, Copy, Debug, PartialEq, Eq, Structural)]
pub struct Actions {
    pub rotate_left: bool,
    pub rotate_right: bool,
    pub boost: bool,
    pub shoot: bool,
}

impl Default for Actions {
    /// No action active.
    fn default() -> (r: Actions)
        ensures
            r == (Actions { rotate_left: false, rotate_right: false, boost: false, shoot: false }),
    {
        Actions { rotate_left: false, rotate_right: false, boost: false, shoot: false }
    }
}

/// Tracks which actions are active as keys are pressed and released.
#[derive(Clone, Copy, Debug, PartialEq, Eq, Structural)]
pub struct InputController {
    pub actions: Actions,
}

impl Default for InputController {
    /// A controller with no action active.
    fn default() -> (r: InputController)
        ensures
            r.actions == (Actions {
                rotate_left: false,
                rotate_right: false,
                boost: false,
                shoot: false,
            }),
    {
        InputController {
            actions: Actions { rotate_left: false, rotate_right: false, boost: false, shoot: false },
        }
    }
}

impl InputController {
    /// Creates a new `InputController` with no action active.
    pub fn new() -> (r: InputController)
        ensures
            r.actions == (Actions {
                rotate_left: false,
                rotate_right: false,
                boost: false,
                shoot: false,
            }),
    {
        InputController::default()
    }

    /// Returns the currently active actions.
    pub fn actions(&self) -> (r: Actions)
        ensures
            r == self.actions,
    {
        self.actions
    }

    /// Processes a key press.
    pub fn key_press(&mut self, key: Key)
        ensures
            *final(self) == old(self).spec_handle_key(key, true),
    {
        self.handle_key(key, true);
    }

    /// Processes a key release.
    pub fn key_release(&mut self, key: Key)
        ensures
            *final(self) == old(self).spec_handle_key(key, false),
    {
        self.handle_key(key, false);
    }

    /// The controller after a key changed state.
    pub open spec fn spec_handle_key(self, key: Key, pressed: bool) -> InputController {
        let a = self.actions;
        InputController {
            actions: match key {
                Key::Left => Actions { rotate_left: pressed, ..a },
                Key::Right => Actions { rotate_right: pressed, ..a },
                Key::Up => Actions { boost: pressed, ..a },
                Key::Space => Actions { shoot: pressed, ..a },
            },
        }
    }

    /// Handles a key press or release.
    fn handle_key(&mut self, key: Key, pressed: bool)
        ensures
            *final(self) == old(self).spec_handle_key(key, pressed),
    {
        match key {
            Key::Left => self.actions.rotate_left = pressed,
            Key::Right => self.actions.rotate_right = pressed,
            Key::Up => self.actions.boost = pressed,
            Key::Space => self.actions.shoot = pressed,
        }
    }
}

} // verus!
