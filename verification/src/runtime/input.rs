//! Keyboard state of the host.

use std::collections::HashSet;
use vstd::prelude::*;

verus! {

broadcast use vstd::std_specs::hash::group_hash_axioms;

/// Arrow up.
pub const KEY_ARROW_UP: u32 = 0;

/// Arrow down.
pub const KEY_ARROW_DOWN: u32 = 1;

/// Arrow left.
pub const KEY_ARROW_LEFT: u32 = 2;

/// Arrow right.
pub const KEY_ARROW_RIGHT: u32 = 3;

/// The W key.
pub const KEY_W: u32 = 4;

/// The A key.
pub const KEY_A: u32 = 5;

/// The S key.
pub const KEY_S: u32 = 6;

/// The D key.
pub const KEY_D: u32 = 7;

/// Whether a key went down or up.
#[derive(Clone, Copy, PartialEq, Eq, Structural, Debug)]
pub enum ElementState {
    /// Down.
    Pressed,
    /// Up.
    Released,
}

/// What the player wants this frame.
#[derive(Clone, Copy, PartialEq, Eq, Structural, Debug)]
pub struct PlayerInput {
    /// Up.
    pub up: bool,
    /// Down.
    pub down: bool,
    /// Left.
    pub left: bool,
    /// Right.
    pub right: bool,
}

/// The keys that are held, and those that went down in this frame.
pub struct InputState {
    pressed: HashSet<u32>,
    just_pressed: HashSet<u32>,
}

impl InputState {
    /// The keys that are held.
    pub closed spec fn held(&self) -> Set<u32> {
        self.pressed@
    }

    /// The keys that went down in this frame.
    pub closed spec fn fresh(&self) -> Set<u32> {
        self.just_pressed@
    }

    /// No key held.
    pub fn new() -> (r: Self)
        ensures
            r.held() == Set::<u32>::empty(),
            r.fresh() == Set::<u32>::empty(),
    {
        InputState { pressed: HashSet::new(), just_pressed: HashSet::new() }
    }

    /// Takes in a key event. A key that is reported down while it is held is
    /// not down afresh; a key that goes up stays in the frame's set.
    pub fn handle_key_event(&mut self, key: u32, state: ElementState)
        ensures
            final(self).held() == match state {
                ElementState::Pressed => old(self).held().insert(key),
                ElementState::Released => old(self).held().remove(key),
            },
            final(self).fresh() == if state == ElementState::Pressed && !old(self).held().contains(
                key,
            ) {
                old(self).fresh().insert(key)
            } else {
                old(self).fresh()
            },
    {
        match state {
            ElementState::Pressed => {
                if !self.pressed.contains(&key) {
                    self.just_pressed.insert(key);
                }
                self.pressed.insert(key);
            },
            ElementState::Released => {
                self.pressed.remove(&key);
            },
        }
    }

    /// Whether a key is held.
    pub fn is_pressed(&self, key: u32) -> (r: bool)
        ensures
            r == self.held().contains(key),
    {
        self.pressed.contains(&key)
    }

    /// Forgets which keys went down in this frame.
    pub fn clear_frame_state(&mut self)
        ensures
            final(self).held() == old(self).held(),
            final(self).fresh() == Set::<u32>::empty(),
    {
        self.just_pressed.clear();
    }

    /// The directions asked for by the arrow keys or W, A, S, D.
    pub fn get_player_input(&self) -> (r: PlayerInput)
        ensures
            r.up == (self.held().contains(KEY_ARROW_UP) || self.held().contains(KEY_W)),
            r.down == (self.held().contains(KEY_ARROW_DOWN) || self.held().contains(KEY_S)),
            r.left == (self.held().contains(KEY_ARROW_LEFT) || self.held().contains(KEY_A)),
            r.right == (self.held().contains(KEY_ARROW_RIGHT) || self.held().contains(KEY_D)),
    {
        PlayerInput {
            up: self.is_pressed(KEY_ARROW_UP) || self.is_pressed(KEY_W),
            down: self.is_pressed(KEY_ARROW_DOWN) || self.is_pressed(KEY_S),
            left: self.is_pressed(KEY_ARROW_LEFT) || self.is_pressed(KEY_A),
            right: self.is_pressed(KEY_ARROW_RIGHT) || self.is_pressed(KEY_D),
        }
    }
}

impl Default for InputState {
    /// No key held.
    fn default() -> (r: Self)
        ensures
            r.held() == Set::<u32>::empty(),
            r.fresh() == Set::<u32>::empty(),
    {
        InputState::new()
    }
}

/// The eight keys are told apart: each direction has two of its own.
pub proof fn law_keys_are_apart(key: u32)
    ensures
        key == KEY_ARROW_UP || key == KEY_W ==> key != KEY_ARROW_DOWN && key != KEY_S && key
            != KEY_ARROW_LEFT && key != KEY_A && key != KEY_ARROW_RIGHT && key != KEY_D,
        key == KEY_ARROW_DOWN || key == KEY_S ==> key != KEY_ARROW_LEFT && key != KEY_A && key
            != KEY_ARROW_RIGHT && key != KEY_D,
        key == KEY_ARROW_LEFT || key == KEY_A ==> key != KEY_ARROW_RIGHT && key != KEY_D,
        KEY_ARROW_UP != KEY_W && KEY_ARROW_DOWN != KEY_S && KEY_ARROW_LEFT != KEY_A
            && KEY_ARROW_RIGHT != KEY_D,
{
}

} // verus!
