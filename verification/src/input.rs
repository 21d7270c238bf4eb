//! Keyboard state tracked across frames: which keys are held, and which were
//! pressed or released during the current frame.
use std::collections::HashSet;
use vstd::prelude::*;

verus! {

broadcast use vstd::std_specs::hash::group_hash_axioms;

/// The three key sets of an [`InputState`].
pub struct InputView {
    pub pressed: Set<u32>,
    pub just_pressed: Set<u32>,
    pub just_released: Set<u32>,
}

/// The state after a key goes down: a key already held (auto-repeat)
/// changes nothing; a key not held becomes held and just pressed.
pub open spec fn press_step(v: InputView, key: u32) -> InputView {
    if v.pressed.contains(key) {
        v
    } else {
        InputView {
            pressed: v.pressed.insert(key),
            just_pressed: v.just_pressed.insert(key),
            just_released: v.just_released,
        }
    }
}

/// The state after a key goes up: not held, and just released.
pub open spec fn release_step(v: InputView, key: u32) -> InputView {
    InputView {
        pressed: v.pressed.remove(key),
        just_pressed: v.just_pressed,
        just_released: v.just_released.insert(key),
    }
}

/// The state at the start of the next frame: the held keys stay held.
pub open spec fn frame_step(v: InputView) -> InputView {
    InputView { pressed: v.pressed, just_pressed: Set::empty(), just_released: Set::empty() }
}

/// Keyboard state: keys are identified by their physical key code.
pub struct InputState {
    pressed: HashSet<u32>,
    just_pressed: HashSet<u32>,
    just_released: HashSet<u32>,
}

impl View for InputState {
    type V = InputView;

    closed spec fn view(&self) -> InputView {
        InputView {
            pressed: self.pressed@,
            just_pressed: self.just_pressed@,
            just_released: self.just_released@,
        }
    }
}

impl InputState {
    /// No key held, pressed or released.
    pub fn new() -> (r: Self)
        ensures
            r@.pressed == Set::<u32>::empty(),
            r@.just_pressed == Set::<u32>::empty(),
            r@.just_released == Set::<u32>::empty(),
    {
        InputState { pressed: HashSet::new(), just_pressed: HashSet::new(), just_released: HashSet::new() }
    }

    /// Whether the key is currently held down.
    pub fn is_key_pressed(&self, key: u32) -> (r: bool)
        ensures
            r == self@.pressed.contains(key),
    {
        self.pressed.contains(&key)
    }

    /// Whether the key went down during this frame.
    pub fn is_key_just_pressed(&self, key: u32) -> (r: bool)
        ensures
            r == self@.just_pressed.contains(key),
    {
        self.just_pressed.contains(&key)
    }

    /// Whether the key went up during this frame.
    pub fn is_key_just_released(&self, key: u32) -> (r: bool)
        ensures
            r == self@.just_released.contains(key),
    {
        self.just_released.contains(&key)
    }

    /// Records a key going down (`pressed`) or up. A press of a key already
    /// held (auto-repeat) changes nothing; a press of a key not held marks it
    /// held and just pressed; a release marks it not held and just released.
    pub fn process_key_event(&mut self, pressed: bool, key: u32)
        ensures
            pressed ==> final(self)@ == press_step(old(self)@, key),
            !pressed ==> final(self)@ == release_step(old(self)@, key),
    {
        if pressed {
            let ghost was = self@;
            if self.pressed.insert(key) {
                self.just_pressed.insert(key);
            } else {
                assert(self@.pressed =~= was.pressed);
            }
        } else {
            self.pressed.remove(&key);
            self.just_released.insert(key);
        }
    }

    /// Ends the frame: forgets which keys were just pressed or released.
    pub fn clear_frame_state(&mut self)
        ensures
            final(self)@ == frame_step(old(self)@),
    {
        self.just_pressed.clear();
        self.just_released.clear();
    }
}

impl Default for InputState {
    fn default() -> (r: Self)
        ensures
            r@.pressed == Set::<u32>::empty(),
            r@.just_pressed == Set::<u32>::empty(),
            r@.just_released == Set::<u32>::empty(),
    {
        InputState::new()
    }
}

/// A key pressed while not held is held and just pressed; held keys stay
/// held.
pub proof fn law_press_holds_key(v: InputView, key: u32, other: u32)
    ensures
        press_step(v, key).pressed.contains(key),
        !v.pressed.contains(key) ==> press_step(v, key).just_pressed.contains(key),
        v.pressed.contains(other) ==> press_step(v, key).pressed.contains(other),
{
}

/// A key held since an earlier frame is not just pressed again by an
/// auto-repeated press.
pub proof fn law_repeat_is_not_a_new_press(v: InputView, key: u32)
    requires
        v.pressed.contains(key),
    ensures
        !press_step(frame_step(v), key).just_pressed.contains(key),
        press_step(frame_step(v), key).pressed.contains(key),
{
}

/// A released key is no longer held and is just released; pressing it
/// again makes it a new press.
pub proof fn law_release_then_press(v: InputView, key: u32)
    ensures
        !release_step(v, key).pressed.contains(key),
        release_step(v, key).just_released.contains(key),
        press_step(frame_step(release_step(v, key)), key).just_pressed.contains(key),
{
}

/// The start of a frame forgets the transient keys and keeps the held ones.
pub proof fn law_frame_keeps_held(v: InputView, key: u32)
    ensures
        frame_step(v).pressed == v.pressed,
        !frame_step(v).just_pressed.contains(key),
        !frame_step(v).just_released.contains(key),
{
}

} // verus!
