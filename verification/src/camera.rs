//! Camera modes and the keyboard controls of the camera controller.
use vstd::prelude::*;

verus! {

/// How the camera controller moves the camera.
#[derive(Debug, Clone, Copy, PartialEq, Eq, Structural)]
pub enum CameraMode {
    /// First-person: mouse looks around, scrolling changes speed.
    FirstPerson,
    /// Isometric: scrolling zooms.
    Isometric,
}

/// The keys the camera controller reacts to.
#[derive(Debug, Clone, Copy, PartialEq, Eq, Structural)]
pub enum MovementKey {
    KeyW,
    ArrowUp,
    KeyS,
    ArrowDown,
    KeyA,
    ArrowLeft,
    KeyD,
    ArrowRight,
    Space,
    ShiftLeft,
    ShiftRight,
}

/// The axis a movement key drives.
#[derive(Debug, Clone, Copy, PartialEq, Eq, Structural)]
pub enum MovementAxis {
    Forward,
    Right,
    Up,
}

/// The axis of a key and the sign of its movement along it.
pub open spec fn key_axis(key: MovementKey) -> (MovementAxis, i8) {
    match key {
        MovementKey::KeyW | MovementKey::ArrowUp => (MovementAxis::Forward, 1i8),
        MovementKey::KeyS | MovementKey::ArrowDown => (MovementAxis::Forward, -1i8),
        MovementKey::KeyA | MovementKey::ArrowLeft => (MovementAxis::Right, -1i8),
        MovementKey::KeyD | MovementKey::ArrowRight => (MovementAxis::Right, 1i8),
        MovementKey::Space => (MovementAxis::Up, 1i8),
        MovementKey::ShiftLeft | MovementKey::ShiftRight => (MovementAxis::Up, -1i8),
    }
}

/// The axis a key event sets and the amount it sets it to: the key's sign
/// while it is pressed, 0 once released.
pub fn movement_for_key(key: MovementKey, pressed: bool) -> (r: (MovementAxis, i8))
    ensures
        r.0 == key_axis(key).0,
        r.1 == (if pressed { key_axis(key).1 } else { 0i8 }),
{
    let (axis, sign): (MovementAxis, i8) = match key {
        MovementKey::KeyW | MovementKey::ArrowUp => (MovementAxis::Forward, 1),
        MovementKey::KeyS | MovementKey::ArrowDown => (MovementAxis::Forward, -1),
        MovementKey::KeyA | MovementKey::ArrowLeft => (MovementAxis::Right, -1),
        MovementKey::KeyD | MovementKey::ArrowRight => (MovementAxis::Right, 1),
        MovementKey::Space => (MovementAxis::Up, 1),
        MovementKey::ShiftLeft | MovementKey::ShiftRight => (MovementAxis::Up, -1),
    };
    if pressed {
        (axis, sign)
    } else {
        (axis, 0)
    }
}

/// The movement keys act in pairs: W and Up, S and Down, A and Left, D and
/// Right, and the two Shift keys act the same; each key is the opposite of
/// its counterpart on the same axis (W of S, D of A, Space of Shift); W
/// moves forward, D right and Space up, each with a positive amount.
pub proof fn law_movement_key_directions()
    ensures
        key_axis(MovementKey::KeyW) == key_axis(MovementKey::ArrowUp),
        key_axis(MovementKey::KeyS) == key_axis(MovementKey::ArrowDown),
        key_axis(MovementKey::KeyA) == key_axis(MovementKey::ArrowLeft),
        key_axis(MovementKey::KeyD) == key_axis(MovementKey::ArrowRight),
        key_axis(MovementKey::ShiftLeft) == key_axis(MovementKey::ShiftRight),
        key_axis(MovementKey::KeyS).0 == key_axis(MovementKey::KeyW).0,
        key_axis(MovementKey::KeyS).1 == -key_axis(MovementKey::KeyW).1,
        key_axis(MovementKey::KeyA).0 == key_axis(MovementKey::KeyD).0,
        key_axis(MovementKey::KeyA).1 == -key_axis(MovementKey::KeyD).1,
        key_axis(MovementKey::ShiftLeft).0 == key_axis(MovementKey::Space).0,
        key_axis(MovementKey::ShiftLeft).1 == -key_axis(MovementKey::Space).1,
        key_axis(MovementKey::KeyW) == (MovementAxis::Forward, 1i8),
        key_axis(MovementKey::KeyD) == (MovementAxis::Right, 1i8),
        key_axis(MovementKey::Space) == (MovementAxis::Up, 1i8),
{
}

/// Every movement key drives one axis with amount 1 or -1, and the amount
/// is positive exactly for the forward, right and up keys.
pub proof fn law_movement_key_signs(k: MovementKey)
    ensures
        key_axis(k).1 == 1 || key_axis(k).1 == -1,
        (key_axis(k).1 == 1) == (k == MovementKey::KeyW || k == MovementKey::ArrowUp || k
            == MovementKey::KeyD || k == MovementKey::ArrowRight || k == MovementKey::Space),
        (key_axis(k).0 == MovementAxis::Forward) == (k == MovementKey::KeyW || k == MovementKey::ArrowUp
            || k == MovementKey::KeyS || k == MovementKey::ArrowDown),
        (key_axis(k).0 == MovementAxis::Right) == (k == MovementKey::KeyA || k == MovementKey::ArrowLeft
            || k == MovementKey::KeyD || k == MovementKey::ArrowRight),
{
}

/// Physical key code of W.
pub const KEY_W: u32 = 41;
/// Physical key code of S.
pub const KEY_S: u32 = 37;
/// Physical key code of A.
pub const KEY_A: u32 = 19;
/// Physical key code of D.
pub const KEY_D: u32 = 22;
/// Physical key code of the left Shift key.
pub const SHIFT_LEFT: u32 = 60;
/// Physical key code of the right Shift key.
pub const SHIFT_RIGHT: u32 = 61;
/// Physical key code of the space bar.
pub const SPACE: u32 = 62;
/// Physical key code of the down arrow.
pub const ARROW_DOWN: u32 = 79;
/// Physical key code of the left arrow.
pub const ARROW_LEFT: u32 = 80;
/// Physical key code of the right arrow.
pub const ARROW_RIGHT: u32 = 81;
/// Physical key code of the up arrow.
pub const ARROW_UP: u32 = 82;

/// The movement key a physical key code stands for, if the camera
/// controller reacts to it.
pub open spec fn key_of_code(code: u32) -> Option<MovementKey> {
    if code == KEY_W {
        Some(MovementKey::KeyW)
    } else if code == ARROW_UP {
        Some(MovementKey::ArrowUp)
    } else if code == KEY_S {
        Some(MovementKey::KeyS)
    } else if code == ARROW_DOWN {
        Some(MovementKey::ArrowDown)
    } else if code == KEY_A {
        Some(MovementKey::KeyA)
    } else if code == ARROW_LEFT {
        Some(MovementKey::ArrowLeft)
    } else if code == KEY_D {
        Some(MovementKey::KeyD)
    } else if code == ARROW_RIGHT {
        Some(MovementKey::ArrowRight)
    } else if code == SPACE {
        Some(MovementKey::Space)
    } else if code == SHIFT_LEFT {
        Some(MovementKey::ShiftLeft)
    } else if code == SHIFT_RIGHT {
        Some(MovementKey::ShiftRight)
    } else {
        None
    }
}

/// The movement key of a physical key code; `None` for the keys the camera
/// controller ignores.
pub fn movement_key(code: u32) -> (r: Option<MovementKey>)
    ensures
        r == key_of_code(code),
{
    if code == KEY_W {
        Some(MovementKey::KeyW)
    } else if code == ARROW_UP {
        Some(MovementKey::ArrowUp)
    } else if code == KEY_S {
        Some(MovementKey::KeyS)
    } else if code == ARROW_DOWN {
        Some(MovementKey::ArrowDown)
    } else if code == KEY_A {
        Some(MovementKey::KeyA)
    } else if code == ARROW_LEFT {
        Some(MovementKey::ArrowLeft)
    } else if code == KEY_D {
        Some(MovementKey::KeyD)
    } else if code == ARROW_RIGHT {
        Some(MovementKey::ArrowRight)
    } else if code == SPACE {
        Some(MovementKey::Space)
    } else if code == SHIFT_LEFT {
        Some(MovementKey::ShiftLeft)
    } else if code == SHIFT_RIGHT {
        Some(MovementKey::ShiftRight)
    } else {
        None
    }
}

/// The movement amounts of the camera controller along its three axes:
/// each is -1, 0 or 1.
#[derive(Debug, Clone, Copy, PartialEq, Eq, Structural)]
pub struct MovementState {
    pub forward_amount: i8,
    pub right_amount: i8,
    pub up_amount: i8,
}

/// `s` with the amount of `axis` set to `amount`.
pub open spec fn with_axis(s: MovementState, axis: MovementAxis, amount: i8) -> MovementState {
    match axis {
        MovementAxis::Forward => MovementState { forward_amount: amount, ..s },
        MovementAxis::Right => MovementState { right_amount: amount, ..s },
        MovementAxis::Up => MovementState { up_amount: amount, ..s },
    }
}

impl MovementState {
    /// No movement.
    pub fn new() -> (r: Self)
        ensures
            r.forward_amount == 0 && r.right_amount == 0 && r.up_amount == 0,
    {
        MovementState { forward_amount: 0, right_amount: 0, up_amount: 0 }
    }

    /// Applies a key event: a key the controller reacts to sets the amount of
    /// its axis (its sign while pressed, 0 once released) and the event is
    /// consumed (`true`); any other key changes nothing (`false`).
    pub fn process_keyboard(&mut self, code: u32, pressed: bool) -> (r: bool)
        ensures
            r == key_of_code(code) is Some,
            match key_of_code(code) {
                Some(k) => *final(self) == with_axis(
                    *old(self),
                    key_axis(k).0,
                    if pressed { key_axis(k).1 } else { 0i8 },
                ),
                None => *final(self) == *old(self),
            },
    {
        match movement_key(code) {
            Some(k) => {
                let (axis, amount) = movement_for_key(k, pressed);
                match axis {
                    MovementAxis::Forward => self.forward_amount = amount,
                    MovementAxis::Right => self.right_amount = amount,
                    MovementAxis::Up => self.up_amount = amount,
                }
                true
            },
            None => false,
        }
    }
}

/// Each key code the controller reacts to stands for the key of its name,
/// and two different codes never stand for the same key.
pub proof fn law_codes_name_their_keys(a: u32, b: u32)
    ensures
        key_of_code(KEY_W) == Some(MovementKey::KeyW),
        key_of_code(KEY_S) == Some(MovementKey::KeyS),
        key_of_code(KEY_A) == Some(MovementKey::KeyA),
        key_of_code(KEY_D) == Some(MovementKey::KeyD),
        key_of_code(ARROW_UP) == Some(MovementKey::ArrowUp),
        key_of_code(ARROW_DOWN) == Some(MovementKey::ArrowDown),
        key_of_code(ARROW_LEFT) == Some(MovementKey::ArrowLeft),
        key_of_code(ARROW_RIGHT) == Some(MovementKey::ArrowRight),
        key_of_code(SPACE) == Some(MovementKey::Space),
        key_of_code(SHIFT_LEFT) == Some(MovementKey::ShiftLeft),
        key_of_code(SHIFT_RIGHT) == Some(MovementKey::ShiftRight),
        key_of_code(a) is Some && key_of_code(a) == key_of_code(b) ==> a == b,
{
}

} // verus!
