use vstd::prelude::*;

verus! {

/// Free camera marker component.
#[derive(Clone, Copy, Debug)]
pub struct FreeCamera;

/// Keys the camera systems react to.
#[derive(Clone, Copy, Debug, PartialEq, Eq, Structural)]
pub enum Key {
    W,
    S,
    A,
    D,
    Space,
    LControl,
    Z,
    Other,
}

pub const FORWARD: u8 = 0b000001;
pub const BACKWARD: u8 = 0b000010;
pub const LEFT: u8 = 0b000100;
pub const RIGHT: u8 = 0b001000;
pub const UP: u8 = 0b010000;
pub const DOWN: u8 = 0b100000;

/// The directions of movement whose keys are held down, one bit each.
#[derive(Clone, Copy, Debug, PartialEq, Eq, Structural)]
pub struct Direction {
    pub bits: u8,
}

impl Direction {
    /// Whether all bits of `flag` are set.
    pub open spec fn has(self, flag: u8) -> bool {
        self.bits & flag == flag
    }

    /// No direction.
    pub fn empty() -> (r: Direction)
        ensures
            r.bits == 0,
    {
        Direction { bits: 0 }
    }

    pub fn contains(&self, flag: u8) -> (r: bool)
        ensures
            r == self.has(flag),
    {
        self.bits & flag == flag
    }

    pub fn insert(&mut self, flag: u8)
        ensures
            final(self).bits == old(self).bits | flag,
    {
        self.bits = self.bits | flag;
    }

    pub fn remove(&mut self, flag: u8)
        ensures
            final(self).bits == old(self).bits & !flag,
    {
        self.bits = self.bits & !flag;
    }
}

/// The direction a key moves the free camera in: W forward, S backward,
/// A left, D right, Space up, left Control down.
pub open spec fn free_flag(key: Key) -> Option<u8> {
    match key {
        Key::W => Some(FORWARD),
        Key::S => Some(BACKWARD),
        Key::A => Some(LEFT),
        Key::D => Some(RIGHT),
        Key::Space => Some(UP),
        Key::LControl => Some(DOWN),
        _ => None,
    }
}

/// The direction a key moves the following camera in: W forward, S
/// backward, A left, D right.
pub open spec fn following_flag(key: Key) -> Option<u8> {
    match key {
        Key::W => Some(FORWARD),
        Key::S => Some(BACKWARD),
        Key::A => Some(LEFT),
        Key::D => Some(RIGHT),
        _ => None,
    }
}

/// Held directions after a key event: a press sets the key's direction, a
/// release clears it, other keys change nothing.
pub open spec fn after_key(direction: Direction, flag: Option<u8>, pressed: bool) -> Direction {
    match flag {
        Some(f) => if pressed {
            Direction { bits: direction.bits | f }
        } else {
            Direction { bits: direction.bits & !f }
        },
        None => direction,
    }
}

/// One step along an axis: +1 for the positive direction, -1 for the
/// negative one, their sum when both are held.
pub open spec fn axis(direction: Direction, positive: u8, negative: u8) -> int {
    (if direction.has(positive) { 1int } else { 0int }) - (if direction.has(negative) { 1int } else { 0int })
}

fn axis_step(direction: &Direction, positive: u8, negative: u8) -> (r: i8)
    ensures
        r == axis(*direction, positive, negative),
{
    let mut step: i8 = 0;
    if direction.contains(positive) {
        step = step + 1;
    }
    if direction.contains(negative) {
        step = step - 1;
    }
    step
}

fn apply_key(direction: &mut Direction, flag: Option<u8>, pressed: bool)
    ensures
        *final(direction) == after_key(*old(direction), flag, pressed),
{
    match flag {
        Some(f) => if pressed {
            direction.insert(f);
        } else {
            direction.remove(f);
        },
        None => {},
    }
}

/// Keyboard state of the free camera: whether it is enabled, and the held
/// directions.
#[derive(Clone, Copy, Debug, PartialEq, Eq, Structural)]
pub struct FreeCameraControls {
    pub enabled: bool,
    pub direction: Direction,
}

impl FreeCameraControls {
    /// Enabled, with nothing held.
    pub fn new() -> (r: Self)
        ensures
            r.enabled,
            r.direction.bits == 0,
    {
        FreeCameraControls { enabled: true, direction: Direction::empty() }
    }

    /// Handles one key event. Releasing Z switches the camera on or off;
    /// while it is on, movement keys are tracked; while it is off, they are
    /// ignored.
    pub fn key(&mut self, key: Key, pressed: bool)
        ensures
            if key == Key::Z && !pressed {
                &&& final(self).enabled == !old(self).enabled
                &&& final(self).direction == old(self).direction
            } else if old(self).enabled {
                &&& final(self).enabled
                &&& final(self).direction == after_key(old(self).direction, free_flag(key), pressed)
            } else {
                *final(self) == *old(self)
            },
    {
        if key == Key::Z && !pressed {
            self.enabled = !self.enabled;
        } else if self.enabled {
            let flag = match key {
                Key::W => Some(FORWARD),
                Key::S => Some(BACKWARD),
                Key::A => Some(LEFT),
                Key::D => Some(RIGHT),
                Key::Space => Some(UP),
                Key::LControl => Some(DOWN),
                _ => None,
            };
            apply_key(&mut self.direction, flag, pressed);
        }
    }

    /// The unit steps of movement along the camera's x (right), y (up) and
    /// z (backward) axes.
    pub fn movement(&self) -> (r: (i8, i8, i8))
        ensures
            r.0 == axis(self.direction, RIGHT, LEFT),
            r.1 == axis(self.direction, UP, DOWN),
            r.2 == axis(self.direction, BACKWARD, FORWARD),
    {
        (
            axis_step(&self.direction, RIGHT, LEFT),
            axis_step(&self.direction, UP, DOWN),
            axis_step(&self.direction, BACKWARD, FORWARD),
        )
    }
}

/// Keyboard state of the camera that follows an entity: the held directions.
#[derive(Clone, Copy, Debug, PartialEq, Eq, Structural)]
pub struct FollowingCameraControls {
    pub direction: Direction,
}

impl FollowingCameraControls {
    /// Nothing held.
    pub fn new() -> (r: Self)
        ensures
            r.direction.bits == 0,
    {
        FollowingCameraControls { direction: Direction::empty() }
    }

    /// Handles one key event: W, S, A and D are tracked.
    pub fn key(&mut self, key: Key, pressed: bool)
        ensures
            final(self).direction == after_key(old(self).direction, following_flag(key), pressed),
    {
        let flag = match key {
            Key::W => Some(FORWARD),
            Key::S => Some(BACKWARD),
            Key::A => Some(LEFT),
            Key::D => Some(RIGHT),
            _ => None,
        };
        apply_key(&mut self.direction, flag, pressed);
    }

    /// The unit steps of the distance to the followed entity (backward
    /// moves away) and of the pitch (right turns up).
    pub fn steps(&self) -> (r: (i8, i8))
        ensures
            r.0 == axis(self.direction, BACKWARD, FORWARD),
            r.1 == axis(self.direction, RIGHT, LEFT),
    {
        (axis_step(&self.direction, BACKWARD, FORWARD), axis_step(&self.direction, RIGHT, LEFT))
    }
}

/// After a key is pressed its direction is held, after it is released it is
/// not, and the other directions stay as they were.
pub proof fn law_press_sets_release_clears(direction: Direction, key: Key, other: Key)
    requires
        free_flag(key) is Some,
        free_flag(other) is Some,
        key != other,
    ensures
        after_key(direction, free_flag(key), true).has(free_flag(key)->0),
        !after_key(direction, free_flag(key), false).has(free_flag(key)->0),
        after_key(direction, free_flag(key), true).has(free_flag(other)->0) == direction.has(free_flag(other)->0),
        after_key(direction, free_flag(key), false).has(free_flag(other)->0) == direction.has(free_flag(other)->0),
{
    let f = free_flag(key)->0;
    let g = free_flag(other)->0;
    let b = direction.bits;
    assert(f != g);
    assert(f & g == 0 && f != 0 && g != 0) by {
        assert(FORWARD & BACKWARD == 0 && FORWARD & LEFT == 0 && FORWARD & RIGHT == 0 && FORWARD & UP == 0 && FORWARD & DOWN == 0
            && BACKWARD & LEFT == 0 && BACKWARD & RIGHT == 0 && BACKWARD & UP == 0 && BACKWARD & DOWN == 0
            && LEFT & RIGHT == 0 && LEFT & UP == 0 && LEFT & DOWN == 0
            && RIGHT & UP == 0 && RIGHT & DOWN == 0 && UP & DOWN == 0) by (bit_vector);
        assert(BACKWARD & FORWARD == 0 && LEFT & FORWARD == 0 && RIGHT & FORWARD == 0 && UP & FORWARD == 0 && DOWN & FORWARD == 0
            && LEFT & BACKWARD == 0 && RIGHT & BACKWARD == 0 && UP & BACKWARD == 0 && DOWN & BACKWARD == 0
            && RIGHT & LEFT == 0 && UP & LEFT == 0 && DOWN & LEFT == 0
            && UP & RIGHT == 0 && DOWN & RIGHT == 0 && DOWN & UP == 0) by (bit_vector);
    }
    assert((b | f) & f == f) by (bit_vector);
    assert((b & !f) & f != f) by (bit_vector)
        requires
            f != 0;
    assert(((b | f) & g == g) == (b & g == g)) by (bit_vector)
        requires
            f & g == 0;
    assert(((b & !f) & g == g) == (b & g == g)) by (bit_vector)
        requires
            f & g == 0;
}


/// A movement axis steps +1 when only its positive direction is held, -1
/// when only its negative one is, and 0 when both or neither are.
pub proof fn law_axis_steps(direction: Direction, positive: u8, negative: u8)
    ensures
        direction.has(positive) && !direction.has(negative) ==> axis(direction, positive, negative) == 1,
        !direction.has(positive) && direction.has(negative) ==> axis(direction, positive, negative) == -1,
        direction.has(positive) == direction.has(negative) ==> axis(direction, positive, negative) == 0,
{
}

} // verus!
