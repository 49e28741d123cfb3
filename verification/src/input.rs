//! The state of the player's controls: which of the bound keys and buttons
//! are held, the direction they steer in, and what the player does with
//! them each tick.
use vstd::prelude::*;

verus! {

/// A key or mouse button that the game binds.
#[derive(Clone, Copy, Debug, PartialEq, Eq, Structural)]
pub enum Key {
    Up,
    Down,
    Left,
    Right,
    Jump,
    Crouch,
    Sprint,
    Drop,
    Primary,
    Secondary,
    Tertiary,
}

/// The place of `k` in the table of held keys.
pub open spec fn key_index(k: Key) -> int {
    match k {
        Key::Up => 0,
        Key::Down => 1,
        Key::Left => 2,
        Key::Right => 3,
        Key::Jump => 4,
        Key::Crouch => 5,
        Key::Sprint => 6,
        Key::Drop => 7,
        Key::Primary => 8,
        Key::Secondary => 9,
        Key::Tertiary => 10,
    }
}

impl Key {
    /// The place of this key in the table of held keys.
    pub fn index(self) -> (r: usize)
        ensures
            r == key_index(self),
    {
        match self {
            Key::Up => 0,
            Key::Down => 1,
            Key::Left => 2,
            Key::Right => 3,
            Key::Jump => 4,
            Key::Crouch => 5,
            Key::Sprint => 6,
            Key::Drop => 7,
            Key::Primary => 8,
            Key::Secondary => 9,
            Key::Tertiary => 10,
        }
    }
}

impl Default for Key {
    fn default() -> (r: Self)
        ensures
            r == Key::Up,
    {
        Key::Up
    }
}

/// What the player does in a tick, from the keys held.
#[derive(Clone, Copy, Debug, PartialEq, Eq, Structural)]
pub enum InputAction {
    /// Swing at whatever is in front.
    Strike,
    /// Mine the block under the cross hair, if one is in reach.
    MineAtCursor,
    /// Stop mining.
    StopMining,
    /// Place a block in front of the one under the cross hair, if one is
    /// in reach.
    PlaceAtCursor,
    /// Shoot.
    Shoot,
    /// Drop the selected item.
    DropItem,
}

/// A key or mouse button the game reacts to.
#[derive(Clone, Copy, Debug, PartialEq, Eq, Structural)]
pub enum Button {
    MouseLeft,
    MouseRight,
    MouseMiddle,
    N,
    M,
    Digit(u8),
    E,
    Q,
    W,
    S,
    A,
    D,
    Space,
    C,
    LShift,
    Escape,
}

/// What a button press asks of the game, beside the keys it holds.
#[derive(Clone, Copy, Debug, PartialEq, Eq, Structural)]
pub enum InputCommand {
    /// Switch flying through walls on or off.
    NoClip(bool),
    /// Select inventory slot `i`.
    Select(i32),
    /// Quit the game.
    Quit,
}

/// The key that button `b` holds down: the mouse buttons strike, place and
/// shoot (as does `E`), `Q` drops, `W` `S` `A` `D` walk, space jumps, `C`
/// crouches and left shift sprints.
pub open spec fn bound_key(b: Button) -> Option<Key> {
    match b {
        Button::MouseLeft => Some(Key::Primary),
        Button::MouseRight => Some(Key::Secondary),
        Button::MouseMiddle => Some(Key::Tertiary),
        Button::E => Some(Key::Tertiary),
        Button::Q => Some(Key::Drop),
        Button::W => Some(Key::Up),
        Button::S => Some(Key::Down),
        Button::A => Some(Key::Left),
        Button::D => Some(Key::Right),
        Button::Space => Some(Key::Jump),
        Button::C => Some(Key::Crouch),
        Button::LShift => Some(Key::Sprint),
        _ => None,
    }
}

/// What pressing button `b` asks of the game: `N` and `M` switch flying
/// through walls on and off, the digit keys 1 to 9 select slots 0 to 8 and
/// 0 selects slot 9, escape quits. Releasing a button asks nothing.
pub open spec fn command_of(b: Button, pressed: bool) -> Option<InputCommand> {
    if !pressed {
        None
    } else {
        match b {
            Button::N => Some(InputCommand::NoClip(true)),
            Button::M => Some(InputCommand::NoClip(false)),
            Button::Digit(d) => if d == 0 {
                Some(InputCommand::Select(9))
            } else if d <= 9 {
                Some(InputCommand::Select((d - 1) as i32))
            } else {
                None
            },
            Button::Escape => Some(InputCommand::Quit),
            _ => None,
        }
    }
}

/// Which keys are held.
#[derive(Clone, Copy, Debug)]
pub struct InputState {
    button_states: [bool; 11],
}

/// `1` if `b`, else `0`.
pub open spec fn unit(b: bool) -> int {
    if b { 1 } else { 0 }
}

impl InputState {
    /// Whether `k` is held.
    pub closed spec fn held(&self, k: Key) -> bool {
        self.button_states[key_index(k)]
    }

    /// The direction the held keys steer in, each axis -1, 0 or 1:
    /// right minus left, jump minus crouch, back minus forward.
    pub open spec fn steer(&self) -> (int, int, int) {
        (
            unit(self.held(Key::Right)) - unit(self.held(Key::Left)),
            unit(self.held(Key::Jump)) - unit(self.held(Key::Crouch)),
            unit(self.held(Key::Down)) - unit(self.held(Key::Up)),
        )
    }

    /// What the player does this tick: a held primary button strikes and
    /// mines (otherwise mining stops), then a held secondary button places,
    /// the tertiary one shoots and the drop key drops.
    pub open spec fn actions_spec(&self) -> Seq<InputAction> {
        (if self.held(Key::Primary) {
            seq![InputAction::Strike, InputAction::MineAtCursor]
        } else {
            seq![InputAction::StopMining]
        })
            + (if self.held(Key::Secondary) { seq![InputAction::PlaceAtCursor] } else { Seq::empty() })
            + (if self.held(Key::Tertiary) { seq![InputAction::Shoot] } else { Seq::empty() })
            + (if self.held(Key::Drop) { seq![InputAction::DropItem] } else { Seq::empty() })
    }

    /// No key held.
    pub fn new() -> (r: Self)
        ensures
            forall|k: Key| !#[trigger] r.held(k),
    {
        Self { button_states: [false, false, false, false, false, false, false, false, false, false, false] }
    }

    /// Records that `k` went down (`state`) or up.
    pub fn key_up_down(&mut self, k: Key, state: bool)
        ensures
            final(self).held(k) == state,
            forall|j: Key| j != k ==> #[trigger] final(self).held(j) == old(self).held(j),
    {
        let i = k.index();
        self.button_states[i] = state;
        proof {
            assert forall|j: Key| j != k implies #[trigger] self.held(j) == old(self).held(j) by {
                assert(key_index(j) != key_index(k));
            }
        }
    }

    /// Handles a button going down (`pressed`) or up: a bound key follows
    /// it, and a press may ask something of the game.
    pub fn handle_button(&mut self, b: Button, pressed: bool) -> (r: Option<InputCommand>)
        ensures
            r == command_of(b, pressed),
            bound_key(b) matches Some(k) ==> {
                &&& final(self).held(k) == pressed
                &&& forall|j: Key| j != k ==> #[trigger] final(self).held(j) == old(self).held(j)
            },
            bound_key(b) is None ==> *final(self) == *old(self),
    {
        match b {
            Button::MouseLeft => self.key_up_down(Key::Primary, pressed),
            Button::MouseRight => self.key_up_down(Key::Secondary, pressed),
            Button::MouseMiddle => self.key_up_down(Key::Tertiary, pressed),
            Button::E => self.key_up_down(Key::Tertiary, pressed),
            Button::Q => self.key_up_down(Key::Drop, pressed),
            Button::W => self.key_up_down(Key::Up, pressed),
            Button::S => self.key_up_down(Key::Down, pressed),
            Button::A => self.key_up_down(Key::Left, pressed),
            Button::D => self.key_up_down(Key::Right, pressed),
            Button::Space => self.key_up_down(Key::Jump, pressed),
            Button::C => self.key_up_down(Key::Crouch, pressed),
            Button::LShift => self.key_up_down(Key::Sprint, pressed),
            _ => {},
        }
        if !pressed {
            return None;
        }
        match b {
            Button::N => Some(InputCommand::NoClip(true)),
            Button::M => Some(InputCommand::NoClip(false)),
            Button::Digit(d) => {
                if d == 0 {
                    Some(InputCommand::Select(9))
                } else if d <= 9 {
                    Some(InputCommand::Select(d as i32 - 1))
                } else {
                    None
                }
            },
            Button::Escape => Some(InputCommand::Quit),
            _ => None,
        }
    }

    /// Whether `k` is held.
    pub fn is_held(&self, k: Key) -> (r: bool)
        ensures
            r == self.held(k),
    {
        self.button_states[k.index()]
    }

    /// Whether the sprint key is held, which makes the player faster.
    pub fn is_sprinting(&self) -> (r: bool)
        ensures
            r == self.held(Key::Sprint),
    {
        self.button_states[Key::Sprint.index()]
    }

    /// The direction the held keys steer in.
    pub fn steering(&self) -> (r: (i8, i8, i8))
        ensures
            r.0 == self.steer().0,
            r.1 == self.steer().1,
            r.2 == self.steer().2,
    {
        let b = &self.button_states;
        let x: i8 = (if b[Key::Left.index()] { -1 } else { 0 }) + (if b[Key::Right.index()] { 1 } else { 0 });
        let y: i8 = (if b[Key::Crouch.index()] { -1 } else { 0 }) + (if b[Key::Jump.index()] { 1 } else { 0 });
        let z: i8 = (if b[Key::Up.index()] { -1 } else { 0 }) + (if b[Key::Down.index()] { 1 } else { 0 });
        (x, y, z)
    }

    /// What the player does this tick.
    pub fn actions(&self) -> (r: Vec<InputAction>)
        ensures
            r@ == self.actions_spec(),
    {
        let mut r: Vec<InputAction> = Vec::new();
        if self.is_held(Key::Primary) {
            r.push(InputAction::Strike);
            r.push(InputAction::MineAtCursor);
        } else {
            r.push(InputAction::StopMining);
        }
        if self.is_held(Key::Secondary) {
            r.push(InputAction::PlaceAtCursor);
        }
        if self.is_held(Key::Tertiary) {
            r.push(InputAction::Shoot);
        }
        if self.is_held(Key::Drop) {
            r.push(InputAction::DropItem);
        }
        r
    }
}

impl Default for InputState {
    fn default() -> (r: Self)
        ensures
            forall|k: Key| !#[trigger] r.held(k),
    {
        Self::new()
    }
}

} // verus!
