//! The state of keyboard and mouse from frame to frame: what was pressed or
//! released since the last frame, and what is held.

use vstd::prelude::*;
use vstd::std_specs::convert::IntoSpec;

verus! {

/// A state that remembers for one frame that it has changed.
pub trait AdvanceableState: Sized {
    /// The state one frame later: what was pressed is held, what was
    /// released is up.
    spec fn advanced(&self) -> Self;

    /// The state after the window has lost or gained the focus: what is
    /// held was released.
    spec fn dropped(&self) -> Self;

    /// Whether the state says that something was pressed since the last
    /// frame.
    spec fn pressed_now(&self) -> bool;

    /// Whether the state says that something was released since the last
    /// frame.
    spec fn released_now(&self) -> bool;

    /// Whether the state says that something is down.
    spec fn down(&self) -> bool;

    /// Whether the state says that something is up.
    spec fn up(&self) -> bool;

    fn advance(&self) -> (r: Self)
        ensures
            r == self.advanced(),
    ;

    fn reset(&self) -> (r: Self)
        ensures
            r == self.dropped(),
    ;

    fn was_pressed(&self) -> (r: bool)
        ensures
            r == self.pressed_now(),
    ;

    fn was_released(&self) -> (r: bool)
        ensures
            r == self.released_now(),
    ;

    fn is_pressed(&self) -> (r: bool)
        ensures
            r == self.down(),
    ;

    fn is_released(&self) -> (r: bool)
        ensures
            r == self.up(),
    ;
}

/// A state that knows where on the screen it has changed.
pub trait WithPosition {

}

/// The keys that the game knows.
#[derive(Debug, PartialEq, Eq, Structural, Copy, Clone)]
pub enum Key {
    W,
    A,
    S,
    D,
    Unknown,
}

impl Key {
    /// The place of the key in the state of the keyboard.
    pub open spec fn index(self) -> usize {
        match self {
            Key::W => 0,
            Key::A => 1,
            Key::S => 2,
            Key::D => 3,
            Key::Unknown => 4,
        }
    }
}

impl From<Key> for usize {
    fn from(key: Key) -> (r: usize) {
        match key {
            Key::W => 0,
            Key::A => 1,
            Key::S => 2,
            Key::D => 3,
            Key::Unknown => 4,
        }
    }
}

impl vstd::std_specs::convert::FromSpecImpl<Key> for usize {
    open spec fn obeys_from_spec() -> bool {
        true
    }

    open spec fn from_spec(key: Key) -> usize {
        key.index()
    }
}

/// What a key does in one frame.
#[derive(Debug, PartialEq, Eq, Structural, Copy, Clone)]
pub enum KeyState {
    WasPressed,
    Pressed,
    WasReleased,
    Released,
}

impl AdvanceableState for KeyState {
    open spec fn advanced(&self) -> Self {
        match *self {
            KeyState::WasReleased => KeyState::Released,
            KeyState::WasPressed => KeyState::Pressed,
            other => other,
        }
    }

    open spec fn dropped(&self) -> Self {
        match *self {
            KeyState::Pressed => KeyState::WasReleased,
            other => other,
        }
    }

    open spec fn pressed_now(&self) -> bool {
        *self == KeyState::WasPressed
    }

    open spec fn released_now(&self) -> bool {
        *self == KeyState::WasReleased
    }

    open spec fn down(&self) -> bool {
        *self == KeyState::Pressed || *self == KeyState::WasPressed
    }

    open spec fn up(&self) -> bool {
        *self == KeyState::Released || *self == KeyState::WasReleased
    }

    fn advance(&self) -> Self {
        match *self {
            KeyState::WasReleased => KeyState::Released,
            KeyState::WasPressed => KeyState::Pressed,
            other => other,
        }
    }

    fn reset(&self) -> Self {
        match *self {
            KeyState::Pressed => KeyState::WasReleased,
            other => other,
        }
    }

    fn was_pressed(&self) -> bool {
        *self == KeyState::WasPressed
    }

    fn was_released(&self) -> bool {
        *self == KeyState::WasReleased
    }

    fn is_pressed(&self) -> bool {
        *self == KeyState::Pressed || *self == KeyState::WasPressed
    }

    fn is_released(&self) -> bool {
        *self == KeyState::Released || *self == KeyState::WasReleased
    }
}

impl Default for KeyState {
    fn default() -> (r: Self)
        ensures
            r == KeyState::Released,
    {
        KeyState::Released
    }
}

/// The buttons of the mouse that the game knows.
#[derive(Debug, PartialEq, Eq, Structural, Copy, Clone)]
pub enum Button {
    Left,
    Right,
    Unknown,
}

impl Button {
    /// The place of the button in the state of the mouse.
    pub open spec fn index(self) -> usize {
        match self {
            Button::Left => 0,
            Button::Right => 1,
            Button::Unknown => 2,
        }
    }
}

impl From<Button> for usize {
    fn from(button: Button) -> (r: usize) {
        match button {
            Button::Left => 0,
            Button::Right => 1,
            Button::Unknown => 2,
        }
    }
}

impl vstd::std_specs::convert::FromSpecImpl<Button> for usize {
    open spec fn obeys_from_spec() -> bool {
        true
    }

    open spec fn from_spec(button: Button) -> usize {
        button.index()
    }
}

/// What a button does in one frame, and where the mouse was when it last
/// changed.
#[derive(Debug, PartialEq, Eq, Structural, Copy, Clone)]
pub enum ButtonState {
    WasPressed(i32, i32),
    Pressed(i32, i32),
    WasReleased(i32, i32),
    Released(i32, i32),
}

impl ButtonState {
    /// Where the mouse was when the button last changed.
    pub open spec fn place(self) -> (i32, i32) {
        match self {
            ButtonState::WasPressed(x, y) => (x, y),
            ButtonState::Pressed(x, y) => (x, y),
            ButtonState::WasReleased(x, y) => (x, y),
            ButtonState::Released(x, y) => (x, y),
        }
    }

    /// Where the mouse was when the button last changed.
    pub fn position(&self) -> (r: (i32, i32))
        ensures
            r == self.place(),
    {
        match *self {
            ButtonState::WasPressed(x, y)
            | ButtonState::Pressed(x, y)
            | ButtonState::WasReleased(x, y)
            | ButtonState::Released(x, y) => (x, y),
        }
    }
}

impl AdvanceableState for ButtonState {
    open spec fn advanced(&self) -> Self {
        match *self {
            ButtonState::WasReleased(x, y) => ButtonState::Released(x, y),
            ButtonState::WasPressed(x, y) => ButtonState::Pressed(x, y),
            other => other,
        }
    }

    open spec fn dropped(&self) -> Self {
        match *self {
            ButtonState::Pressed(x, y) => ButtonState::WasReleased(x, y),
            other => other,
        }
    }

    open spec fn pressed_now(&self) -> bool {
        *self is WasPressed
    }

    open spec fn released_now(&self) -> bool {
        *self is WasReleased
    }

    open spec fn down(&self) -> bool {
        *self is Pressed || *self is WasPressed
    }

    open spec fn up(&self) -> bool {
        *self is Released || *self is WasReleased
    }

    fn advance(&self) -> Self {
        match *self {
            ButtonState::WasReleased(x, y) => ButtonState::Released(x, y),
            ButtonState::WasPressed(x, y) => ButtonState::Pressed(x, y),
            other => other,
        }
    }

    fn reset(&self) -> Self {
        match *self {
            ButtonState::Pressed(x, y) => ButtonState::WasReleased(x, y),
            other => other,
        }
    }

    fn was_pressed(&self) -> bool {
        match *self {
            ButtonState::WasPressed(_, _) => true,
            _ => false,
        }
    }

    fn was_released(&self) -> bool {
        match *self {
            ButtonState::WasReleased(_, _) => true,
            _ => false,
        }
    }

    fn is_pressed(&self) -> bool {
        match *self {
            ButtonState::Pressed(_, _) => true,
            _ => self.was_pressed(),
        }
    }

    fn is_released(&self) -> bool {
        match *self {
            ButtonState::Released(_, _) => true,
            _ => self.was_released(),
        }
    }
}

impl Default for ButtonState {
    fn default() -> (r: Self)
        ensures
            r == ButtonState::Released(-1i32, -1i32),
    {
        ButtonState::Released(-1, -1)
    }
}

/// One state for each key or button, found by its index.
pub struct InputState<I, T> {
    pub index: core::marker::PhantomData<I>,
    pub fields: Vec<T>,
}

impl<I, T> InputState<I, T> where T: Default + Clone + AdvanceableState, I: Into<usize> {
    /// Whether `index` has a place in the state.
    pub open spec fn holds(&self, index: I) -> bool {
        I::obeys_into_spec() && index.into_spec() < self.fields@.len()
    }

    /// The state of `index`.
    pub open spec fn at(&self, index: I) -> T {
        self.fields@[index.into_spec() as int]
    }

    /// A state of `size` places, each with the default of its kind.
    pub fn new(size: usize) -> (r: Self)
        ensures
            r.fields@.len() == size,
            forall|k: int| 0 <= k < size ==> call_ensures(T::default, (), #[trigger] r.fields@[k]),
    {
        let mut fields: Vec<T> = Vec::new();
        let mut k: usize = 0;
        while k < size
            invariant
                k <= size,
                fields@.len() == k,
                forall|j: int| 0 <= j < k ==> call_ensures(T::default, (), #[trigger] fields@[j]),
            decreases size - k,
        {
            fields.push(T::default());
            k += 1;
        }
        Self { fields, index: core::marker::PhantomData }
    }

    /// Whether `index` was pressed since the last frame.
    pub fn was_pressed(&self, index: I) -> (r: bool)
        requires
            self.holds(index),
        ensures
            r == self.at(index).pressed_now(),
    {
        self.fields[index.into()].was_pressed()
    }

    /// Whether `index` is down.
    pub fn is_pressed(&self, index: I) -> (r: bool)
        requires
            self.holds(index),
        ensures
            r == self.at(index).down(),
    {
        self.fields[index.into()].is_pressed()
    }

    /// Whether `index` was released since the last frame.
    pub fn was_released(&self, index: I) -> (r: bool)
        requires
            self.holds(index),
        ensures
            r == self.at(index).released_now(),
    {
        self.fields[index.into()].was_released()
    }

    /// Whether `index` is up.
    pub fn is_released(&self, index: I) -> (r: bool)
        requires
            self.holds(index),
        ensures
            r == self.at(index).up(),
    {
        self.fields[index.into()].is_released()
    }

    /// Sets the state of `index`.
    pub fn set(&mut self, index: I, to: T)
        requires
            old(self).holds(index),
        ensures
            final(self).fields@ == old(self).fields@.update(index.into_spec() as int, to),
    {
        let k: usize = index.into();
        self.fields[k] = to;
    }

    /// Moves every state on by one frame.
    pub fn advance(&mut self)
        ensures
            final(self).fields@.len() == old(self).fields@.len(),
            forall|k: int|
                0 <= k < old(self).fields@.len() ==> #[trigger] final(self).fields@[k] == old(
                    self,
                ).fields@[k].advanced(),
    {
        let mut k: usize = 0;
        while k < self.fields.len()
            invariant
                k <= self.fields@.len(),
                self.fields@.len() == old(self).fields@.len(),
                forall|j: int|
                    0 <= j < k ==> #[trigger] self.fields@[j] == old(self).fields@[j].advanced(),
                forall|j: int|
                    k <= j < self.fields@.len() ==> #[trigger] self.fields@[j] == old(
                        self,
                    ).fields@[j],
            decreases self.fields@.len() - k,
        {
            let next = self.fields[k].advance();
            self.fields[k] = next;
            k += 1;
        }
    }

    /// Releases whatever is held.
    pub fn reset(&mut self)
        ensures
            final(self).fields@.len() == old(self).fields@.len(),
            forall|k: int|
                0 <= k < old(self).fields@.len() ==> #[trigger] final(self).fields@[k] == old(
                    self,
                ).fields@[k].dropped(),
    {
        let mut k: usize = 0;
        while k < self.fields.len()
            invariant
                k <= self.fields@.len(),
                self.fields@.len() == old(self).fields@.len(),
                forall|j: int|
                    0 <= j < k ==> #[trigger] self.fields@[j] == old(self).fields@[j].dropped(),
                forall|j: int|
                    k <= j < self.fields@.len() ==> #[trigger] self.fields@[j] == old(
                        self,
                    ).fields@[j],
            decreases self.fields@.len() - k,
        {
            let next = self.fields[k].reset();
            self.fields[k] = next;
            k += 1;
        }
    }

    /// The state of `index`.
    pub fn get(&self, index: I) -> (r: &T)
        requires
            self.holds(index),
        ensures
            *r == self.at(index),
    {
        &self.fields[index.into()]
    }
}

/// The state of the keyboard.
pub type Keyboard = InputState<Key, KeyState>;

/// The state of the mouse.
pub type Mouse = InputState<Button, ButtonState>;

/// The change of a key lasts one frame: after an advance nothing was
/// pressed or released, a second advance changes nothing, and a key is
/// down after an advance exactly when it was before. A key that is held is
/// up one frame after a reset.
pub proof fn key_changes_last_one_frame(state: KeyState)
    ensures
        !state.advanced().pressed_now(),
        !state.advanced().released_now(),
        state.advanced().advanced() == state.advanced(),
        state.advanced().down() == state.down(),
        state == KeyState::Pressed ==> state.dropped().advanced().up(),
{
}

/// A button keeps the place of its last change through advance and reset,
/// and its changes last one frame.
pub proof fn button_changes_last_one_frame(state: ButtonState)
    ensures
        state.advanced().place() == state.place(),
        state.dropped().place() == state.place(),
        !state.advanced().pressed_now(),
        !state.advanced().released_now(),
        state.advanced().advanced() == state.advanced(),
        state.advanced().down() == state.down(),
{
}

} // verus!
