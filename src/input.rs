use vstd::prelude::*;

verus! {

/// A key press, as far as the game tells keys apart.
#[derive(Clone, Copy, Debug, PartialEq, Eq, Structural)]
pub enum Key {
    Left,
    Right,
    Esc,
    Char(char),
    Other,
}

/// The intents gathered during one frame.
///
/// Each flag is set by a key seen during the frame and cleared by `reset`
/// before the next one, whatever keys are still held.
#[derive(Clone, Copy, Debug, PartialEq, Eq, Structural)]
pub struct InputHandler {
    pub left: bool,
    pub right: bool,
    pub shoot: bool,
    pub exit: bool,
}

impl InputHandler {
    /// No intent set.
    pub fn new() -> (r: Self)
        ensures
            !r.left,
            !r.right,
            !r.shoot,
            !r.exit,
    {
        InputHandler { left: false, right: false, shoot: false, exit: false }
    }

    /// Records one key press and answers whether the player asked to leave.
    pub fn handle_key_event(&mut self, key: Key) -> (leave: bool)
        ensures
            final(self).left == (old(self).left || key == Key::Left),
            final(self).right == (old(self).right || key == Key::Right),
            final(self).shoot == (old(self).shoot || key == Key::Char(' ')),
            final(self).exit == (old(self).exit || key == Key::Esc),
            leave == final(self).exit,
    {
        match key {
            Key::Left => self.left = true,
            Key::Right => self.right = true,
            Key::Char(c) => {
                if c == ' ' {
                    self.shoot = true;
                }
            },
            Key::Esc => self.exit = true,
            Key::Other => {},
        }
        self.exit
    }

    /// Clears every intent, quit included, at the end of a frame.
    pub fn reset(&mut self)
        ensures
            !final(self).left,
            !final(self).right,
            !final(self).shoot,
            !final(self).exit,
    {
        self.left = false;
        self.right = false;
        self.shoot = false;
        self.exit = false;
    }
}

/// Whether a key press is the interrupt combination (control and `c`),
/// which ends the program at once.
pub fn is_interrupt(key: Key, control: bool) -> (r: bool)
    ensures
        r == (control && key == Key::Char('c')),
{
    control && match key {
        Key::Char(c) => c == 'c',
        _ => false,
    }
}

} // verus!
