//! Keyboard and mouse-button state, kept up to date from the host's events.
//!
//! A key is the number that the host gives it.

use vstd::prelude::*;

verus! {

/// A button of the mouse.
#[derive(Clone, Copy, Debug, PartialEq, Eq, Structural)]
pub enum MouseButton {
    Left,
    Right,
    Middle,
    Back,
    Forward,
    Other(u16),
}

/// What the host reports of the keyboard and the mouse buttons.
#[derive(Clone, Copy, Debug, PartialEq, Eq, Structural)]
pub enum InputEvent {
    KeyPressed(u32),
    KeyReleased(u32),
    MousePressed(MouseButton),
    MouseReleased,
}

/// The button that stands for "no button is down".
pub open spec fn no_button() -> MouseButton {
    MouseButton::Other(0)
}

/// The entries of `keys` that are not for `key`, in their order.
pub open spec fn without_key(keys: Seq<(u32, bool)>, key: u32) -> Seq<(u32, bool)>
    decreases keys.len(),
{
    if keys.len() == 0 {
        keys
    } else if keys.last().0 == key {
        without_key(keys.drop_last(), key)
    } else {
        without_key(keys.drop_last(), key).push(keys.last())
    }
}

/// The position of the first entry for `key` that still counts as a click, or
/// the length of `keys` if there is none.
pub open spec fn first_click(keys: Seq<(u32, bool)>, key: u32) -> int
    decreases keys.len(),
{
    if keys.len() == 0 {
        0
    } else if keys[0].0 == key && keys[0].1 {
        0
    } else {
        1 + first_click(keys.skip(1), key)
    }
}

/// Whether `keys` has an entry for `key`.
pub open spec fn is_down(keys: Seq<(u32, bool)>, key: u32) -> bool {
    exists|i: int| 0 <= i < keys.len() && (#[trigger] keys[i]).0 == key
}

/// The keys and the mouse button that are down.
pub struct Input {
    /// One entry per press of a key that is still down; the flag says that the
    /// press has not been reported as a click yet.
    pub keys: Vec<(u32, bool)>,
    /// The button that was pressed last and is still down.
    pub mouse: MouseButton,
}

impl Input {
    /// No key and no button is down.
    pub fn new() -> (input: Self)
        ensures
            input.keys@ == (Seq::<(u32, bool)>::empty()),
            input.mouse == no_button(),
    {
        Input { keys: Vec::new(), mouse: MouseButton::Other(0) }
    }

    /// Takes one event in: a pressed key gets a new entry that counts as a
    /// click, a released key loses all its entries; a pressed button becomes
    /// the button that is down, and a release leaves no button down.
    pub fn update(&mut self, event: InputEvent)
        ensures
            final(self).keys@ == (match event {
                InputEvent::KeyPressed(key) => old(self).keys@.push((key, true)),
                InputEvent::KeyReleased(key) => without_key(old(self).keys@, key),
                _ => old(self).keys@,
            }),
            final(self).mouse == (match event {
                InputEvent::MousePressed(button) => button,
                InputEvent::MouseReleased => no_button(),
                _ => old(self).mouse,
            }),
    {
        match event {
            InputEvent::KeyPressed(key) => {
                self.keys.push((key, true));
            },
            InputEvent::KeyReleased(key) => {
                self.release(key);
            },
            InputEvent::MousePressed(button) => {
                self.mouse = button;
            },
            InputEvent::MouseReleased => {
                self.mouse = MouseButton::Other(0);
            },
        }
    }

    /// Removes every entry for `key`.
    fn release(&mut self, key: u32)
        ensures
            final(self).keys@ == without_key(old(self).keys@, key),
            final(self).mouse == old(self).mouse,
    {
        let ghost all = self.keys@;
        let ghost mut k: int = 0;
        let mut i: usize = 0;
        assert(all.take(0) =~= Seq::<(u32, bool)>::empty());
        assert(all.skip(0) =~= all);
        while i < self.keys.len()
            invariant
                self.mouse == old(self).mouse,
                0 <= k <= all.len(),
                i == without_key(all.take(k), key).len(),
                self.keys@ == without_key(all.take(k), key) + all.skip(k),
            decreases self.keys.len() - i,
        {
            let ghost kept = without_key(all.take(k), key);
            proof {
                assert(self.keys@[i as int] == all.skip(k)[0]);
                assert(all.take(k + 1).drop_last() =~= all.take(k));
                assert(all.take(k + 1).last() == all[k]);
            }
            if self.keys[i].0 == key {
                self.keys.remove(i);
                proof {
                    assert(self.keys@ =~= kept + all.skip(k + 1));
                }
            } else {
                proof {
                    assert(self.keys@ =~= kept.push(all[k]) + all.skip(k + 1));
                }
                i = i + 1;
            }
            proof {
                k = k + 1;
            }
        }
        proof {
            assert(all.skip(k).len() == 0);
            assert(all.take(k) =~= all);
            assert(self.keys@ =~= without_key(all, key));
        }
    }

    /// True once after a key was pressed: reports the oldest press of `key` that
    /// still counts as a click, and it counts no longer afterwards.
    pub fn is_key_clicked(&mut self, key: u32) -> (clicked: bool)
        ensures
            final(self).mouse == old(self).mouse,
            clicked == (first_click(old(self).keys@, key) < old(self).keys@.len()),
            final(self).keys@ == (if clicked {
                old(self).keys@.update(first_click(old(self).keys@, key), (key, false))
            } else {
                old(self).keys@
            }),
    {
        let mut i: usize = 0;
        assert(self.keys@.skip(0) =~= self.keys@);
        while i < self.keys.len()
            invariant
                *self == *old(self),
                i <= self.keys.len(),
                first_click(self.keys@, key) == i + first_click(self.keys@.skip(i as int), key),
            decreases self.keys.len() - i,
        {
            proof {
                assert(self.keys@.skip(i as int).skip(1) =~= self.keys@.skip(i as int + 1));
            }
            if self.keys[i].0 == key && self.keys[i].1 {
                self.keys[i] = (key, false);
                return true;
            }
            i = i + 1;
        }
        false
    }

    /// True while a key is held down.
    pub fn is_key_down(&self, key: u32) -> (down: bool)
        ensures
            down == is_down(self.keys@, key),
    {
        let mut i: usize = 0;
        while i < self.keys.len()
            invariant
                i <= self.keys.len(),
                forall|j: int| 0 <= j < i ==> (#[trigger] self.keys[j]).0 != key,
            decreases self.keys.len() - i,
        {
            if self.keys[i].0 == key {
                return true;
            }
            i = i + 1;
        }
        false
    }

    /// Whether `button` is the button that is down.
    pub fn is_mouse_down(&self, button: MouseButton) -> (down: bool)
        ensures
            down == (self.mouse == button),
    {
        self.mouse == button
    }
}

/// A released key is no longer down.
pub proof fn released_key_is_up(keys: Seq<(u32, bool)>, key: u32)
    ensures
        !is_down(without_key(keys, key), key),
    decreases keys.len(),
{
    if keys.len() > 0 {
        released_key_is_up(keys.drop_last(), key);
    }
}

} // verus!
