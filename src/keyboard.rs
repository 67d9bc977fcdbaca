use vstd::prelude::*;

verus! {

/// A change of one key of the keypad, by its index 0 to 15.
#[derive(Debug, Clone, Copy, PartialEq, Eq, Structural)]
pub enum KeyEvent {
    Pressed(u8),
    Released(u8),
}

impl KeyEvent {
    /// The key that the event is about.
    pub open spec fn key(self) -> u8 {
        match self {
            KeyEvent::Pressed(k) => k,
            KeyEvent::Released(k) => k,
        }
    }
}

/// The key states after applying `events` in order to `keys`.
pub open spec fn keys_after(keys: Seq<bool>, events: Seq<KeyEvent>) -> Seq<bool>
    decreases events.len(),
{
    if events.len() == 0 {
        keys
    } else {
        let before = keys_after(keys, events.drop_last());
        match events.last() {
            KeyEvent::Pressed(k) => before.update(k as int, true),
            KeyEvent::Released(k) => before.update(k as int, false),
        }
    }
}

/// The key of the last press among `events`, if any.
pub open spec fn last_press(events: Seq<KeyEvent>) -> Option<u8>
    decreases events.len(),
{
    if events.len() == 0 {
        None
    } else {
        match events.last() {
            KeyEvent::Pressed(k) => Some(k),
            KeyEvent::Released(_) => last_press(events.drop_last()),
        }
    }
}

/// The state of the sixteen keys, and the key last pressed in the latest batch of events.
pub struct Keyboard {
    pub key_states: [bool; 16],
    pub last_pressed: Option<u8>,
}

impl Default for Keyboard {
    fn default() -> (r: Keyboard)
        ensures
            forall|k: int| 0 <= k < 16 ==> !#[trigger] r.key_states@[k],
            r.last_pressed is None,
    {
        Keyboard { key_states: [false; 16], last_pressed: None }
    }
}

impl Keyboard {
    /// Whether key `key` is held down.
    pub fn is_pressed(&self, key: usize) -> (r: bool)
        requires
            key < 16,
        ensures
            r == self.key_states@[key as int],
    {
        self.key_states[key]
    }

    /// Applies a batch of events in order; the last press of the batch becomes
    /// the last pressed key, or none if the batch holds no press.
    pub fn update_key_states(&mut self, events: Vec<KeyEvent>)
        requires
            forall|i: int| 0 <= i < events@.len() ==> (#[trigger] events@[i]).key() < 16,
        ensures
            final(self).key_states@ == keys_after(old(self).key_states@, events@),
            final(self).last_pressed == last_press(events@),
    {
        self.last_pressed = None;
        let mut i: usize = 0;
        while i < events.len()
            invariant
                i <= events@.len(),
                forall|j: int| 0 <= j < events@.len() ==> (#[trigger] events@[j]).key() < 16,
                self.key_states@ == keys_after(old(self).key_states@, events@.take(i as int)),
                self.last_pressed == last_press(events@.take(i as int)),
            decreases events@.len() - i,
        {
            let event = events[i];
            proof {
                assert(events@.take(i + 1).drop_last() =~= events@.take(i as int));
                assert(events@[i as int].key() < 16);
            }
            match event {
                KeyEvent::Pressed(k) => {
                    self.key_states[k as usize] = true;
                    self.last_pressed = Some(k);
                },
                KeyEvent::Released(k) => {
                    self.key_states[k as usize] = false;
                },
            }
            i = i + 1;
        }
        assert(events@.take(events@.len() as int) =~= events@);
    }
}

} // verus!
