//! Keyboard input: a per-key state machine and a registry of tracked keys.
//!
//! A key is identified by its virtual-key code. Each tracked key carries a
//! [`KeyState`]: one of four mutually exclusive states, recomputed on every
//! tick from the previous state and the current raw "is the key physically
//! down" sample.
//!
//! - open: the key was not down and had not just been released;
//! - pressed: the first tick on which the key was observed down;
//! - held: down on at least two consecutive ticks;
//! - released: the first tick on which the key was observed up after
//!   being pressed or held.
//!
//! Sampling the physical keyboard is platform work and happens outside this
//! library; the caller polls each tracked key once per tick and hands the
//! samples to [`Keyboard::update_key_states`].

use vstd::pervasive::VecAdditionalExecFns;
use vstd::prelude::*;

verus! {

/// The state of one tracked key. At most one of the three flags is set;
/// when none is set the key is open.
#[derive(Clone, Copy)]
pub struct KeyState {
    pub pressed: bool,
    pub held: bool,
    pub released: bool,
}

impl KeyState {
    /// The flag combination a key starts in and returns to: all clear (open).
    pub open spec fn open_spec() -> KeyState {
        KeyState { pressed: false, held: false, released: false }
    }

    /// The transition table: the next state, from the previous state and the
    /// current raw sample.
    pub open spec fn transition(prev: KeyState, down: bool) -> KeyState {
        if down && !prev.pressed && !prev.held {
            KeyState { pressed: true, held: false, released: false }
        } else if down {
            KeyState { pressed: false, held: true, released: false }
        } else if prev.pressed || prev.held {
            KeyState { pressed: false, held: false, released: true }
        } else {
            KeyState { pressed: false, held: false, released: false }
        }
    }

    /// Exactly one of the four states open/pressed/held/released holds;
    /// open is the absence of the three flags, so this says the flags
    /// exclude each other.
    pub open spec fn exclusive(self) -> bool {
        &&& self.pressed ==> !self.held && !self.released
        &&& self.held ==> !self.pressed && !self.released
        &&& self.released ==> !self.pressed && !self.held
    }

    pub open spec fn pressed_spec(self) -> bool {
        self.pressed
    }

    pub open spec fn held_spec(self) -> bool {
        self.held
    }

    pub open spec fn released_spec(self) -> bool {
        self.released
    }

    pub open spec fn open_state_spec(self) -> bool {
        !self.pressed && !self.held && !self.released
    }

    pub fn is_pressed(&self) -> (r: bool)
        ensures
            r == self.pressed_spec(),
    {
        self.pressed
    }

    pub fn is_held(&self) -> (r: bool)
        ensures
            r == self.held_spec(),
    {
        self.held
    }

    pub fn is_released(&self) -> (r: bool)
        ensures
            r == self.released_spec(),
    {
        self.released
    }

    pub fn is_open(&self) -> (r: bool)
        ensures
            r == self.open_state_spec(),
    {
        !self.pressed && !self.held && !self.released
    }

    pub fn is_pressed_or_held(&self) -> (r: bool)
        ensures
            r == (self.pressed_spec() || self.held_spec()),
    {
        self.pressed || self.held
    }

    /// A fresh key state: open.
    pub fn new() -> (s: KeyState)
        ensures
            s == Self::open_spec(),
    {
        KeyState { pressed: false, held: false, released: false }
    }

    /// Feeds one raw sample through the transition table.
    pub fn update_state(&mut self, key_pressed: bool)
        ensures
            *final(self) == Self::transition(*old(self), key_pressed),
    {
        if key_pressed {
            if !self.pressed && !self.held {
                self.reset();
                self.pressed = true;
            } else {
                self.reset();
                self.held = true;
            }
        } else if !key_pressed && (self.held || self.pressed) {
            self.reset();
            self.released = true;
        } else {
            self.reset();
        }
    }

    /// Clears all three flags, leaving the key open.
    pub fn reset(&mut self)
        ensures
            *final(self) == Self::open_spec(),
    {
        self.pressed = false;
        self.held = false;
        self.released = false;
    }
}

/// Whatever state a key was in and whatever was sampled, the next state is
/// one of the four states exactly: at most one flag is set afterwards, and
/// when none is, the key is open.
pub proof fn lemma_transition_exclusive(prev: KeyState, down: bool)
    ensures
        KeyState::transition(prev, down).exclusive(),
{
}

/// The state a key is in after a whole sequence of raw samples, starting
/// from a given state and feeding the samples through the transition table
/// in order.
pub open spec fn replay(start: KeyState, samples: Seq<bool>) -> KeyState
    decreases samples.len(),
{
    if samples.len() == 0 {
        start
    } else {
        KeyState::transition(replay(start, samples.drop_last()), samples.last())
    }
}

/// For any sequence of raw samples fed to one key, every state the key
/// passes through after the first update is exclusive: exactly one of
/// open/pressed/held/released holds at every tick.
pub proof fn lemma_replay_exclusive(start: KeyState, samples: Seq<bool>)
    requires
        samples.len() > 0,
    ensures
        replay(start, samples).exclusive(),
{
    lemma_transition_exclusive(replay(start, samples.drop_last()), samples.last());
}

/// The registry of tracked keys. The set of keys is fixed at construction;
/// a key that was not registered cannot be queried (a caller obligation,
/// not a runtime condition).
pub struct Keyboard {
    keys: Vec<u16>,
    states: Vec<KeyState>,
}

impl Keyboard {
    /// The tracked keys, in registration order.
    pub closed spec fn keys_seq(self) -> Seq<u16> {
        self.keys@
    }

    /// The state of each tracked key, aligned with `keys_seq`.
    pub closed spec fn states_seq(self) -> Seq<KeyState> {
        self.states@
    }

    /// One state per tracked key, and no key registered twice.
    pub open spec fn wf(self) -> bool {
        &&& self.states_seq().len() == self.keys_seq().len()
        &&& forall|i: int, j: int|
            0 <= i < j < self.keys_seq().len() ==> self.keys_seq()[i] != self.keys_seq()[j]
    }

    /// Whether `key` was registered at construction.
    pub open spec fn tracks(self, key: u16) -> bool {
        self.keys_seq().contains(key)
    }

    /// The state of a tracked key. Meaningful only when `tracks(key)` holds;
    /// with distinct registered keys the index is unique.
    pub open spec fn state_of(self, key: u16) -> KeyState {
        self.states_seq()[self.keys_seq().index_of(key)]
    }

    /// Registers each key of `keys_to_update`, every one in the open state.
    /// The keys form a set: no key is given twice.
    pub fn create(keys_to_update: Vec<u16>) -> (keyboard: Keyboard)
        requires
            forall|i: int, j: int|
                0 <= i < j < keys_to_update@.len() ==> keys_to_update@[i] != keys_to_update@[j],
        ensures
            keyboard.wf(),
            keyboard.keys_seq() == keys_to_update@,
            forall|i: int|
                0 <= i < keyboard.states_seq().len() ==> keyboard.states_seq()[i]
                    == KeyState::open_spec(),
    {
        let mut states: Vec<KeyState> = Vec::new();
        let n = keys_to_update.len();
        for _k in 0..n
            invariant
                states@.len() == _k,
                forall|i: int| 0 <= i < states@.len() ==> states@[i] == KeyState::open_spec(),
        {
            states.push(KeyState::new());
        }
        Keyboard { keys: keys_to_update, states }
    }

    /// How many keys are tracked.
    pub fn len(&self) -> (n: usize)
        ensures
            n == self.keys_seq().len(),
    {
        self.keys.len()
    }

    /// The key registered at position `i`, so that a caller can poll the
    /// tracked keys in order and hand the samples to `update_key_states`.
    pub fn key_at(&self, i: usize) -> (key: u16)
        requires
            i < self.keys_seq().len(),
        ensures
            key == self.keys_seq()[i as int],
    {
        self.keys[i]
    }

    /// Feeds one tick's raw samples through every tracked key's transition:
    /// `samples[i]` is whether the key at position `i` is physically down.
    pub fn update_key_states(&mut self, samples: &Vec<bool>)
        requires
            old(self).wf(),
            samples@.len() == old(self).keys_seq().len(),
        ensures
            final(self).wf(),
            final(self).keys_seq() == old(self).keys_seq(),
            forall|i: int|
                0 <= i < final(self).states_seq().len() ==> final(self).states_seq()[i]
                    == KeyState::transition(old(self).states_seq()[i], samples@[i]),
    {
        let n = self.states.len();
        for i in 0..n
            invariant
                n == self.states@.len(),
                self.keys@ == old(self).keys@,
                self.states@.len() == old(self).states@.len(),
                samples@.len() == old(self).states@.len(),
                forall|j: int|
                    0 <= j < i ==> self.states@[j] == KeyState::transition(
                        old(self).states@[j],
                        samples@[j],
                    ),
                forall|j: int| i <= j < n ==> self.states@[j] == old(self).states@[j],
        {
            let mut state = self.states[i];
            state.update_state(samples[i]);
            self.states.set(i, state);
        }
    }

    /// The state of a tracked key. Querying a key that was not registered
    /// is a programmer error, ruled out by the precondition.
    pub fn get_key_state(&self, key: u16) -> (state: &KeyState)
        requires
            self.wf(),
            self.tracks(key),
        ensures
            *state == self.state_of(key),
    {
        let n = self.keys.len();
        for i in 0..n
            invariant
                self.wf(),
                n == self.keys@.len(),
                forall|j: int| 0 <= j < i ==> self.keys@[j] != key,
        {
            if self.keys[i] == key {
                proof {
                    let chosen = self.keys_seq().index_of(key);
                    assert(self.keys_seq()[i as int] == key);
                    assert(0 <= chosen < self.keys_seq().len() && self.keys_seq()[chosen] == key);
                    assert(chosen == i);
                }
                return &self.states[i];
            }
        }
        proof {
            assert(self.keys_seq().contains(key));
            assert(false);
        }
        &self.states[0]
    }
}

} // verus!
