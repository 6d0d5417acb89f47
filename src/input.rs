use vstd::prelude::*;

verus! {

/// Window after which a key with no fresh press or repeat counts as released,
/// until the terminal shows that it reports releases.
pub const KEY_TIMEOUT_MS: u64 = 300;

/// Minimum time between two accepted steps, in milliseconds.
pub const MOVE_INTERVAL_MS: u64 = 33;

/// A direction key.
#[derive(Clone, Copy, PartialEq, Eq, Debug, Structural)]
pub enum Key {
    Up,
    Down,
    Left,
    Right,
}

/// What happened to a key.
#[derive(Clone, Copy, PartialEq, Eq, Debug, Structural)]
pub enum KeyEvent {
    Press,
    Repeat,
    Unknown,
    Release,
}

/// Whether a key is held, and when a press or repeat of it was last seen, in
/// milliseconds on the session's clock.
#[derive(Clone, Copy, PartialEq, Eq, Debug, Structural)]
pub struct KeyState {
    pub held: bool,
    pub last_seen: u64,
}

/// The four direction keys and what the session has learnt about releases.
#[derive(Clone, Copy, PartialEq, Eq, Debug, Structural)]
pub struct InputState {
    pub up: KeyState,
    pub down: KeyState,
    pub left: KeyState,
    pub right: KeyState,
    pub has_release_support: bool,
    pub key_timeout: u64,
}

impl Default for KeyState {
    fn default() -> (r: KeyState)
        ensures
            !r.held,
            r.last_seen == 0,
    {
        KeyState { held: false, last_seen: 0 }
    }
}

impl Default for InputState {
    fn default() -> (r: InputState)
        ensures
            r == InputState::idle(),
    {
        InputState {
            up: KeyState { held: false, last_seen: 0 },
            down: KeyState { held: false, last_seen: 0 },
            left: KeyState { held: false, last_seen: 0 },
            right: KeyState { held: false, last_seen: 0 },
            has_release_support: false,
            key_timeout: KEY_TIMEOUT_MS,
        }
    }
}

/// A key after an event at time `now`.
pub open spec fn key_after(k: KeyState, event: KeyEvent, now: u64) -> KeyState {
    match event {
        KeyEvent::Release => KeyState { held: false, ..k },
        _ => KeyState { held: true, last_seen: now },
    }
}

/// Time from `then` to `now`, or zero if `now` comes first.
pub open spec fn elapsed(then: u64, now: u64) -> int {
    if now >= then {
        now - then
    } else {
        0
    }
}

/// A key after a timeout check at `now`.
pub open spec fn key_checked(k: KeyState, now: u64, timeout: u64) -> KeyState {
    if k.held && elapsed(k.last_seen, now) > timeout {
        KeyState { held: false, ..k }
    } else {
        k
    }
}

impl InputState {
    /// No key held, releases not yet seen, the standard timeout.
    pub open spec fn idle() -> InputState {
        InputState {
            up: KeyState { held: false, last_seen: 0 },
            down: KeyState { held: false, last_seen: 0 },
            left: KeyState { held: false, last_seen: 0 },
            right: KeyState { held: false, last_seen: 0 },
            has_release_support: false,
            key_timeout: KEY_TIMEOUT_MS,
        }
    }

    /// The state after `event` on `key` at time `now`. A release is explicit
    /// evidence that the terminal reports releases.
    pub open spec fn after_event(self, key: Key, event: KeyEvent, now: u64) -> InputState {
        let s = match key {
            Key::Up => InputState { up: key_after(self.up, event, now), ..self },
            Key::Down => InputState { down: key_after(self.down, event, now), ..self },
            Key::Left => InputState { left: key_after(self.left, event, now), ..self },
            Key::Right => InputState { right: key_after(self.right, event, now), ..self },
        };
        if event is Release {
            InputState { has_release_support: true, ..s }
        } else {
            s
        }
    }

    /// The state after a timeout check at time `now`: once releases have been
    /// seen nothing changes; before that, a held key whose last press or
    /// repeat is older than the timeout is let go.
    pub open spec fn after_timeout(self, now: u64) -> InputState {
        if self.has_release_support {
            self
        } else {
            InputState {
                up: key_checked(self.up, now, self.key_timeout),
                down: key_checked(self.down, now, self.key_timeout),
                left: key_checked(self.left, now, self.key_timeout),
                right: key_checked(self.right, now, self.key_timeout),
                ..self
            }
        }
    }

    /// The sum of the unit steps of the held keys.
    pub open spec fn delta(self) -> (int, int) {
        let dx = (if self.right.held { 1int } else { 0 }) - (if self.left.held { 1int } else { 0 });
        let dy = (if self.down.held { 1int } else { 0 }) - (if self.up.held { 1int } else { 0 });
        (dx, dy)
    }

    pub fn update_key(&mut self, key: Key, event: KeyEvent, now: u64)
        ensures
            *final(self) == old(self).after_event(key, event, now),
    {
        let key_state = match key {
            Key::Up => &mut self.up,
            Key::Down => &mut self.down,
            Key::Left => &mut self.left,
            Key::Right => &mut self.right,
        };
        match event {
            KeyEvent::Press | KeyEvent::Repeat | KeyEvent::Unknown => {
                key_state.held = true;
                key_state.last_seen = now;
            },
            KeyEvent::Release => {
                key_state.held = false;
                self.has_release_support = true;
            },
        }
    }

    pub fn timeout_stale_keys(&mut self, now: u64)
        ensures
            *final(self) == old(self).after_timeout(now),
    {
        if self.has_release_support {
            return;
        }
        let timeout = self.key_timeout;
        expire(&mut self.up, now, timeout);
        expire(&mut self.down, now, timeout);
        expire(&mut self.left, now, timeout);
        expire(&mut self.right, now, timeout);
    }

    pub fn movement_delta(&self) -> (r: (i32, i32))
        ensures
            (r.0 as int, r.1 as int) == self.delta(),
    {
        let mut dx: i32 = 0;
        let mut dy: i32 = 0;
        if self.up.held {
            dy -= 1;
        }
        if self.down.held {
            dy += 1;
        }
        if self.left.held {
            dx -= 1;
        }
        if self.right.held {
            dx += 1;
        }
        (dx, dy)
    }

    pub fn any_movement(&self) -> (r: bool)
        ensures
            r == (self.up.held || self.down.held || self.left.held || self.right.held),
    {
        self.up.held || self.down.held || self.left.held || self.right.held
    }
}

/// When the viewer last stepped, and how long steps are kept apart.
#[derive(Clone, Copy, PartialEq, Eq, Debug, Structural)]
pub struct MoveTimer {
    pub last_step: u64,
    pub interval: u64,
}

impl MoveTimer {
    /// A timer whose last step was at `now`, with the standard interval.
    pub fn new(now: u64) -> (r: MoveTimer)
        ensures
            r == (MoveTimer { last_step: now, interval: MOVE_INTERVAL_MS }),
    {
        MoveTimer { last_step: now, interval: MOVE_INTERVAL_MS }
    }

    /// Whether the interval has passed since the last step.
    pub fn step_due(&self, now: u64) -> (r: bool)
        ensures
            r == (elapsed(self.last_step, now) >= self.interval),
    {
        let since = if now >= self.last_step { now - self.last_step } else { 0 };
        since >= self.interval
    }
}

/// The input state and timer after the movement decision of a frame at
/// `now`, with the step to attempt: stale keys are let go first; then, if a
/// key is held and the interval has passed, the held keys' step is taken and
/// the timer restarts.
pub open spec fn frame_step(s: InputState, t: MoveTimer, now: u64) -> (InputState, MoveTimer, Option<(int, int)>) {
    let s1 = s.after_timeout(now);
    let held = s1.up.held || s1.down.held || s1.left.held || s1.right.held;
    if held && elapsed(t.last_step, now) >= t.interval {
        (s1, MoveTimer { last_step: now, ..t }, Some(s1.delta()))
    } else {
        (s1, t, None)
    }
}

impl InputState {
    /// The movement decision of one frame at time `now`.
    pub fn next_step(&mut self, timer: &mut MoveTimer, now: u64) -> (r: Option<(i32, i32)>)
        ensures
            (*final(self), *final(timer), match r {
                Some((dx, dy)) => Some((dx as int, dy as int)),
                None => None,
            }) == frame_step(*old(self), *old(timer), now),
    {
        self.timeout_stale_keys(now);
        if self.any_movement() && timer.step_due(now) {
            timer.last_step = now;
            Some(self.movement_delta())
        } else {
            None
        }
    }
}

fn expire(k: &mut KeyState, now: u64, timeout: u64)
    ensures
        *final(k) == key_checked(*old(k), now, timeout),
{
    let since = if now >= k.last_seen { now - k.last_seen } else { 0 };
    if k.held && since > timeout {
        k.held = false;
    }
}

/// A key pressed at `pressed` and never refreshed or released counts as
/// released at any timeout check more than the timeout later, as long as no
/// release has been seen on the state.
pub proof fn lemma_press_times_out(s: InputState, key: Key, event: KeyEvent, pressed: u64, now: u64)
    requires
        !s.has_release_support,
        !(event is Release),
        now > pressed,
        now - pressed > s.key_timeout,
    ensures
        ({
            let t = s.after_event(key, event, pressed).after_timeout(now);
            match key {
                Key::Up => !t.up.held,
                Key::Down => !t.down.held,
                Key::Left => !t.left.held,
                Key::Right => !t.right.held,
            }
        }),
{
}

/// Once a release has been seen, it stays seen through any later event, and
/// no timeout check changes anything.
pub proof fn lemma_release_disables_timeout(s: InputState, key: Key, event: KeyEvent, at: u64, now: u64)
    requires
        s.has_release_support,
    ensures
        s.after_event(key, event, at).has_release_support,
        s.after_timeout(now) == s,
        s.after_event(key, event, at).after_timeout(now) == s.after_event(key, event, at),
{
}

/// A release on any key turns on release support.
pub proof fn lemma_release_seen(s: InputState, key: Key, at: u64)
    ensures
        s.after_event(key, KeyEvent::Release, at).has_release_support,
{
}

} // verus!
