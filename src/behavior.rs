use vstd::prelude::*;

verus! {

/// A pointer position in screen coordinates.
#[derive(Clone, Copy, Debug, PartialEq, Eq, Structural)]
pub struct Point {
    pub x: i32,
    pub y: i32,
}

/// What the pointer loop remembers between samples.
#[derive(Clone, Copy, Debug, PartialEq, Eq, Structural)]
pub struct PointerTracker {
    pub last: Option<Point>,
    pub pressed: bool,
}

/// What the pointer loop publishes after a sample.
#[derive(Clone, Copy, Debug, PartialEq, Eq, Structural)]
pub struct PointerEvents {
    /// The position changed: publish it, with the button state.
    pub moved: bool,
    /// The primary button went down or up: publish its new state.
    pub button_changed: bool,
}

impl PointerTracker {
    /// A tracker that has seen no sample.
    pub fn new() -> (t: PointerTracker)
        ensures
            t.last is None,
            !t.pressed,
    {
        PointerTracker { last: None, pressed: false }
    }

    /// Takes a sample: reports a move when the position differs from the last
    /// one seen (always, for the first sample) and a button change when the
    /// pressed state differs.
    pub fn observe(&mut self, at: Point, pressed: bool) -> (r: PointerEvents)
        ensures
            r.moved == (old(self).last != Some(at)),
            r.button_changed == (old(self).pressed != pressed),
            final(self).last == Some(at),
            final(self).pressed == pressed,
    {
        let moved = match self.last {
            Some(p) => p.x != at.x || p.y != at.y,
            None => true,
        };
        let button_changed = self.pressed != pressed;
        self.last = Some(at);
        self.pressed = pressed;
        PointerEvents { moved, button_changed }
    }
}

/// One sample of the input devices for the activity loop.
#[derive(Clone, Copy, Debug, PartialEq, Eq, Structural)]
pub struct ActivitySample {
    /// Milliseconds on a monotonic clock.
    pub now_ms: u64,
    /// How many keys are held down.
    pub keys_down: u64,
    /// Whether the backspace key is held down.
    pub backspace_down: bool,
    /// The pointer position.
    pub at: Point,
    /// Whether the primary button is held down.
    pub left_down: bool,
}

/// The counts of one reporting window.
#[derive(Clone, Copy, Debug, PartialEq, Eq, Structural)]
pub struct ActivityReport {
    pub key_press_count: u32,
    pub backspace_count: u32,
    pub mouse_click_count: u32,
    /// Length of the window, in milliseconds.
    pub window_ms: u64,
    /// Time since the last activity, in milliseconds.
    pub idle_ms: u64,
}

/// What the activity loop learns from one sample.
#[derive(Clone, Copy, Debug, PartialEq, Eq, Structural)]
pub struct ActivityStep {
    /// Pointer movement since the previous sample (zero for the first).
    pub dx: i64,
    pub dy: i64,
    /// The counts of the window that this sample closes, if it closes one.
    pub report: Option<ActivityReport>,
}

/// What the activity loop remembers between samples.
#[derive(Clone, Copy, Debug, PartialEq, Eq, Structural)]
pub struct ActivityTracker {
    pub last_keys_down: u64,
    pub last_backspace: bool,
    pub last_at: Option<Point>,
    pub last_left: bool,
    pub key_press_count: u32,
    pub backspace_count: u32,
    pub mouse_click_count: u32,
    pub last_report_ms: u64,
    pub last_activity_ms: u64,
}

/// The length of a reporting window, in milliseconds.
pub const REPORT_PERIOD_MS: u64 = 2000;

/// `n + 1`, held at the largest `u32`.
pub open spec fn bump(n: u32, when: bool) -> u32 {
    if when && n < u32::MAX {
        (n + 1) as u32
    } else {
        n
    }
}

/// `a - b`, or zero when `b` is later.
pub open spec fn since(a: u64, b: u64) -> u64 {
    if a >= b {
        (a - b) as u64
    } else {
        0
    }
}

/// Whether a sample shows activity against the tracker: more keys held,
/// a pointer move, or a new click.
pub open spec fn shows_activity(t: ActivityTracker, s: ActivitySample) -> bool {
    ||| s.keys_down > t.last_keys_down
    ||| (t.last_at is Some && t.last_at != Some(s.at))
    ||| (s.left_down && !t.last_left)
}

impl ActivityTracker {
    /// A tracker whose window and idle time start at `now_ms`.
    pub fn new(now_ms: u64) -> (t: ActivityTracker)
        ensures
            t.last_keys_down == 0,
            !t.last_backspace,
            t.last_at is None,
            !t.last_left,
            t.key_press_count == 0,
            t.backspace_count == 0,
            t.mouse_click_count == 0,
            t.last_report_ms == now_ms,
            t.last_activity_ms == now_ms,
    {
        ActivityTracker {
            last_keys_down: 0,
            last_backspace: false,
            last_at: None,
            last_left: false,
            key_press_count: 0,
            backspace_count: 0,
            mouse_click_count: 0,
            last_report_ms: now_ms,
            last_activity_ms: now_ms,
        }
    }

    /// Takes a sample. A key press is counted when more keys are held than
    /// before, a backspace when it goes down, a click when the primary button
    /// goes down; any of these, or a pointer move, marks the sample's time as
    /// the last activity. Once the window has lasted the report period, its
    /// counts are reported and the window starts again at the sample.
    pub fn observe(&mut self, s: ActivitySample) -> (r: ActivityStep)
        ensures
            ({
                let o = *old(self);
                let keys = bump(o.key_press_count, s.keys_down > o.last_keys_down);
                let backspaces = bump(o.backspace_count, s.backspace_down && !o.last_backspace);
                let clicks = bump(o.mouse_click_count, s.left_down && !o.last_left);
                let active = if shows_activity(o, s) {
                    s.now_ms
                } else {
                    o.last_activity_ms
                };
                let due = since(s.now_ms, o.last_report_ms) >= REPORT_PERIOD_MS;
                &&& r.dx == match o.last_at {
                    Some(p) => s.at.x - p.x,
                    None => 0,
                }
                &&& r.dy == match o.last_at {
                    Some(p) => s.at.y - p.y,
                    None => 0,
                }
                &&& final(self).last_keys_down == s.keys_down
                &&& final(self).last_backspace == s.backspace_down
                &&& final(self).last_at == Some(s.at)
                &&& final(self).last_left == s.left_down
                &&& final(self).last_activity_ms == active
                &&& due ==> r.report == Some(
                    ActivityReport {
                        key_press_count: keys,
                        backspace_count: backspaces,
                        mouse_click_count: clicks,
                        window_ms: since(s.now_ms, o.last_report_ms),
                        idle_ms: since(s.now_ms, active),
                    },
                ) && final(self).key_press_count == 0 && final(self).backspace_count == 0
                    && final(self).mouse_click_count == 0 && final(self).last_report_ms == s.now_ms
                &&& !due ==> r.report is None && final(self).key_press_count == keys
                    && final(self).backspace_count == backspaces && final(self).mouse_click_count
                    == clicks && final(self).last_report_ms == o.last_report_ms
            }),
    {
        let key_grew = s.keys_down > self.last_keys_down;
        if key_grew && self.key_press_count < u32::MAX {
            self.key_press_count = self.key_press_count + 1;
        }
        if s.backspace_down && !self.last_backspace && self.backspace_count < u32::MAX {
            self.backspace_count = self.backspace_count + 1;
        }
        let (dx, dy, moved) = match self.last_at {
            Some(p) => (
                s.at.x as i64 - p.x as i64,
                s.at.y as i64 - p.y as i64,
                p.x != s.at.x || p.y != s.at.y,
            ),
            None => (0i64, 0i64, false),
        };
        let clicked = s.left_down && !self.last_left;
        if clicked && self.mouse_click_count < u32::MAX {
            self.mouse_click_count = self.mouse_click_count + 1;
        }
        if key_grew || moved || clicked {
            self.last_activity_ms = s.now_ms;
        }
        self.last_keys_down = s.keys_down;
        self.last_backspace = s.backspace_down;
        self.last_at = Some(s.at);
        self.last_left = s.left_down;
        let window = if s.now_ms >= self.last_report_ms {
            s.now_ms - self.last_report_ms
        } else {
            0
        };
        let report = if window >= REPORT_PERIOD_MS {
            let idle = if s.now_ms >= self.last_activity_ms {
                s.now_ms - self.last_activity_ms
            } else {
                0
            };
            let rep = ActivityReport {
                key_press_count: self.key_press_count,
                backspace_count: self.backspace_count,
                mouse_click_count: self.mouse_click_count,
                window_ms: window,
                idle_ms: idle,
            };
            self.key_press_count = 0;
            self.backspace_count = 0;
            self.mouse_click_count = 0;
            self.last_report_ms = s.now_ms;
            Some(rep)
        } else {
            None
        };
        ActivityStep { dx, dy, report }
    }
}

} // verus!
