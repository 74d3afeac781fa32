//! Moving the pointer between the host's monitors and the guest's by
//! pushing it over a screen edge. The host's monitors and the guest's
//! monitor are laid out on one virtual desktop (`vbounds`); each monitor
//! also has its real position on its own system (`bounds`).
use vstd::prelude::*;

verus! {

/// An axis-aligned rectangle; `x`/`y` is the top-left corner.
#[derive(Debug, Clone, Copy, PartialEq, Eq, Structural)]
pub struct Rectangle {
    pub x: i32,
    pub y: i32,
    pub width: i32,
    pub height: i32,
}

/// A position on a desktop.
#[derive(Debug, Clone, Copy, PartialEq, Eq, Structural)]
pub struct Point {
    pub x: i32,
    pub y: i32,
}

impl From<(i32, i32)> for Point {
    fn from(t: (i32, i32)) -> (r: Point) {
        Point { x: t.0, y: t.1 }
    }
}

impl vstd::std_specs::convert::FromSpecImpl<(i32, i32)> for Point {
    open spec fn obeys_from_spec() -> bool {
        true
    }

    open spec fn from_spec(t: (i32, i32)) -> Point {
        Point { x: t.0, y: t.1 }
    }
}

/// Whether a value is an `i32`.
pub open spec fn fits(v: int) -> bool {
    i32::MIN <= v <= i32::MAX
}

impl Rectangle {
    /// The right and bottom edges can be computed.
    pub open spec fn wf(self) -> bool {
        fits(self.x + self.width) && fits(self.y + self.height)
    }

    pub open spec fn spec_contains(self, p: Point) -> bool {
        p.x >= self.x && p.x < self.x + self.width && p.y >= self.y && p.y < self.y + self.height
    }

    /// Whether the point lies in the rectangle (right and bottom edges excluded).
    pub fn contains(&self, p: Point) -> (r: bool)
        requires
            self.wf(),
        ensures
            r == self.spec_contains(p),
    {
        p.x >= self.x && p.x < self.x + self.width && p.y >= self.y && p.y < self.y + self.height
    }
}

/// A monitor: where it is on its own system and on the shared virtual
/// desktop, whether it shows the guest, and whether it stays connected to
/// the host while it shows the guest.
#[derive(Debug, Clone, Copy, PartialEq, Eq, Structural)]
pub struct Monitor {
    pub bounds: Rectangle,
    pub vbounds: Rectangle,
    pub is_windows: bool,
    pub connected: bool,
}

/// The monitor layout.
#[derive(Debug, Clone)]
pub struct Config {
    pub monitors: Vec<Monitor>,
}

impl Config {
    /// Every rectangle's edges can be computed, there is a guest monitor and
    /// a host monitor.
    pub open spec fn wf(self) -> bool {
        &&& forall|k: int| 0 <= k < self.monitors@.len() ==>
                (#[trigger] self.monitors@[k]).bounds.wf() && self.monitors@[k].vbounds.wf()
        &&& first_where(self.monitors@, |m: Monitor| m.is_windows, 0) < self.monitors@.len()
        &&& first_where(self.monitors@, |m: Monitor| !m.is_windows, 0) < self.monitors@.len()
    }
}

/// The position of the first monitor from `i` on that satisfies `pred`,
/// or the number of monitors if there is none.
pub open spec fn first_where(ms: Seq<Monitor>, pred: spec_fn(Monitor) -> bool, i: int) -> int
    decreases ms.len() - i,
{
    if i < 0 || i >= ms.len() {
        ms.len() as int
    } else if pred(ms[i]) {
        i
    } else {
        first_where(ms, pred, i + 1)
    }
}

proof fn lemma_first_where(ms: Seq<Monitor>, pred: spec_fn(Monitor) -> bool, i: int)
    requires
        0 <= i <= ms.len(),
    ensures
        i <= first_where(ms, pred, i) <= ms.len(),
        first_where(ms, pred, i) < ms.len() ==> pred(ms[first_where(ms, pred, i)]),
        forall|k: int| i <= k < first_where(ms, pred, i) ==> !pred(#[trigger] ms[k]),
    decreases ms.len() - i,
{
    if i < ms.len() && !pred(ms[i]) {
        lemma_first_where(ms, pred, i + 1);
    }
}

/// Who has the pointer, and which way it is moving.
#[derive(Debug, Clone, Copy, PartialEq, Eq, Structural)]
pub enum State {
    TryAttach,
    Attached,
    TryDetach,
    Detached,
}

/// Host monitors that show the point.
pub open spec fn host_containing(p: Point) -> spec_fn(Monitor) -> bool {
    |m: Monitor| !m.is_windows && m.bounds.spec_contains(p)
}

/// Monitors whose virtual bounds hold the point.
pub open spec fn virtually_containing(p: Point) -> spec_fn(Monitor) -> bool {
    |m: Monitor| m.vbounds.spec_contains(p)
}

/// Where the guest's pointer position `(xwin, ywin)` lands on the host. A
/// pointer at the right or bottom edge of a guest monitor that is not
/// connected to the host goes to the monitor on the host's side of it.
pub open spec fn host_position(w: Monitor, xwin: i32, ywin: i32) -> (int, int) {
    let right = xwin >= w.bounds.width - 1;
    let down = ywin >= w.bounds.height - 1;
    let xlin = if right && !w.connected { xwin + w.bounds.x - w.bounds.width } else { xwin + w.bounds.x };
    let ylin = if down && !w.connected { ywin + w.bounds.y - w.bounds.height } else { ywin + w.bounds.y };
    (xlin, ylin)
}

/// The arithmetic of `host_position` stays within `i32`.
pub open spec fn host_position_fits(w: Monitor, xwin: i32, ywin: i32) -> bool {
    let right = xwin >= w.bounds.width - 1;
    let down = ywin >= w.bounds.height - 1;
    &&& fits(w.bounds.width - 1) && fits(w.bounds.height - 1)
    &&& fits(xwin + w.bounds.x) && fits(ywin + w.bounds.y)
    &&& (right && !w.connected ==> fits(xwin + w.bounds.x - w.bounds.width))
    &&& (down && !w.connected ==> fits(ywin + w.bounds.y - w.bounds.height))
}

/// Where the pointer goes on the guest when it enters guest monitor `m`
/// from host monitor `old`, while it is at `(x, y)` on host monitor `curr`.
pub open spec fn guest_position(old: Monitor, m: Monitor, curr: Monitor, x: i32, y: i32) -> (int, int) {
    let right = old.bounds.x > m.bounds.x + m.bounds.width - 1;
    let gx = if right && !m.connected {
        x - m.vbounds.x + m.vbounds.width - 1
    } else {
        x - m.vbounds.x
    } + curr.vbounds.x;
    (gx, y + m.vbounds.y + curr.vbounds.y)
}

pub open spec fn guest_position_fits(old: Monitor, m: Monitor, curr: Monitor, x: i32, y: i32) -> bool {
    let right = old.bounds.x > m.bounds.x + m.bounds.width - 1;
    &&& fits(m.bounds.x + m.bounds.width - 1)
    &&& fits(x - m.vbounds.x)
    &&& (right && !m.connected ==> fits(x - m.vbounds.x + m.vbounds.width) && fits(x - m.vbounds.x + m.vbounds.width - 1))
    &&& fits(guest_position(old, m, curr, x, y).0)
    &&& fits(y + m.vbounds.y) && fits(guest_position(old, m, curr, x, y).1)
}

/// The pointer state shared by the two directions.
pub struct EdgeGrab {
    pub state: State,
    /// The monitor the pointer was last seen on (on the virtual desktop).
    pub old_monitor: Monitor,
}

fn first_monitor(ms: &Vec<Monitor>, guest: bool) -> (r: usize)
    ensures
        r == first_where(ms@, |m: Monitor| m.is_windows == guest, 0),
{
    let ghost pred = |m: Monitor| m.is_windows == guest;
    let mut i: usize = 0;
    while i < ms.len()
        invariant
            i <= ms@.len(),
            pred == (|m: Monitor| m.is_windows == guest),
            first_where(ms@, pred, i as int) == first_where(ms@, pred, 0),
        decreases ms@.len() - i,
    {
        if ms[i].is_windows == guest {
            return i;
        }
        i = i + 1;
    }
    i
}

fn first_containing(ms: &Vec<Monitor>, p: Point, host_only: bool) -> (r: usize)
    requires
        forall|k: int| 0 <= k < ms@.len() ==> (#[trigger] ms@[k]).bounds.wf() && ms@[k].vbounds.wf(),
    ensures
        host_only ==> r == first_where(ms@, host_containing(p), 0),
        !host_only ==> r == first_where(ms@, virtually_containing(p), 0),
{
    let ghost pred = if host_only { host_containing(p) } else { virtually_containing(p) };
    let mut i: usize = 0;
    while i < ms.len()
        invariant
            i <= ms@.len(),
            forall|k: int| 0 <= k < ms@.len() ==> (#[trigger] ms@[k]).bounds.wf() && ms@[k].vbounds.wf(),
            pred == (if host_only { host_containing(p) } else { virtually_containing(p) }),
            first_where(ms@, pred, i as int) == first_where(ms@, pred, 0),
        decreases ms@.len() - i,
    {
        let m = ms[i];
        assert(m.bounds.wf() && m.vbounds.wf());
        let hit = if host_only { !m.is_windows && m.bounds.contains(p) } else { m.vbounds.contains(p) };
        if hit {
            return i;
        }
        i = i + 1;
    }
    i
}

impl EdgeGrab {
    /// Starts detached, on the first host monitor.
    pub fn new(cfg: &Config) -> (r: EdgeGrab)
        requires
            cfg.wf(),
        ensures
            r.state == State::Detached,
            r.old_monitor == cfg.monitors@[first_where(cfg.monitors@, |m: Monitor| !m.is_windows, 0)],
    {
        let i = first_monitor(&cfg.monitors, false);
        proof {
            assert((|m: Monitor| m.is_windows == false) =~= (|m: Monitor| !m.is_windows));
        }
        EdgeGrab { state: State::Detached, old_monitor: cfg.monitors[i] }
    }

    /// The guest took the pointer.
    pub fn attached(&mut self)
        ensures
            final(self).state == State::Attached,
            final(self).old_monitor == old(self).old_monitor,
    {
        self.state = State::Attached;
    }

    /// The guest gave the pointer back.
    pub fn detached(&mut self)
        ensures
            final(self).state == State::Detached,
            final(self).old_monitor == old(self).old_monitor,
    {
        self.state = State::Detached;
    }

    /// Whether the guest's pointer position can be handled: its host
    /// position is computable on the guest monitor.
    pub open spec fn guest_report_ok(self, cfg: Config, xwin: i32, ywin: i32) -> bool {
        self.state == State::Attached ==> host_position_fits(
            cfg.monitors@[first_where(cfg.monitors@, |m: Monitor| m.is_windows, 0)], xwin, ywin)
    }

    pub fn check_guest_report(&self, cfg: &Config, xwin: i32, ywin: i32) -> (r: bool)
        requires
            cfg.wf(),
        ensures
            r == self.guest_report_ok(*cfg, xwin, ywin),
    {
        if self.state != State::Attached {
            return true;
        }
        let i = first_monitor(&cfg.monitors, true);
        proof {
            assert((|m: Monitor| m.is_windows == true) =~= (|m: Monitor| m.is_windows));
        }
        let w = cfg.monitors[i];
        let lo = i32::MIN as i64;
        let hi = i32::MAX as i64;
        let bw = w.bounds.width as i64;
        let bh = w.bounds.height as i64;
        let xw = xwin as i64;
        let yw = ywin as i64;
        let right = xw >= bw - 1;
        let down = yw >= bh - 1;
        let in_range = |v: i64| -> (b: bool) ensures b == (lo <= v && v <= hi) { lo <= v && v <= hi };
        in_range(bw - 1) && in_range(bh - 1) && in_range(xw + w.bounds.x as i64) && in_range(yw + w.bounds.y as i64)
            && (!(right && !w.connected) || in_range(xw + w.bounds.x as i64 - bw))
            && (!(down && !w.connected) || in_range(yw + w.bounds.y as i64 - bh))
    }

    /// The guest reports its pointer at `(xwin, ywin)`. While the guest has
    /// the pointer and that position lies, on the virtual desktop, on a host
    /// monitor, the pointer goes back to the host: the result is where to put
    /// it there, and the grab waits for the guest to let go.
    pub fn on_guest_pointer(&mut self, cfg: &Config, xwin: i32, ywin: i32) -> (r: Option<Point>)
        requires
            cfg.wf(),
            old(self).guest_report_ok(*cfg, xwin, ywin),
        ensures
            final(self).old_monitor == old(self).old_monitor,
            old(self).state != State::Attached ==> r is None && final(self).state == old(self).state,
            old(self).state == State::Attached ==> {
                let w = cfg.monitors@[first_where(cfg.monitors@, |m: Monitor| m.is_windows, 0)];
                let leaves = exists|k: int| 0 <= k < cfg.monitors@.len()
                    && (#[trigger] cfg.monitors@[k]).vbounds.spec_contains(Point { x: xwin, y: ywin })
                    && !cfg.monitors@[k].is_windows;
                &&& leaves ==> r == Some(Point { x: host_position(w, xwin, ywin).0 as i32, y: host_position(w, xwin, ywin).1 as i32 })
                    && final(self).state == State::TryDetach
                &&& !leaves ==> r is None && final(self).state == State::Attached
            },
    {
        if self.state != State::Attached {
            return None;
        }
        let i = first_monitor(&cfg.monitors, true);
        proof {
            assert((|m: Monitor| m.is_windows == true) =~= (|m: Monitor| m.is_windows));
            lemma_first_where(cfg.monitors@, |m: Monitor| m.is_windows, 0);
        }
        let w = cfg.monitors[i];
        let right = xwin >= w.bounds.width - 1;
        let down = ywin >= w.bounds.height - 1;
        let xlin = if right && !w.connected { xwin + w.bounds.x - w.bounds.width } else { xwin + w.bounds.x };
        let ylin = if down && !w.connected { ywin + w.bounds.y - w.bounds.height } else { ywin + w.bounds.y };
        let p = Point { x: xwin, y: ywin };
        let mut k: usize = 0;
        while k < cfg.monitors.len()
            invariant
                k <= cfg.monitors@.len(),
                cfg.wf(),
                *self == *old(self),
                self.state == State::Attached,
                p == (Point { x: xwin, y: ywin }),
                w == cfg.monitors@[first_where(cfg.monitors@, |m: Monitor| m.is_windows, 0)],
                xlin as int == host_position(w, xwin, ywin).0,
                ylin as int == host_position(w, xwin, ywin).1,
                forall|j: int| 0 <= j < k ==> !((#[trigger] cfg.monitors@[j]).vbounds.spec_contains(p) && !cfg.monitors@[j].is_windows),
            decreases cfg.monitors@.len() - k,
        {
            let m = cfg.monitors[k];
            assert(m.vbounds.wf());
            if m.vbounds.contains(p) && !m.is_windows {
                self.state = State::TryDetach;
                return Some(Point { x: xlin, y: ylin });
            }
            k = k + 1;
        }
        None
    }

    /// Whether a pointer motion to `(x, y)` on the host can be handled: the
    /// pointer is on a host monitor, its place on the virtual desktop is on
    /// a monitor, and the position on the guest is computable.
    pub open spec fn motion_ok(self, cfg: Config, x: i32, y: i32) -> bool {
        let ms = cfg.monitors@;
        let c = first_where(ms, host_containing(Point { x, y }), 0);
        self.state == State::Detached ==> {
            &&& c < ms.len()
            &&& fits(x + ms[c].vbounds.x) && fits(y + ms[c].vbounds.y)
            &&& {
                let vp = Point { x: (x + ms[c].vbounds.x) as i32, y: (y + ms[c].vbounds.y) as i32 };
                let k = first_where(ms, virtually_containing(vp), 0);
                &&& k < ms.len()
                &&& (ms[k].is_windows && ms[k] != self.old_monitor ==>
                        guest_position_fits(self.old_monitor, ms[k], ms[c], x, y))
            }
        }
    }

    pub fn check_motion(&self, cfg: &Config, x: i32, y: i32) -> (r: bool)
        requires
            cfg.wf(),
        ensures
            r == self.motion_ok(*cfg, x, y),
    {
        if self.state != State::Detached {
            return true;
        }
        let ms = &cfg.monitors;
        let c = first_containing(ms, Point { x, y }, true);
        if c >= ms.len() {
            return false;
        }
        let curr = ms[c];
        let lo = i32::MIN as i64;
        let hi = i32::MAX as i64;
        let vx = x as i64 + curr.vbounds.x as i64;
        let vy = y as i64 + curr.vbounds.y as i64;
        if !(lo <= vx && vx <= hi && lo <= vy && vy <= hi) {
            return false;
        }
        let vp = Point { x: vx as i32, y: vy as i32 };
        let k = first_containing(ms, vp, false);
        if k >= ms.len() {
            return false;
        }
        let m = ms[k];
        if !(m.is_windows && m != self.old_monitor) {
            return true;
        }
        let old = self.old_monitor;
        let right = old.bounds.x as i64 > m.bounds.x as i64 + m.bounds.width as i64 - 1;
        let base = x as i64 - m.vbounds.x as i64;
        let shifted = base + m.vbounds.width as i64;
        let gx = if right && !m.connected { shifted - 1 } else { base } + curr.vbounds.x as i64;
        let ym = y as i64 + m.vbounds.y as i64;
        let gy = ym + curr.vbounds.y as i64;
        let in_range = |v: i64| -> (b: bool) ensures b == (lo <= v && v <= hi) { lo <= v && v <= hi };
        in_range(m.bounds.x as i64 + m.bounds.width as i64 - 1) && in_range(base)
            && (!(right && !m.connected) || (in_range(shifted) && in_range(shifted - 1)))
            && in_range(gx) && in_range(ym) && in_range(gy)
    }

    /// The host's pointer moved to `(x, y)`. While the host has the pointer
    /// and it moves onto the guest monitor on the virtual desktop, coming
    /// from another monitor, the result is where the guest should place it,
    /// and the grab waits for the guest to take it.
    pub fn on_motion(&mut self, cfg: &Config, x: i32, y: i32) -> (r: Option<Point>)
        requires
            cfg.wf(),
            old(self).motion_ok(*cfg, x, y),
        ensures
            old(self).state != State::Detached ==> r is None && *final(self) == *old(self),
            old(self).state == State::Detached ==> {
                let ms = cfg.monitors@;
                let c = first_where(ms, host_containing(Point { x, y }), 0);
                let vp = Point { x: (x + ms[c].vbounds.x) as i32, y: (y + ms[c].vbounds.y) as i32 };
                let m = ms[first_where(ms, virtually_containing(vp), 0)];
                let enters = m.is_windows && m != old(self).old_monitor;
                let g = guest_position(old(self).old_monitor, m, ms[c], x, y);
                &&& final(self).old_monitor == m
                &&& enters ==> r == Some(Point { x: g.0 as i32, y: g.1 as i32 }) && final(self).state == State::TryAttach
                &&& !enters ==> r is None && final(self).state == State::Detached
            },
    {
        if self.state != State::Detached {
            return None;
        }
        let ms = &cfg.monitors;
        let c = first_containing(ms, Point { x, y }, true);
        let curr = ms[c];
        let vx = x + curr.vbounds.x;
        let vy = y + curr.vbounds.y;
        let k = first_containing(ms, Point { x: vx, y: vy }, false);
        let m = ms[k];
        let mut r = None;
        if m.is_windows && m != self.old_monitor {
            let old = self.old_monitor;
            let right = old.bounds.x > m.bounds.x + m.bounds.width - 1;
            let gx = if right && !m.connected {
                x - m.vbounds.x + m.vbounds.width - 1
            } else {
                x - m.vbounds.x
            } + curr.vbounds.x;
            let gy = y + m.vbounds.y + curr.vbounds.y;
            self.state = State::TryAttach;
            r = Some(Point { x: gx, y: gy });
        }
        self.old_monitor = m;
        r
    }
}


/// The monitor with its axes swapped, on its own system (`x` for `y`, width
/// for height).
pub open spec fn transposed(w: Monitor) -> Monitor {
    Monitor {
        bounds: Rectangle { x: w.bounds.y, y: w.bounds.x, width: w.bounds.height, height: w.bounds.width },
        ..w
    }
}

/// How the guest's pointer is placed on the host, axis by axis: away from the
/// right and bottom edges, or on a guest monitor that stays connected, the
/// position is moved by the monitor's offset; on the right edge of a monitor
/// that is not connected, `x` also wraps back by the monitor's width, and on
/// its bottom edge `y` wraps back by its height. The two axes follow the
/// same rule: `y` is placed as `x` would be on the transposed monitor.
pub proof fn law_host_position_axes(w: Monitor, xwin: i32, ywin: i32)
    ensures
        host_position(w, xwin, ywin).1 == host_position(transposed(w), ywin, xwin).0,
        host_position(w, xwin, ywin).0 == host_position(transposed(w), ywin, xwin).1,
        (w.connected || xwin < w.bounds.width - 1) ==> host_position(w, xwin, ywin).0 == xwin + w.bounds.x,
        (w.connected || ywin < w.bounds.height - 1) ==> host_position(w, xwin, ywin).1 == ywin + w.bounds.y,
        (!w.connected && xwin >= w.bounds.width - 1)
            ==> host_position(w, xwin, ywin).0 == xwin + w.bounds.x - w.bounds.width,
        (!w.connected && ywin >= w.bounds.height - 1)
            ==> host_position(w, xwin, ywin).1 == ywin + w.bounds.y - w.bounds.height,
{
}


/// Where the pointer enters the guest: its `y` is always moved by the guest
/// monitor's and the current monitor's virtual offsets; its `x` is moved the
/// same way, and when the pointer comes from a host monitor lying right of
/// the guest monitor, which is not connected, it also moves to the guest
/// monitor's far side (one less than its width further).
pub proof fn law_guest_position_axes(old: Monitor, m: Monitor, curr: Monitor, x: i32, y: i32)
    ensures
        guest_position(old, m, curr, x, y).1 == y + m.vbounds.y + curr.vbounds.y,
        (m.connected || old.bounds.x <= m.bounds.x + m.bounds.width - 1)
            ==> guest_position(old, m, curr, x, y).0 == x - m.vbounds.x + curr.vbounds.x,
        (!m.connected && old.bounds.x > m.bounds.x + m.bounds.width - 1)
            ==> guest_position(old, m, curr, x, y).0 == x - m.vbounds.x + m.vbounds.width - 1 + curr.vbounds.x,
{
}

} // verus!
