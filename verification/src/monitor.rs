//! The live view of the control loop: what the stream says, what the keys do, and what every
//! line on the screen reads.
//!
//! Numbers arrive as the text they are to be shown as, so that nothing here needs a floating
//! point unit; where a decision turns on one, the decision arrives.
use std::collections::VecDeque;
use vstd::arithmetic::power2;
use vstd::prelude::*;

use crate::client::Failure;
use crate::exit;
use crate::proto::{Call, Id, SubscribeParams};
use crate::rank;
use crate::text;

verus! {

/// Half-width of a deviation bar, in cells. Zero has a column of its own.
pub const BAR_HALF: usize = 12;

/// How much loop-rate history the trace keeps.
pub const TRACE_SAMPLES: usize = 600;

/// Redraw at least this often, so a stalled stream is visibly stalled, nanoseconds.
pub const IDLE_REDRAW_NS: u64 = 250_000_000;

/// Rows the robot block occupies. Fixed, so that a limit appearing moves nothing.
pub const HEADER_HEIGHT: u16 = 8;

/// Request id for the subscribe call.
pub const SUBSCRIBE_ID: u64 = 1;

// ── what the robot says ──────────────────────────────────────────────────────

/// One tick of the control loop. Floats are held by the bits of their double.
#[derive(Debug, PartialEq, Eq)]
pub struct RobotState {
    pub t: u64,
    /// The mode of this tick: `walk`, `stand` or `held`.
    pub policy: String,
    pub requested: [u64; 3],
    pub applied: [u64; 3],
    pub limited_by: Vec<String>,
    pub head: [u64; 4],
    pub fallen: bool,
    pub limp: bool,
    pub gravity: [u64; 3],
    pub gain: Option<u32>,
    pub hz: u64,
    pub missed: u64,
    pub joints: Vec<u64>,
    pub targets: Vec<u64>,
}

/// The answer to a subscription, which names the policies.
#[derive(Debug, PartialEq, Eq)]
pub struct SubscribeResult {
    pub accepted: bool,
    pub walk: Option<String>,
    pub stand: Option<String>,
    pub unavailable: Option<String>,
}

/// What the reader has to say.
#[derive(Debug)]
pub enum Update {
    State(RobotState),
    Policy(SubscribeResult),
    /// The stream ended. Carries the sentence to exit with.
    Ended(String),
}

/// The call that opens the stream. No rate asked for leaves the rate to the robot.
pub fn subscription(hz: u32) -> (r: Call)
    ensures
        r == Call::RobotSubscribe(
            (SubscribeParams {
                hz: if hz > 0 {
                    Some(hz)
                } else {
                    None
                },
            }),
        ),
{
    let rate = if hz > 0 {
        Some(hz)
    } else {
        None
    };
    Call::RobotSubscribe(SubscribeParams { hz: rate })
}

/// What one line of the connection turned out to be.
#[derive(Debug)]
pub enum Spoken {
    /// A request or notification, with the tick in it if it carries one.
    Request(Option<RobotState>),
    /// A response, with the subscription's answer in it if it decodes as one.
    Response(Option<Id>, Option<SubscribeResult>),
    Neither,
}

/// What one line of the connection says. A notification names a method and a response does not,
/// so the two cannot be confused; an answer to another request, and anything else, is ignored.
pub fn decode(line: Spoken) -> (r: Option<Update>)
    ensures
        match line {
            Spoken::Request(Some(state)) => r == Some(Update::State(state)),
            Spoken::Response(Some(Id::Number(n)), Some(result)) if n == SUBSCRIBE_ID => r == Some(
                Update::Policy(result),
            ),
            _ => r is None,
        },
{
    match line {
        Spoken::Request(Some(state)) => Some(Update::State(state)),
        Spoken::Request(None) => None,
        Spoken::Response(Some(Id::Number(n)), Some(result)) => if n == SUBSCRIBE_ID {
            Some(Update::Policy(result))
        } else {
            None
        },
        _ => None,
    }
}

/// How reading the next line went.
#[derive(Debug)]
pub enum Read {
    Failed(String),
    /// Nothing more will come.
    Closed,
    Line,
}

/// How the stream ended, if it did.
pub open spec fn ended_text(read: Read) -> Option<Seq<char>> {
    match read {
        Read::Failed(why) => Some("stream ended: "@ + why@),
        Read::Closed => Some("robotd closed the connection"@),
        Read::Line => None,
    }
}

/// How the stream ended, if it did.
pub fn ended(read: &Read) -> (r: Option<String>)
    ensures
        match ended_text(*read) {
            Some(t) => r matches Some(s) && s@ == t,
            None => r is None,
        },
{
    match read {
        Read::Failed(why) => Some("stream ended: ".to_owned().concat(why.as_str())),
        Read::Closed => Some("robotd closed the connection".to_owned()),
        Read::Line => None,
    }
}

// ── units ────────────────────────────────────────────────────────────────────

/// Which unit the angles on screen are drawn in. The wire is radians, always.
#[derive(Debug, Clone, Copy, PartialEq, Eq, Structural)]
pub enum Units {
    Degrees,
    Radians,
}

impl Units {
    pub open spec fn other(self) -> Units {
        match self {
            Units::Degrees => Units::Radians,
            Units::Radians => Units::Degrees,
        }
    }

    pub open spec fn unit_name(self) -> Seq<char> {
        match self {
            Units::Degrees => "degrees"@,
            Units::Radians => "radians"@,
        }
    }

    pub open spec fn scale_text(self) -> Seq<char> {
        match self {
            Units::Degrees => "±11.5°"@,
            Units::Radians => "±0.20 rad"@,
        }
    }

    pub open spec fn per_second(self) -> Seq<char> {
        match self {
            Units::Degrees => "°/s"@,
            Units::Radians => "rad/s"@,
        }
    }

    /// A number with the sign of its unit: degrees carry their own.
    pub open spec fn angle_text(self, number: Seq<char>) -> Seq<char> {
        match self {
            Units::Degrees => number + "°"@,
            Units::Radians => number,
        }
    }

    /// The other one.
    pub fn toggled(self) -> (r: Self)
        ensures
            r == self.other(),
    {
        match self {
            Units::Degrees => Units::Radians,
            Units::Radians => Units::Degrees,
        }
    }

    /// An angle whose number is already in this unit.
    pub fn angle(self, number: &str) -> (r: String)
        ensures
            r@ == self.angle_text(number@),
    {
        match self {
            Units::Degrees => number.to_owned().concat("°"),
            Units::Radians => number.to_owned(),
        }
    }

    pub fn rate_unit(self) -> (r: &'static str)
        ensures
            r@ == self.per_second(),
    {
        match self {
            Units::Degrees => "°/s",
            Units::Radians => "rad/s",
        }
    }

    pub fn name(self) -> (r: &'static str)
        ensures
            r@ == self.unit_name(),
    {
        match self {
            Units::Degrees => "degrees",
            Units::Radians => "radians",
        }
    }

    /// What a full deviation bar stands for: a fifth of a radian.
    pub fn bar_scale(self) -> (r: String)
        ensures
            r@ == self.scale_text(),
    {
        match self {
            Units::Degrees => "±11.5°".to_owned(),
            Units::Radians => "±0.20 rad".to_owned(),
        }
    }
}

/// There are exactly two units, so toggling twice is doing nothing.
pub proof fn toggling_twice_changes_nothing(units: Units)
    ensures
        units.other().other() == units,
        units.other() != units,
{
}

// ── the view ─────────────────────────────────────────────────────────────────

/// A key that does something, or any other.
#[derive(Debug, Clone, Copy, PartialEq, Eq, Structural)]
pub enum Key {
    Char(char),
    Esc,
    Up,
    Down,
    PageUp,
    PageDown,
    Home,
    Other,
}

/// What a key did.
#[derive(Debug, Clone, Copy, PartialEq, Eq, Structural)]
pub enum Pressed {
    Quit,
    /// The screen has something new to say.
    Redraw,
    /// The camera swings around the robot, one way or the other, and the picture with it.
    TurnBack,
    TurnOn,
    Nothing,
}

/// Everything on screen, plus the history the trace needs.
#[derive(Debug)]
pub struct Screen {
    /// Requested rate, for judging whether the stream has stalled.
    pub hz: u32,
    pub policy: Option<SubscribeResult>,
    pub latest: Option<RobotState>,
    /// When the latest tick arrived, nanoseconds on the caller's clock.
    pub arrived: Option<u64>,
    /// Achieved loop rate, newest first.
    pub trace: VecDeque<u64>,
    /// Best rate seen. Never falls, so the baseline a dip is read against stays put.
    pub peak: u64,
    pub frames: u64,
    /// First joint row on screen.
    pub scroll: usize,
    /// Joint rows the last frame had room for.
    pub visible: usize,
    pub units: Units,
}

/// A screen, by what it holds.
#[verifier::ext_equal]
pub struct ScreenView {
    pub hz: u32,
    pub policy: Option<SubscribeResult>,
    pub latest: Option<RobotState>,
    pub arrived: Option<u64>,
    pub trace: Seq<u64>,
    pub peak: u64,
    pub frames: int,
    pub scroll: int,
    pub visible: int,
    pub units: Units,
}

/// A screen nothing has come to yet.
pub open spec fn fresh(hz: u32) -> ScreenView {
    ScreenView {
        hz,
        policy: None,
        latest: None,
        arrived: None,
        trace: Seq::empty(),
        peak: 0,
        frames: 0,
        scroll: 0,
        visible: 0,
        units: Units::Degrees,
    }
}

/// The loop rate of a tick as a whole number, and at least zero.
pub open spec fn rate_of(state: RobotState) -> u64 {
    rank::whole_of(state.hz) as u64
}

/// A screen after one update, which came at `now_ns`. The end of the stream changes nothing.
pub open spec fn absorbed(v: ScreenView, update: Update, now_ns: u64) -> ScreenView {
    match update {
        Update::Ended(_) => v,
        Update::Policy(policy) => ScreenView { policy: Some(policy), ..v },
        Update::State(state) => ScreenView {
            trace: sampled(v.trace, rate_of(state)),
            peak: if rate_of(state) > v.peak {
                rate_of(state)
            } else {
                v.peak
            },
            frames: v.frames + 1,
            arrived: Some(now_ns),
            latest: Some(state),
            ..v
        },
    }
}

/// `scroll` moved by `rows`, and never above the top.
pub open spec fn scrolled(scroll: usize, rows: int) -> int {
    let to = scroll + rows;
    if to < 0 {
        0
    } else if to > usize::MAX {
        usize::MAX as int
    } else {
        to
    }
}

/// A scroll that stops where the last row is at the bottom of the window.
pub open spec fn fitted(scroll: int, rows: int, visible: int) -> int {
    if rows <= visible {
        0
    } else if scroll > rows - visible {
        rows - visible
    } else {
        scroll
    }
}

/// A page is whatever the last frame had room for, and at least a row.
pub open spec fn page_rows(visible: usize) -> int {
    if visible == 0 {
        1
    } else {
        visible as int
    }
}

/// The trace after one more sample: newest first, the oldest gone once it is full.
pub open spec fn sampled(trace: Seq<u64>, rate: u64) -> Seq<u64> {
    if trace.len() == TRACE_SAMPLES {
        seq![rate] + trace.drop_last()
    } else {
        seq![rate] + trace
    }
}

/// A rate that makes sense to divide by.
pub open spec fn clamped_rate(hz: u32) -> int {
    if hz < 1 {
        1
    } else if hz > 200 {
        200
    } else {
        hz as int
    }
}

/// How long a stream may be quiet: five periods, to the nearest nanosecond, and at least half a
/// second.
pub open spec fn quiet_ns(hz: u32) -> int {
    let h = clamped_rate(hz);
    let five = (5_000_000_000 + h / 2) / h;
    if five < 500_000_000 {
        500_000_000
    } else {
        five
    }
}

fn rate_in_range(hz: u32) -> (r: u64)
    ensures
        r == clamped_rate(hz),
        1 <= r <= 200,
{
    if hz < 1 {
        1
    } else if hz > 200 {
        200
    } else {
        hz as u64
    }
}

/// How long to wait for a tick before looking at the keyboard again: a fifth of a period, to the
/// nearest nanosecond.
pub fn poll_ns(hz: u32) -> (r: u64)
    ensures
        r == (200_000_000 + clamped_rate(hz) / 2) / clamped_rate(hz),
{
    let h = rate_in_range(hz);
    (200_000_000 + h / 2) / h
}

/// Is it time to paint?
pub fn should_paint(fresh: bool, since_ns: u64) -> (r: bool)
    ensures
        r == (fresh || since_ns >= IDLE_REDRAW_NS),
        !fresh ==> (r <==> since_ns >= 250_000_000),
{
    fresh || since_ns >= IDLE_REDRAW_NS
}

/// The stream's reader stopped without saying why.
pub fn reader_stopped() -> (r: Failure)
    ensures
        r.code == exit::UNREACHABLE,
        r.message@ == "the robot.state reader stopped"@,
{
    Failure::new(exit::UNREACHABLE, "the robot.state reader stopped".to_owned())
}

impl Screen {
    /// The trace is bounded and the peak is at least everything in it.
    pub open spec fn wf(&self) -> bool {
        &&& self.trace@.len() <= TRACE_SAMPLES
        &&& forall|i: int| 0 <= i < self.trace@.len() ==> #[trigger] self.trace@[i] <= self.peak
    }

    /// Everything but the scroll is as it was.
    pub open spec fn only_scrolled(&self, before: &Screen) -> bool {
        &&& self.hz == before.hz
        &&& self.policy == before.policy
        &&& self.latest == before.latest
        &&& self.arrived == before.arrived
        &&& self.trace@ == before.trace@
        &&& self.peak == before.peak
        &&& self.frames == before.frames
        &&& self.visible == before.visible
        &&& self.units == before.units
    }

    pub open spec fn view(&self) -> ScreenView {
        ScreenView {
            hz: self.hz,
            policy: self.policy,
            latest: self.latest,
            arrived: self.arrived,
            trace: self.trace@,
            peak: self.peak,
            frames: self.frames as int,
            scroll: self.scroll as int,
            visible: self.visible as int,
            units: self.units,
        }
    }

    pub fn new(hz: u32) -> (r: Self)
        ensures
            r.wf(),
            r.view() == fresh(hz),
    {
        let trace: VecDeque<u64> = VecDeque::new();
        assert(trace@ =~= Seq::<u64>::empty());
        Screen {
            hz,
            policy: None,
            latest: None,
            arrived: None,
            trace,
            peak: 0,
            frames: 0,
            scroll: 0,
            visible: 0,
            units: Units::Degrees,
        }
    }

    pub fn toggle_units(&mut self)
        requires
            old(self).wf(),
        ensures
            final(self).wf(),
            *final(self) == (Screen { units: old(self).units.other(), ..*old(self) }),
    {
        self.units = self.units.toggled();
    }

    /// Move the joint window. Where it ends is known only when a frame is laid out.
    pub fn scroll_by(&mut self, rows: isize)
        requires
            old(self).wf(),
        ensures
            final(self).wf(),
            final(self).only_scrolled(old(self)),
            final(self).scroll == scrolled(old(self).scroll, rows as int),
    {
        if rows >= 0 {
            let down: usize = rows as usize;
            if usize::MAX - self.scroll < down {
                self.scroll = usize::MAX;
            } else {
                self.scroll = self.scroll + down;
            }
        } else {
            let up: usize = if rows == isize::MIN {
                isize::MAX as usize + 1
            } else {
                (-rows) as usize
            };
            if self.scroll < up {
                self.scroll = 0;
            } else {
                self.scroll = self.scroll - up;
            }
        }
    }

    /// Move by whole pages.
    pub fn scroll_pages(&mut self, pages: isize)
        requires
            old(self).wf(),
            old(self).visible <= isize::MAX,
            isize::MIN <= pages * page_rows(old(self).visible) <= isize::MAX,
        ensures
            final(self).wf(),
            final(self).only_scrolled(old(self)),
            final(self).scroll == scrolled(
                old(self).scroll,
                pages * page_rows(old(self).visible),
            ),
    {
        let rows: isize = if self.visible == 0 {
            1
        } else {
            self.visible as isize
        };
        self.scroll_by(pages * rows);
    }

    pub fn scroll_home(&mut self)
        requires
            old(self).wf(),
        ensures
            final(self).wf(),
            final(self).only_scrolled(old(self)),
            final(self).scroll == 0,
    {
        self.scroll = 0;
    }

    /// What a key does. Raw mode delivers the interrupt as a keypress, so the key that stops
    /// every other command stops this one too.
    pub fn press(&mut self, key: Key, control: bool) -> (r: Pressed)
        requires
            old(self).wf(),
            old(self).visible < isize::MAX,
        ensures
            final(self).wf(),
            match key {
                Key::Char('q') | Key::Esc => r == Pressed::Quit && *final(self) == *old(self),
                Key::Char('c') if control => r == Pressed::Quit && *final(self) == *old(self),
                Key::Up | Key::Char('k') => r == Pressed::Redraw && final(self).only_scrolled(
                    old(self),
                ) && final(self).scroll == scrolled(old(self).scroll, -1),
                Key::Down | Key::Char('j') => r == Pressed::Redraw && final(self).only_scrolled(
                    old(self),
                ) && final(self).scroll == scrolled(old(self).scroll, 1),
                Key::PageUp => r == Pressed::Redraw && final(self).only_scrolled(old(self))
                    && final(self).scroll == scrolled(
                    old(self).scroll,
                    -page_rows(old(self).visible),
                ),
                Key::PageDown => r == Pressed::Redraw && final(self).only_scrolled(old(self))
                    && final(self).scroll == scrolled(
                    old(self).scroll,
                    page_rows(old(self).visible),
                ),
                Key::Home => r == Pressed::Redraw && final(self).only_scrolled(old(self))
                    && final(self).scroll == 0,
                Key::Char('u') => r == Pressed::Redraw && *final(self) == (Screen {
                    units: old(self).units.other(),
                    ..*old(self)
                }),
                Key::Char('[') => r == Pressed::TurnBack && *final(self) == *old(self),
                Key::Char(']') => r == Pressed::TurnOn && *final(self) == *old(self),
                _ => r == Pressed::Nothing && *final(self) == *old(self),
            },
            r == Pressed::Quit <==> key == Key::Char('q') || key == Key::Esc || (key == Key::Char(
                'c',
            ) && control),
            r == Pressed::TurnBack <==> key == Key::Char('['),
            r == Pressed::TurnOn <==> key == Key::Char(']'),
            r != Pressed::Redraw ==> *final(self) == *old(self),
            final(self).units != old(self).units <==> key == Key::Char('u'),
            final(self).scroll > old(self).scroll ==> key == Key::Down || key == Key::Char('j') || key
                == Key::PageDown,
            final(self).scroll < old(self).scroll ==> key == Key::Up || key == Key::Char('k') || key
                == Key::PageUp || key == Key::Home,
    {
        match key {
            Key::Char('q') | Key::Esc => Pressed::Quit,
            Key::Char('c') => if control {
                Pressed::Quit
            } else {
                Pressed::Nothing
            },
            Key::Up | Key::Char('k') => {
                self.scroll_by(-1);
                Pressed::Redraw
            },
            Key::Down | Key::Char('j') => {
                self.scroll_by(1);
                Pressed::Redraw
            },
            Key::PageUp => {
                self.scroll_pages(-1);
                Pressed::Redraw
            },
            Key::PageDown => {
                self.scroll_pages(1);
                Pressed::Redraw
            },
            Key::Home => {
                self.scroll_home();
                Pressed::Redraw
            },
            Key::Char('u') => {
                self.toggle_units();
                Pressed::Redraw
            },
            Key::Char('[') => Pressed::TurnBack,
            Key::Char(']') => Pressed::TurnOn,
            _ => Pressed::Nothing,
        }
    }

    /// Take one update. `true` when the screen has something new to say; the end of the stream
    /// is a failure, and changes nothing.
    pub fn absorb(&mut self, update: Update, now_ns: u64) -> (r: Result<bool, Failure>)
        requires
            old(self).wf(),
            old(self).frames < u64::MAX,
        ensures
            final(self).wf(),
            final(self).view() == absorbed(old(self).view(), update, now_ns),
            match update {
                Update::Ended(why) => r matches Err(f) && f.code == exit::UNREACHABLE && f.message
                    == why && *final(self) == *old(self),
                _ => r == Ok::<bool, Failure>(true),
            },
    {
        match update {
            Update::Ended(why) => Err(Failure::new(exit::UNREACHABLE, why)),
            Update::Policy(policy) => {
                self.policy = Some(policy);
                Ok(true)
            },
            Update::State(state) => {
                let rate = rank::whole(state.hz);
                let ghost before = self.trace@;
                if self.trace.len() == TRACE_SAMPLES {
                    let _ = self.trace.pop_back();
                    assert(self.trace@ == before.drop_last());
                }
                self.trace.push_front(rate);
                assert(self.trace@ == sampled(before, rate));
                if rate > self.peak {
                    self.peak = rate;
                }
                self.frames = self.frames + 1;
                self.arrived = Some(now_ns);
                self.latest = Some(state);
                assert forall|i: int| 0 <= i < self.trace@.len() implies #[trigger] self.trace@[i]
                    <= self.peak by {
                    if i > 0 {
                        assert(self.trace@[i] == before[i - 1]);
                    }
                }
                Ok(true)
            },
        }
    }

    /// How long the stream has been quiet, if that is longer than it may be.
    pub fn stalled_for(&self, now_ns: u64) -> (r: Option<u64>)
        ensures
            match self.arrived {
                Some(at) => {
                    let age = if now_ns < at {
                        0
                    } else {
                        now_ns - at
                    };
                    r == if age > quiet_ns(self.hz) {
                        Some(age as u64)
                    } else {
                        None
                    }
                },
                None => r is None,
            },
            r matches Some(age) ==> age > 500_000_000 && self.arrived is Some && now_ns
                == self.arrived->0 + age,
            self.arrived matches Some(at) && now_ns - at <= 500_000_000 ==> r is None,
            self.arrived matches Some(at) && now_ns - at > 5_000_000_000 ==> r is Some,
    {
        match self.arrived {
            Some(at) => {
                let age: u64 = if now_ns < at {
                    0
                } else {
                    now_ns - at
                };
                let h = rate_in_range(self.hz);
                proof {
                    a_faster_rate_has_a_shorter_period(1, h as int);
                }
                let five: u64 = (5_000_000_000 + h / 2) / h;
                let quiet: u64 = if five < 500_000_000 {
                    500_000_000
                } else {
                    five
                };
                if age > quiet {
                    Some(age)
                } else {
                    None
                }
            },
            None => None,
        }
    }

    /// Lay out the joint window in a block `joints_height` rows high: two borders and the column
    /// header come off it, and the scroll stops at the last joint.
    pub fn fit(&mut self, joints_height: u16, rows: usize)
        requires
            old(self).wf(),
        ensures
            final(self).wf(),
            final(self).visible == if joints_height < 3 {
                0
            } else {
                joints_height - 3
            },
            final(self).scroll == fitted(
                old(self).scroll as int,
                rows as int,
                final(self).visible as int,
            ),
            final(self).only_scrolled(&(Screen { visible: final(self).visible, ..*old(self) })),
            final(self).scroll <= old(self).scroll,
            final(self).scroll > 0 ==> final(self).scroll + final(self).visible <= rows,
            old(self).scroll + final(self).visible <= rows ==> final(self).scroll
                == old(self).scroll,
    {
        self.visible = if joints_height < 3 {
            0
        } else {
            joints_height as usize - 3
        };
        let most: usize = if rows < self.visible {
            0
        } else {
            rows - self.visible
        };
        if self.scroll > most {
            self.scroll = most;
        }
    }

    /// What the joints block says about itself: the bar's scale, and which joints are on screen
    /// when not all of them are.
    pub fn window_note(&self, count: usize, visible: usize) -> (r: String)
        requires
            self.scroll < u64::MAX,
            self.scroll + visible <= usize::MAX,
        ensures
            r@ == note_text(self.units, self.scroll as nat, count as nat, visible as nat),
    {
        let mut out = " ".to_owned();
        out.append(self.units.name());
        if visible >= count {
            out.append(" · bar reaches ");
            out.append(self.units.bar_scale().as_str());
            out.append(" ");
            return out;
        }
        let shown: usize = self.scroll + visible;
        let last: usize = if shown < count {
            shown
        } else {
            count
        };
        out.append(" · bar ");
        out.append(self.units.bar_scale().as_str());
        out.append(" · ");
        out.append(text::decimal(self.scroll as u64 + 1).as_str());
        out.append("–");
        out.append(text::decimal(last as u64).as_str());
        out.append(" of ");
        out.append(text::decimal(count as u64).as_str());
        out.append(" · ↑↓ scrolls ");
        out
    }

    /// The keys, on the border of the robot block: what each does, and the unit one would
    /// change to.
    pub fn key_hint(&self) -> (r: String)
        ensures
            r@ == " q quits · ↑↓ scrolls · u "@ + self.units.other().unit_name() + " "@,
    {
        let mut out = " q quits · ↑↓ scrolls · u ".to_owned();
        out.append(self.units.toggled().name());
        out.append(" ");
        out
    }

    /// What the trace says about itself.
    pub fn trace_title(&self) -> (r: String)
        ensures
            r@ == trace_text(self.trace@, self.frames, self.peak),
    {
        if self.trace.len() == 0 {
            return " loop rate ".to_owned();
        }
        let mut low: u64 = u64::MAX;
        let mut high: u64 = 0;
        let mut i: usize = 0;
        while i < self.trace.len()
            invariant
                i <= self.trace@.len(),
                low == lowest(self.trace@.take(i as int)),
                high == highest(self.trace@.take(i as int)),
            decreases self.trace@.len() - i,
        {
            assert(self.trace@.take(i + 1).drop_last() == self.trace@.take(i as int));
            assert(self.trace@.take(i + 1).last() == self.trace@[i as int]);
            let v = self.trace[i];
            if v < low {
                low = v;
            }
            if v > high {
                high = v;
            }
            i = i + 1;
        }
        assert(self.trace@.take(i as int) == self.trace@);
        let mut out = " loop rate · ".to_owned();
        out.append(text::decimal(low).as_str());
        out.append("–");
        out.append(text::decimal(high).as_str());
        out.append(" Hz over ");
        out.append(text::decimal(self.frames).as_str());
        out.append(" frames · full height ");
        out.append(text::decimal(self.peak).as_str());
        out.append(" Hz · newest right ");
        out
    }

    /// The full height of the trace: the best rate seen, so that a loop at half speed does not
    /// draw like a healthy one.
    pub fn trace_height(&self) -> (r: u64)
        ensures
            r == if self.peak == 0 {
                1
            } else {
                self.peak
            },
            r > 0,
            self.peak > 0 ==> r == self.peak,
    {
        if self.peak == 0 {
            1
        } else {
            self.peak
        }
    }
}

/// The least of the samples.
pub open spec fn lowest(trace: Seq<u64>) -> u64
    decreases trace.len(),
{
    if trace.len() == 0 {
        u64::MAX
    } else if trace.last() < lowest(trace.drop_last()) {
        trace.last()
    } else {
        lowest(trace.drop_last())
    }
}

/// The greatest of the samples.
pub open spec fn highest(trace: Seq<u64>) -> u64
    decreases trace.len(),
{
    if trace.len() == 0 {
        0
    } else if trace.last() > highest(trace.drop_last()) {
        trace.last()
    } else {
        highest(trace.drop_last())
    }
}

/// What the trace says about itself.
pub open spec fn trace_text(trace: Seq<u64>, frames: u64, peak: u64) -> Seq<char> {
    if trace.len() == 0 {
        " loop rate "@
    } else {
        " loop rate · "@ + text::dec(lowest(trace) as nat) + "–"@ + text::dec(
            highest(trace) as nat,
        ) + " Hz over "@ + text::dec(frames as nat) + " frames · full height "@ + text::dec(
            peak as nat,
        ) + " Hz · newest right "@
    }
}

/// What the joints block says about itself.
pub open spec fn note_text(units: Units, scroll: nat, count: nat, visible: nat) -> Seq<char> {
    if visible >= count {
        " "@ + units.unit_name() + " · bar reaches "@ + units.scale_text() + " "@
    } else {
        let last = if scroll + visible < count {
            scroll + visible
        } else {
            count
        };
        " "@ + units.unit_name() + " · bar "@ + units.scale_text() + " · "@ + text::dec(scroll + 1)
            + "–"@ + text::dec(last) + " of "@ + text::dec(count) + " · ↑↓ scrolls "@
    }
}

/// Rows the trace gets on a screen `height` high: what the joints leave, within limits. A joint
/// scrolled away can be reached, a missing loop rate cannot.
pub fn trace_rows(height: u16, rows: usize) -> (r: u16)
    requires
        rows <= 65524,
    ensures
        r == {
            let left = height - (HEADER_HEIGHT + rows + 3);
            if left < 3 {
                3
            } else if left > 6 {
                6
            } else {
                left
            }
        },
        3 <= r <= 6,
        rows + 14 <= height <= rows + 17 ==> height == rows + 11 + r,
{
    let taken: u16 = HEADER_HEIGHT + rows as u16 + 3;
    let left: u16 = if height < taken {
        0
    } else {
        height - taken
    };
    if left < 3 {
        3
    } else if left > 6 {
        6
    } else {
        left
    }
}

/// How many joint rows a frame has: the names known here, and anything more the wire carried.
pub fn joint_rows(joints: usize, targets: usize, names: usize) -> (r: usize)
    ensures
        r >= joints && r >= targets && r >= names,
        r == joints || r == targets || r == names,
{
    let longer: usize = if joints > targets {
        joints
    } else {
        targets
    };
    if longer > names {
        longer
    } else {
        names
    }
}

/// A joint's name, or its number where this build has no name for it.
pub open spec fn label_text(i: nat, names: Seq<&str>) -> Seq<char> {
    if i < names.len() {
        names[i as int]@
    } else {
        "joint "@ + text::dec(i)
    }
}

/// A joint's name, or its number where this build has no name for it.
pub fn joint_label(i: usize, names: &[&str]) -> (r: String)
    ensures
        r@ == label_text(i as nat, names@),
{
    if i < names.len() {
        names[i].to_owned()
    } else {
        "joint ".to_owned().concat(text::decimal(i as u64).as_str())
    }
}

/// However low the window, every joint can be scrolled to, and a scroll that shows one stays
/// where it is when the window is laid out.
pub proof fn every_joint_can_be_reached(rows: int, visible: int, row: int)
    requires
        0 <= row < rows,
        0 < visible,
    ensures
        exists|scroll: int|
            0 <= scroll <= row < scroll + visible && #[trigger] fitted(scroll, rows, visible)
                == scroll,
{
    let scroll = if row < visible {
        0
    } else {
        row - visible + 1
    };
    assert(fitted(scroll, rows, visible) == scroll);
}

/// Whatever is fed to it for however long, the trace never outgrows its bound, and holds the
/// newest samples.
pub proof fn the_trace_does_not_grow_without_end(trace: Seq<u64>, rate: u64)
    requires
        trace.len() <= TRACE_SAMPLES,
    ensures
        sampled(trace, rate).len() <= TRACE_SAMPLES,
        sampled(trace, rate)[0] == rate,
        forall|i: int|
            0 < i < sampled(trace, rate).len() ==> sampled(trace, rate)[i] == trace[i - 1],
        trace.len() < TRACE_SAMPLES ==> sampled(trace, rate).len() == trace.len() + 1,
{
}

/// A screen that was opened at this rate, after everything it has heard: each update, and when it
/// came.
pub open spec fn after(hz: u32, heard: Seq<(Update, u64)>) -> ScreenView
    decreases heard.len(),
{
    if heard.len() == 0 {
        fresh(hz)
    } else {
        absorbed(after(hz, heard.drop_last()), heard.last().0, heard.last().1)
    }
}

/// The ticks among what was heard, in order, each with when it came.
pub open spec fn ticks(heard: Seq<(Update, u64)>) -> Seq<(RobotState, u64)>
    decreases heard.len(),
{
    if heard.len() == 0 {
        Seq::empty()
    } else {
        match heard.last().0 {
            Update::State(state) => ticks(heard.drop_last()).push((state, heard.last().1)),
            _ => ticks(heard.drop_last()),
        }
    }
}

/// The policies among what was heard, in order.
pub open spec fn policies(heard: Seq<(Update, u64)>) -> Seq<SubscribeResult>
    decreases heard.len(),
{
    if heard.len() == 0 {
        Seq::empty()
    } else {
        match heard.last().0 {
            Update::Policy(policy) => policies(heard.drop_last()).push(policy),
            _ => policies(heard.drop_last()),
        }
    }
}

/// The loop rates of the ticks, in order.
pub open spec fn rates(heard: Seq<(Update, u64)>) -> Seq<u64> {
    ticks(heard).map_values(|t: (RobotState, u64)| rate_of(t.0))
}

/// However long it has listened, a screen has counted every tick, shows the latest one and the
/// latest policy, holds the newest rates up to its bound, newest first, and has the greatest of
/// all the rates as its peak. What was asked of it and where it is scrolled to stay as they were.
pub proof fn a_screen_keeps_the_newest_of_what_it_heard(hz: u32, heard: Seq<(Update, u64)>)
    ensures
        ({
            let v = after(hz, heard);
            let k = ticks(heard).len() as int;
            &&& v.frames == k
            &&& v.trace.len() == if k < TRACE_SAMPLES {
                k
            } else {
                TRACE_SAMPLES as int
            }
            &&& forall|i: int| 0 <= i < v.trace.len() ==> #[trigger] v.trace[i] == rates(heard)[k
                - 1 - i]
            &&& v.peak == highest(rates(heard))
            &&& v.latest == if k > 0 {
                Some(ticks(heard)[k - 1].0)
            } else {
                None
            }
            &&& v.arrived == if k > 0 {
                Some(ticks(heard)[k - 1].1)
            } else {
                None
            }
            &&& v.policy == if policies(heard).len() > 0 {
                Some(policies(heard).last())
            } else {
                None
            }
            &&& v.hz == hz && v.scroll == 0 && v.visible == 0 && v.units == Units::Degrees
        }),
    decreases heard.len(),
{
    if heard.len() > 0 {
        let rest = heard.drop_last();
        a_screen_keeps_the_newest_of_what_it_heard(hz, rest);
        let before = after(hz, rest);
        let v = after(hz, heard);
        let k = ticks(heard).len() as int;
        match heard.last().0 {
            Update::State(state) => {
                assert(rates(heard) =~= rates(rest).push(rate_of(state)));
                assert(rates(heard).drop_last() == rates(rest));
                assert(v.trace == sampled(before.trace, rate_of(state)));
                assert forall|i: int| 0 <= i < v.trace.len() implies #[trigger] v.trace[i] == rates(
                    heard,
                )[k - 1 - i] by {
                    if i > 0 {
                        assert(v.trace[i] == before.trace[i - 1]);
                        assert(before.trace[i - 1] == rates(rest)[k - 1 - 1 - (i - 1)]);
                    }
                }
            },
            _ => {
                assert(ticks(heard) == ticks(rest));
            },
        }
    }
}

/// An angle is its number, and behind it a degree sign exactly where the unit is degrees.
pub proof fn only_degrees_carry_a_sign(units: Units, number: Seq<char>)
    ensures
        units.angle_text(number).take(number.len() as int) == number,
        units.angle_text(number).skip(number.len() as int) == if units == Units::Degrees {
            seq!['°']
        } else {
            Seq::empty()
        },
{
    reveal_strlit("°");
}

/// The two units are each other's other, and differ in every name they go by.
pub proof fn there_are_two_units(units: Units)
    ensures
        units.other() != units,
        units.other().other() == units,
        units.other().unit_name() != units.unit_name(),
        units.other().per_second() != units.per_second(),
        units.other().scale_text() != units.scale_text(),
        (units == Units::Degrees) == units.per_second().contains('°'),
        (units == Units::Degrees) == units.scale_text().contains('°'),
        (units == Units::Degrees) == (units.unit_name()[0] == 'd'),
{
    reveal_strlit("degrees");
    reveal_strlit("radians");
    reveal_strlit("°/s");
    reveal_strlit("rad/s");
    reveal_strlit("±11.5°");
    reveal_strlit("±0.20 rad");
    assert("degrees"@[0] != "radians"@[0]);
    assert("°/s"@.len() != "rad/s"@.len());
    assert("±11.5°"@.len() != "±0.20 rad"@.len());
    assert("°/s"@[0] == '°');
    assert("±11.5°"@[5] == '°');
}

/// The least and the greatest of some samples are among them, and every sample lies between.
pub proof fn every_sample_lies_between(trace: Seq<u64>)
    requires
        trace.len() > 0,
    ensures
        trace.contains(lowest(trace)),
        trace.contains(highest(trace)),
        forall|i: int| 0 <= i < trace.len() ==> lowest(trace) <= #[trigger] trace[i] <= highest(trace),
    decreases trace.len(),
{
    let rest = trace.drop_last();
    let n = trace.len() - 1;
    assert(trace[n] == trace.last());
    if rest.len() > 0 {
        every_sample_lies_between(rest);
        let i = choose|i: int| 0 <= i < rest.len() && rest[i] == lowest(rest);
        let j = choose|j: int| 0 <= j < rest.len() && rest[j] == highest(rest);
        assert(trace[i] == lowest(rest));
        assert(trace[j] == highest(rest));
        assert forall|k: int| 0 <= k < trace.len() implies lowest(trace) <= #[trigger] trace[k]
            <= highest(trace) by {
            if k < n {
                assert(rest[k] == trace[k]);
            }
        }
    }
}

/// The trace in parts.
spec fn trace_parts(trace: Seq<u64>, frames: u64, peak: u64) -> Seq<Seq<char>> {
    seq![
        " loop rate · "@,
        text::dec(lowest(trace) as nat),
        "–"@,
        text::dec(highest(trace) as nat),
        " Hz over "@,
        text::dec(frames as nat),
        " frames · full height "@,
        text::dec(peak as nat),
        " Hz · newest right "@,
    ]
}

#[verifier::rlimit(30)]
proof fn the_trace_reads(trace: Seq<u64>, frames: u64, peak: u64)
    requires
        trace.len() > 0,
    ensures
        trace_text(trace, frames, peak) == text::run_together(trace_parts(trace, frames, peak)),
{
    reveal_with_fuel(text::run_together, 10);
    let p = trace_parts(trace, frames, peak);
    assert(Seq::<char>::empty() + p[0] =~= p[0]);
}

/// The trace says between which rates it runs, the lower first, and behind them over how many
/// frames and what its full height stands for; another count or height changes nothing else.
#[verifier::rlimit(30)]
pub proof fn the_trace_says_what_it_shows(
    trace: Seq<u64>,
    low: u64,
    high: u64,
    frames: u64,
    more: u64,
    peak: u64,
    higher: u64,
)
    requires
        trace.contains(low),
        trace.contains(high),
        forall|i: int| 0 <= i < trace.len() ==> low <= #[trigger] trace[i] <= high,
    ensures
        text::reads(
            trace_text(trace, frames, peak),
            0,
            " loop rate · "@ + text::dec(low as nat) + "–"@ + text::dec(high as nat) + " Hz over "@,
        ),
        text::differ_behind(
            trace_text(trace, frames, peak),
            trace_text(trace, more, peak),
            " Hz over "@,
            text::dec(frames as nat),
            text::dec(more as nat),
        ),
        text::differ_behind(
            trace_text(trace, frames, peak),
            trace_text(trace, frames, higher),
            " frames · full height "@,
            text::dec(peak as nat),
            text::dec(higher as nat),
        ),
        trace_text(Seq::empty(), frames, peak) == " loop rate "@,
{
    every_sample_lies_between(trace);
    let i = choose|i: int| 0 <= i < trace.len() && trace[i] == low;
    let j = choose|j: int| 0 <= j < trace.len() && trace[j] == high;
    let k = choose|k: int| 0 <= k < trace.len() && trace[k] == lowest(trace);
    let l = choose|l: int| 0 <= l < trace.len() && trace[l] == highest(trace);
    assert(low == lowest(trace) && high == highest(trace)) by {
        assert(lowest(trace) <= trace[i]);
        assert(low <= trace[k]);
        assert(trace[j] <= highest(trace));
        assert(trace[l] <= high);
    }
    the_trace_reads(trace, frames, peak);
    the_trace_reads(trace, more, peak);
    the_trace_reads(trace, frames, higher);
    let parts = trace_parts(trace, frames, peak);
    text::a_change_in_one_part(parts, trace_parts(trace, more, peak), 5);
    text::a_change_in_one_part(parts, trace_parts(trace, frames, higher), 7);
    let start = " loop rate · "@ + text::dec(low as nat) + "–"@ + text::dec(high as nat)
        + " Hz over "@;
    assert(trace_text(trace, frames, peak).subrange(0, start.len() as int) =~= start);
}

/// The joints block numbers the rows that are on screen, counted from one, out of all of them:
/// `first` to `last` are exactly those the window shows. It names the unit and the bar's scale
/// whether or not there is anything to scroll.
pub proof fn the_window_numbers_what_it_shows(
    units: Units,
    scroll: nat,
    count: nat,
    visible: nat,
    first: nat,
    last: nat,
)
    requires
        scroll < count,
        0 < visible,
        first <= last,
        forall|row: int|
            #![trigger row + 1]
            first <= row + 1 <= last <==> scroll <= row < scroll + visible && row < count,
    ensures
        ({
            let t = note_text(units, scroll, count, visible);
            let middle = " · "@ + text::dec(first) + "–"@ + text::dec(last) + " of "@ + text::dec(
                count,
            );
            &&& visible < count ==> text::surrounded(
                t,
                " "@ + units.unit_name() + " · bar "@ + units.scale_text(),
                middle,
                " · ↑↓ scrolls "@,
            )
            &&& visible >= count ==> t == " "@ + units.unit_name() + " · bar reaches "@
                + units.scale_text() + " "@
        }),
{
    assert(first == scroll + 1) by {
        let a = scroll as int;
        let b = first - 1;
        assert(first <= a + 1 <= last);
        assert(first <= b + 1 <= last);
    }
    let end = if scroll + visible < count {
        scroll + visible
    } else {
        count
    };
    assert(last == end) by {
        let a = end - 1;
        let b = last - 1;
        assert(first <= a + 1 <= last);
        assert(first <= b + 1 <= last);
    }
    if visible < count {
        let before = " "@ + units.unit_name() + " · bar "@ + units.scale_text();
        let middle = " · "@ + text::dec(first) + "–"@ + text::dec(last) + " of "@ + text::dec(
            count,
        );
        assert(note_text(units, scroll, count, visible) =~= before + middle + " · ↑↓ scrolls "@);
    }
}

/// Scrolling moves by as many rows as it says, one way and back again, stops at the top and never
/// wraps.
pub proof fn scrolling_back_undoes_scrolling(scroll: usize, rows: int)
    ensures
        0 <= scroll + rows <= usize::MAX ==> scrolled(scroll, rows) == scroll + rows,
        0 <= scroll + rows <= usize::MAX ==> scrolled(scrolled(scroll, rows) as usize, -rows)
            == scroll,
        scroll + rows < 0 ==> scrolled(scroll, rows) == 0,
        rows >= 0 ==> scrolled(scroll, rows) >= scroll,
        rows <= 0 ==> scrolled(scroll, rows) <= scroll,
        0 <= scrolled(scroll, rows) <= usize::MAX,
{
}

/// A window that is laid out shows rows only: its scroll is left alone as long as the window is
/// full, and is otherwise moved just so far that the last row is at the bottom, or to the top
/// where all the rows fit.
pub proof fn a_fitted_window_is_full(scroll: int, rows: int, visible: int)
    requires
        0 <= scroll,
        0 <= rows,
        0 <= visible,
    ensures
        ({
            let at = fitted(scroll, rows, visible);
            &&& 0 <= at <= scroll
            &&& scroll + visible <= rows ==> at == scroll
            &&& scroll + visible > rows && visible <= rows ==> at + visible == rows
            &&& visible >= rows ==> at == 0
            &&& fitted(at, rows, visible) == at
        }),
{
}

/// A page is what is on screen, and a row where nothing is, so paging always moves.
pub proof fn paging_moves(visible: usize)
    ensures
        page_rows(visible) > 0,
        visible > 0 ==> page_rows(visible) == visible,
        visible == 0 ==> page_rows(visible) == 1,
{
}

/// A stream may be quiet for five of its periods, to the nearest nanosecond, and never for less
/// than half a second. A faster stream may be quiet no longer than a slower one, and rates
/// nothing runs at count as the nearest that something does.
pub proof fn a_stream_may_miss_five_periods(hz: u32, faster: u32)
    requires
        hz <= faster,
    ensures
        ({
            let h = if hz < 1 {
                1int
            } else if hz > 200 {
                200
            } else {
                hz as int
            };
            let quiet = quiet_ns(hz);
            &&& quiet >= 500_000_000
            &&& quiet > 500_000_000 ==> -h <= 2 * (quiet * h - 5_000_000_000) <= h
            &&& quiet == 500_000_000 ==> 2 * (quiet * h - 5_000_000_000) >= -h
        }),
        quiet_ns(faster) <= quiet_ns(hz),
        1 <= clamped_rate(hz) <= 200,
        1 <= hz <= 200 ==> clamped_rate(hz) == hz,
{
    let h = clamped_rate(hz);
    let g = clamped_rate(faster);
    let n = 5_000_000_000 + h / 2;
    let five = n / h;
    vstd::arithmetic::div_mod::lemma_fundamental_div_mod(n, h);
    vstd::arithmetic::div_mod::lemma_mod_bound(n, h);
    assert(five * h == n - n % h) by (nonlinear_arith)
        requires
            n == h * five + n % h,
    ;
    if five < 500_000_000 {
        assert(five * h <= 499_999_999 * h) by (nonlinear_arith)
            requires
                five <= 499_999_999,
                h >= 1,
        ;
    }
    let m = 5_000_000_000 + g / 2;
    let other = m / g;
    vstd::arithmetic::div_mod::lemma_fundamental_div_mod(m, g);
    vstd::arithmetic::div_mod::lemma_mod_bound(m, g);
    assert(other <= five) by {
        a_faster_rate_has_a_shorter_period(h, g);
    }
}

proof fn a_faster_rate_has_a_shorter_period(h: int, g: int)
    requires
        1 <= h <= g <= 200,
    ensures
        (5_000_000_000 + g / 2) / g <= (5_000_000_000 + h / 2) / h,
{
    let (n, m) = (5_000_000_000 + h / 2, 5_000_000_000 + g / 2);
    let (p, q) = (n / h, m / g);
    vstd::arithmetic::div_mod::lemma_fundamental_div_mod(n, h);
    vstd::arithmetic::div_mod::lemma_mod_bound(n, h);
    vstd::arithmetic::div_mod::lemma_fundamental_div_mod(m, g);
    vstd::arithmetic::div_mod::lemma_mod_bound(m, g);
    if q > p {
        assert(g * q >= g * (p + 1)) by (nonlinear_arith)
            requires
                q >= p + 1,
                g >= 1,
        ;
        assert(g * (p + 1) == g * p + g) by (nonlinear_arith);
        assert(h * (p + 1) == h * p + h) by (nonlinear_arith);
        assert((g - h) * (p + 1) >= 0) by (nonlinear_arith)
            requires
                g >= h,
                p >= 0,
        ;
        assert((g - h) * (p + 1) == g * (p + 1) - h * (p + 1)) by (nonlinear_arith);
        if g > h {
            assert(p >= 24_000_000) by {
                assert(h * p > n - h);
                if p < 24_000_000 {
                    assert(h * p <= 200 * 24_000_000) by (nonlinear_arith)
                        requires
                            0 <= p < 24_000_000,
                            1 <= h <= 200,
                    ;
                }
            }
            assert((g - h) * (p + 1) >= 24_000_000) by (nonlinear_arith)
                requires
                    g - h >= 1,
                    p >= 24_000_000,
            ;
        }
    }
}

/// The end of a stream is told by what ended it, and a line ends nothing.
pub proof fn an_ended_stream_says_how(why: String)
    ensures
        ended_text(Read::Failed(why)) == Some("stream ended: "@ + why@),
        ended_text(Read::Closed) is Some,
        ended_text(Read::Line) is None,
{
}

/// Scrolling leaves everything else on the screen as it was.
pub proof fn scrolling_changes_nothing_else(after: Screen, before: Screen)
    requires
        after.only_scrolled(&before),
    ensures
        after.view() == (ScreenView { scroll: after.scroll as int, ..before.view() }),
{
}

/// A screen is seen by everything it holds.
pub proof fn a_screen_is_seen_whole(screen: Screen)
    ensures
        ({
            let v = screen.view();
            &&& v.hz == screen.hz
            &&& v.policy == screen.policy
            &&& v.latest == screen.latest
            &&& v.arrived == screen.arrived
            &&& v.trace == screen.trace@
            &&& v.peak == screen.peak
            &&& v.frames == screen.frames
            &&& v.scroll == screen.scroll
            &&& v.visible == screen.visible
            &&& v.units == screen.units
        }),
{
}

/// The rate of a tick is its own loop rate, to the nearest whole number.
pub proof fn a_tick_is_sampled_by_its_own_rate(state: RobotState)
    ensures
        rank::exponent(state.hz) < 1075 && state.hz < 0x8000_0000_0000_0000 ==> {
            let units = power2::pow2((1075 - rank::exponent(state.hz)) as nat) as int;
            let n = rate_of(state) as int;
            units * (2 * n - 1) <= 2 * rank::significand(state.hz) < units * (2 * n + 1)
        },
        state.hz >= 0x8000_0000_0000_0000 ==> rate_of(state) == 0,
{
    rank::the_nearest_whole_number_is_found(state.hz);
}

/// A joint goes by its name, and by its number where it has none here.
pub proof fn a_joint_goes_by_its_name(i: nat, j: nat, names: Seq<&str>)
    ensures
        i < names.len() ==> label_text(i, names) == names[i as int]@,
        i >= names.len() && j >= names.len() ==> text::differ_behind(
            label_text(i, names),
            label_text(j, names),
            "joint "@,
            text::dec(i),
            text::dec(j),
        ),
{
    let none = Seq::<char>::empty();
    text::a_change_behind_a_label(none, "joint "@, text::dec(i), text::dec(j), none);
    assert(none + "joint "@ + text::dec(i) + none =~= "joint "@ + text::dec(i));
    assert(none + "joint "@ + text::dec(j) + none =~= "joint "@ + text::dec(j));
}

/// A screen holds the rates of the last six hundred ticks and no more.
pub proof fn six_hundred_ticks_are_held(hz: u32, heard: Seq<(Update, u64)>)
    ensures
        ticks(heard).len() >= 600 ==> after(hz, heard).trace.len() == 600,
        ticks(heard).len() < 600 ==> after(hz, heard).trace.len() == ticks(heard).len(),
{
    a_screen_keeps_the_newest_of_what_it_heard(hz, heard);
}

} // verus!
