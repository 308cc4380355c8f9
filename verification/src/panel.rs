//! The lines of the live view, as pieces of styled text.
//!
//! Everything is spelled out: axis names, units, the sense of each direction. A reader must not
//! have to know which of three numbers turns the robot left.
use vstd::arithmetic::power2;
use vstd::prelude::*;

use crate::monitor;
use crate::monitor::{RobotState, SubscribeResult, Units, BAR_HALF};
use crate::rank;
use crate::text;

verus! {

#[derive(Debug, Clone, Copy, PartialEq, Eq, Structural)]
pub enum Ink {
    /// The terminal's own.
    Plain,
    Cyan,
    Green,
    Yellow,
    Red,
    Magenta,
}

/// How a piece of text looks.
#[derive(Debug, Clone, Copy, PartialEq, Eq, Structural)]
pub struct Look {
    pub ink: Ink,
    pub bold: bool,
    pub dim: bool,
}

/// A piece of text and how it looks.
#[derive(Debug, PartialEq, Eq)]
pub struct Span {
    pub text: String,
    pub look: Look,
}

pub type SpanView = (Seq<char>, Look);

impl Span {
    pub open spec fn view(&self) -> SpanView {
        (self.text@, self.look)
    }
}

/// What each piece holds.
pub open spec fn spans(line: Seq<Span>) -> Seq<SpanView> {
    line.map_values(|s: Span| s.view())
}

/// What each line holds.
pub open spec fn lines(page: Seq<Vec<Span>>) -> Seq<Seq<SpanView>> {
    page.map_values(|l: Vec<Span>| spans(l@))
}

pub open spec fn plain_look() -> Look {
    Look { ink: Ink::Plain, bold: false, dim: false }
}

pub open spec fn dim_look() -> Look {
    Look { ink: Ink::Plain, bold: false, dim: true }
}

pub open spec fn ink_look(ink: Ink) -> Look {
    Look { ink, bold: false, dim: false }
}

pub open spec fn bold_look(ink: Ink) -> Look {
    Look { ink, bold: true, dim: false }
}

fn plain(s: &str) -> (r: Span)
    ensures
        r.view() == (s@, plain_look()),
{
    Span { text: s.to_owned(), look: Look { ink: Ink::Plain, bold: false, dim: false } }
}

fn dim(s: &str) -> (r: Span)
    ensures
        r.view() == (s@, dim_look()),
{
    Span { text: s.to_owned(), look: Look { ink: Ink::Plain, bold: false, dim: true } }
}

fn inked(s: &str, ink: Ink) -> (r: Span)
    ensures
        r.view() == (s@, ink_look(ink)),
{
    Span { text: s.to_owned(), look: Look { ink, bold: false, dim: false } }
}

fn bold(s: &str, ink: Ink) -> (r: Span)
    ensures
        r.view() == (s@, bold_look(ink)),
{
    Span { text: s.to_owned(), look: Look { ink, bold: true, dim: false } }
}

// ── the policy ───────────────────────────────────────────────────────────────

/// Which policy drives the robot. `None` is a robot that did not say.
pub open spec fn caption(policy: Option<SubscribeResult>) -> Seq<SpanView> {
    match policy {
        None => seq![(" policy · not reported by robotd "@, dim_look())],
        Some(p) => seq![(" policy · "@, dim_look())] + match (p.walk, p.stand) {
            (Some(walk), Some(stand)) => seq![
                (walk@, bold_look(Ink::Cyan)),
                (" · standing "@, dim_look()),
                (stand@, ink_look(Ink::Cyan)),
            ],
            (Some(walk), None) => seq![
                (walk@, bold_look(Ink::Cyan)),
                (" · no standing policy"@, dim_look()),
            ],
            (None, _) => seq![("none loaded"@, dim_look())],
        } + match p.unavailable {
            Some(why) => seq![(" — "@ + why@, ink_look(Ink::Yellow))],
            None => Seq::empty(),
        } + seq![(" "@, dim_look())],
    }
}

/// Which network is driving this robot. A walking policy without a standing one runs at every
/// velocity, so that is said out loud.
pub fn policy_caption(policy: Option<&SubscribeResult>) -> (r: Vec<Span>)
    ensures
        spans(r@) =~= caption(
            match policy {
                Some(p) => Some(*p),
                None => None,
            },
        ),
{
    let mut out: Vec<Span> = Vec::new();
    match policy {
        None => {
            out.push(dim(" policy · not reported by robotd "));
        },
        Some(p) => {
            out.push(dim(" policy · "));
            match &p.walk {
                Some(walk) => {
                    out.push(bold(walk.as_str(), Ink::Cyan));
                    match &p.stand {
                        Some(stand) => {
                            out.push(dim(" · standing "));
                            out.push(inked(stand.as_str(), Ink::Cyan));
                        },
                        None => {
                            out.push(dim(" · no standing policy"));
                        },
                    }
                },
                None => {
                    out.push(dim("none loaded"));
                },
            }
            match &p.unavailable {
                Some(why) => {
                    out.push(inked(" — ".to_owned().concat(why.as_str()).as_str(), Ink::Yellow));
                },
                None => {},
            }
            out.push(dim(" "));
        },
    }
    out
}

/// The block's own title: who is driving, how fast the loop goes, and whether the frame on
/// screen is still arriving.
pub open spec fn title_of(
    policy: Seq<char>,
    t: Seq<char>,
    hz: Seq<char>,
    missed: u64,
    stalled: Option<Seq<char>>,
) -> Seq<SpanView> {
    seq![
        (" policy "@, plain_look()),
        (policy, bold_look(Ink::Cyan)),
        (" · t "@ + t + " s · "@, plain_look()),
        (hz + " Hz"@, ink_look(Ink::Cyan)),
        (" · missed "@, plain_look()),
        (
            text::dec(missed as nat),
            if missed > 0 {
                ink_look(Ink::Yellow)
            } else {
                dim_look()
            },
        ),
        (" "@, plain_look()),
    ] + match stalled {
        Some(age) => seq![("· STALLED "@ + age + "s "@, bold_look(Ink::Red))],
        None => Seq::empty(),
    }
}

/// The block's title. The time, the rate and the age are given as they are to be shown.
pub fn title(policy: &str, t: &str, hz: &str, missed: u64, stalled: Option<&str>) -> (r: Vec<Span>)
    ensures
        spans(r@) =~= title_of(
            policy@,
            t@,
            hz@,
            missed,
            match stalled {
                Some(s) => Some(s@),
                None => None,
            },
        ),
{
    let mut out: Vec<Span> = Vec::new();
    out.push(plain(" policy "));
    out.push(bold(policy, Ink::Cyan));
    out.push(plain(" · t ".to_owned().concat(t).concat(" s · ").as_str()));
    out.push(inked(hz.to_owned().concat(" Hz").as_str(), Ink::Cyan));
    out.push(plain(" · missed "));
    let count = text::decimal(missed);
    if missed > 0 {
        out.push(inked(count.as_str(), Ink::Yellow));
    } else {
        out.push(dim(count.as_str()));
    }
    out.push(plain(" "));
    if let Some(age) = stalled {
        out.push(bold("· STALLED ".to_owned().concat(age).concat("s ").as_str(), Ink::Red));
    }
    out
}

// ── the command and the sensing ──────────────────────────────────────────────

/// One axis of the command: what was asked for and what was applied, with the difference marked.
pub open spec fn axis_line(
    name: Seq<char>,
    sense: Seq<char>,
    unit: Seq<char>,
    asked: Seq<char>,
    applied: Seq<char>,
    clamped: bool,
) -> Seq<SpanView> {
    seq![
        (
            " "@ + text::padded(name, 5) + text::padded(sense, 10) + text::right_aligned(asked, 7),
            plain_look(),
        ),
        (
            text::right_aligned(applied, 8),
            if clamped {
                ink_look(Ink::Yellow)
            } else {
                plain_look()
            },
        ),
        ("  "@ + unit, dim_look()),
    ]
}

/// One axis of a velocity, ready to be shown.
#[derive(Debug)]
pub struct Axis {
    /// The numbers, in the unit that is on screen.
    pub asked: String,
    pub applied: String,
    /// The two differ on the wire.
    pub clamped: bool,
}

fn axis(name: &str, sense: &str, unit: &str, a: &Axis) -> (r: Vec<Span>)
    ensures
        spans(r@) =~= axis_line(name@, sense@, unit@, a.asked@, a.applied@, a.clamped),
{
    let mut out: Vec<Span> = Vec::new();
    let mut label = " ".to_owned();
    label.append(text::pad(name, 5).as_str());
    label.append(text::pad(sense, 10).as_str());
    label.append(text::align_right(a.asked.as_str(), 7).as_str());
    out.push(plain(label.as_str()));
    let applied = text::align_right(a.applied.as_str(), 8);
    if a.clamped {
        out.push(inked(applied.as_str(), Ink::Yellow));
    } else {
        out.push(plain(applied.as_str()));
    }
    out.push(dim("  ".to_owned().concat(unit).as_str()));
    out
}

/// Does a line name this axis, with what was asked of it and what was applied in their columns,
/// the second marked exactly where it is not the first?
pub open spec fn shows_axis(line: Seq<Span>, a: Axis, name: Seq<char>) -> bool {
    let t = line_text(spans(line));
    &&& text::reads(t, 1, name)
    &&& text::reads(t, 23 - a.asked@.len(), a.asked@)
    &&& text::reads(t, 31 - a.applied@.len(), a.applied@)
    &&& line.len() == 3
    &&& line[1].look.ink == Ink::Yellow <==> a.clamped
}

/// The velocity, one labelled row per axis.
pub fn movement(units: Units, vx: &Axis, vy: &Axis, vyaw: &Axis) -> (r: Vec<Vec<Span>>)
    ensures
        lines(r@) =~= seq![
            seq![(" move                asked applied"@, dim_look())],
            axis_line("vx"@, "forward"@, "m/s"@, vx.asked@, vx.applied@, vx.clamped),
            axis_line("vy"@, "left"@, "m/s"@, vy.asked@, vy.applied@, vy.clamped),
            axis_line(
                "vyaw"@,
                "turn left"@,
                units.per_second(),
                vyaw.asked@,
                vyaw.applied@,
                vyaw.clamped,
            ),
        ],
        r@.len() == 4,
        vx.asked@.len() <= 7 && vx.applied@.len() <= 8 ==> shows_axis(r@[1]@, *vx, "vx"@),
        vy.asked@.len() <= 7 && vy.applied@.len() <= 8 ==> shows_axis(r@[2]@, *vy, "vy"@),
        vyaw.asked@.len() <= 7 && vyaw.applied@.len() <= 8 ==> shows_axis(r@[3]@, *vyaw, "vyaw"@),
{
    proof {
        reveal_strlit("vx");
        reveal_strlit("vy");
        reveal_strlit("vyaw");
        reveal_strlit("forward");
        reveal_strlit("left");
        reveal_strlit("turn left");
        if vx.asked@.len() <= 7 && vx.applied@.len() <= 8 {
            an_axis_keeps_its_columns(
                "vx"@,
                "forward"@,
                "m/s"@,
                vx.asked@,
                vx.applied@,
                vx.clamped,
            );
        }
        if vy.asked@.len() <= 7 && vy.applied@.len() <= 8 {
            an_axis_keeps_its_columns("vy"@, "left"@, "m/s"@, vy.asked@, vy.applied@, vy.clamped);
        }
        if vyaw.asked@.len() <= 7 && vyaw.applied@.len() <= 8 {
            an_axis_keeps_its_columns(
                "vyaw"@,
                "turn left"@,
                units.per_second(),
                vyaw.asked@,
                vyaw.applied@,
                vyaw.clamped,
            );
        }
    }
    let mut head: Vec<Span> = Vec::new();
    head.push(dim(" move                asked applied"));
    assert(spans(head@) =~= seq![(" move                asked applied"@, dim_look())]);
    let mut out: Vec<Vec<Span>> = Vec::new();
    out.push(head);
    out.push(axis("vx", "forward", "m/s", vx));
    out.push(axis("vy", "left", "m/s", vy));
    out.push(axis("vyaw", "turn left", units.rate_unit(), vyaw));
    assert(lines(out@)[1] == spans(out@[1]@));
    assert(lines(out@)[2] == spans(out@[2]@));
    assert(lines(out@)[3] == spans(out@[3]@));
    out
}

/// Down, or on its feet.
pub open spec fn verdict(fallen: bool) -> SpanView {
    if fallen {
        ("FALLEN"@, bold_look(Ink::Red))
    } else {
        ("upright"@, ink_look(Ink::Green))
    }
}

pub fn fall_verdict(fallen: bool) -> (r: Span)
    ensures
        r.view() == verdict(fallen),
{
    if fallen {
        bold("FALLEN", Ink::Red)
    } else {
        inked("upright", Ink::Green)
    }
}

/// One component of gravity.
pub open spec fn gravity_text(name: Seq<char>, number: Seq<char>) -> Seq<char> {
    " "@ + text::padded(name, 11) + text::right_aligned(number, 6)
}

fn gravity_span(name: &str, number: &str) -> (r: Span)
    ensures
        r.view() == (gravity_text(name@, number@), plain_look()),
{
    let mut out = " ".to_owned();
    out.append(text::pad(name, 11).as_str());
    out.append(text::align_right(number, 6).as_str());
    plain(out.as_str())
}

/// What the IMU tells the robot, and beside it the verdict drawn from it: the verdict alone
/// cannot tell a robot on its side from a sensor mounted another way.
pub fn imu(x: &str, y: &str, z: &str, fallen: bool) -> (r: Vec<Vec<Span>>)
    ensures
        lines(r@) =~= seq![
            seq![(" imu · gravity in the trunk frame"@, dim_look())],
            seq![(gravity_text("x forward"@, x@), plain_look())],
            seq![(gravity_text("y left"@, y@), plain_look())],
            seq![
                (gravity_text("z up"@, z@), plain_look()),
                ("   "@, plain_look()),
                verdict(fallen),
            ],
        ],
        r@.len() == 4,
        x@.len() <= 6 ==> text::reads(r@[1]@[0].text@, 18 - x@.len(), x@) && text::reads(
            r@[1]@[0].text@,
            1,
            "x forward"@,
        ),
        y@.len() <= 6 ==> text::reads(r@[2]@[0].text@, 18 - y@.len(), y@) && text::reads(
            r@[2]@[0].text@,
            1,
            "y left"@,
        ),
        z@.len() <= 6 ==> text::reads(r@[3]@[0].text@, 18 - z@.len(), z@) && text::reads(
            r@[3]@[0].text@,
            1,
            "z up"@,
        ),
        r@[3]@[2].look.ink == Ink::Red <==> fallen,
{
    proof {
        reveal_strlit("x forward");
        reveal_strlit("y left");
        reveal_strlit("z up");
        if x@.len() <= 6 {
            gravity_keeps_its_columns("x forward"@, x@);
        }
        if y@.len() <= 6 {
            gravity_keeps_its_columns("y left"@, y@);
        }
        if z@.len() <= 6 {
            gravity_keeps_its_columns("z up"@, z@);
        }
    }
    let mut head: Vec<Span> = Vec::new();
    head.push(dim(" imu · gravity in the trunk frame"));
    let mut forward: Vec<Span> = Vec::new();
    forward.push(gravity_span("x forward", x));
    let mut left: Vec<Span> = Vec::new();
    left.push(gravity_span("y left", y));
    let mut up: Vec<Span> = Vec::new();
    up.push(gravity_span("z up", z));
    up.push(plain("   "));
    up.push(fall_verdict(fallen));
    assert(spans(head@) =~= seq![(" imu · gravity in the trunk frame"@, dim_look())]);
    assert(spans(forward@) =~= seq![(gravity_text("x forward"@, x@), plain_look())]);
    assert(spans(left@) =~= seq![(gravity_text("y left"@, y@), plain_look())]);
    assert(spans(up@) =~= seq![
        (gravity_text("z up"@, z@), plain_look()),
        ("   "@, plain_look()),
        verdict(fallen),
    ]);
    let mut out: Vec<Vec<Span>> = Vec::new();
    out.push(head);
    out.push(forward);
    out.push(left);
    out.push(up);
    assert(lines(out@)[1] == spans(out@[1]@));
    assert(lines(out@)[2] == spans(out@[2]@));
    assert(lines(out@)[3] == spans(out@[3]@));
    out
}

/// What a limit means. A name nobody here knows is passed on as it is.
pub open spec fn limit_text(limit: Seq<char>) -> Seq<char> {
    if limit == "deadman"@ {
        "deadman — no intent arrived recently, velocity zeroed"@
    } else if limit == "joint_range"@ {
        "joint_range — a target was outside the actuator's travel"@
    } else if limit == "not_finite"@ {
        "not_finite — a target was NaN or infinite"@
    } else if limit == "fallen"@ {
        "fallen — the robot is down, the policy is not driving"@
    } else {
        limit
    }
}

/// Say what a limit means, not just what it is called.
pub fn explain_limit(limit: &str) -> (r: String)
    ensures
        r@ == limit_text(limit@),
{
    if text::same(limit, "deadman") {
        "deadman — no intent arrived recently, velocity zeroed".to_owned()
    } else if text::same(limit, "joint_range") {
        "joint_range — a target was outside the actuator's travel".to_owned()
    } else if text::same(limit, "not_finite") {
        "not_finite — a target was NaN or infinite".to_owned()
    } else if text::same(limit, "fallen") {
        "fallen — the robot is down, the policy is not driving".to_owned()
    } else {
        limit.to_owned()
    }
}

/// What each limit means, in order.
pub open spec fn explained(limits: Seq<String>) -> Seq<Seq<char>> {
    limits.map_values(|l: String| limit_text(l@))
}

/// The limits that shaped the command. The row is there whether or not there is one, because a
/// header that changes height moves the table under it.
pub fn limits(limited_by: &Vec<String>) -> (r: Vec<Span>)
    ensures
        spans(r@) =~= if limited_by@.len() == 0 {
            seq![(" limits  none — the command went through untouched"@, dim_look())]
        } else {
            seq![
                (" limits  "@, plain_look()),
                (text::joined(explained(limited_by@), "; "@), ink_look(Ink::Yellow)),
            ]
        },
{
    let mut out: Vec<Span> = Vec::new();
    if limited_by.len() == 0 {
        out.push(dim(" limits  none — the command went through untouched"));
        return out;
    }
    let mut said: Vec<String> = Vec::new();
    let mut i: usize = 0;
    while i < limited_by.len()
        invariant
            i <= limited_by@.len(),
            text::views(said@) == explained(limited_by@).take(i as int),
        decreases limited_by@.len() - i,
    {
        let ghost before = text::views(said@);
        let meaning = explain_limit(limited_by[i].as_str());
        let ghost m = meaning@;
        said.push(meaning);
        assert(text::views(said@) == before.push(m));
        i = i + 1;
        assert(text::views(said@) == explained(limited_by@).take(i as int));
    }
    assert(explained(limited_by@).take(i as int) == explained(limited_by@));
    out.push(plain(" limits  "));
    out.push(inked(text::join(&said, "; ").as_str(), Ink::Yellow));
    out
}

/// A gain, or a dash where none is known.
pub open spec fn gain_text(gain: Option<u32>) -> Seq<char> {
    match gain {
        Some(g) => text::dec(g as nat),
        None => "-"@,
    }
}

fn gain_of(gain: Option<u32>) -> (r: String)
    ensures
        r@ == gain_text(gain),
{
    match gain {
        Some(g) => text::decimal(g as u64),
        None => "-".to_owned(),
    }
}

/// The head's angles and the gain the servos run at. Degrees carry their sign, so only radians
/// need naming.
pub open spec fn head_line(
    units: Units,
    neck_pitch: Seq<char>,
    head_pitch: Seq<char>,
    head_yaw: Seq<char>,
    head_roll: Seq<char>,
    gain: Option<u32>,
    limp: bool,
) -> Seq<SpanView> {
    seq![
        (
            " head    neck_pitch "@ + units.angle_text(neck_pitch) + "  head_pitch "@
                + units.angle_text(head_pitch) + "  head_yaw "@ + units.angle_text(head_yaw)
                + "  head_roll "@ + units.angle_text(head_roll),
            plain_look(),
        ),
        (
            match units {
                Units::Degrees => "   "@,
                Units::Radians => " rad   "@,
            },
            dim_look(),
        ),
        ("kp "@ + gain_text(gain), plain_look()),
    ] + (if limp {
        seq![(" limp — gains dropped so the robot yields"@, ink_look(Ink::Yellow))]
    } else {
        Seq::empty()
    })
}

/// The head's row. The angles are given as numbers in the unit that is on screen.
pub fn head(
    units: Units,
    neck_pitch: &str,
    head_pitch: &str,
    head_yaw: &str,
    head_roll: &str,
    gain: Option<u32>,
    limp: bool,
) -> (r: Vec<Span>)
    ensures
        spans(r@) =~= head_line(
            units,
            neck_pitch@,
            head_pitch@,
            head_yaw@,
            head_roll@,
            gain,
            limp,
        ),
{
    let mut label = " head    neck_pitch ".to_owned();
    label.append(units.angle(neck_pitch).as_str());
    label.append("  head_pitch ");
    label.append(units.angle(head_pitch).as_str());
    label.append("  head_yaw ");
    label.append(units.angle(head_yaw).as_str());
    label.append("  head_roll ");
    label.append(units.angle(head_roll).as_str());
    let mut out: Vec<Span> = Vec::new();
    out.push(plain(label.as_str()));
    match units {
        Units::Degrees => {
            out.push(dim("   "));
        },
        Units::Radians => {
            out.push(dim(" rad   "));
        },
    }
    out.push(plain("kp ".to_owned().concat(gain_of(gain).as_str()).as_str()));
    if limp {
        out.push(inked(" limp — gains dropped so the robot yields", Ink::Yellow));
    }
    out
}

// ── the joints ───────────────────────────────────────────────────────────────

/// How well a joint is where it was told to be.
#[derive(Debug, Clone, Copy, PartialEq, Eq, Structural)]
pub enum Tracking {
    /// The error is no finite number.
    NotFinite,
    /// Within a quarter of the bar.
    Close,
    /// Within six tenths of the bar.
    Off,
    /// Further.
    Lost,
}

/// The error at the edge of the bar, a fifth of a radian: its order key.
pub const FULL_SCALE: i64 = 0x3fc9_9999_9999_999a;

/// The order key of a quarter of the scale.
pub const QUARTER_SCALE: i64 = 0x3fa9_9999_9999_999a;

/// The order key of six tenths of the scale.
pub const SIX_TENTHS_SCALE: i64 = 0x3fbe_b851_eb85_1eb8;

/// The order key of positive infinity.
pub const INFINITE: i64 = 0x7ff0_0000_0000_0000;

/// How large an error must be to fill each cell: half a cell short of the cell's far end, since
/// an error is shown to the nearest cell. The order keys of the least doubles whose quotient by
/// the scale, in cells, rounds to one, two and so on.
pub const CELL_EDGES: [i64; 12] = [
    0x3f81_1111_1111_1111,
    0x3f99_9999_9999_999a,
    0x3fa5_5555_5555_5555,
    0x3fad_dddd_dddd_dddf,
    0x3fb3_3333_3333_3334,
    0x3fb7_7777_7777_7778,
    0x3fbb_bbbb_bbbb_bbbb,
    0x3fc0_0000_0000_0000,
    0x3fc2_2222_2222_2222,
    0x3fc4_4444_4444_4444,
    0x3fc6_6666_6666_6667,
    0x3fc8_8888_8888_8888,
];

/// The size of the error with these bits, whichever side it is to: the order key of its absolute
/// value.
pub open spec fn size_of(error: u64) -> int {
    error as int % 0x8000_0000_0000_0000
}

/// Is the error with these bits a finite number?
pub open spec fn finite(error: u64) -> bool {
    size_of(error) < INFINITE
}

/// Is the error with these bits below zero?
pub open spec fn negative(error: u64) -> bool {
    rank::key_of(error) < 0
}

/// Is the error with these bits larger, to either side, than a full bar stands for?
pub open spec fn past_scale(error: u64) -> bool {
    size_of(error) > FULL_SCALE
}

/// How many of the first `n` cells an error of this size fills.
pub open spec fn reached(size: int, n: nat) -> nat
    decreases n,
{
    if n == 0 {
        0
    } else {
        reached(size, (n - 1) as nat) + if CELL_EDGES@[n - 1] <= size {
            1nat
        } else {
            0nat
        }
    }
}

/// How many cells of the bar an error fills.
pub open spec fn filled(error: u64) -> nat {
    reached(size_of(error), BAR_HALF as nat)
}

/// How well a joint with this error follows.
pub open spec fn tracking_of(error: u64) -> Tracking {
    if !finite(error) {
        Tracking::NotFinite
    } else if size_of(error) < QUARTER_SCALE {
        Tracking::Close
    } else if size_of(error) < SIX_TENTHS_SCALE {
        Tracking::Off
    } else {
        Tracking::Lost
    }
}

/// How well a joint follows, from the bits of its error.
pub fn tracking(error: u64) -> (r: Tracking)
    ensures
        r == tracking_of(error),
{
    let size: i64 = (error % 0x8000_0000_0000_0000) as i64;
    if size >= INFINITE {
        Tracking::NotFinite
    } else if size < QUARTER_SCALE {
        Tracking::Close
    } else if size < SIX_TENTHS_SCALE {
        Tracking::Off
    } else {
        Tracking::Lost
    }
}

pub open spec fn tracking_look(tracking: Tracking) -> Look {
    match tracking {
        Tracking::NotFinite => bold_look(Ink::Magenta),
        Tracking::Close => ink_look(Ink::Green),
        Tracking::Off => ink_look(Ink::Yellow),
        Tracking::Lost => ink_look(Ink::Red),
    }
}

/// The colour of an error, given by its bits.
pub open spec fn error_look(error: u64) -> Look {
    tracking_look(tracking_of(error))
}

/// Green while the joint is where it was told to be, red once it plainly is not.
pub fn error_style(error: u64) -> (r: Look)
    ensures
        r == error_look(error),
{
    match tracking(error) {
        Tracking::NotFinite => Look { ink: Ink::Magenta, bold: true, dim: false },
        Tracking::Close => Look { ink: Ink::Green, bold: false, dim: false },
        Tracking::Off => Look { ink: Ink::Yellow, bold: false, dim: false },
        Tracking::Lost => Look { ink: Ink::Red, bold: false, dim: false },
    }
}

/// How many cells of the bar an error fills.
fn cells_of(error: u64) -> (r: usize)
    ensures
        r == filled(error),
        r <= BAR_HALF,
{
    let size: i64 = (error % 0x8000_0000_0000_0000) as i64;
    let edges = CELL_EDGES;
    let mut n: usize = 0;
    let mut i: usize = 0;
    while i < 12
        invariant
            i <= 12,
            edges == CELL_EDGES,
            size == size_of(error),
            n == reached(size as int, i as nat),
            n <= i,
        decreases 12 - i,
    {
        if edges[i] <= size {
            n = n + 1;
        }
        i = i + 1;
    }
    n
}

/// The mark at the end of a bar that reaches past the scale.
pub open spec fn edge(mark: Seq<char>, on: bool, look: Look) -> SpanView {
    if on {
        (mark, Look { bold: true, ..look })
    } else {
        (" "@, plain_look())
    }
}

/// A bar growing from a fixed centre, left for negative, right for positive. `None` is a joint
/// without a reading, and an error that is no finite number reads as one.
pub open spec fn bar(error: Option<u64>) -> Seq<SpanView> {
    match error {
        Some(e) if finite(e) => {
            let look = error_look(e);
            let n = filled(e);
            let rail = (text::repeated('·', (BAR_HALF - n) as nat), dim_look());
            let full_rail = (text::repeated('·', BAR_HALF as nat), dim_look());
            let body = (text::repeated('█', n), look);
            let centre = ("│"@, dim_look());
            if negative(e) {
                seq![
                    edge("«"@, past_scale(e), look),
                    rail,
                    body,
                    centre,
                    full_rail,
                    (" "@, plain_look()),
                ]
            } else {
                seq![
                    (" "@, plain_look()),
                    full_rail,
                    centre,
                    body,
                    rail,
                    edge("»"@, past_scale(e), look),
                ]
            }
        },
        _ => seq![("no reading"@, dim_look())],
    }
}

fn edge_span(mark: &str, on: bool, look: Look) -> (r: Span)
    ensures
        r.view() == edge(mark@, on, look),
{
    if on {
        Span { text: mark.to_owned(), look: Look { ink: look.ink, bold: true, dim: look.dim } }
    } else {
        plain(" ")
    }
}

fn rail_span(n: usize) -> (r: Span)
    ensures
        r.view() == (text::repeated('·', n as nat), dim_look()),
{
    proof {
        reveal_strlit("·");
    }
    dim(text::repeat("·", n).as_str())
}

/// Tracking error, given by its bits, as a bar. Saturation is marked, so an error off the scale
/// cannot be mistaken for one that merely reaches the edge.
pub fn deviation_bar(error: Option<u64>) -> (r: Vec<Span>)
    ensures
        spans(r@) =~= bar(error),
{
    let mut out: Vec<Span> = Vec::new();
    if let Some(e) = error {
        let size: i64 = (e % 0x8000_0000_0000_0000) as i64;
        if size < INFINITE {
            let look = error_style(e);
            let off = size > FULL_SCALE;
            let n = cells_of(e);
            proof {
                reveal_strlit("█");
            }
            let body = Span { text: text::repeat("█", n), look };
            if rank::range_key(e) < 0 {
                out.push(edge_span("«", off, look));
                out.push(rail_span(BAR_HALF - n));
                out.push(body);
                out.push(dim("│"));
                out.push(rail_span(BAR_HALF));
                out.push(plain(" "));
            } else {
                out.push(plain(" "));
                out.push(rail_span(BAR_HALF));
                out.push(dim("│"));
                out.push(body);
                out.push(rail_span(BAR_HALF - n));
                out.push(edge_span("»", off, look));
            }
            return out;
        }
    }
    out.push(dim("no reading"));
    out
}

/// How many cells a line takes.
pub open spec fn width(line: Seq<SpanView>) -> nat
    decreases line.len(),
{
    if line.len() == 0 {
        0
    } else {
        width(line.drop_last()) + line.last().0.len()
    }
}

proof fn reached_is_bounded(size: int, n: nat)
    ensures
        reached(size, n) <= n,
    decreases n,
{
    if n > 0 {
        reached_is_bounded(size, (n - 1) as nat);
    }
}

proof fn a_larger_size_reaches_no_less(a: int, b: int, n: nat)
    requires
        a <= b,
    ensures
        reached(a, n) <= reached(b, n),
    decreases n,
{
    if n > 0 {
        a_larger_size_reaches_no_less(a, b, (n - 1) as nat);
    }
}

/// A larger error, to whichever side, fills no fewer cells, and none fills more than there are.
/// No error fills none, and one past the scale all of them.
pub proof fn a_larger_error_fills_no_fewer_cells(a: u64, b: u64)
    requires
        size_of(a) <= size_of(b),
    ensures
        filled(a) <= filled(b) <= BAR_HALF,
        size_of(a) == 0 ==> filled(a) == 0,
        past_scale(b) ==> filled(b) == BAR_HALF,
{
    a_larger_size_reaches_no_less(size_of(a), size_of(b), BAR_HALF as nat);
    reached_is_bounded(size_of(b), BAR_HALF as nat);
    reveal_with_fuel(reached, 13);
}

/// What a line reads, its pieces one after another.
pub open spec fn line_text(line: Seq<SpanView>) -> Seq<char>
    decreases line.len(),
{
    if line.len() == 0 {
        Seq::empty()
    } else {
        line_text(line.drop_last()) + line.last().0
    }
}

proof fn six_pieces(line: Seq<SpanView>)
    requires
        line.len() == 6,
    ensures
        line_text(line) == line[0].0 + line[1].0 + line[2].0 + line[3].0 + line[4].0 + line[5].0,
        width(line) == line_text(line).len(),
{
    reveal_with_fuel(line_text, 7);
    reveal_with_fuel(width, 7);
    let a = line.drop_last();
    let b = a.drop_last();
    let c = b.drop_last();
    let e = c.drop_last();
    let f = e.drop_last();
    assert(f.drop_last().len() == 0);
    assert(line.last() == line[5] && a.last() == line[4] && b.last() == line[3]);
    assert(c.last() == line[2] && e.last() == line[1] && f.last() == line[0]);
    assert(Seq::<char>::empty() + line[0].0 == line[0].0);
}

/// One place of a bar, counted from its left end: the mark or a blank at either end, the centre,
/// and between them the cells, filled from the centre out.
pub open spec fn bar_char(error: u64, i: int) -> char {
    if i == 0 {
        if negative(error) && past_scale(error) {
            '«'
        } else {
            ' '
        }
    } else if i == 2 * BAR_HALF + 2 {
        if !negative(error) && past_scale(error) {
            '»'
        } else {
            ' '
        }
    } else if i == BAR_HALF + 1 {
        '│'
    } else if negative(error) && BAR_HALF + 1 - filled(error) <= i <= BAR_HALF {
        '█'
    } else if !negative(error) && BAR_HALF + 2 <= i < BAR_HALF + 2 + filled(error) {
        '█'
    } else {
        '·'
    }
}

/// What a bar reads: the filled cells begin next to the centre, right of it for a positive error
/// and left of it for a negative one.
pub proof fn a_bar_grows_from_the_centre(error: u64)
    requires
        finite(error),
    ensures
        line_text(bar(Some(error))) == Seq::new(
            (2 * BAR_HALF + 3) as nat,
            |i: int| bar_char(error, i),
        ),
{
    reveal_strlit("«");
    reveal_strlit("»");
    reveal_strlit(" ");
    reveal_strlit("│");
    reached_is_bounded(size_of(error), BAR_HALF as nat);
    six_pieces(bar(Some(error)));
    assert(line_text(bar(Some(error))) =~= Seq::new(
        (2 * BAR_HALF + 3) as nat,
        |i: int| bar_char(error, i),
    ));
}

/// Every bar is the same width whatever the error, or the columns would dance.
pub proof fn deviation_bars_are_all_one_width(error: u64)
    requires
        finite(error),
    ensures
        width(bar(Some(error))) == 2 * BAR_HALF + 3,
{
    a_bar_grows_from_the_centre(error);
    six_pieces(bar(Some(error)));
}

/// The mark of one side as that of the other.
pub open spec fn other_mark(c: char) -> char {
    if c == '»' {
        '«'
    } else if c == '«' {
        '»'
    } else {
        c
    }
}

/// A text read from the other end, its marks pointing the other way.
pub open spec fn mirrored(t: Seq<char>) -> Seq<char> {
    t.reverse().map_values(|c: char| other_mark(c))
}

/// The bar of an error and the bar of its opposite mirror each other.
pub proof fn opposite_errors_mirror_each_other(error: u64, opposite: u64)
    requires
        finite(error),
        rank::key_of(error) > 0,
        rank::key_of(opposite) == -rank::key_of(error),
    ensures
        line_text(bar(Some(opposite))) == mirrored(line_text(bar(Some(error)))),
        finite(opposite),
        filled(opposite) == filled(error),
{
    assert(size_of(opposite) == size_of(error));
    reached_is_bounded(size_of(error), BAR_HALF as nat);
    a_bar_grows_from_the_centre(error);
    a_bar_grows_from_the_centre(opposite);
    assert(line_text(bar(Some(opposite))) =~= mirrored(line_text(bar(Some(error)))));
}

/// An error past the scale is marked on its own side, however little past it is, and one that
/// merely reaches the edge is not; no error fills nothing.
pub proof fn only_an_error_off_the_scale_is_marked(error: u64)
    requires
        finite(error),
    ensures
        line_text(bar(Some(error))).contains('«') <==> rank::key_of(error) < -FULL_SCALE,
        line_text(bar(Some(error))).contains('»') <==> rank::key_of(error) > FULL_SCALE,
        rank::key_of(error) == 0 ==> !line_text(bar(Some(error))).contains('█'),
{
    let t = line_text(bar(Some(error)));
    a_bar_grows_from_the_centre(error);
    a_larger_error_fills_no_fewer_cells(error, error);
    assert(t[0] == bar_char(error, 0));
    assert(t[2 * BAR_HALF + 2] == bar_char(error, 2 * BAR_HALF + 2));
}

/// One angle, or a dash where the wire carried none: converting an absent reading would claim
/// something nobody measured.
pub fn angle(units: Units, number: Option<&str>) -> (r: Span)
    ensures
        r.view() == match number {
            Some(n) => (units.angle_text(n@), plain_look()),
            None => ("-"@, dim_look()),
        },
{
    match number {
        Some(n) => plain(units.angle(n).as_str()),
        None => dim("-"),
    }
}

/// A tracking error in the colour of how well the joint follows, or a dash: its number in the unit
/// on screen, and its bits.
pub fn error_angle(units: Units, error: Option<(&str, u64)>) -> (r: Span)
    ensures
        r.view() == match error {
            Some((n, e)) => (units.angle_text(n@), error_look(e)),
            None => ("-"@, dim_look()),
        },
{
    match error {
        Some((n, e)) => Span { text: units.angle(n), look: error_style(e) },
        None => dim("-"),
    }
}

/// A tracking error, ready to be shown.
#[derive(Debug)]
pub struct JointError {
    /// The number, in the unit that is on screen.
    pub number: String,
    /// The error on the wire, by its bits.
    pub error: u64,
}

/// One joint, ready to be shown: the numbers are in the unit that is on screen.
#[derive(Debug)]
pub struct Joint {
    pub measured: Option<String>,
    pub target: Option<String>,
    /// The difference of the two, where there are two.
    pub error: Option<JointError>,
}

/// An angle, or a dash.
pub open spec fn angle_span(units: Units, number: Option<String>) -> SpanView {
    match number {
        Some(n) => (units.angle_text(n@), plain_look()),
        None => ("-"@, dim_look()),
    }
}

/// The cells of one joint: its name, where it is, where it was told to be, and the difference
/// as a number and as a bar. A joint without one of the two has no difference, whatever was
/// made of it.
pub open spec fn joint_cells(
    units: Units,
    i: nat,
    names: Seq<&str>,
    joint: Joint,
) -> Seq<Seq<SpanView>> {
    let error = if joint.measured is Some && joint.target is Some {
        joint.error
    } else {
        None
    };
    seq![
        seq![(monitor::label_text(i, names), plain_look())],
        seq![angle_span(units, joint.measured)],
        seq![angle_span(units, joint.target)],
        seq![
            match error {
                Some(e) => (units.angle_text(e.number@), error_look(e.error)),
                None => ("-"@, dim_look()),
            },
        ],
        bar(
            match error {
                Some(e) => Some(e.error),
                None => None,
            },
        ),
    ]
}

fn one(s: Span) -> (r: Vec<Span>)
    ensures
        spans(r@) =~= seq![s.view()],
{
    let mut out: Vec<Span> = Vec::new();
    out.push(s);
    out
}

/// The row of one joint.
pub fn joint_row(units: Units, i: usize, names: &[&str], joint: &Joint) -> (r: Vec<Vec<Span>>)
    ensures
        lines(r@) =~= joint_cells(units, i as nat, names@, *joint),
{
    let both = joint.measured.is_some() && joint.target.is_some();
    let mut out: Vec<Vec<Span>> = Vec::new();
    out.push(one(plain(monitor::joint_label(i, names).as_str())));
    out.push(
        one(
            match &joint.measured {
                Some(n) => angle(units, Some(n.as_str())),
                None => angle(units, None),
            },
        ),
    );
    out.push(
        one(
            match &joint.target {
                Some(n) => angle(units, Some(n.as_str())),
                None => angle(units, None),
            },
        ),
    );
    match &joint.error {
        Some(e) if both => {
            out.push(one(error_angle(units, Some((e.number.as_str(), e.error)))));
            out.push(deviation_bar(Some(e.error)));
        },
        _ => {
            out.push(one(error_angle(units, None)));
            out.push(deviation_bar(None));
        },
    }
    out
}

// ── one line per tick ────────────────────────────────────────────────────────

/// The numbers of one tick, as they are to be shown.
#[derive(Debug)]
pub struct Figures {
    pub t: String,
    pub hz: String,
    pub gravity: (String, String, String),
    pub requested: (String, String, String),
    pub applied: (String, String, String),
}

/// The limits of one tick, by name.
pub open spec fn limits_note(limited_by: Seq<String>) -> Seq<char> {
    if limited_by.len() == 0 {
        Seq::empty()
    } else {
        "  ["@ + text::joined(text::views(limited_by), ","@) + "]"@
    }
}

/// Three numbers in brackets.
pub open spec fn triple(label: Seq<char>, n: (String, String, String)) -> Seq<char> {
    label + "["@ + n.0@ + " "@ + n.1@ + " "@ + n.2@ + "]"@
}

/// One tick on one line. Gravity and gain sit next to the verdict that the one decides and the
/// other is overridden by.
pub open spec fn tick_text(state: RobotState, f: Figures) -> Seq<char> {
    text::right_aligned(f.t@, 8) + "  "@ + text::right_aligned(state.policy@, 5) + "  "@
        + text::right_aligned(f.hz@, 5) + "Hz miss="@ + text::padded(
        text::dec(state.missed as nat),
        4,
    ) + " "@ + (if state.fallen {
        "FALLEN"@
    } else {
        "ok    "@
    }) + "  "@ + triple("g"@, f.gravity) + " kp="@ + text::padded(gain_text(state.gain), 4) + " "@
        + triple("req"@, f.requested) + " "@ + triple("app"@, f.applied) + limits_note(
        state.limited_by@,
    )
}

fn bracketed(label: &str, n: &(String, String, String)) -> (r: String)
    ensures
        r@ == triple(label@, *n),
{
    let mut out = label.to_owned();
    out.append("[");
    out.append(n.0.as_str());
    out.append(" ");
    out.append(n.1.as_str());
    out.append(" ");
    out.append(n.2.as_str());
    out.append("]");
    out
}

/// One tick on one line, for a pipe or a file.
pub fn tick_line(state: &RobotState, f: &Figures) -> (r: String)
    ensures
        r@ == tick_text(*state, *f),
{
    let mut out = text::align_right(f.t.as_str(), 8);
    out.append("  ");
    out.append(text::align_right(state.policy.as_str(), 5).as_str());
    out.append("  ");
    out.append(text::align_right(f.hz.as_str(), 5).as_str());
    out.append("Hz miss=");
    out.append(text::pad(text::decimal(state.missed).as_str(), 4).as_str());
    out.append(" ");
    if state.fallen {
        out.append("FALLEN");
    } else {
        out.append("ok    ");
    }
    out.append("  ");
    out.append(bracketed("g", &f.gravity).as_str());
    out.append(" kp=");
    out.append(text::pad(gain_of(state.gain).as_str(), 4).as_str());
    out.append(" ");
    out.append(bracketed("req", &f.requested).as_str());
    out.append(" ");
    out.append(bracketed("app", &f.applied).as_str());
    let note = if state.limited_by.len() == 0 {
        String::new()
    } else {
        "  [".to_owned().concat(text::join(&state.limited_by, ",").as_str()).concat("]")
    };
    out.append(note.as_str());
    out
}

/// What one line of the stream prints: nothing where it carries no tick, the line itself for a
/// reader of JSON, and the tick laid out for anyone else.
pub fn stream_line(line: &str, tick: Option<(&RobotState, &Figures)>, json: bool) -> (r: Option<
    String,
>)
    ensures
        match tick {
            None => r is None,
            Some((state, f)) => r matches Some(s) && s@ == if json {
                text::trimmed_end(line@)
            } else {
                tick_text(*state, *f)
            },
        },
{
    match tick {
        None => None,
        Some((state, f)) => if json {
            Some(text::trim_end(line))
        } else {
            Some(tick_line(state, f))
        },
    }
}

// ── what the lines keep ──────────────────────────────────────────────────────

proof fn one_after_another(a: Seq<SpanView>, b: Seq<SpanView>)
    ensures
        line_text(a + b) == line_text(a) + line_text(b),
    decreases b.len(),
{
    if b.len() == 0 {
        assert(a + b == a);
    } else {
        one_after_another(a, b.drop_last());
        assert((a + b).drop_last() == a + b.drop_last());
        assert((a + b).last() == b.last());
    }
}

proof fn one_piece(piece: SpanView)
    ensures
        line_text(seq![piece]) == piece.0,
{
    let line = seq![piece];
    assert(line.drop_last() == Seq::<SpanView>::empty());
    assert(line_text(Seq::<SpanView>::empty()) == Seq::<char>::empty());
}

proof fn one_more_piece(line: Seq<SpanView>, piece: SpanView)
    ensures
        line_text(line.push(piece)) == line_text(line) + piece.0,
{
    assert(line.push(piece).drop_last() == line);
}

/// What the head's row reads.
pub open spec fn head_text(
    units: Units,
    neck_pitch: Seq<char>,
    head_pitch: Seq<char>,
    head_yaw: Seq<char>,
    head_roll: Seq<char>,
    gain: Option<u32>,
    limp: bool,
) -> Seq<char> {
    line_text(head_line(units, neck_pitch, head_pitch, head_yaw, head_roll, gain, limp))
}

/// What follows the angles in the head's row.
spec fn head_end(units: Units, gain: Option<u32>, limp: bool) -> Seq<char> {
    let none = Seq::<char>::empty();
    line_text(head_line(units, none, none, none, none, gain, limp).skip(1))
}

/// The head's row in parts.
spec fn head_parts(
    units: Units,
    neck_pitch: Seq<char>,
    head_pitch: Seq<char>,
    head_yaw: Seq<char>,
    head_roll: Seq<char>,
    end: Seq<char>,
) -> Seq<Seq<char>> {
    seq![
        " head    neck_pitch "@,
        units.angle_text(neck_pitch),
        "  head_pitch "@,
        units.angle_text(head_pitch),
        "  head_yaw "@,
        units.angle_text(head_yaw),
        "  head_roll "@,
        units.angle_text(head_roll),
        end,
    ]
}

#[verifier::rlimit(30)]
proof fn the_head_row_reads(
    units: Units,
    neck_pitch: Seq<char>,
    head_pitch: Seq<char>,
    head_yaw: Seq<char>,
    head_roll: Seq<char>,
    gain: Option<u32>,
    limp: bool,
)
    ensures
        head_text(units, neck_pitch, head_pitch, head_yaw, head_roll, gain, limp)
            == text::run_together(
            head_parts(
                units,
                neck_pitch,
                head_pitch,
                head_yaw,
                head_roll,
                head_end(units, gain, limp),
            ),
        ),
{
    let none = Seq::<char>::empty();
    let line = head_line(units, neck_pitch, head_pitch, head_yaw, head_roll, gain, limp);
    let end = head_line(units, none, none, none, none, gain, limp).skip(1);
    assert(line =~= seq![line[0]] + end);
    one_after_another(seq![line[0]], end);
    one_piece(line[0]);
    let p1 = seq![" head    neck_pitch "@];
    let p2 = p1.push(units.angle_text(neck_pitch));
    let p3 = p2.push("  head_pitch "@);
    let p4 = p3.push(units.angle_text(head_pitch));
    let p5 = p4.push("  head_yaw "@);
    let p6 = p5.push(units.angle_text(head_yaw));
    let p7 = p6.push("  head_roll "@);
    let p8 = p7.push(units.angle_text(head_roll));
    text::one_part(" head    neck_pitch "@);
    text::one_more_part(p1, units.angle_text(neck_pitch));
    text::one_more_part(p2, "  head_pitch "@);
    text::one_more_part(p3, units.angle_text(head_pitch));
    text::one_more_part(p4, "  head_yaw "@);
    text::one_more_part(p5, units.angle_text(head_yaw));
    text::one_more_part(p6, "  head_roll "@);
    text::one_more_part(p7, units.angle_text(head_roll));
    text::one_more_part(p8, head_end(units, gain, limp));
    assert(head_parts(
        units,
        neck_pitch,
        head_pitch,
        head_yaw,
        head_roll,
        head_end(units, gain, limp),
    ) =~= p8.push(head_end(units, gain, limp)));
}

/// Each label of the head's row is directly followed by that joint's own angle, in the unit on
/// screen, and another angle of that joint changes nothing else in the row.
#[verifier::rlimit(30)]
pub proof fn each_label_is_followed_by_its_own_angle(
    units: Units,
    neck_pitch: Seq<char>,
    head_pitch: Seq<char>,
    head_yaw: Seq<char>,
    head_roll: Seq<char>,
    gain: Option<u32>,
    limp: bool,
    other: Seq<char>,
)
    ensures
        text::differ_behind(
            head_text(units, neck_pitch, head_pitch, head_yaw, head_roll, gain, limp),
            head_text(units, other, head_pitch, head_yaw, head_roll, gain, limp),
            " head    neck_pitch "@,
            units.angle_text(neck_pitch),
            units.angle_text(other),
        ),
        text::differ_behind(
            head_text(units, neck_pitch, head_pitch, head_yaw, head_roll, gain, limp),
            head_text(units, neck_pitch, other, head_yaw, head_roll, gain, limp),
            "  head_pitch "@,
            units.angle_text(head_pitch),
            units.angle_text(other),
        ),
        text::differ_behind(
            head_text(units, neck_pitch, head_pitch, head_yaw, head_roll, gain, limp),
            head_text(units, neck_pitch, head_pitch, other, head_roll, gain, limp),
            "  head_yaw "@,
            units.angle_text(head_yaw),
            units.angle_text(other),
        ),
        text::differ_behind(
            head_text(units, neck_pitch, head_pitch, head_yaw, head_roll, gain, limp),
            head_text(units, neck_pitch, head_pitch, head_yaw, other, gain, limp),
            "  head_roll "@,
            units.angle_text(head_roll),
            units.angle_text(other),
        ),
{
    let end = head_end(units, gain, limp);
    let parts = head_parts(units, neck_pitch, head_pitch, head_yaw, head_roll, end);
    the_head_row_reads(units, neck_pitch, head_pitch, head_yaw, head_roll, gain, limp);
    the_head_row_reads(units, other, head_pitch, head_yaw, head_roll, gain, limp);
    text::a_change_in_one_part(
        parts,
        head_parts(units, other, head_pitch, head_yaw, head_roll, end),
        1,
    );
    the_head_row_reads(units, neck_pitch, other, head_yaw, head_roll, gain, limp);
    text::a_change_in_one_part(
        parts,
        head_parts(units, neck_pitch, other, head_yaw, head_roll, end),
        3,
    );
    the_head_row_reads(units, neck_pitch, head_pitch, other, head_roll, gain, limp);
    text::a_change_in_one_part(
        parts,
        head_parts(units, neck_pitch, head_pitch, other, head_roll, end),
        5,
    );
    the_head_row_reads(units, neck_pitch, head_pitch, head_yaw, other, gain, limp);
    text::a_change_in_one_part(
        parts,
        head_parts(units, neck_pitch, head_pitch, head_yaw, other, end),
        7,
    );
}

/// The head's row ends in the gain the servos run at, named as such, and says so exactly when
/// they were let go limp. Radians are named once, behind the angles; degrees need no name.
pub proof fn the_head_row_ends_in_its_gain(
    units: Units,
    neck_pitch: Seq<char>,
    head_pitch: Seq<char>,
    head_yaw: Seq<char>,
    head_roll: Seq<char>,
    gain: Option<u32>,
    other: Option<u32>,
)
    ensures
        ({
            let stiff = head_text(units, neck_pitch, head_pitch, head_yaw, head_roll, gain, false);
            let limp = head_text(units, neck_pitch, head_pitch, head_yaw, head_roll, gain, true);
            let changed = head_text(
                units,
                neck_pitch,
                head_pitch,
                head_yaw,
                head_roll,
                other,
                false,
            );
            let unit = if units == Units::Radians {
                " rad   "@
            } else {
                "   "@
            };
            &&& limp == stiff + " limp — gains dropped so the robot yields"@
            &&& text::differ_behind(
                stiff,
                changed,
                unit + "kp "@,
                gain_text(gain),
                gain_text(other),
            )
            &&& (unit + "kp "@ + gain_text(gain)).is_suffix_of(stiff)
        }),
        gain matches Some(g) ==> text::value(gain_text(gain)) == g,
        gain is None ==> gain_text(gain) == seq!['-'],
{
    let line = head_line(units, neck_pitch, head_pitch, head_yaw, head_roll, gain, false);
    let late = head_line(units, neck_pitch, head_pitch, head_yaw, head_roll, other, false);
    let limp = head_line(units, neck_pitch, head_pitch, head_yaw, head_roll, gain, true);
    let note = (" limp — gains dropped so the robot yields"@, ink_look(Ink::Yellow));
    let kp = "kp "@;
    let angles = line[0].0;
    let unit = line[1].0;
    assert(limp =~= line.push(note));
    one_more_piece(line, note);
    assert(line =~= seq![line[0]].push(line[1]).push(line[2]));
    one_piece(line[0]);
    one_more_piece(seq![line[0]], line[1]);
    one_more_piece(seq![line[0]].push(line[1]), line[2]);
    assert(late =~= seq![line[0]].push(line[1]).push(late[2]));
    one_more_piece(seq![line[0]].push(line[1]), late[2]);
    let stiff = line_text(line);
    let none = Seq::<char>::empty();
    text::a_change_behind_a_label(angles, unit + kp, gain_text(gain), gain_text(other), none);
    assert(stiff =~= angles + (unit + kp) + gain_text(gain) + none);
    assert(line_text(late) =~= angles + (unit + kp) + gain_text(other) + none);
    let tail = unit + kp + gain_text(gain);
    assert(stiff.subrange(stiff.len() - tail.len(), stiff.len() as int) =~= tail);
    if let Some(g) = gain {
        text::decimals_read_back(g as nat);
    }
    reveal_strlit("-");
}

/// What the block's title reads.
pub open spec fn title_text(
    policy: Seq<char>,
    t: Seq<char>,
    hz: Seq<char>,
    missed: u64,
    stalled: Option<Seq<char>>,
) -> Seq<char> {
    line_text(title_of(policy, t, hz, missed, stalled))
}

/// The title in parts.
spec fn title_parts(policy: Seq<char>, t: Seq<char>, hz: Seq<char>, missed: u64) -> Seq<Seq<char>> {
    seq![
        " policy "@,
        policy,
        " · t "@,
        t,
        " s · "@,
        hz + " Hz"@,
        " · missed "@,
        text::dec(missed as nat),
        " "@,
    ]
}

#[verifier::rlimit(30)]
proof fn the_title_reads(policy: Seq<char>, t: Seq<char>, hz: Seq<char>, missed: u64)
    ensures
        title_text(policy, t, hz, missed, None) == text::run_together(
            title_parts(policy, t, hz, missed),
        ),
{
    let line = title_of(policy, t, hz, missed, None);
    let l1 = seq![line[0]];
    let l2 = l1.push(line[1]);
    let l3 = l2.push(line[2]);
    let l4 = l3.push(line[3]);
    let l5 = l4.push(line[4]);
    let l6 = l5.push(line[5]);
    one_piece(line[0]);
    one_more_piece(l1, line[1]);
    one_more_piece(l2, line[2]);
    one_more_piece(l3, line[3]);
    one_more_piece(l4, line[4]);
    one_more_piece(l5, line[5]);
    one_more_piece(l6, line[6]);
    assert(line =~= l6.push(line[6]));
    let p1 = seq![" policy "@];
    let p2 = p1.push(policy);
    let p3 = p2.push(" · t "@);
    let p4 = p3.push(t);
    let p5 = p4.push(" s · "@);
    let p6 = p5.push(hz + " Hz"@);
    let p7 = p6.push(" · missed "@);
    let p8 = p7.push(text::dec(missed as nat));
    text::one_part(" policy "@);
    text::one_more_part(p1, policy);
    text::one_more_part(p2, " · t "@);
    text::one_more_part(p3, t);
    text::one_more_part(p4, " s · "@);
    text::one_more_part(p5, hz + " Hz"@);
    text::one_more_part(p6, " · missed "@);
    text::one_more_part(p7, text::dec(missed as nat));
    text::one_more_part(p8, " "@);
    assert(title_parts(policy, t, hz, missed) =~= p8.push(" "@));
    let start = text::run_together(p2);
    assert(start + (" · t "@ + t + " s · "@) =~= start + " · t "@ + t + " s · "@);
}

/// The title shows the policy, the time, the rate and the ticks missed, each behind its own
/// label, and another value of one changes nothing else in it.
#[verifier::rlimit(30)]
pub proof fn the_title_shows_each_figure_behind_its_label(
    policy: Seq<char>,
    t: Seq<char>,
    hz: Seq<char>,
    missed: u64,
    other: Seq<char>,
    more: u64,
)
    ensures
        text::differ_behind(
            title_text(policy, t, hz, missed, None),
            title_text(other, t, hz, missed, None),
            " policy "@,
            policy,
            other,
        ),
        text::differ_behind(
            title_text(policy, t, hz, missed, None),
            title_text(policy, other, hz, missed, None),
            " · t "@,
            t,
            other,
        ),
        text::differ_behind(
            title_text(policy, t, hz, missed, None),
            title_text(policy, t, other, missed, None),
            " s · "@,
            hz + " Hz"@,
            other + " Hz"@,
        ),
        text::differ_behind(
            title_text(policy, t, hz, missed, None),
            title_text(policy, t, hz, more, None),
            " · missed "@,
            text::dec(missed as nat),
            text::dec(more as nat),
        ),
{
    let parts = title_parts(policy, t, hz, missed);
    the_title_reads(policy, t, hz, missed);
    the_title_reads(other, t, hz, missed);
    text::a_change_in_one_part(parts, title_parts(other, t, hz, missed), 1);
    the_title_reads(policy, other, hz, missed);
    text::a_change_in_one_part(parts, title_parts(policy, other, hz, missed), 3);
    the_title_reads(policy, t, other, missed);
    text::a_change_in_one_part(parts, title_parts(policy, t, other, missed), 5);
    the_title_reads(policy, t, hz, more);
    text::a_change_in_one_part(parts, title_parts(policy, t, hz, more), 7);
}

/// A title over a frame that no longer arrives is the title, and behind it, in red, for how long.
pub proof fn a_stall_is_added_to_the_title(
    policy: Seq<char>,
    t: Seq<char>,
    hz: Seq<char>,
    missed: u64,
    age: Seq<char>,
)
    ensures
        title_text(policy, t, hz, missed, Some(age)) == title_text(policy, t, hz, missed, None)
            + "· STALLED "@ + age + "s "@,
        title_of(policy, t, hz, missed, Some(age)).last().1.ink == Ink::Red,
        forall|i: int|
            0 <= i < title_of(policy, t, hz, missed, None).len() ==> (#[trigger] title_of(
                policy,
                t,
                hz,
                missed,
                None,
            )[i]).1.ink != Ink::Red,
{
    let line = title_of(policy, t, hz, missed, None);
    let late = title_of(policy, t, hz, missed, Some(age));
    assert(late =~= line.push(late.last()));
    one_more_piece(line, late.last());
    assert(line_text(late) =~= line_text(line) + "· STALLED "@ + age + "s "@);
}

/// A tick that was missed is marked, and a title over a loop that missed none is not.
pub proof fn a_missed_tick_is_marked(policy: Seq<char>, t: Seq<char>, hz: Seq<char>, missed: u64)
    ensures
        missed > 0 <==> exists|i: int|
            0 <= i < title_of(policy, t, hz, missed, None).len() && (#[trigger] title_of(
                policy,
                t,
                hz,
                missed,
                None,
            )[i]).1.ink == Ink::Yellow,
        title_of(policy, t, hz, missed, None)[5].0 == text::dec(missed as nat),
        missed > 0 <==> title_of(policy, t, hz, missed, None)[5].1.ink == Ink::Yellow,
{
    let line = title_of(policy, t, hz, missed, None);
    assert(line[5].0 == text::dec(missed as nat));
}

/// A row of the command keeps its columns: the name, its sense, what was asked for and what was
/// applied stand where the heading has them as long as they fit, each number ending in the same
/// column whatever its length, and the unit behind them. What was applied is marked exactly when
/// it is not what was asked for.
#[verifier::rlimit(30)]
pub proof fn an_axis_keeps_its_columns(
    name: Seq<char>,
    sense: Seq<char>,
    unit: Seq<char>,
    asked: Seq<char>,
    applied: Seq<char>,
    clamped: bool,
)
    requires
        name.len() <= 5,
        sense.len() <= 10,
        asked.len() <= 7,
        applied.len() <= 8,
    ensures
        ({
            let line = axis_line(name, sense, unit, asked, applied, clamped);
            let t = line_text(line);
            &&& text::reads(t, 1, name)
            &&& text::reads(t, 6, sense)
            &&& text::reads(t, 23 - asked.len(), asked)
            &&& text::reads(t, 31 - applied.len(), applied)
            &&& text::reads(t, 33, unit)
            &&& t.len() == 33 + unit.len()
            &&& line.len() == 3
            &&& line[1].1.ink == Ink::Yellow <==> clamped
            &&& line[0].1.ink == Ink::Plain
            &&& text::right_aligned(applied, 8) == line[1].0
        }),
{
    let line = axis_line(name, sense, unit, asked, applied, clamped);
    one_piece(line[0]);
    one_more_piece(seq![line[0]], line[1]);
    one_more_piece(seq![line[0]].push(line[1]), line[2]);
    assert(line =~= seq![line[0]].push(line[1]).push(line[2]));
    reveal_strlit(" ");
    reveal_strlit("  ");
    text::padding_adds_spaces_behind(name, 5);
    text::padding_adds_spaces_behind(sense, 10);
    text::alignment_adds_spaces_in_front(asked, 7);
    text::alignment_adds_spaces_in_front(applied, 8);
    let t = line_text(line);
    let a = text::padded(name, 5);
    let b = text::padded(sense, 10);
    let c = text::right_aligned(asked, 7);
    let d = text::right_aligned(applied, 8);
    assert(t =~= " "@ + a + b + c + d + "  "@ + unit);
    assert(t.subrange(1, 1int + name.len()) =~= name) by {
        assert forall|i: int| 0 <= i < name.len() implies t[1 + i] == name[i] by {
            assert(a.take(name.len() as int)[i] == a[i]);
        }
    }
    assert(t.subrange(6, 6int + sense.len()) =~= sense) by {
        assert forall|i: int| 0 <= i < sense.len() implies t[6 + i] == sense[i] by {
            assert(b.take(sense.len() as int)[i] == b[i]);
        }
    }
    assert(t.subrange(23 - asked.len(), 23) =~= asked) by {
        assert forall|i: int| 0 <= i < asked.len() implies t[23 - asked.len() + i] == asked[i] by {
            assert(c.skip(7 - asked.len())[i] == c[7 - asked.len() + i]);
        }
    }
    assert(t.subrange(31 - applied.len(), 31) =~= applied) by {
        assert forall|i: int| 0 <= i < applied.len() implies t[31 - applied.len() + i]
            == applied[i] by {
            assert(d.skip(8 - applied.len())[i] == d[8 - applied.len() + i]);
        }
    }
    assert(t.subrange(33, 33int + unit.len()) =~= unit);
}

/// A component of gravity is named, and its number ends in the same column whatever its length.
pub proof fn gravity_keeps_its_columns(name: Seq<char>, number: Seq<char>)
    requires
        name.len() <= 11,
        number.len() <= 6,
    ensures
        text::reads(gravity_text(name, number), 1, name),
        text::reads(gravity_text(name, number), 18 - number.len(), number),
        gravity_text(name, number).len() == 18,
{
    reveal_strlit(" ");
    text::padding_adds_spaces_behind(name, 11);
    text::alignment_adds_spaces_in_front(number, 6);
    let t = gravity_text(name, number);
    let a = text::padded(name, 11);
    let b = text::right_aligned(number, 6);
    assert(t.subrange(1, 1int + name.len()) =~= name) by {
        assert forall|i: int| 0 <= i < name.len() implies t[1 + i] == name[i] by {
            assert(a.take(name.len() as int)[i] == a[i]);
        }
    }
    assert(t.subrange(18 - number.len(), 18) =~= number) by {
        assert forall|i: int| 0 <= i < number.len() implies t[18 - number.len() + i]
            == number[i] by {
            assert(b.skip(6 - number.len())[i] == b[6 - number.len() + i]);
        }
    }
}

/// A robot that is down is shouted about, and one on its feet is not.
pub proof fn a_fall_stands_out(fallen: bool)
    ensures
        verdict(fallen).1.ink == Ink::Red <==> fallen,
        verdict(fallen).1.bold <==> fallen,
        verdict(fallen).0 == "FALLEN"@ <==> fallen,
        verdict(fallen).0 == "upright"@ <==> !fallen,
{
    reveal_strlit("FALLEN");
    reveal_strlit("upright");
    assert("FALLEN"@.len() != "upright"@.len());
}

/// An explained limit still starts with its own name. What follows is an explanation for the
/// four limits there are, and nothing for a name nobody here knows.
pub proof fn an_explanation_starts_with_the_limits_name(limit: Seq<char>)
    ensures
        limit_text(limit).take(limit.len() as int) == limit,
        limit_text(limit).len() > limit.len() <==> limit == "deadman"@ || limit == "joint_range"@
            || limit == "not_finite"@ || limit == "fallen"@,
        limit_text(limit).len() > limit.len() ==> limit_text(limit).subrange(
            limit.len() as int,
            limit.len() + 3int,
        ) == " — "@,
{
    reveal_strlit(" — ");
    reveal_strlit("deadman");
    reveal_strlit("joint_range");
    reveal_strlit("not_finite");
    reveal_strlit("fallen");
    reveal_strlit("deadman — no intent arrived recently, velocity zeroed");
    reveal_strlit("joint_range — a target was outside the actuator's travel");
    reveal_strlit("not_finite — a target was NaN or infinite");
    reveal_strlit("fallen — the robot is down, the policy is not driving");
    assert("deadman — no intent arrived recently, velocity zeroed"@.take(7) =~= "deadman"@);
    assert("joint_range — a target was outside the actuator's travel"@.take(11)
        =~= "joint_range"@);
    assert("not_finite — a target was NaN or infinite"@.take(10) =~= "not_finite"@);
    assert("fallen — the robot is down, the policy is not driving"@.take(6) =~= "fallen"@);
    assert("deadman — no intent arrived recently, velocity zeroed"@.subrange(7, 10) =~= " — "@);
    assert("joint_range — a target was outside the actuator's travel"@.subrange(11, 14)
        =~= " — "@);
    assert("not_finite — a target was NaN or infinite"@.subrange(10, 13) =~= " — "@);
    assert("fallen — the robot is down, the policy is not driving"@.subrange(6, 9) =~= " — "@);
    assert(limit.take(limit.len() as int) =~= limit);
}

/// Limits are explained one by one, in the order they were reported.
pub proof fn every_limit_is_explained(limits: Seq<String>, more: String)
    ensures
        explained(limits.push(more)) == explained(limits).push(limit_text(more@)),
        explained(limits).len() == limits.len(),
{
    assert(explained(limits.push(more)) =~= explained(limits).push(limit_text(more@)));
}

/// What the caption over the robot reads.
pub open spec fn caption_text(policy: Option<SubscribeResult>) -> Seq<char> {
    line_text(caption(policy))
}

#[verifier::rlimit(30)]
proof fn the_caption_reads(p: SubscribeResult)
    ensures
        caption_text(Some(p)) == " policy · "@ + (match (p.walk, p.stand) {
            (Some(walk), Some(stand)) => walk@ + " · standing "@ + stand@,
            (Some(walk), None) => walk@ + " · no standing policy"@,
            (None, _) => "none loaded"@,
        }) + (match p.unavailable {
            Some(why) => " — "@ + why@,
            None => Seq::empty(),
        }) + " "@,
{
    let line = caption(Some(p));
    let driving = match (p.walk, p.stand) {
        (Some(walk), Some(stand)) => seq![
            (walk@, bold_look(Ink::Cyan)),
            (" · standing "@, dim_look()),
            (stand@, ink_look(Ink::Cyan)),
        ],
        (Some(walk), None) => seq![
            (walk@, bold_look(Ink::Cyan)),
            (" · no standing policy"@, dim_look()),
        ],
        (None, _) => seq![("none loaded"@, dim_look())],
    };
    let trouble: Seq<SpanView> = match p.unavailable {
        Some(why) => seq![(" — "@ + why@, ink_look(Ink::Yellow))],
        None => Seq::empty(),
    };
    let start = seq![(" policy · "@, dim_look())];
    let end = seq![(" "@, dim_look())];
    assert(line == start + driving + trouble + end);
    one_piece(start[0]);
    one_piece(end[0]);
    one_after_another(start, driving);
    one_after_another(start + driving, trouble);
    one_after_another(start + driving + trouble, end);
    one_piece(driving[0]);
    if driving.len() >= 2 {
        one_more_piece(seq![driving[0]], driving[1]);
        if driving.len() == 2 {
            assert(driving =~= seq![driving[0]].push(driving[1]));
        } else {
            one_more_piece(seq![driving[0]].push(driving[1]), driving[2]);
            assert(driving =~= seq![driving[0]].push(driving[1]).push(driving[2]));
        }
    } else {
        assert(driving =~= seq![driving[0]]);
    }
    if p.unavailable is Some {
        one_piece(trouble[0]);
    }
    assert(line_text(Seq::<SpanView>::empty()) == Seq::<char>::empty());
}

proof fn a_caption_regroups(
    a: Seq<char>,
    w: Seq<char>,
    m: Seq<char>,
    s: Seq<char>,
    t: Seq<char>,
    e: Seq<char>,
)
    ensures
        a + (w + m + s) + t + e == Seq::<char>::empty() + a + w + (m + s + (t + e)),
        a + (w + m + s) + t + e == a + w + m + s + (t + e),
        a + (w + m + s) + t + e == a + w + (m + s) + (t + e),
        a + (w + m + s) + t + e == Seq::<char>::empty() + a + (w + m + s) + (t + e),
        a + (w + m) + t + e == a + w + m + (t + e),
        a + w + t + e == Seq::<char>::empty() + a + w + (t + e),
{
}

/// The caption names the policy that walks directly behind its label and the one that stands
/// behind its own, and another name for one of them changes nothing else.
#[verifier::rlimit(30)]
pub proof fn the_caption_names_each_policy_in_its_place(
    p: SubscribeResult,
    q: SubscribeResult,
    walk: String,
    stand: String,
)
    requires
        p.walk == Some(walk),
        p.stand == Some(stand),
        q.unavailable == p.unavailable,
    ensures
        q.stand == p.stand && q.walk is Some ==> text::differ_behind(
            caption_text(Some(p)),
            caption_text(Some(q)),
            " policy · "@,
            walk@,
            q.walk->0@,
        ),
        q.walk == p.walk && q.stand is Some ==> text::differ_behind(
            caption_text(Some(p)),
            caption_text(Some(q)),
            " · standing "@,
            stand@,
            q.stand->0@,
        ),
        q.walk == p.walk && q.stand is None ==> text::differ_behind(
            caption_text(Some(p)),
            caption_text(Some(q)),
            walk@,
            " · standing "@ + stand@,
            " · no standing policy"@,
        ),
        q.walk is None ==> text::differ_behind(
            caption_text(Some(p)),
            caption_text(Some(q)),
            " policy · "@,
            walk@ + " · standing "@ + stand@,
            "none loaded"@,
        ),
{
    the_caption_reads(p);
    the_caption_reads(q);
    let none = Seq::<char>::empty();
    let trouble = match p.unavailable {
        Some(why) => " — "@ + why@,
        None => Seq::empty(),
    };
    let (label, mid, lone, end) = (
        " policy · "@,
        " · standing "@,
        " · no standing policy"@,
        trouble + " "@,
    );
    a_caption_regroups(label, walk@, mid, stand@, trouble, " "@);
    if q.walk is Some && q.stand is Some {
        a_caption_regroups(label, q.walk->0@, mid, q.stand->0@, trouble, " "@);
    }
    text::a_change_behind_a_label(none, label, walk@, q.walk->0@, mid + stand@ + end);
    text::a_change_behind_a_label(label + walk@, mid, stand@, q.stand->0@, end);
    a_caption_regroups(label, walk@, lone, stand@, trouble, " "@);
    text::a_change_behind_a_label(label, walk@, mid + stand@, lone, end);
    a_caption_regroups(label, "none loaded"@, lone, stand@, trouble, " "@);
    text::a_change_behind_a_label(none, label, walk@ + mid + stand@, "none loaded"@, end);
}

/// Why no policy is available is said at the end of the caption, behind a dash, exactly where a
/// robot gave a reason; of a robot that said nothing about its policy, just that is said.
pub proof fn the_caption_ends_in_what_is_wrong(p: SubscribeResult, q: SubscribeResult)
    requires
        q.walk == p.walk,
        q.stand == p.stand,
        p.unavailable is None,
    ensures
        q.unavailable matches Some(why) ==> exists|before: Seq<char>| #[trigger]
            text::surrounded(caption_text(Some(p)), before, " "@, Seq::empty())
                && text::surrounded(caption_text(Some(q)), before, " — "@ + why@, " "@),
        caption(None).len() == 1 && caption(None)[0].0 == " policy · not reported by robotd "@,
{
    the_caption_reads(p);
    the_caption_reads(q);
    let full = caption_text(Some(p));
    let before = full.drop_last();
    reveal_strlit(" ");
    assert(full.last() == ' ');
    assert(full =~= before + " "@ + Seq::<char>::empty());
    assert(text::surrounded(full, before, " "@, Seq::empty()));
    if let Some(why) = q.unavailable {
        assert(caption_text(Some(q)) =~= before + (" — "@ + why@) + " "@);
        assert(text::surrounded(caption_text(Some(q)), before, " — "@ + why@, " "@));
    }
}

/// Three numbers stand in brackets behind their label, in order and a space apart.
pub proof fn three_numbers_stand_in_order(label: Seq<char>, n: (String, String, String))
    ensures
        ({
            let t = triple(label, n);
            let second = label.len() + 1 + n.0@.len() + 1;
            let third = second + n.1@.len() + 1;
            &&& text::reads(t, 0, label)
            &&& t[label.len() as int] == '['
            &&& text::reads(t, label.len() + 1int, n.0@)
            &&& t[second - 1] == ' '
            &&& text::reads(t, second as int, n.1@)
            &&& t[third - 1] == ' '
            &&& text::reads(t, third as int, n.2@)
            &&& t.len() == third + n.2@.len() + 1
            &&& t.last() == ']'
        }),
{
    reveal_strlit("[");
    reveal_strlit(" ");
    reveal_strlit("]");
    let t = triple(label, n);
    let (a, b, c) = (n.0@, n.1@, n.2@);
    let second = label.len() + 1int + a.len() + 1;
    let third = second + b.len() + 1;
    assert(t.subrange(0, label.len() as int) =~= label);
    assert(t.subrange(label.len() + 1int, label.len() + 1int + a.len()) =~= a);
    assert(t.subrange(second, second + b.len()) =~= b);
    assert(t.subrange(third, third + c.len()) =~= c);
}

/// One tick in parts.
spec fn tick_parts(
    t: Seq<char>,
    policy: Seq<char>,
    hz: Seq<char>,
    missed: Seq<char>,
    fallen: Seq<char>,
    gravity: Seq<char>,
    gain: Seq<char>,
    requested: Seq<char>,
    applied: Seq<char>,
    note: Seq<char>,
) -> Seq<Seq<char>> {
    seq![
        Seq::empty(),
        t,
        "  "@,
        policy,
        "  "@,
        hz,
        "Hz miss="@,
        missed,
        " "@,
        fallen,
        "  "@,
        gravity,
        " kp="@,
        gain,
        " "@,
        requested,
        " "@,
        applied,
        note,
    ]
}

spec fn parts_of_tick(state: RobotState, f: Figures) -> Seq<Seq<char>> {
    tick_parts(
        text::right_aligned(f.t@, 8),
        text::right_aligned(state.policy@, 5),
        text::right_aligned(f.hz@, 5),
        text::padded(text::dec(state.missed as nat), 4),
        if state.fallen {
            "FALLEN"@
        } else {
            "ok    "@
        },
        triple("g"@, f.gravity),
        text::padded(gain_text(state.gain), 4),
        triple("req"@, f.requested),
        triple("app"@, f.applied),
        limits_note(state.limited_by@),
    )
}

#[verifier::rlimit(30)]
proof fn a_tick_reads(state: RobotState, f: Figures)
    ensures
        tick_text(state, f) == text::run_together(parts_of_tick(state, f)),
{
    let p = parts_of_tick(state, f);
    reveal_with_fuel(text::run_together, 20);
    assert(Seq::<char>::empty() + p[0] =~= Seq::<char>::empty());
    assert(Seq::<char>::empty() + p[1] =~= p[1]);
}

#[verifier::rlimit(30)]
proof fn one_figure_of_a_tick(a: RobotState, f: Figures, b: RobotState, g: Figures, k: int)
    requires
        0 < k < 19,
        forall|i: int|
            0 <= i < 19 && i != k ==> #[trigger] parts_of_tick(a, f)[i] == parts_of_tick(b, g)[i],
    ensures
        text::differ_behind(
            tick_text(a, f),
            tick_text(b, g),
            parts_of_tick(a, f)[k - 1],
            parts_of_tick(a, f)[k],
            parts_of_tick(b, g)[k],
        ),
{
    a_tick_reads(a, f);
    a_tick_reads(b, g);
    text::a_change_in_one_part(parts_of_tick(a, f), parts_of_tick(b, g), k);
}

/// A line per tick shows the policy, the missed ticks, the verdict, the gain and the limits each
/// in its own place, and another value of one changes nothing else in the line.
#[verifier::rlimit(30)]
pub proof fn a_tick_shows_each_part_of_the_state_in_its_place(
    a: RobotState,
    b: RobotState,
    f: Figures,
)
    ensures
        a.missed == b.missed && a.fallen == b.fallen && a.gain == b.gain && a.limited_by
            == b.limited_by ==> text::differ_behind(
            tick_text(a, f),
            tick_text(b, f),
            "  "@,
            text::right_aligned(a.policy@, 5),
            text::right_aligned(b.policy@, 5),
        ),
        a.policy == b.policy && a.fallen == b.fallen && a.gain == b.gain && a.limited_by
            == b.limited_by ==> text::differ_behind(
            tick_text(a, f),
            tick_text(b, f),
            "Hz miss="@,
            text::padded(text::dec(a.missed as nat), 4),
            text::padded(text::dec(b.missed as nat), 4),
        ),
        a.policy == b.policy && a.missed == b.missed && a.gain == b.gain && a.limited_by
            == b.limited_by && a.fallen && !b.fallen ==> text::differ_behind(
            tick_text(a, f),
            tick_text(b, f),
            " "@,
            "FALLEN"@,
            "ok    "@,
        ),
        a.policy == b.policy && a.missed == b.missed && a.fallen == b.fallen && a.limited_by
            == b.limited_by ==> text::differ_behind(
            tick_text(a, f),
            tick_text(b, f),
            " kp="@,
            text::padded(gain_text(a.gain), 4),
            text::padded(gain_text(b.gain), 4),
        ),
        a.policy == b.policy && a.missed == b.missed && a.fallen == b.fallen && a.gain
            == b.gain ==> text::differ_behind(
            tick_text(a, f),
            tick_text(b, f),
            triple("app"@, f.applied),
            limits_note(a.limited_by@),
            limits_note(b.limited_by@),
        ),
{
    if a.missed == b.missed && a.fallen == b.fallen && a.gain == b.gain && a.limited_by
        == b.limited_by {
        one_figure_of_a_tick(a, f, b, f, 3);
    }
    if a.policy == b.policy && a.fallen == b.fallen && a.gain == b.gain && a.limited_by
        == b.limited_by {
        one_figure_of_a_tick(a, f, b, f, 7);
    }
    if a.policy == b.policy && a.missed == b.missed && a.gain == b.gain && a.limited_by
        == b.limited_by {
        one_figure_of_a_tick(a, f, b, f, 9);
    }
    if a.policy == b.policy && a.missed == b.missed && a.fallen == b.fallen && a.limited_by
        == b.limited_by {
        one_figure_of_a_tick(a, f, b, f, 13);
    }
    if a.policy == b.policy && a.missed == b.missed && a.fallen == b.fallen && a.gain == b.gain {
        one_figure_of_a_tick(a, f, b, f, 18);
    }
}

/// A line per tick shows the time, the rate, gravity and the two velocities each in its own
/// place, and another value of one changes nothing else in the line.
#[verifier::rlimit(30)]
pub proof fn a_tick_shows_each_figure_in_its_place(a: RobotState, f: Figures, g: Figures)
    ensures
        f.hz == g.hz && f.gravity == g.gravity && f.requested == g.requested && f.applied
            == g.applied ==> text::differ_behind(
            tick_text(a, f),
            tick_text(a, g),
            Seq::empty(),
            text::right_aligned(f.t@, 8),
            text::right_aligned(g.t@, 8),
        ),
        f.t == g.t && f.gravity == g.gravity && f.requested == g.requested && f.applied
            == g.applied ==> text::differ_behind(
            tick_text(a, f),
            tick_text(a, g),
            "  "@,
            text::right_aligned(f.hz@, 5),
            text::right_aligned(g.hz@, 5),
        ),
        f.t == g.t && f.hz == g.hz && f.requested == g.requested && f.applied == g.applied
            ==> text::differ_behind(
            tick_text(a, f),
            tick_text(a, g),
            "  "@,
            triple("g"@, f.gravity),
            triple("g"@, g.gravity),
        ),
        f.t == g.t && f.hz == g.hz && f.gravity == g.gravity && f.applied == g.applied
            ==> text::differ_behind(
            tick_text(a, f),
            tick_text(a, g),
            " "@,
            triple("req"@, f.requested),
            triple("req"@, g.requested),
        ),
        f.t == g.t && f.hz == g.hz && f.gravity == g.gravity && f.requested == g.requested
            ==> text::differ_behind(
            tick_text(a, f),
            tick_text(a, g),
            " "@,
            triple("app"@, f.applied),
            triple("app"@, g.applied),
        ),
{
    if f.hz == g.hz && f.gravity == g.gravity && f.requested == g.requested && f.applied
        == g.applied {
        one_figure_of_a_tick(a, f, a, g, 1);
    }
    if f.t == g.t && f.gravity == g.gravity && f.requested == g.requested && f.applied
        == g.applied {
        one_figure_of_a_tick(a, f, a, g, 5);
    }
    if f.t == g.t && f.hz == g.hz && f.requested == g.requested && f.applied == g.applied {
        one_figure_of_a_tick(a, f, a, g, 11);
    }
    if f.t == g.t && f.hz == g.hz && f.gravity == g.gravity && f.applied == g.applied {
        one_figure_of_a_tick(a, f, a, g, 15);
    }
    if f.t == g.t && f.hz == g.hz && f.gravity == g.gravity && f.requested == g.requested {
        one_figure_of_a_tick(a, f, a, g, 17);
    }
}

/// The limits of a tick stand in brackets at its end, in order, and nothing stands there where
/// nothing was limited.
pub proof fn the_limits_of_a_tick_are_listed_in_order(limited_by: Seq<String>, more: String)
    ensures
        limits_note(Seq::empty()).len() == 0,
        limits_note(seq![more]) == "  ["@ + more@ + "]"@,
        limited_by.len() > 0 ==> limits_note(limited_by.push(more)) == limits_note(
            limited_by,
        ).drop_last() + ","@ + more@ + "]"@,
{
    assert(text::views(seq![more]) =~= seq![more@]);
    assert(text::views(limited_by.push(more)) =~= text::views(limited_by).push(more@));
    text::joining_separates(text::views(limited_by), more@, ","@);
    text::joining_separates(Seq::empty(), more@, ","@);
    assert(seq![more@] =~= Seq::<Seq<char>>::empty().push(more@));
    reveal_strlit("]");
    let list = text::joined(text::views(limited_by), ","@);
    assert(("  ["@ + list + "]"@).drop_last() =~= "  ["@ + list);
    assert("  ["@ + (list + ","@ + more@) + "]"@ =~= "  ["@ + list + ","@ + more@ + "]"@);
}

/// Each cell of a joint's row shows its own number: where the joint is, where it was told to be,
/// and, only where both are known, how far apart the two are.
pub proof fn each_joint_cell_shows_its_own_number(
    units: Units,
    i: nat,
    names: Seq<&str>,
    joint: Joint,
)
    ensures
        ({
            let cells = joint_cells(units, i, names, joint);
            let known = joint.measured is Some && joint.target is Some && joint.error is Some;
            &&& cells.len() == 5
            &&& i < names.len() ==> line_text(cells[0]) == names[i as int]@
            &&& i >= names.len() ==> line_text(cells[0]) == "joint "@ + text::dec(i)
            &&& joint.measured matches Some(n) ==> line_text(cells[1]) == units.angle_text(n@)
            &&& joint.target matches Some(n) ==> line_text(cells[2]) == units.angle_text(n@)
            &&& known ==> line_text(cells[3]) == units.angle_text(joint.error->0.number@)
            &&& joint.measured is None ==> line_text(cells[1]) == "-"@
            &&& joint.target is None ==> line_text(cells[2]) == "-"@
            &&& !known ==> line_text(cells[3]) == "-"@ && line_text(cells[4]) == "no reading"@
            &&& known ==> cells[4] == bar(Some(joint.error->0.error))
        }),
{
    let cells = joint_cells(units, i, names, joint);
    one_piece(cells[0][0]);
    one_piece(cells[1][0]);
    one_piece(cells[2][0]);
    one_piece(cells[3][0]);
    assert(cells[0] =~= seq![cells[0][0]]);
    assert(cells[1] =~= seq![cells[1][0]]);
    assert(cells[2] =~= seq![cells[2][0]]);
    assert(cells[3] =~= seq![cells[3][0]]);
    one_piece(("no reading"@, dim_look()));
}

/// A joint tracks close within a quarter of the scale, is off within six tenths and lost beyond,
/// on either side alike, and each has a colour of its own.
pub proof fn tracking_gets_no_better_with_the_error(a: u64, b: u64)
    ensures
        tracking_of(a) == Tracking::Close <==> size_of(a) < 0x3fa9_9999_9999_999a,
        tracking_of(a) == Tracking::Off <==> 0x3fa9_9999_9999_999a <= size_of(a)
            < 0x3fbe_b851_eb85_1eb8,
        tracking_of(a) == Tracking::Lost <==> 0x3fbe_b851_eb85_1eb8 <= size_of(a)
            < 0x7ff0_0000_0000_0000,
        tracking_of(a) == Tracking::NotFinite <==> !finite(a),
        size_of(a) == size_of(b) ==> tracking_of(a) == tracking_of(b),
        error_look(a) == error_look(b) <==> tracking_of(a) == tracking_of(b),
        tracking_of(a) == Tracking::Close <==> error_look(a).ink == Ink::Green,
        tracking_of(a) == Tracking::Lost <==> error_look(a).ink == Ink::Red,
{
}

proof fn reached_edges(size: int, n: nat, k: int)
    requires
        n <= 12,
        0 <= k <= n,
        forall|i: int, j: int| 0 <= i < j < 12 ==> CELL_EDGES@[i] < CELL_EDGES@[j],
    ensures
        reached(size, n) > k <==> k < n && CELL_EDGES@[k] <= size,
    decreases n,
{
    if n > 0 {
        let before = (n - 1) as nat;
        reached_is_bounded(size, before);
        if k < n {
            reached_edges(size, before, k);
        }
        if CELL_EDGES@[n - 1] <= size && n >= 2 {
            reached_edges(size, before, n - 2);
        }
        if k == n {
            reached_is_bounded(size, n);
        }
    }
}

/// The edges of the cells grow, so an error fills a cell exactly when it reaches that cell's
/// edge: it never skips one.
pub proof fn a_cell_is_filled_from_its_edge_on(error: u64, cell: int)
    requires
        0 <= cell < BAR_HALF,
    ensures
        filled(error) > cell <==> size_of(error) >= CELL_EDGES@[cell],
        cell > 0 ==> CELL_EDGES@[cell - 1] < CELL_EDGES@[cell],
        CELL_EDGES@[cell] <= FULL_SCALE,
{
    assert forall|i: int, j: int| 0 <= i < j < 12 implies CELL_EDGES@[i] < CELL_EDGES@[j] by {}
    reached_edges(size_of(error), 12, cell);
}

proof fn half_cells(edge: i64, cell: int, exponent: int)
    requires
        edge > 0,
        rank::exponent(edge as u64) == exponent,
        1016 <= exponent <= 1020,
        -240 <= 120 * rank::significand(edge as u64) - (2 * cell + 1) * (if exponent == 1016 {
            0x800_0000_0000_0000int
        } else if exponent == 1017 {
            0x400_0000_0000_0000
        } else if exponent == 1018 {
            0x200_0000_0000_0000
        } else if exponent == 1019 {
            0x100_0000_0000_0000
        } else {
            0x80_0000_0000_0000
        }) <= 240,
    ensures
        -240 <= 120 * rank::significand(edge as u64) - (2 * cell + 1) * power2::pow2(
            (1075 - rank::exponent(edge as u64)) as nat,
        ) <= 240,
{
    power2::lemma2_to64_rest();
}

/// The edge of each cell lies in the middle of it, a fifth of a radian being twelve cells: an
/// error of as many cells and a half, to the last places of a double.
pub proof fn an_error_is_shown_to_the_nearest_cell(cell: int)
    requires
        0 <= cell < BAR_HALF,
    ensures
        ({
            let edge = CELL_EDGES@[cell] as u64;
            let units = power2::pow2((1075 - rank::exponent(edge)) as nat);
            -240 <= 120 * rank::significand(edge) - (2 * cell + 1) * units <= 240
        }),
{
    if cell == 0 {
        half_cells(0x3f81_1111_1111_1111, 0, 1016);
    }
    if cell == 1 {
        half_cells(0x3f99_9999_9999_999a, 1, 1017);
    }
    if cell == 2 {
        half_cells(0x3fa5_5555_5555_5555, 2, 1018);
    }
    if cell == 3 {
        half_cells(0x3fad_dddd_dddd_dddf, 3, 1018);
    }
    if cell == 4 {
        half_cells(0x3fb3_3333_3333_3334, 4, 1019);
    }
    if cell == 5 {
        half_cells(0x3fb7_7777_7777_7778, 5, 1019);
    }
    if cell == 6 {
        half_cells(0x3fbb_bbbb_bbbb_bbbb, 6, 1019);
    }
    if cell == 7 {
        half_cells(0x3fc0_0000_0000_0000, 7, 1020);
    }
    if cell == 8 {
        half_cells(0x3fc2_2222_2222_2222, 8, 1020);
    }
    if cell == 9 {
        half_cells(0x3fc4_4444_4444_4444, 9, 1020);
    }
    if cell == 10 {
        half_cells(0x3fc6_6666_6666_6667, 10, 1020);
    }
    if cell == 11 {
        half_cells(0x3fc8_8888_8888_8888, 11, 1020);
    }
}

/// The scale is a fifth of a radian, a joint is close within a twentieth and off within three
/// twenty-fifths, to the last place of a double.
pub proof fn the_scale_is_a_fifth_of_a_radian()
    ensures
        ({
            let full = FULL_SCALE as u64;
            let units = power2::pow2((1075 - rank::exponent(full)) as nat);
            -5 <= 5 * rank::significand(full) - units <= 5
        }),
        ({
            let quarter = QUARTER_SCALE as u64;
            let units = power2::pow2((1075 - rank::exponent(quarter)) as nat);
            -20 <= 20 * rank::significand(quarter) - units <= 20
        }),
        ({
            let most = SIX_TENTHS_SCALE as u64;
            let units = power2::pow2((1075 - rank::exponent(most)) as nat);
            -25 <= 25 * rank::significand(most) - 3 * units <= 25
        }),
{
    power2::lemma2_to64_rest();
    assert(power2::pow2(57) == 0x200_0000_0000_0000);
    assert(power2::pow2(56) == 0x100_0000_0000_0000);
    assert(power2::pow2(55) == 0x80_0000_0000_0000);
}

/// Every piece of every line is seen with its text and its look.
pub proof fn every_piece_is_seen(page: Seq<Vec<Span>>, i: int, j: int)
    requires
        0 <= i < page.len(),
        0 <= j < page[i]@.len(),
    ensures
        lines(page).len() == page.len(),
        lines(page)[i].len() == page[i]@.len(),
        lines(page)[i][j].0 == page[i]@[j].text@,
        lines(page)[i][j].1 == page[i]@[j].look,
        spans(page[i]@)[j] == (page[i]@[j].text@, page[i]@[j].look),
        spans(page[i]@).len() == page[i]@.len(),
{
}

/// The looks are what they are called.
pub proof fn a_look_is_what_it_is_called(ink: Ink)
    ensures
        ink_look(ink) == (Look { ink, bold: false, dim: false }),
        bold_look(ink) == (Look { ink, bold: true, dim: false }),
        dim_look() == (Look { ink: Ink::Plain, bold: false, dim: true }),
        plain_look() == (Look { ink: Ink::Plain, bold: false, dim: false }),
{
}

/// The filled cells of a bar, and the mark of one that runs off it, have the colour of how well
/// the joint follows; the rest of the bar is dim or plain.
pub proof fn a_bar_has_the_colour_of_its_error(error: u64, i: int)
    requires
        finite(error),
        0 <= i < bar(Some(error)).len(),
    ensures
        ({
            let piece = bar(Some(error))[i];
            &&& piece.0.contains('█') ==> piece.1 == error_look(error)
            &&& piece.0.contains('»') || piece.0.contains('«') ==> piece.1.ink == error_look(
                error,
            ).ink && piece.1.bold
            &&& piece.0.contains('·') || piece.0.contains('│') ==> piece.1 == dim_look()
        }),
{
    reveal_strlit("«");
    reveal_strlit("»");
    reveal_strlit(" ");
    reveal_strlit("│");
}

/// A tick keeps its columns as long as its figures fit: the time, the policy, the rate, the missed
/// ticks, the verdict and gravity stand at the same places of every line.
#[verifier::rlimit(30)]
pub proof fn a_tick_keeps_its_columns(state: RobotState, f: Figures)
    requires
        f.t@.len() <= 8,
        state.policy@.len() <= 5,
        f.hz@.len() <= 5,
        state.missed < 10000,
    ensures
        ({
            let t = tick_text(state, f);
            &&& text::reads(t, 8 - f.t@.len(), f.t@)
            &&& text::reads(t, 15 - state.policy@.len(), state.policy@)
            &&& text::reads(t, 22 - f.hz@.len(), f.hz@)
            &&& text::reads(t, 22, "Hz miss="@)
            &&& text::reads(t, 30, text::dec(state.missed as nat))
            &&& text::reads(
                t,
                35,
                if state.fallen {
                    "FALLEN"@
                } else {
                    "ok    "@
                },
            )
            &&& text::reads(t, 43, triple("g"@, f.gravity))
        }),
{
    let missed = text::dec(state.missed as nat);
    reveal_with_fuel(text::dec, 5);
    assert(missed.len() <= 4);
    reveal_strlit("  ");
    reveal_strlit(" ");
    reveal_strlit("Hz miss=");
    reveal_strlit("FALLEN");
    reveal_strlit("ok    ");
    let (a, b, c, d) = (
        text::right_aligned(f.t@, 8),
        text::right_aligned(state.policy@, 5),
        text::right_aligned(f.hz@, 5),
        text::padded(missed, 4),
    );
    let word = if state.fallen {
        "FALLEN"@
    } else {
        "ok    "@
    };
    let g = triple("g"@, f.gravity);
    let end = " kp="@ + text::padded(gain_text(state.gain), 4) + " "@ + triple("req"@, f.requested)
        + " "@ + triple("app"@, f.applied) + limits_note(state.limited_by@);
    let start = a + "  "@ + b + "  "@ + c + "Hz miss="@ + d + " "@ + word + "  "@ + g;
    let t = tick_text(state, f);
    assert(t =~= start + end);
    text::alignment_adds_spaces_in_front(f.t@, 8);
    text::alignment_adds_spaces_in_front(state.policy@, 5);
    text::alignment_adds_spaces_in_front(f.hz@, 5);
    text::padding_adds_spaces_behind(missed, 4);
    columns_of(start, end, a, b, c, d, word, g);
    a_column_ends_in_its_text(t, 0, a, f.t@);
    a_column_ends_in_its_text(t, 10, b, state.policy@);
    a_column_ends_in_its_text(t, 17, c, f.hz@);
    assert(t.subrange(30, 30int + missed.len()) =~= missed) by {
        assert forall|i: int| 0 <= i < missed.len() implies t[30 + i] == missed[i] by {
            assert(t.subrange(30, 34)[i] == d[i]);
            assert(d.take(missed.len() as int)[i] == d[i]);
        }
    }
}

proof fn columns_of(
    start: Seq<char>,
    end: Seq<char>,
    a: Seq<char>,
    b: Seq<char>,
    c: Seq<char>,
    d: Seq<char>,
    word: Seq<char>,
    g: Seq<char>,
)
    requires
        a.len() == 8,
        b.len() == 5,
        c.len() == 5,
        d.len() == 4,
        word.len() == 6,
        start == a + "  "@ + b + "  "@ + c + "Hz miss="@ + d + " "@ + word + "  "@ + g,
    ensures
        text::reads(start + end, 0, a),
        text::reads(start + end, 10, b),
        text::reads(start + end, 17, c),
        text::reads(start + end, 22, "Hz miss="@),
        text::reads(start + end, 30, d),
        text::reads(start + end, 35, word),
        text::reads(start + end, 43, g),
{
    reveal_strlit("  ");
    reveal_strlit(" ");
    reveal_strlit("Hz miss=");
    let t = start + end;
    assert(t.subrange(0, 8) =~= a);
    assert(t.subrange(10, 15) =~= b);
    assert(t.subrange(17, 22) =~= c);
    assert(t.subrange(22, 30) =~= "Hz miss="@);
    assert(t.subrange(30, 34) =~= d);
    assert(t.subrange(35, 41) =~= word);
    assert(t.subrange(43, 43int + g.len()) =~= g);
}

proof fn a_column_ends_in_its_text(t: Seq<char>, at: int, column: Seq<char>, s: Seq<char>)
    requires
        text::reads(t, at, column),
        s.len() <= column.len(),
        column.skip(column.len() - s.len()) == s,
    ensures
        text::reads(t, at + column.len() - s.len(), s),
{
    let from = at + column.len() - s.len();
    assert(t.subrange(from, from + s.len()) =~= s) by {
        assert forall|i: int| 0 <= i < s.len() implies t[from + i] == s[i] by {
            let k = column.len() - s.len() + i;
            assert(t.subrange(at, at + column.len())[k] == column[k]);
            assert(column.skip(column.len() - s.len())[i] == column[k]);
        }
    }
}

} // verus!
