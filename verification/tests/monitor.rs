use duck::exit;
use duck::monitor::{
    decode, ended, joint_label, joint_rows, poll_ns, reader_stopped, should_paint, subscription,
    trace_rows, Key, Pressed, Read, RobotState, Screen, Spoken, SubscribeResult, Units, Update, BAR_HALF,
    HEADER_HEIGHT, SUBSCRIBE_ID, TRACE_SAMPLES,
};
use duck::panel::{
    angle, deviation_bar, error_angle, error_style, explain_limit, fall_verdict, head, imu, limits,
    joint_row, movement, policy_caption, stream_line, tick_line, title, tracking, Axis, Figures,
    Ink, Joint, JointError, Look, Span, Tracking, CELL_EDGES, FULL_SCALE, QUARTER_SCALE,
    SIX_TENTHS_SCALE,
};
use duck::proto::{Call, Id, SubscribeParams};

const BAR_FULL_SCALE: f64 = 0.20;
const SECOND: u64 = 1_000_000_000;

const JOINT_NAMES: [&str; 15] = [
    "left_hip_yaw",
    "left_hip_roll",
    "left_hip_pitch",
    "left_knee",
    "left_ankle",
    "neck_pitch",
    "head_pitch",
    "head_yaw",
    "head_roll",
    "mouth",
    "right_hip_yaw",
    "right_hip_roll",
    "right_hip_pitch",
    "right_knee",
    "right_ankle",
];

// ── what a screen shows, from the numbers on the wire ────────────────────────

fn bar_of(error: Option<f64>) -> Vec<Span> {
    deviation_bar(error.map(f64::to_bits))
}

fn content(line: &[Span]) -> String {
    line.iter().map(|s| s.text.as_str()).collect()
}

fn number(units: Units, bits: u64) -> String {
    let v = f64::from_bits(bits);
    match units {
        Units::Degrees => format!("{:+.2}", v.to_degrees()),
        Units::Radians => format!("{v:+.3}"),
    }
}

fn axis(state: &RobotState, units: Units, i: usize, angular: bool) -> Axis {
    let asked = f64::from_bits(state.requested[i]);
    let applied = f64::from_bits(state.applied[i]);
    let show = |v: f64| {
        let v = if angular && units == Units::Degrees {
            v.to_degrees()
        } else {
            v
        };
        format!("{v:+.2}")
    };
    Axis {
        asked: show(asked),
        applied: show(applied),
        clamped: (asked - applied).abs() > 1e-6,
    }
}

fn render_to(view: &mut Screen, height: u16) -> String {
    let rows = {
        let state = view.latest.as_ref().expect("a state");
        joint_rows(state.joints.len(), state.targets.len(), JOINT_NAMES.len())
    };
    let trace = trace_rows(height, rows);
    view.fit(height - HEADER_HEIGHT - trace, rows);

    let units = view.units;
    let state = view.latest.as_ref().unwrap();
    let mut out: Vec<String> = Vec::new();
    let t = format!("{:.2}", f64::from_bits(state.t));
    let hz = format!("{:.1}", f64::from_bits(state.hz));
    out.push(content(&title(&state.policy, &t, &hz, state.missed, None)));
    out.push(view.key_hint());
    for line in movement(
        units,
        &axis(state, units, 0, false),
        &axis(state, units, 1, false),
        &axis(state, units, 2, true),
    ) {
        out.push(content(&line));
    }
    let gravity: Vec<String> = state
        .gravity
        .iter()
        .map(|g| format!("{:+.2}", f64::from_bits(*g)))
        .collect();
    for line in imu(&gravity[0], &gravity[1], &gravity[2], state.fallen) {
        out.push(content(&line));
    }
    out.push(content(&limits(&state.limited_by)));
    out.push(content(&head(
        units,
        &number(units, state.head[0]),
        &number(units, state.head[1]),
        &number(units, state.head[2]),
        &number(units, state.head[3]),
        state.gain,
        state.limp,
    )));
    out.push(content(&policy_caption(view.policy.as_ref())));
    out.push(view.window_note(rows, view.visible));
    for i in (view.scroll..rows).take(view.visible) {
        let measured = state.joints.get(i).copied();
        let target = state.targets.get(i).copied();
        let error = measured
            .zip(target)
            .map(|(m, t)| f64::from_bits(m) - f64::from_bits(t));
        let joint = Joint {
            measured: measured.map(|v| number(units, v)),
            target: target.map(|v| number(units, v)),
            error: error.map(|e| JointError {
                number: number(units, e.to_bits()),
                error: e.to_bits(),
            }),
        };
        let cells: Vec<String> = joint_row(units, i, &JOINT_NAMES, &joint)
            .iter()
            .map(|cell| content(cell))
            .collect();
        out.push(cells.join(" "));
    }
    out.push(view.trace_title());
    out.join("\n")
}

fn draw(height: u16, state: RobotState, scroll: usize) -> String {
    let mut view = Screen::new(20);
    assert!(view.absorb(tick(state), 0).is_ok(), "a state is not a failure");
    view.scroll_by(scroll as isize);
    render_to(&mut view, height)
}

fn tick(state: RobotState) -> Update {
    Update::State(state)
}

fn bits(v: f64) -> u64 {
    v.to_bits()
}

fn a_state() -> RobotState {
    RobotState {
        t: bits(1.0),
        requested: [bits(0.0); 3],
        applied: [bits(0.0); 3],
        limited_by: vec![],
        head: [bits(0.0); 4],
        policy: "stand".to_owned(),
        fallen: false,
        limp: false,
        gravity: [bits(0.0), bits(0.0), bits(-1.0)],
        gain: Some(32),
        hz: bits(50.0),
        missed: 0,
        joints: vec![bits(0.0); JOINT_NAMES.len()],
        targets: vec![bits(0.0); JOINT_NAMES.len()],
    }
}

/// An angle on every surface that draws one: a joint a right angle from straight, its command
/// five degrees off, a tilted head, and a turn rate of 1 rad/s.
fn a_bent_state() -> RobotState {
    let mut state = a_state();
    state.joints[0] = bits(std::f64::consts::FRAC_PI_2);
    state.targets[0] = bits(std::f64::consts::FRAC_PI_2 - 5.0_f64.to_radians());
    state.head[0] = bits(std::f64::consts::FRAC_PI_4);
    state.requested[2] = bits(1.0);
    state.applied[2] = bits(1.0);
    state
}

// ── bars ─────────────────────────────────────────────────────────────────────

#[test]
fn deviation_bars_are_all_one_width() {
    let width = |e: Option<f64>| {
        bar_of(e)
            .iter()
            .map(|s| s.text.chars().count())
            .sum::<usize>()
    };
    let expected = 2 * BAR_HALF + 3;
    for error in [0.0, 0.01, -0.01, BAR_FULL_SCALE, -BAR_FULL_SCALE, 5.0, -5.0] {
        assert_eq!(width(Some(error)), expected, "error {error}");
    }
}

#[test]
fn an_error_off_the_scale_is_marked() {
    let text = |e: f64| content(&bar_of(Some(e)));
    assert!(text(5.0).contains('»'), "{}", text(5.0));
    assert!(text(-5.0).contains('«'), "{}", text(-5.0));
    assert!(!text(BAR_FULL_SCALE).contains('»'));
    assert!(!text(0.0).contains('«'));
}

#[test]
fn a_missing_reading_draws_no_bar() {
    assert_eq!(content(&bar_of(None)), "no reading");
    assert!(!bar_of(Some(f64::NAN)).is_empty());
    assert_eq!(content(&bar_of(Some(f64::NAN))), "no reading");
}

#[test]
fn zero_error_fills_nothing() {
    let text = content(&bar_of(Some(0.0)));
    assert!(!text.contains('█'), "{text}");
}

/// An error just past the scale rounds to the last cell, and is still marked; one that merely
/// reaches the edge is not.
#[test]
fn an_error_just_past_the_scale_is_marked() {
    let text = |e: f64| content(&bar_of(Some(e)));
    assert_eq!(text(0.205), " ············│████████████»");
    assert_eq!(text(-0.205), "«████████████│············ ");
    assert_eq!(text(BAR_FULL_SCALE), " ············│████████████ ");
    assert_eq!(text(-BAR_FULL_SCALE), " ████████████│············ ");
    let bits = BAR_FULL_SCALE.to_bits();
    assert_eq!(bits, FULL_SCALE as u64);
    assert!(text(f64::from_bits(bits + 1)).ends_with('»'));
    assert!(text(f64::from_bits(bits - 1)).ends_with(' '));
}

/// The cells and the colour are those of dividing by the scale and rounding.
#[test]
fn a_bar_is_the_error_divided_by_the_scale() {
    let mut errors: Vec<u64> = Vec::new();
    for edge in CELL_EDGES
        .into_iter()
        .chain([FULL_SCALE, QUARTER_SCALE, SIX_TENTHS_SCALE])
    {
        for bits in edge as u64 - 2..=edge as u64 + 2 {
            errors.push(bits);
        }
    }
    for n in 0..5000u32 {
        errors.push((f64::from(n) * 0.0001).to_bits());
    }
    for bits in errors {
        let error = f64::from_bits(bits);
        let scaled = error / BAR_FULL_SCALE;
        let cells = ((scaled * BAR_HALF as f64).round() as usize).min(BAR_HALF);
        let filled = |e: f64| content(&bar_of(Some(e))).matches('█').count();
        assert_eq!(filled(error), cells, "{error}");
        assert_eq!(filled(-error), cells, "-{error}");
        let expected = if scaled < 0.25 {
            Tracking::Close
        } else if scaled < 0.6 {
            Tracking::Off
        } else {
            Tracking::Lost
        };
        assert_eq!(tracking(bits), expected, "{error}");
        assert_eq!(tracking((-error).to_bits()), expected, "-{error}");
    }
    for error in [f64::NAN, -f64::NAN, f64::INFINITY, f64::NEG_INFINITY] {
        assert_eq!(tracking(error.to_bits()), Tracking::NotFinite);
        assert_eq!(content(&bar_of(Some(error))), "no reading");
    }
}

/// A bar grows from the centre, to the side of its sign.
#[test]
fn a_bar_grows_from_the_centre() {
    let bar = |error: f64| content(&bar_of(Some(error)));
    assert_eq!(bar(0.033), " ············│██·········· ");
    assert_eq!(bar(-0.033), " ··········██│············ ");
    assert_eq!(bar(0.22), " ············│████████████»");
    assert_eq!(bar(-0.22), "«████████████│············ ");
    assert_eq!(bar(-0.2), " ████████████│············ ");
    assert_eq!(bar(-0.0), " ············│············ ");
}

#[test]
fn opposite_errors_mirror_each_other() {
    for error in [0.001, 0.02, 0.1, 0.199, 0.2, 0.205, 3.0, f64::MAX] {
        let turned: String = content(&bar_of(Some(error)))
            .chars()
            .rev()
            .map(|c| if c == '»' { '«' } else { c })
            .collect();
        assert_eq!(content(&bar_of(Some(-error))), turned, "{error}");
    }
}

#[test]
fn a_bar_takes_the_colour_of_its_error() {
    let look = |ink: Ink, bold: bool| Look {
        ink,
        bold,
        dim: false,
    };
    let style = |error: f64| error_style(error.to_bits());
    assert_eq!(style(0.01), look(Ink::Green, false));
    assert_eq!(style(-0.1), look(Ink::Yellow, false));
    assert_eq!(style(0.15), look(Ink::Red, false));
    assert_eq!(style(f64::NAN), look(Ink::Magenta, true));
    let off = bar_of(Some(1.0));
    assert_eq!(off[3].look, look(Ink::Red, false));
    assert_eq!(off[5].look, look(Ink::Red, true));
}

// ── the stream ───────────────────────────────────────────────────────────────

#[test]
fn a_quiet_stream_is_called_stalled() {
    let mut view = Screen::new(50);
    let now = 100 * SECOND;
    assert_eq!(view.stalled_for(now), None, "nothing has arrived yet");

    view.arrived = Some(now);
    assert_eq!(view.stalled_for(now), None, "just arrived");

    view.arrived = Some(now - 2 * SECOND);
    assert_eq!(view.stalled_for(now), Some(2 * SECOND));
}

/// Five periods, and never less than half a second.
#[test]
fn a_slow_stream_is_given_time() {
    let mut view = Screen::new(1);
    view.arrived = Some(0);
    assert_eq!(view.stalled_for(5 * SECOND), None);
    assert_eq!(view.stalled_for(5 * SECOND + 1), Some(5 * SECOND + 1));
    view.hz = 0;
    assert_eq!(view.stalled_for(5 * SECOND), None);
    view.hz = 1000;
    assert_eq!(view.stalled_for(SECOND / 2), None);
    assert_eq!(view.stalled_for(SECOND / 2 + 1), Some(SECOND / 2 + 1));
    view.hz = 3;
    assert_eq!(view.stalled_for(1_666_666_667), None);
    assert_eq!(view.stalled_for(1_666_666_668), Some(1_666_666_668));
    assert_eq!(poll_ns(50), 4_000_000);
    assert_eq!(poll_ns(0), 200_000_000);
    assert_eq!(poll_ns(9999), 1_000_000);
    assert_eq!(poll_ns(3), 66_666_667);
}

#[test]
fn the_trace_does_not_grow_without_end() {
    let mut view = Screen::new(50);
    for _ in 0..TRACE_SAMPLES + 50 {
        assert!(view.absorb(tick(a_state()), 0).is_ok());
    }
    assert_eq!(view.trace.len(), TRACE_SAMPLES);
    assert_eq!(view.frames as usize, TRACE_SAMPLES + 50);
}

/// Newest first, and the peak never falls.
#[test]
fn the_trace_holds_the_newest_rates() {
    let mut view = Screen::new(50);
    assert_eq!(view.trace_title(), " loop rate ");
    assert_eq!(view.trace_height(), 1);
    for hz in [50.0, 20.4, 49.6] {
        let mut state = a_state();
        state.hz = bits(hz);
        assert!(view.absorb(tick(state), 7).is_ok());
    }
    assert_eq!(view.trace, [50, 20, 50]);
    assert_eq!(view.peak, 50);
    assert_eq!(view.trace_height(), 50);
    assert_eq!(view.arrived, Some(7));
    assert_eq!(
        view.trace_title(),
        " loop rate · 20–50 Hz over 3 frames · full height 50 Hz · newest right "
    );
}

#[test]
fn the_stream_ending_is_an_unreachable_failure() {
    let mut view = Screen::new(50);
    let failure = view
        .absorb(Update::Ended("robotd closed the connection".to_owned()), 0)
        .expect_err("ending the stream is a failure");
    assert_eq!(failure.code, exit::UNREACHABLE);
    assert_eq!(failure.message, "robotd closed the connection");
}

#[test]
fn a_stream_ends_with_its_reason() {
    assert_eq!(ended(&Read::Line), None);
    assert_eq!(
        ended(&Read::Closed).as_deref(),
        Some("robotd closed the connection")
    );
    assert_eq!(
        ended(&Read::Failed("reset".into())).as_deref(),
        Some("stream ended: reset")
    );
    assert_eq!(reader_stopped().code, exit::UNREACHABLE);
    assert_eq!(reader_stopped().message, "the robot.state reader stopped");
}

fn subscribed(walk: Option<&str>, stand: Option<&str>) -> SubscribeResult {
    SubscribeResult {
        accepted: true,
        walk: walk.map(str::to_owned),
        stand: stand.map(str::to_owned),
        unavailable: None,
    }
}

#[test]
fn a_state_notification_and_a_subscribe_answer_are_told_apart() {
    assert!(matches!(
        decode(Spoken::Request(Some(a_state()))),
        Some(Update::State(_))
    ));

    let ack = Spoken::Response(
        Some(Id::Number(SUBSCRIBE_ID)),
        Some(subscribed(Some("alpha_walking.onnx"), None)),
    );
    let Some(Update::Policy(policy)) = decode(ack) else {
        panic!("the subscribe answer must decode as a policy");
    };
    assert_eq!(policy.walk.as_deref(), Some("alpha_walking.onnx"));

    // A response to some other call is not the subscribe answer.
    let other = Spoken::Response(
        Some(Id::Number(SUBSCRIBE_ID + 1)),
        Some(subscribed(None, None)),
    );
    assert!(decode(other).is_none());
    assert!(decode(Spoken::Response(None, Some(subscribed(None, None)))).is_none());
    assert!(decode(Spoken::Response(Some(Id::Number(SUBSCRIBE_ID)), None)).is_none());
    assert!(decode(Spoken::Request(None)).is_none());
    assert!(decode(Spoken::Neither).is_none());
}

/// An answer that names no policy is a robot that does not say, and no failure.
#[test]
fn an_older_robotd_answer_still_decodes() {
    let old = Spoken::Response(Some(Id::Number(SUBSCRIBE_ID)), Some(subscribed(None, None)));

    let Some(Update::Policy(policy)) = decode(old) else {
        panic!("an older acknowledgement must still decode");
    };
    assert!(policy.accepted);
    assert_eq!(policy.walk, None);
    assert_eq!(policy.unavailable, None);
}

// ── the screen ───────────────────────────────────────────────────────────────

#[test]
fn a_tall_terminal_shows_every_joint() {
    let screen = draw(32, a_state(), 0);

    for name in JOINT_NAMES {
        assert!(screen.contains(name), "{name} is missing:\n{screen}");
    }
    // The columns carry a unit, and the bar carries the scale it is drawn to.
    assert!(screen.contains("degrees"), "{screen}");
    assert!(screen.contains("bar reaches ±11.5°"), "{screen}");
    assert!(
        !screen.contains("of 15"),
        "nothing is hidden, so nothing is counted:\n{screen}"
    );
}

#[test]
fn a_short_terminal_says_what_it_is_hiding() {
    let screen = draw(24, a_state(), 0);

    assert!(screen.contains("of 15"), "{screen}");
    assert!(screen.contains("↑↓ scrolls"), "{screen}");
    assert!(!screen.contains("right_ankle"), "no room for the last row");

    // Scrolled to the end, the last joint is on screen and the first is not.
    let scrolled = draw(24, a_state(), 99);
    assert!(scrolled.contains("right_ankle"), "{scrolled}");
    assert!(!scrolled.contains("left_hip_yaw"), "{scrolled}");
}

#[test]
fn every_joint_can_be_scrolled_to() {
    let rows = JOINT_NAMES.len();
    for height in [4u16, 7, 30] {
        for row in 0..rows {
            let mut view = Screen::new(20);
            view.fit(height, rows);
            let down = (row + 1).saturating_sub(view.visible);
            view.scroll_by(down as isize);
            view.fit(height, rows);
            assert_eq!(view.scroll, down);
            assert!(view.scroll <= row && row < view.scroll + view.visible);
        }
    }
}

#[test]
fn scrolling_stops_at_the_end() {
    let mut view = Screen::new(20);
    assert!(view.absorb(tick(a_state()), 0).is_ok());
    view.scroll_by(99);
    render_to(&mut view, 24);
    let rows = JOINT_NAMES.len();
    assert_eq!(view.scroll, rows - view.visible);
    assert_eq!(
        view.window_note(rows, view.visible),
        " degrees · bar ±11.5° · 6–15 of 15 · ↑↓ scrolls "
    );
}

#[test]
fn a_fallen_robot_says_so_beside_its_gravity() {
    let mut state = a_state();
    state.fallen = true;
    state.limp = true;
    state.limited_by = vec!["fallen".to_owned()];

    let screen = draw(32, state, 0);
    assert!(screen.contains("FALLEN"), "{screen}");
    assert!(screen.contains("limp"), "{screen}");
    // The verdict sits beside the axis it was decided from, each named.
    assert!(screen.contains("z up"), "{screen}");
    assert!(screen.contains("-1.00"), "{screen}");
    // And the limit is explained, not just named.
    assert!(
        screen.contains("fallen — the robot is down"),
        "the limit is spelled out:\n{screen}"
    );
}

#[test]
fn the_header_labels_its_axes_and_units() {
    let mut state = a_state();
    state.requested = [bits(0.30), bits(0.0), bits(0.10)];
    state.applied = [bits(0.15), bits(0.0), bits(0.10)];

    let screen = draw(32, state, 0);
    for label in [
        "vx   forward",
        "vy   left",
        "vyaw turn left",
        "m/s",
        "°/s",
        "asked",
        "applied",
        // The IMU is named as such, not left as a bare `g[...]`.
        "imu · gravity in the trunk frame",
        "x forward",
        "neck_pitch",
        "kp 32",
    ] {
        assert!(screen.contains(label), "{label} is missing:\n{screen}");
    }
    assert!(screen.contains("+0.30"), "what was asked for:\n{screen}");
    assert!(screen.contains("+0.15"), "what was applied:\n{screen}");
}

#[test]
fn the_frame_names_the_policy_it_was_told_about() {
    let mut view = Screen::new(20);
    assert!(view
        .absorb(
            Update::Policy(subscribed(
                Some("alpha_walking.onnx"),
                Some("alpha_stand.onnx")
            )),
            0
        )
        .is_ok());
    assert!(view.absorb(tick(a_state()), 0).is_ok());

    let screen = render_to(&mut view, 32);
    assert!(screen.contains("alpha_walking.onnx"), "{screen}");
    assert!(screen.contains("standing alpha_stand.onnx"), "{screen}");
}

#[test]
fn an_unnamed_policy_is_called_unreported() {
    let screen = draw(32, a_state(), 0);
    assert!(screen.contains("not reported by robotd"), "{screen}");
}

#[test]
fn a_missing_standing_policy_is_stated() {
    let mut view = Screen::new(20);
    assert!(view
        .absorb(
            Update::Policy(subscribed(Some("alpha_walking.onnx"), None)),
            0
        )
        .is_ok());
    assert!(view.absorb(tick(a_state()), 0).is_ok());

    let screen = render_to(&mut view, 32);
    assert!(screen.contains("no standing policy"), "{screen}");
}

#[test]
fn a_policy_that_would_not_load_says_why() {
    let mut policy = subscribed(None, Some("ignored"));
    policy.unavailable = Some("no such file".into());
    assert_eq!(
        content(&policy_caption(Some(&policy))),
        " policy · none loaded — no such file "
    );
}

#[test]
fn an_unclamped_command_says_it_was_untouched() {
    let screen = draw(32, a_state(), 0);
    assert!(
        screen.contains("none — the command went through"),
        "{screen}"
    );
}

#[test]
fn angles_are_drawn_in_degrees() {
    let screen = draw(32, a_bent_state(), 0);

    // A joint, its command, and the error between them.
    assert!(screen.contains("+90.00°"), "a right angle:\n{screen}");
    assert!(screen.contains("+85.00°"), "what it was told:\n{screen}");
    assert!(
        screen.contains("+5.00°"),
        "the error between them:\n{screen}"
    );
    // The head, and the turn rate in the twist.
    assert!(screen.contains("neck_pitch +45.00°"), "{screen}");
    assert!(screen.contains("+57.30"), "1 rad/s as °/s:\n{screen}");
    // And no unit label still says radians while the numbers are degrees.
    assert!(!screen.contains("rad/s"), "{screen}");
    assert!(!screen.contains("±0.20 rad"), "{screen}");
}

#[test]
fn pressing_u_puts_the_radians_back() {
    let mut view = Screen::new(20);
    assert!(view.absorb(tick(a_bent_state()), 0).is_ok());
    // The key is on screen before it is pressed, or nobody knows it is there.
    assert!(render_to(&mut view, 32).contains("u radians"), "hinted");

    view.toggle_units();
    let screen = render_to(&mut view, 32);
    assert!(screen.contains("+1.571"), "the wire angle:\n{screen}");
    assert!(screen.contains("+1.00"), "the wire rate:\n{screen}");
    assert!(screen.contains("rad/s"), "{screen}");
    assert!(screen.contains("bar reaches ±0.20 rad"), "{screen}");
    assert!(!screen.contains('°'), "{screen}");
    // And back again, to the unit the view opened in.
    assert_eq!(view.press(Key::Char('u'), false), Pressed::Redraw);
    assert!(render_to(&mut view, 32).contains("+90.00°"));
}

#[test]
fn a_missing_angle_is_a_dash_in_either_unit() {
    let mut view = Screen::new(20);
    assert_eq!(angle(view.units, None).text, "-");
    view.toggle_units();
    assert_eq!(angle(view.units, None).text, "-");
    assert_eq!(error_angle(view.units, None).text, "-");
}

#[test]
fn keys_move_the_window_and_leave() {
    let mut view = Screen::new(20);
    assert_eq!(view.press(Key::Up, false), Pressed::Redraw);
    assert_eq!(view.scroll, 0);
    assert_eq!(view.press(Key::Char('j'), false), Pressed::Redraw);
    assert_eq!(view.press(Key::Down, false), Pressed::Redraw);
    assert_eq!(view.scroll, 2);
    assert_eq!(view.press(Key::Char('k'), false), Pressed::Redraw);
    assert_eq!(view.scroll, 1);
    view.fit(8, 100);
    assert_eq!(view.visible, 5);
    assert_eq!(view.press(Key::PageDown, false), Pressed::Redraw);
    assert_eq!(view.scroll, 6);
    assert_eq!(view.press(Key::PageUp, false), Pressed::Redraw);
    assert_eq!(view.scroll, 1);
    assert_eq!(view.press(Key::Home, false), Pressed::Redraw);
    assert_eq!(view.scroll, 0);
    assert_eq!(view.press(Key::Char('['), false), Pressed::TurnBack);
    assert_eq!(view.press(Key::Char(']'), false), Pressed::TurnOn);
    assert_eq!(view.press(Key::Char('x'), false), Pressed::Nothing);
    assert_eq!(view.press(Key::Other, true), Pressed::Nothing);
    assert_eq!(view.press(Key::Char('c'), false), Pressed::Nothing);
    assert_eq!(view.press(Key::Char('c'), true), Pressed::Quit);
    assert_eq!(view.press(Key::Char('q'), false), Pressed::Quit);
    assert_eq!(view.press(Key::Esc, false), Pressed::Quit);
    view.scroll = usize::MAX;
    view.scroll_by(isize::MAX);
    assert_eq!(view.scroll, usize::MAX);
    view.scroll_by(isize::MIN);
    assert_eq!(view.scroll, usize::MAX - (isize::MAX as usize) - 1);
    view.scroll_pages(-1);
    view.scroll_home();
    assert_eq!(view.scroll, 0);
}

#[test]
fn the_trace_gets_what_the_joints_leave() {
    assert_eq!(trace_rows(24, 15), 3);
    assert_eq!(trace_rows(30, 15), 4);
    assert_eq!(trace_rows(80, 15), 6);
    assert_eq!(trace_rows(0, 15), 3);
    let mut view = Screen::new(20);
    view.fit(2, 15);
    assert_eq!(view.visible, 0);
    assert!(should_paint(true, 0));
    assert!(!should_paint(false, 249_999_999));
    assert!(should_paint(false, 250_000_000));
}

/// A joint this build has no name for is still a joint.
#[test]
fn an_unnamed_joint_keeps_its_row() {
    assert_eq!(joint_rows(17, 15, JOINT_NAMES.len()), 17);
    assert_eq!(joint_rows(3, 16, JOINT_NAMES.len()), 16);
    assert_eq!(joint_rows(0, 0, JOINT_NAMES.len()), 15);
    assert_eq!(joint_label(16, &JOINT_NAMES), "joint 16");
    assert_eq!(joint_label(0, &JOINT_NAMES), "left_hip_yaw");
}

#[test]
fn limits_are_explained_in_order() {
    let said = limits(&vec!["deadman".into(), "joint_range".into(), "new_one".into()]);
    assert_eq!(
        content(&said),
        " limits  deadman — no intent arrived recently, velocity zeroed; \
         joint_range — a target was outside the actuator's travel; new_one"
    );
    assert_eq!(
        explain_limit("not_finite"),
        "not_finite — a target was NaN or infinite"
    );
    assert_eq!(fall_verdict(false).text, "upright");
    assert_eq!(fall_verdict(false).look.ink, Ink::Green);
    assert!(fall_verdict(true).look.bold);
}

#[test]
fn the_title_marks_what_is_wrong() {
    let quiet = title("walk", "1.00", "50.0", 0, None);
    assert_eq!(content(&quiet), " policy walk · t 1.00 s · 50.0 Hz · missed 0 ");
    assert!(quiet[5].look.dim);
    let loud = title("walk", "1.00", "50.0", 3, Some("2.5"));
    assert_eq!(
        content(&loud),
        " policy walk · t 1.00 s · 50.0 Hz · missed 3 · STALLED 2.5s "
    );
    assert_eq!(loud[5].look.ink, Ink::Yellow);
    assert_eq!(loud[7].look.ink, Ink::Red);
}

/// The line for a pipe, as `format!` would lay it out.
#[test]
fn a_tick_is_one_line() {
    let mut state = a_state();
    state.limited_by = vec!["deadman".into(), "fallen".into()];
    let three = |a: &str, b: &str, c: &str| (a.to_owned(), b.to_owned(), c.to_owned());
    let figures = Figures {
        t: format!("{:.2}", 1.0),
        hz: format!("{:.1}", 50.0),
        gravity: three("+0.00", "+0.00", "-1.00"),
        requested: three("+0.30", "+0.00", "+0.10"),
        applied: three("+0.15", "+0.00", "+0.10"),
    };
    assert_eq!(
        tick_line(&state, &figures),
        format!(
            "{:8.2}  {:>5}  {:5.1}Hz miss={:<4} {}  g[{:+.2} {:+.2} {:+.2}] kp={:<4} \
             req[{:+.2} {:+.2} {:+.2}] app[{:+.2} {:+.2} {:+.2}]{}",
            1.0,
            "stand",
            50.0,
            0,
            "ok    ",
            0.0,
            0.0,
            -1.0,
            "32",
            0.30,
            0.0,
            0.10,
            0.15,
            0.0,
            0.10,
            "  [deadman,fallen]"
        )
    );
    state.limited_by.clear();
    state.fallen = true;
    state.gain = None;
    let line = tick_line(&state, &figures);
    assert!(line.contains(" FALLEN  g["), "{line}");
    assert!(line.contains("kp=-    req["), "{line}");
    assert!(line.ends_with(']'), "{line}");
}

#[test]
fn a_rate_is_asked_for_or_left_to_the_robot() {
    assert_eq!(
        subscription(20),
        Call::RobotSubscribe(SubscribeParams { hz: Some(20) })
    );
    assert_eq!(
        subscription(0),
        Call::RobotSubscribe(SubscribeParams { hz: None })
    );
}

#[test]
fn a_piped_stream_prints_ticks_and_nothing_else() {
    let state = a_state();
    let three = || ("+0.00".to_owned(), "+0.00".to_owned(), "+0.00".to_owned());
    let figures = Figures {
        t: "1.00".to_owned(),
        hz: "50.0".to_owned(),
        gravity: three(),
        requested: three(),
        applied: three(),
    };
    assert_eq!(stream_line("{\"id\":1}\n", None, true), None);
    assert_eq!(stream_line("{\"id\":1}\n", None, false), None);
    let line = "{\"method\":\"robot.state\"} \r\n";
    assert_eq!(
        stream_line(line, Some((&state, &figures)), true).unwrap(),
        line.trim_end()
    );
    assert_eq!(
        stream_line(line, Some((&state, &figures)), false).unwrap(),
        tick_line(&state, &figures)
    );
}

/// A joint that only one side knows shows what it has, and no error.
#[test]
fn half_a_joint_has_no_error() {
    let joint = Joint {
        measured: Some("+1.00".to_owned()),
        target: None,
        error: Some(JointError {
            number: "+9.99".to_owned(),
            error: 1.0f64.to_bits(),
        }),
    };
    let cells: Vec<String> = joint_row(Units::Radians, 16, &JOINT_NAMES, &joint)
        .iter()
        .map(|cell| content(cell))
        .collect();
    assert_eq!(cells, vec!["joint 16", "+1.00", "-", "-", "no reading"]);
}

/// After any run of updates: every tick counted, the newest rates kept, the greatest the peak.
#[test]
fn a_screen_keeps_the_newest_of_what_it_heard() {
    let mut view = Screen::new(20);
    let mut rates: Vec<u64> = Vec::new();
    for n in 0..700u64 {
        let hz = ((n * 37) % 101) as f64 - 10.5;
        let mut state = a_state();
        state.hz = hz.to_bits();
        state.missed = n;
        rates.push(hz.round().max(0.0) as u64);
        assert!(matches!(view.absorb(Update::State(state), n), Ok(true)));
        if n % 100 == 0 {
            let policy = subscribed(Some("walk"), None);
            assert!(matches!(view.absorb(Update::Policy(policy), n), Ok(true)));
        }
    }
    let ended = view.absorb(Update::Ended("gone".to_owned()), 999).unwrap_err();
    assert_eq!((ended.code, ended.message.as_str()), (3, "gone"));
    assert_eq!(view.frames, 700);
    let newest: Vec<u64> = rates.iter().rev().take(TRACE_SAMPLES).copied().collect();
    assert_eq!(view.trace.iter().copied().collect::<Vec<u64>>(), newest);
    assert_eq!(view.peak, *rates.iter().max().unwrap());
    assert_eq!(view.latest.as_ref().unwrap().missed, 699);
    assert_eq!(view.arrived, Some(699));
    assert_eq!(
        view.policy.as_ref().unwrap().walk.as_deref(),
        Some("walk")
    );
}
