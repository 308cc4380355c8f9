use duck::hand::{
    classify, count_seen, drift, foreground, hand_range, shape_of, Arming, Background, Config,
    Drift, Fit, Frame, Hand, Refusal, Shape, ZoneKind, COLS, INFINITELY_FAR, MIN_FIT_ZONES, ROWS,
    ZONES,
};
use duck::head::{joint_index, HeadChain, HEAD_JOINTS, MOST_JOINTS};
use duck::rank::{key_bits, pick, range_key, whole};

// ── metres and keys ──────────────────────────────────────────────────────────

const NEAR_M: f64 = 0.15;
const FAR_M: f64 = 0.60;
const MARGIN_M: f64 = 0.08;
const PLANE_RMS_M: f64 = 0.03;
const BACKGROUND_TAU_S: f64 = 120.0;

type Metres = [Option<f64>; ZONES];

fn key(metres: f64) -> i64 {
    range_key(metres.to_bits())
}

fn metres(key: i64) -> f64 {
    f64::from_bits(key_bits(key))
}

fn keys(frame: &Metres) -> Frame {
    std::array::from_fn(|i| frame[i].map(key))
}

fn config() -> Config {
    Config {
        near: key(NEAR_M),
        far: key(FAR_M),
        min_zones: 3,
        most: std::array::from_fn(|usable| (0.75 * usable as f64).floor() as usize),
        min_arming_frames: 5,
        wall_zones: (0.9 * ZONES as f64).ceil() as usize,
    }
}

/// The background of each zone less the margin.
fn nearer_than(background: &Background) -> [i64; ZONES] {
    std::array::from_fn(|i| match background.range[i] {
        Some(r) => key(metres(r) - MARGIN_M),
        None => INFINITELY_FAR,
    })
}

fn detect(background: &Background, frame: &Metres, kinds: &[ZoneKind; ZONES]) -> Option<Hand> {
    background.detect(&keys(frame), kinds, &nearer_than(background), &config())
}

fn relax(background: &mut Background, frame: &Metres, hand: bool, dt_s: f64) {
    let alpha = (dt_s / BACKGROUND_TAU_S).clamp(0.0, 1.0);
    let blended: [i64; ZONES] = std::array::from_fn(|i| match (background.range[i], frame[i]) {
        (Some(reference), Some(r)) => {
            let reference = metres(reference);
            key(reference + (r - reference) * alpha)
        }
        _ => 0,
    });
    background.relax(&keys(frame), hand, &blended, &config());
}

/// Unit beam directions of an 8 by 8 grid over 45 degrees.
fn beams() -> [[f64; 3]; ZONES] {
    let half = (45.0_f64 / 2.0 - 45.0 / (COLS as f64) / 2.0).to_radians();
    let step = 2.0 * half / (COLS as f64 - 1.0);
    std::array::from_fn(|i| {
        let elevation = half - (i / COLS) as f64 * step;
        let azimuth = half - (i % COLS) as f64 * step;
        [
            elevation.cos() * azimuth.cos(),
            elevation.cos() * azimuth.sin(),
            elevation.sin(),
        ]
    })
}

fn det(m: [[f64; 3]; 3]) -> f64 {
    m[0][0] * (m[1][1] * m[2][2] - m[1][2] * m[2][1])
        - m[0][1] * (m[1][0] * m[2][2] - m[1][2] * m[2][0])
        + m[0][2] * (m[1][0] * m[2][1] - m[1][1] * m[2][0])
}

/// Least squares over inverse ranges, which are linear in the plane.
fn fitted(frame: &Frame) -> Shape {
    let points: Vec<([f64; 3], f64)> = frame
        .iter()
        .zip(beams())
        .filter_map(|(r, beam)| r.map(|r| (beam, metres(r))))
        .collect();
    let mut ata = [[0.0f64; 3]; 3];
    let mut atb = [0.0f64; 3];
    for (beam, r) in &points {
        for row in 0..3 {
            for col in 0..3 {
                ata[row][col] += beam[row] * beam[col];
            }
            atb[row] += beam[row] / r;
        }
    }
    let whole = det(ata);
    let v: [f64; 3] = std::array::from_fn(|col| {
        let mut m = ata;
        for row in 0..3 {
            m[row][col] = atb[row];
        }
        det(m) / whole
    });
    let norm = (v[0] * v[0] + v[1] * v[1] + v[2] * v[2]).sqrt();
    let sum: f64 = points
        .iter()
        .map(|(b, r)| {
            let predicted = b[0] * v[0] + b[1] * v[1] + b[2] * v[2];
            let error = (1.0 / r - predicted) * r * r;
            error * error
        })
        .sum();
    let rms = (sum / points.len().max(1) as f64).sqrt();
    let fit = Fit {
        distance: (whole.abs() > 1e-12).then(|| key(1.0 / norm)),
        rms: if rms.is_nan() { 0 } else { key(rms) },
    };
    shape_of(points.len(), fit, key(PLANE_RMS_M))
}

/// A wall perpendicular to the sensor axis: every beam reaches it at `d / (beam · axis)`.
fn wall(distance: f64) -> Metres {
    let beams = beams();
    std::array::from_fn(|i| Some(distance / beams[i][0]))
}

/// A blob of `size` by `size` zones at `distance`, centred, over `behind`.
fn blob(behind: &Metres, distance: f64, size: usize) -> Metres {
    let mut out = *behind;
    let start = (ROWS - size) / 2;
    for row in start..start + size {
        for col in start..start + size {
            out[row * COLS + col] = Some(distance);
        }
    }
    out
}

fn all_hits() -> [ZoneKind; ZONES] {
    [ZoneKind::Hit; ZONES]
}

fn armed(frames: &[Metres]) -> Result<Background, Refusal> {
    let mut arming = Arming::new();
    for frame in frames {
        arming.observe(&keys(frame));
    }
    assert_eq!(arming.frames(), frames.len());
    arming.finish(fitted(&arming.reduce()), &config())
}

// ── the hand and the wall ────────────────────────────────────────────────────

#[test]
fn a_hand_in_front_of_a_wall_the_duck_is_facing() {
    for wall_m in [0.30, 0.40, 0.55, 0.80] {
        let background = armed(&[wall(wall_m); 8]).expect("a wall is a background");
        assert!(
            detect(&background, &wall(wall_m), &all_hits()).is_none(),
            "the wall itself must be silent at {wall_m} m"
        );
        // Somewhere in the playable band, in front of wherever the wall is.
        let hand_m = (wall_m - 0.15).clamp(NEAR_M, FAR_M);
        let hand = detect(&background, &blob(&wall(wall_m), hand_m, 3), &all_hits())
            .unwrap_or_else(|| panic!("a hand at {hand_m} m in front of a {wall_m} m wall"));
        assert!((metres(hand.range) - hand_m).abs() < 0.02, "{:?}", hand);
        assert!((0.0..=1.0).contains(&closeness_of(&hand)), "{:?}", hand);
    }
}

fn closeness_of(hand: &Hand) -> f64 {
    let span = (FAR_M - NEAR_M).max(1e-6);
    ((FAR_M - metres(hand.range)) / span).clamp(0.0, 1.0)
}

#[test]
fn a_wall_reads_as_a_plane_at_its_distance() {
    for wall_m in [0.25, 0.5, 0.9] {
        let background = armed(&[wall(wall_m); 8]).expect("armed");
        match background.shape {
            Shape::Plane { distance, rms } => {
                let (distance_m, rms_m) = (metres(distance), metres(rms));
                assert!(
                    (distance_m - wall_m).abs() < 0.01,
                    "{distance_m} vs {wall_m}"
                );
                assert!(rms_m < 0.005, "a synthetic wall is flat, rms {rms_m}");
            }
            other => panic!("a wall must fit a plane, got {other:?}"),
        }
    }
}

#[test]
fn arming_refuses_a_hand_it_would_have_taken_as_the_zero() {
    assert!(matches!(
        armed(&[blob(&wall(0.6), 0.25, 3); 8]),
        Err(Refusal::SomethingInTheWay)
    ));
    // The same hand-shaped blob against open space, too — there is no wall to hide it.
    assert!(matches!(
        armed(&[blob(&[None; ZONES], 0.25, 3); 8]),
        Err(Refusal::SomethingInTheWay)
    ));
}

#[test]
fn open_space_arms_and_an_empty_sensor_does_not() {
    let far = {
        let mut frame = wall(2.0);
        frame[0] = None;
        frame
    };
    let background = armed(&[far; 8]).expect("a far wall is open space to a theremin");
    let hand = detect(&background, &blob(&far, 0.3, 3), &all_hits())
        .expect("a hand against a far background");
    assert!((metres(hand.range) - 0.3).abs() < 0.02);

    assert!(matches!(
        armed(&[[None; ZONES]; 8]),
        Err(Refusal::NoReturns)
    ));
    assert!(matches!(armed(&[]), Err(Refusal::NoReturns)));
}

#[test]
fn closeness_rises_as_the_hand_approaches() {
    let background = armed(&[wall(2.0); 8]).expect("armed");
    let closeness = |d: f64| {
        detect(&background, &blob(&wall(2.0), d, 3), &all_hits()).map(|h| closeness_of(&h))
    };
    let near = closeness(NEAR_M).expect("the near end plays");
    let far = closeness(FAR_M).expect("the far end plays");
    let middle = closeness(0.5 * (NEAR_M + FAR_M)).expect("the middle plays");
    assert!((near - 1.0).abs() < 1e-9, "{near}");
    assert!(far.abs() < 1e-9, "{far}");
    assert!(far < middle && middle < near);
    // Outside the band there is no note at all, rather than a clamped one.
    assert_eq!(closeness(FAR_M + 0.1), None);
    assert_eq!(closeness(NEAR_M - 0.04), None);
}

#[test]
fn a_wall_that_arrives_after_arming_is_not_a_hand() {
    let background = armed(&[wall(2.0); 8]).expect("armed");
    assert_eq!(
        detect(&background, &wall(0.3), &all_hits()),
        None,
        "a whole frame gone near is the duck moving, not a hand"
    );
    // And the same wall with only part of the frame on it *is* playable — that is a
    // hand-sized thing, whatever it is made of.
    assert!(detect(&background, &blob(&wall(2.0), 0.3, 4), &all_hits()).is_some());
}

#[test]
fn floor_returns_are_never_the_hand() {
    let background = armed(&[wall(2.0); 8]).expect("armed");
    let mut zones = all_hits();
    let mut frame = wall(2.0);
    // The bottom three rows are floor at a range that would otherwise dominate.
    for row in 5..ROWS {
        for col in 0..COLS {
            zones[row * COLS + col] = ZoneKind::Floor;
            frame[row * COLS + col] = Some(0.20);
        }
    }
    assert_eq!(detect(&background, &frame, &zones), None);
}

#[test]
fn the_margin_absorbs_the_trunks_sway() {
    let background = armed(&[wall(0.45); 8]).expect("armed");
    for sway in [0.0, 0.02, 0.05, MARGIN_M - 0.005] {
        let swayed: Metres = std::array::from_fn(|i| background.range[i].map(|r| metres(r) - sway));
        assert_eq!(
            detect(&background, &swayed, &all_hits()),
            None,
            "sway of {sway} m must be silent"
        );
    }
    let hand = blob(&wall(0.45), 0.45 - MARGIN_M - 0.03, 3);
    assert!(detect(&background, &hand, &all_hits()).is_some());
}

#[test]
fn a_flickering_zone_stays_out_of_the_reference() {
    let solid = wall(0.5);
    let mut frames = vec![solid; 8];
    // Zone 0 is seen once in eight; zone 1 in seven.
    for (i, frame) in frames.iter_mut().enumerate() {
        if i > 0 {
            frame[0] = None;
        }
        if i == 0 {
            frame[1] = None;
        }
    }
    let background = armed(&frames).expect("armed");
    assert_eq!(background.range[0], None, "a one-in-eight zone is a flier");
    assert!(background.range[1].is_some(), "seven in eight is real");
}

#[test]
fn the_reference_drifts_to_the_room_but_not_to_the_hand() {
    let mut background = armed(&[wall(0.8); 8]).expect("armed");
    let held = blob(&wall(0.8), 0.30, 3);
    let centre = (ROWS / 2) * COLS + COLS / 2;
    let before = metres(background.range[centre].expect("the wall is in every zone"));

    // Two minutes of a hand held perfectly still, at the frame rate.
    for _ in 0..(15 * 120) {
        let hand = detect(&background, &held, &all_hits());
        assert!(hand.is_some(), "a held hand must keep playing");
        relax(&mut background, &held, hand.is_some(), 1.0 / 15.0);
    }
    let still = metres(background.range[centre].expect("still there"));
    assert!(
        (still - before).abs() < 0.01,
        "the hand must not have become the background"
    );

    // The wall itself moving back (someone opened a door) is adopted.
    let moved = wall(1.2);
    for _ in 0..(15 * 600) {
        relax(&mut background, &moved, false, 1.0 / 15.0);
    }
    let after = metres(background.range[centre].expect("still there"));
    let expected = moved[centre].expect("the wall is in every zone");
    assert!((after - expected).abs() < 0.05, "{after} vs {expected}");
}

#[test]
fn clutter_does_not_fit_a_plane() {
    // Beyond the playable band, so only the description is under test.
    let mut frame = wall(1.4);
    for (i, slot) in frame.iter_mut().enumerate() {
        if let Some(r) = slot.as_mut() {
            if i % 3 == 0 {
                *r -= 0.25;
            }
        }
    }
    let background = armed(&[frame; 8]).expect("clutter is still a background");
    assert!(
        matches!(background.shape, Shape::Cluttered { .. }),
        "{:?}",
        background.shape
    );
}

// ── the parts of it ──────────────────────────────────────────────────────────

/// The median of what a zone reported, and nothing for one seen in half the window.
#[test]
fn a_reference_is_a_median() {
    let mut arming = Arming::new();
    for r in [5, 1, 9, 7] {
        let mut frame: Frame = [None; ZONES];
        frame[0] = Some(r);
        if r < 6 {
            frame[1] = Some(r);
        }
        if r != 7 {
            frame[2] = Some(r);
        }
        arming.observe(&frame);
    }
    let reduced = arming.reduce();
    assert_eq!(reduced[0], Some(7));
    assert_eq!(reduced[1], None);
    assert_eq!(reduced[2], Some(5));
    assert_eq!(reduced[3], None);
    assert_eq!(count_seen(&reduced), 2);
    assert!(!arming.ready(&config()));
    arming.observe(&[None; ZONES]);
    assert!(arming.ready(&config()));
}

/// The frames of a window may come in any order.
#[test]
fn a_window_is_the_same_in_any_order() {
    let frames: Vec<Frame> = (0..5i64)
        .map(|n| {
            std::array::from_fn(|zone| {
                let seen = (n * 7 + zone as i64 * 3) % 11;
                (seen < 7).then_some(seen * 100 + zone as i64)
            })
        })
        .collect();
    let reduce = |order: [usize; 5]| {
        let mut arming = Arming::new();
        for i in order {
            arming.observe(&frames[i]);
        }
        arming.reduce()
    };
    let reduced = reduce([0, 1, 2, 3, 4]);
    for order in [[4, 3, 2, 1, 0], [2, 0, 4, 1, 3], [1, 4, 0, 3, 2]] {
        assert_eq!(reduce(order), reduced);
    }
    for zone in 0..ZONES {
        let mut seen: Vec<i64> = frames.iter().filter_map(|f| f[zone]).collect();
        seen.sort();
        let expected = (2 * seen.len() > frames.len()).then(|| seen[seen.len() / 2]);
        assert_eq!(reduced[zone], expected, "{zone}");
    }
}

/// A near plane is a wall only where it fills the frame.
#[test]
fn a_palm_is_flat_too() {
    let mut arming = Arming::new();
    let near = keys(&wall(0.3));
    arming.observe(&near);
    let plane = Shape::Plane {
        distance: key(0.3),
        rms: 0,
    };
    // The whole frame would not be a hand anyway; nearly three quarters of it would.
    assert!(arming.finish(plane, &config()).is_ok());
    let mut arming = Arming::new();
    let mut partial = near;
    for slot in partial.iter_mut().skip(40) {
        *slot = None;
    }
    arming.observe(&partial);
    assert!(matches!(
        arming.finish(plane, &config()),
        Err(Refusal::SomethingInTheWay)
    ));
    let far_plane = Shape::Plane {
        distance: key(0.7),
        rms: 0,
    };
    assert!(arming.finish(far_plane, &config()).is_ok());
    let mut believing = config();
    believing.wall_zones = 40;
    assert!(arming.finish(plane, &believing).is_ok());
}

#[test]
fn a_hand_is_the_zones_in_front() {
    let config = config();
    let mut frame: Frame = [None; ZONES];
    let mut kinds = [ZoneKind::Hit; ZONES];
    for (zone, m) in [(3, 0.30), (5, 0.20), (9, 0.40), (11, 0.50), (60, 0.25)] {
        frame[zone] = Some(key(m));
    }
    frame[20] = Some(key(0.61));
    frame[21] = Some(key(0.149));
    frame[22] = Some(key(0.3));
    kinds[22] = ZoneKind::TooClose;
    kinds[23] = ZoneKind::Floor;
    kinds[9] = ZoneKind::Empty;
    let mut behind = [INFINITELY_FAR; ZONES];
    behind[11] = key(0.50);
    let front = foreground(&frame, &kinds, &behind, &config);
    let zones: Vec<usize> = front.zones.iter().map(|z| z.0).collect();
    assert_eq!(zones, vec![3, 5, 9, 60]);
    assert_eq!(front.usable, 62);
    assert_eq!(hand_range(&front.zones), key(0.20));
    let mut background = Background {
        range: [None; ZONES],
        shape: Shape::Open { zones: 0 },
    };
    background.range[11] = Some(key(0.58));
    let hand = background
        .detect(&frame, &kinds, &behind, &config)
        .unwrap();
    assert_eq!(hand.zones, 4);
    assert_eq!(hand.hits, vec![3, 5, 60]);
    // Nothing was ever seen in the other zones, whatever is said of them.
    let nowhere: [i64; ZONES] = std::array::from_fn(|i| if i == 11 { key(0.50) } else { 0 });
    assert_eq!(
        background.detect(&frame, &kinds, &nowhere, &config),
        Some(hand)
    );
    background.range[11] = None;
    let hand = background
        .detect(&frame, &kinds, &nowhere, &config)
        .unwrap();
    assert_eq!(hand.hits, vec![3, 5, 11, 60]);
}

/// Nothing in front is missed, and nothing is listed twice.
#[test]
fn every_zone_of_an_open_frame_is_foreground() {
    let frame: Frame = [Some(key(0.30)); ZONES];
    let front = foreground(
        &frame,
        &[ZoneKind::Hit; ZONES],
        &[INFINITELY_FAR; ZONES],
        &config(),
    );
    let zones: Vec<usize> = front.zones.iter().map(|z| z.0).collect();
    assert_eq!(zones, (0..ZONES).collect::<Vec<usize>>());
}

#[test]
fn a_return_is_one_of_four_things() {
    assert_eq!(classify(false, true, true, true), ZoneKind::Empty);
    assert_eq!(classify(true, true, true, true), ZoneKind::Floor);
    assert_eq!(classify(true, false, true, true), ZoneKind::TooClose);
    assert_eq!(classify(true, true, false, false), ZoneKind::Hit);
}

#[test]
fn a_shape_needs_enough_returns_and_a_flat_fit() {
    let fit = |distance, rms| Fit { distance, rms };
    assert_eq!(
        shape_of(MIN_FIT_ZONES - 1, fit(Some(1), 0), 5),
        Shape::Open { zones: 11 }
    );
    assert_eq!(
        shape_of(MIN_FIT_ZONES, fit(Some(1), 5), 5),
        Shape::Plane { distance: 1, rms: 5 }
    );
    assert_eq!(
        shape_of(MIN_FIT_ZONES, fit(Some(1), 6), 5),
        Shape::Cluttered { rms: 6 }
    );
    assert_eq!(
        shape_of(MIN_FIT_ZONES, fit(None, 0), 5),
        Shape::Cluttered { rms: 0 }
    );
}

#[test]
fn a_reference_stays_moves_or_is_adopted() {
    assert_eq!(drift(None, true, false, 10), Drift::Keep);
    assert_eq!(drift(Some(10), true, true, 10), Drift::Keep);
    assert_eq!(drift(Some(11), true, true, 10), Drift::Blend);
    assert_eq!(drift(Some(11), false, true, 10), Drift::Adopt);
    assert_eq!(drift(Some(1), true, false, 10), Drift::Blend);
}

#[test]
fn a_refusal_says_what_to_do() {
    assert_eq!(
        Refusal::NoReturns.as_str(),
        "the depth sensor is not seeing anything to play against"
    );
    assert!(Refusal::SomethingInTheWay.as_str().contains("move it away"));
}

// ── order ────────────────────────────────────────────────────────────────────

#[test]
fn the_kth_smallest_is_found() {
    let s = vec![5, -3, 9, 5, 0];
    let sorted: Vec<i64> = (0..s.len()).map(|k| pick(&s, k)).collect();
    assert_eq!(sorted, vec![-3, 0, 5, 5, 9]);
}

#[test]
fn keys_are_ordered_as_their_numbers() {
    let numbers = [
        f64::NEG_INFINITY,
        -1e300,
        -1.0,
        -f64::MIN_POSITIVE,
        0.0,
        f64::MIN_POSITIVE,
        0.5,
        1.0,
        f64::MAX,
        f64::INFINITY,
    ];
    for pair in numbers.windows(2) {
        assert!(key(pair[0]) < key(pair[1]), "{pair:?}");
    }
    for n in numbers {
        assert_eq!(metres(key(n)), n);
    }
    assert_eq!(key(-0.0), key(0.0));
    assert_eq!(key(f64::INFINITY), INFINITELY_FAR);
}

// ── the head chain ───────────────────────────────────────────────────────────

fn names(of: &[&str]) -> Vec<String> {
    of.iter().map(|n| (*n).to_owned()).collect()
}

#[test]
fn the_head_chain_is_looked_up_once() {
    let model = names(&["left_knee", "head_yaw", "neck_pitch", "head_roll", "head_pitch"]);
    let chain = HeadChain::new(&model).unwrap();
    assert_eq!(
        chain,
        HeadChain {
            neck_pitch: 2,
            head_pitch: 4,
            head_yaw: 1,
            head_roll: 3
        }
    );
    let angles = chain.angles([10, 20, 30, 40], model.len());
    assert_eq!(angles, vec![0, 30, 10, 40, 20]);
    assert_eq!(joint_index(&model, "head_roll"), Some(3));
    assert_eq!(joint_index(&model, "mouth"), None);
    assert!(MOST_JOINTS >= 14);
    // Of two joints with one name, the first is the one.
    let mut twice = model.clone();
    twice.extend(names(&["head_yaw", "neck_pitch"]));
    assert_eq!(HeadChain::new(&twice), Some(chain));
    for missing in HEAD_JOINTS {
        let partial: Vec<String> = model.iter().filter(|n| *n != missing).cloned().collect();
        assert_eq!(HeadChain::new(&partial), None, "{missing}");
    }
}

/// As rounding, taking nothing below zero and casting would have it.
#[test]
fn a_double_is_nearest_to_a_whole_number() {
    let mut doubles = vec![
        0.0, -0.0, 0.49999999999999994, 0.5, 0.5000000000000001, 1.5, 2.5, 49.5, 49.49999,
        -0.6, -3.0, 1e-300, 5e-324, 1e300, 4503599627370495.5, 4503599627370496.0,
        9007199254740993.0, 9.2e18, 1.8e19, 18446744073709551615.0, 18446744073709549568.0,
        f64::NAN, f64::INFINITY, f64::NEG_INFINITY, f64::MAX, f64::MIN_POSITIVE,
    ];
    for n in 0..4000 {
        doubles.push(f64::from(n) * 0.0625);
    }
    for exponent in 0..2047u64 {
        doubles.push(f64::from_bits(exponent << 52 | 0x8_0000_0000_0001));
        doubles.push(f64::from_bits(exponent << 52));
    }
    for double in doubles {
        assert_eq!(
            whole(double.to_bits()),
            double.round().max(0.0) as u64,
            "{double}"
        );
    }
}
