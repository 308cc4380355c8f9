use duck::duck::{Model, Reader, Rgb, Vec3, FORMAT_VERSION};
use duck::pipeline::{
    check_signals, encoder_setup, links, missing_element, parts, peer_label, source_element,
    unmade, Emitter, Encoder, Frame, Frames, Role, Rotation, Setting, Source, Stream,
};
use duck::raster::{depth_key, DuckView, Paint, FAR, RASTER_INTERVAL_NS, START_AZIMUTH};
use duck::text;

// ── the baked model ──────────────────────────────────────────────────────────

fn put16(out: &mut Vec<u8>, v: u16) {
    out.extend(v.to_le_bytes());
}

fn put_floats(out: &mut Vec<u8>, n: usize) {
    for i in 0..n {
        out.extend((i as f32 + 0.5).to_le_bytes());
    }
}

/// Two meshes, two bodies and one part.
fn blob() -> Vec<u8> {
    let mut out = b"DUCK".to_vec();
    out.extend(FORMAT_VERSION.to_le_bytes());
    put16(&mut out, 2);
    put16(&mut out, 2);
    put16(&mut out, 1);
    // A mesh of three vertices and one triangle, and an empty one.
    put16(&mut out, 3);
    put16(&mut out, 1);
    put_floats(&mut out, 9);
    for corner in [2, 0, 1] {
        put16(&mut out, corner);
    }
    put16(&mut out, 0);
    put16(&mut out, 0);
    // The trunk, and a hinge on it.
    for (parent, joint) in [(-1i16, -1i16), (0, 14)] {
        out.extend(parent.to_le_bytes());
        out.extend(joint.to_le_bytes());
        put_floats(&mut out, 10);
    }
    // The first mesh on the hinge, in red.
    put16(&mut out, 1);
    put16(&mut out, 0);
    out.extend([200, 10, 20, 99]);
    put_floats(&mut out, 7);
    out
}

const PARENT_OF_HINGE: usize = 14 + 46 + 4 + 44;

#[test]
fn a_blob_is_read_as_it_is_laid_out() {
    let model = Model::parse(&blob()).expect("whole and sound");
    assert_eq!(model.meshes.len(), 2);
    assert_eq!(
        model.meshes[0].verts[1],
        Vec3 {
            x: 3.5f32.to_bits(),
            y: 4.5f32.to_bits(),
            z: 5.5f32.to_bits()
        }
    );
    let tri = model.meshes[0].tris[0];
    assert_eq!((tri.a, tri.b, tri.c), (2, 0, 1));
    assert!(model.meshes[1].verts.is_empty());
    assert_eq!(model.bodies[0].parent, -1);
    assert_eq!((model.bodies[1].parent, model.bodies[1].joint), (0, 14));
    assert_eq!(model.bodies[1].axis.z, 9.5f32.to_bits());
    let part = model.parts[0];
    assert_eq!((part.body, part.mesh), (1, 0));
    assert_eq!(
        part.rgb,
        Rgb {
            r: 200,
            g: 10,
            b: 20
        }
    );
    assert_eq!(part.quat.w, 3.5f32.to_bits());
    // What follows the last part is not read.
    let mut longer = blob();
    longer.push(7);
    assert!(Model::parse(&longer).is_some());
}

#[test]
fn a_blob_cut_short_anywhere_is_refused() {
    let whole = blob();
    for n in 0..whole.len() {
        assert!(Model::parse(&whole[..n]).is_none(), "{n}");
    }
}

#[test]
fn a_blob_of_another_era_is_refused() {
    let mut other = blob();
    other[4] = 2;
    assert!(Model::parse(&other).is_none());
    let mut other = blob();
    other[0] = b'd';
    assert!(Model::parse(&other).is_none());
}

#[test]
fn a_blob_that_leads_outside_itself_is_refused() {
    let with = |at: usize, v: i16| {
        let mut b = blob();
        b[at..at + 2].copy_from_slice(&v.to_le_bytes());
        Model::parse(&b)
    };
    assert!(with(PARENT_OF_HINGE, -1).is_some());
    // A parent must come first, and be there.
    assert!(with(PARENT_OF_HINGE, 1).is_none());
    assert!(with(PARENT_OF_HINGE, -2).is_none());
    // A joint beyond the last.
    assert!(with(PARENT_OF_HINGE + 2, 15).is_none());
    assert!(with(PARENT_OF_HINGE + 2, -7).is_some());
    // A part on no body, and of no mesh.
    let part = PARENT_OF_HINGE + 44;
    assert!(with(part, 2).is_none());
    assert!(with(part + 2, 2).is_none());
    assert!(with(part + 2, 1).is_some());
    // A corner that is no vertex.
    assert!(with(14 + 4 + 36, 3).is_none());
}

#[test]
fn going_up_from_a_body_comes_to_an_end() {
    let model = Model::parse(&blob()).expect("whole and sound");
    for start in 0..model.bodies.len() {
        let mut at = start as i16;
        for _ in 0..=start {
            if at >= 0 {
                at = model.bodies[at as usize].parent;
            }
        }
        assert_eq!(at, -1);
    }
}

#[test]
fn drawing_a_model_stays_inside_it() {
    let model = Model::parse(&blob()).expect("whole and sound");
    let all: usize = model
        .parts
        .iter()
        .map(|p| model.meshes[p.mesh as usize].verts.len())
        .sum();
    let mut start = 0;
    for part in &model.parts {
        let mesh = &model.meshes[part.mesh as usize];
        for tri in &mesh.tris {
            for corner in [tri.a, tri.b, tri.c] {
                assert!(start + (corner as usize) < all);
            }
        }
        start += mesh.verts.len();
    }
    assert!(all > 0);
}

#[test]
fn a_reader_never_reads_past_the_end() {
    let data = [0x01, 0x02, 0xff, 0xff, 0x78, 0x56, 0x34, 0x12, 0xaa];
    let mut r = Reader { data: &data, at: 0 };
    assert_eq!(r.u16(), Some(0x0201));
    assert_eq!(r.i16(), Some(-1));
    assert_eq!(r.u32(), Some(0x1234_5678));
    assert_eq!(r.take(1), Some(&[0xaa][..]));
    assert_eq!(r.take(1), None);
    assert_eq!(r.u16(), None);
    assert_eq!(r.vec3(), None);
    assert_eq!(r.quat(), None);
    assert_eq!(r.take(0), Some(&[][..]));
    assert_eq!(r.take(usize::MAX), None);
    let pi = 3.25f32.to_le_bytes();
    let mut r = Reader { data: &pi, at: 0 };
    assert_eq!(r.float(), Some(3.25f32.to_bits()));
}

// ── the pixels ───────────────────────────────────────────────────────────────

const RED: Rgb = Rgb { r: 255, g: 0, b: 0 };
const BLUE: Rgb = Rgb { r: 0, g: 0, b: 255 };

fn z(depth: f32) -> i32 {
    depth_key(depth.to_bits())
}

#[test]
fn depths_are_ordered_as_their_floats() {
    let depths = [
        f32::NEG_INFINITY,
        -2.0,
        -0.1,
        0.0,
        1e-30,
        0.3,
        7.0,
        f32::INFINITY,
    ];
    for pair in depths.windows(2) {
        assert!(z(pair[0]) < z(pair[1]), "{pair:?}");
    }
    assert_eq!(z(-0.0), z(0.0));
    assert_eq!(z(f32::INFINITY), FAR);
    assert_eq!(z(f32::NAN), FAR);
    assert_eq!(START_AZIMUTH, (-0.7f32).to_bits());
}

#[test]
fn the_nearest_dot_is_the_one_shown() {
    let mut view = DuckView::new();
    assert_eq!(view.begin(1, 8, 10, 0), Paint::Raster);
    view.plot(3, 4, z(0.5), RED);
    view.plot(3, 4, z(0.6), BLUE);
    assert_eq!(view.pixel(3, 4), Some(RED));
    view.plot(3, 4, z(0.5), BLUE);
    assert_eq!(view.pixel(3, 4), Some(RED), "the first of two equally near");
    view.plot(3, 4, z(-0.5), BLUE);
    assert_eq!(view.pixel(3, 4), Some(BLUE));
    // Off the picture, and no number at all.
    view.plot(-1, 0, z(0.0), RED);
    view.plot(0, -1, z(0.0), RED);
    view.plot(8, 0, z(0.0), RED);
    view.plot(0, 10, z(0.0), RED);
    view.plot(0, 0, z(f32::NAN), RED);
    assert_eq!(view.dots.iter().filter(|d| d.is_some()).count(), 1);
    assert_eq!(view.pixel(0, 99), None);
}

#[test]
fn a_cell_is_two_pixels() {
    let mut view = DuckView::new();
    assert_eq!(view.begin(1, 8, 8, 0), Paint::Raster);
    view.plot(0, 0, z(0.0), RED);
    view.plot(0, 1, z(0.0), BLUE);
    view.plot(1, 2, z(0.0), RED);
    view.plot(1, 5, z(0.0), BLUE);
    let cell = |col, row| view.cell(col, row).map(|g| (g.symbol, g.fg, g.bg));
    assert_eq!(cell(0, 0), Some(("▀", RED, Some(BLUE))));
    assert_eq!(cell(1, 1), Some(("▀", RED, None)));
    assert_eq!(cell(1, 2), Some(("▄", BLUE, None)));
    assert_eq!(cell(1, 3), None);
}

#[test]
fn a_picture_is_shown_again_while_it_is_still_true() {
    let mut view = DuckView::new();
    assert_eq!(view.begin(1, 7, 20, 0), Paint::Nothing);
    assert_eq!(view.begin(1, 20, 7, 0), Paint::Nothing);
    assert_eq!(view.begin(1, 20, 20, 1000), Paint::Raster);
    view.plot(0, 0, z(0.0), RED);
    // The same pose, however long ago.
    assert_eq!(view.begin(1, 20, 20, u64::MAX), Paint::Reuse);
    // Another pose, soon after.
    assert_eq!(
        view.begin(2, 20, 20, 1000 + RASTER_INTERVAL_NS - 1),
        Paint::Reuse
    );
    assert_eq!(view.pixel(0, 0), Some(RED));
    // Another pose, late enough, is drawn from nothing.
    assert_eq!(
        view.begin(2, 20, 20, 1000 + RASTER_INTERVAL_NS),
        Paint::Raster
    );
    assert_eq!(view.pixel(0, 0), None);
    // A camera that moved never waits.
    let now = 1000 + RASTER_INTERVAL_NS;
    view.orbit(0);
    assert_eq!(view.begin(2, 20, 20, now), Paint::Raster);
    assert_eq!(view.begin(2, 20, 22, now), Paint::Raster);
    assert_eq!(view.begin(2, 20, 22, now), Paint::Reuse);
}

/// What was drawn before the camera moved leaves no trace, however recent it is.
#[test]
fn a_moved_camera_draws_as_a_fresh_view_does() {
    let mut turned = DuckView::new();
    assert_eq!(turned.begin(1, 20, 20, 1000), Paint::Raster);
    turned.plot(3, 4, z(-5.0), RED);
    turned.orbit(1.0f32.to_bits());
    let mut fresh = DuckView::new();
    fresh.orbit(1.0f32.to_bits());
    for view in [&mut turned, &mut fresh] {
        assert_eq!(view.begin(1, 20, 20, 1001), Paint::Raster);
        view.plot(3, 4, z(1.0), BLUE);
        view.plot(7, 8, z(1.0), RED);
    }
    for y in 0..20 {
        for x in 0..20 {
            assert_eq!(turned.pixel(x, y), fresh.pixel(x, y));
        }
    }
    assert_eq!(turned.pixel(3, 4), Some(BLUE));
}

// ── the media pipeline ───────────────────────────────────────────────────────

#[test]
fn the_camera_is_an_error_rather_than_a_test_pattern() {
    assert_eq!(source_element(Source::Test), Ok("videotestsrc"));
    assert!(source_element(Source::Camera)
        .unwrap_err()
        .starts_with("the camera source is not implemented yet"));
    assert_eq!(
        missing_element("webrtcsink"),
        "no webrtcsink element; a GStreamer package is missing"
    );
}

fn stream() -> Stream {
    Stream {
        host: "0.0.0.0".to_owned(),
        port: 8443,
        bitrate: 2_000_000,
        width: 1280,
        height: 720,
        fps: 30,
    }
}

#[test]
fn the_pipeline_is_made_of_these() {
    let made = parts(Source::Test, &stream()).unwrap();
    let names: Vec<&str> = made.iter().map(|p| p.factory).collect();
    assert_eq!(
        names,
        vec![
            "videotestsrc",
            "capsfilter",
            "tee",
            "queue",
            "webrtcsink",
            "queue",
            "appsink"
        ]
    );
    assert_eq!(made[0].properties, vec![("is-live", Setting::Flag(true))]);
    let raw = || Setting::Raw {
        width: 1280,
        height: 720,
        fps: 30,
    };
    assert_eq!(made[1].properties, vec![("caps", raw())]);
    assert!(made[2].properties.is_empty() && made[3].properties.is_empty());
    assert_eq!(
        made[4].properties,
        vec![
            ("run-signalling-server", Setting::Flag(true)),
            (
                "signalling-server-host",
                Setting::Text("0.0.0.0".to_owned())
            ),
            ("signalling-server-port", Setting::Number(8443)),
            ("start-bitrate", Setting::Number(2_000_000)),
        ]
    );
    assert_eq!(
        made[5].properties,
        vec![
            ("max-size-buffers", Setting::Number(1)),
            ("max-size-bytes", Setting::Number(0)),
            ("max-size-time", Setting::Wide(0)),
            ("leaky", Setting::Named("downstream")),
        ]
    );
    assert_eq!(
        made[6].properties,
        vec![
            ("caps", raw()),
            ("sync", Setting::Flag(false)),
            ("max-buffers", Setting::Number(1)),
            ("drop", Setting::Flag(true)),
        ]
    );
    assert!(parts(Source::Camera, &stream())
        .unwrap_err()
        .starts_with("the camera source is not implemented yet"));
}

/// The picture is split while it is raw, and each branch begins with a queue.
#[test]
fn each_branch_of_the_tee_is_on_its_own() {
    let pairs: Vec<(Role, Role)> = links().iter().map(|l| (l.from, l.to)).collect();
    assert_eq!(
        pairs,
        vec![
            (Role::Source, Role::Format),
            (Role::Format, Role::Tee),
            (Role::VideoQueue, Role::Sink),
            (Role::RawQueue, Role::Snapshot),
            (Role::Tee, Role::VideoQueue),
            (Role::Tee, Role::RawQueue),
        ]
    );
    let complaints: Vec<&str> = links().iter().map(|l| l.complaint).collect();
    assert!(complaints[0].starts_with("could not link the source to the tee. A caps failure"));
    assert_eq!(complaints[0], complaints[1]);
    assert_eq!(
        complaints[2..],
        [
            "could not link the video queue to webrtcsink",
            "could not link the raw branch to its appsink",
            "could not attach the video branch to the tee",
            "could not attach the raw branch to the tee",
        ]
    );
}

#[test]
fn a_part_that_cannot_be_made_says_where_it_comes_from() {
    assert_eq!(
        unmade(Role::Format, "capsfilter"),
        "no capsfilter element; gstreamer core is incomplete"
    );
    assert_eq!(
        unmade(Role::RawQueue, "queue"),
        "no queue element; gstreamer core is incomplete"
    );
    assert_eq!(
        unmade(Role::VideoQueue, "queue"),
        "no queue element; a GStreamer package is missing"
    );
    assert!(unmade(Role::Sink, "webrtcsink").starts_with("no webrtcsink. It comes from"));
}

#[test]
fn a_mount_is_a_whole_number_of_quarter_turns() {
    assert_eq!(Rotation::from_degrees(0), Ok(Rotation::Upright));
    assert_eq!(Rotation::from_degrees(90), Ok(Rotation::Quarter));
    assert_eq!(Rotation::from_degrees(180), Ok(Rotation::Half));
    assert_eq!(Rotation::from_degrees(270), Ok(Rotation::ThreeQuarters));
    assert_eq!(
        Rotation::from_degrees(45),
        Err("a camera is mounted at 0, 90, 180 or 270 degrees, not 45".to_owned())
    );
    assert_eq!(Rotation::Half.in_pipeline(true), Rotation::Half);
    assert_eq!(Rotation::Half.in_pipeline(false), Rotation::Upright);
}

#[test]
fn the_last_frame_wins() {
    let frame = |n: u8| Frame {
        width: 2,
        height: 1,
        data: vec![n; 3],
    };
    let mut frames = Frames::new();
    assert_eq!(frames.latest(), None);
    frames.replace(frame(1));
    frames.replace(frame(2));
    assert_eq!(frames.latest(), Some(frame(2)));
    assert_eq!(frames.latest(), Some(frame(2)), "reading takes nothing away");
}

#[test]
fn only_the_hardware_encoder_is_configured() {
    assert!(matches!(encoder_setup(None), Encoder::Absent));
    assert!(matches!(encoder_setup(Some("x264enc")), Encoder::Software));
    match encoder_setup(Some("mpph264enc")) {
        Encoder::Configure { properties } => assert_eq!(
            properties,
            vec![("profile", "baseline"), ("header-mode", "each-idr")]
        ),
        other => panic!("{other:?}"),
    }
    assert_eq!(peer_label(Some("phone".into())), "phone");
    assert_eq!(peer_label(None), "?");
}

#[test]
fn a_missing_signal_is_complained_of_by_name() {
    let signals = ["create-data-channel", "on-open"];
    assert_eq!(
        check_signals(Emitter::Webrtcbin, &signals, &[true, true]),
        Ok(())
    );
    assert_eq!(
        check_signals(Emitter::Webrtcbin, &signals, &[false, false]),
        Err(
            "webrtcbin has no create-data-channel signal; gst-plugins-rs may have changed it"
                .to_owned()
        )
    );
    assert_eq!(
        check_signals(Emitter::DataChannel, &signals, &[true, false]),
        Err("the data channel has no on-open signal; gst-plugins-rs may have changed it".to_owned())
    );
    assert_eq!(
        check_signals(Emitter::Sink, &["encoder-setup"], &[false]),
        Err(
            "webrtcsink has no encoder-setup signal; without it the encoder cannot be configured \
             and the stream would be High profile with SPS/PPS only in its first frame"
                .to_owned()
        )
    );
}

// ── text ─────────────────────────────────────────────────────────────────────

#[test]
fn numbers_are_written_in_decimal() {
    for n in [0, 7, 10, 99, 100, 12345, u64::MAX] {
        assert_eq!(text::decimal(n), n.to_string());
    }
    for n in [0, -1, 42, i64::MIN + 1, i64::MAX] {
        assert_eq!(text::signed_decimal(n), n.to_string());
    }
}

#[test]
fn columns_are_counted_in_characters() {
    assert_eq!(text::pad("é", 3), "é  ");
    assert_eq!(text::pad("long", 3), "long");
    assert_eq!(text::align_right("é", 3), "  é");
    assert_eq!(text::align_right("long", 3), "long");
    assert_eq!(text::repeat("·", 3), "···");
    assert_eq!(text::repeat("·", 0), "");
    assert_eq!(
        text::join(&vec!["a".into(), "b".into(), "c".into()], "; "),
        "a; b; c"
    );
    assert_eq!(text::join(&vec![], "; "), "");
}

#[test]
fn white_space_is_what_unicode_says() {
    for c in (0..=0x10ffffu32).filter_map(char::from_u32) {
        assert_eq!(text::white_space(c), c.is_whitespace(), "{:x}", c as u32);
    }
    for s in ["", " ", " a b ", "\u{3000}x\u{a0}", "x\n\r\n", "\u{85}"] {
        assert_eq!(text::trim(s), s.trim());
        assert_eq!(text::trim_end(s), s.trim_end());
        assert_eq!(text::strip_line_end(s), s.trim_end_matches(['\n', '\r']));
    }
}

#[test]
fn text_is_cut_where_it_says() {
    for s in ["", "/", "a/b", "/a//b/", "é/ü"] {
        let parts: Vec<String> = s.split('/').map(str::to_owned).collect();
        assert_eq!(text::split(s, '/'), parts, "{s:?}");
    }
    for s in ["one", "one\ntwo", "one\r\ntwo", "\ntwo", "one\r", "a\rb\nc"] {
        assert_eq!(text::first_line(s), s.lines().next().unwrap(), "{s:?}");
    }
    assert!(text::ends_with("padd (deleted)", " (deleted)"));
    assert!(!text::ends_with("padd", " (deleted)"));
    assert!(text::ends_with("x", ""));
}
