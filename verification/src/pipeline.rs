//! The decisions of the media pipeline: where the picture comes from, how an encoder is set up,
//! and what the latest frame is.
use vstd::prelude::*;

use crate::net;
use crate::text;

verus! {

/// Where the video comes from.
#[derive(Debug, Clone, Copy, PartialEq, Eq, Structural)]
pub enum Source {
    /// A test pattern, which works with no camera attached.
    Test,
    /// The head camera. Not implemented, and an error rather than a silent test pattern.
    Camera,
}

/// What is said of the camera.
pub open spec fn no_camera() -> Seq<char> {
    "the camera source is not implemented yet — see docs/project/media-bringup.md for the capture path, which cannot simply be v4l2src on this driver"@
}

/// The element that produces the picture.
pub fn source_element(source: Source) -> (r: Result<&'static str, String>)
    ensures
        match source {
            Source::Test => r matches Ok(name) && name@ == "videotestsrc"@,
            Source::Camera => r matches Err(e) && e@ == no_camera(),
        },
{
    match source {
        Source::Test => Ok("videotestsrc"),
        Source::Camera => Err(
            "the camera source is not implemented yet — see docs/project/media-bringup.md for the capture path, which cannot simply be v4l2src on this driver".to_owned(),
        ),
    }
}

/// How far the camera is mounted from upright, clockwise.
#[derive(Debug, Clone, Copy, PartialEq, Eq, Structural)]
pub enum Rotation {
    Upright,
    Quarter,
    Half,
    ThreeQuarters,
}

impl Rotation {
    /// The angle in degrees.
    pub open spec fn degrees(self) -> int {
        match self {
            Rotation::Upright => 0,
            Rotation::Quarter => 90,
            Rotation::Half => 180,
            Rotation::ThreeQuarters => 270,
        }
    }

    /// The rotation by so many degrees. Anything but a whole number of quarter turns is a typo,
    /// and is refused before a camera is opened.
    pub fn from_degrees(degrees: u32) -> (r: Result<Self, String>)
        ensures
            r is Ok <==> degrees == 0 || degrees == 90 || degrees == 180 || degrees == 270,
            r matches Ok(rotation) ==> rotation.degrees() == degrees,
            r matches Err(e) ==> e@ == "a camera is mounted at 0, 90, 180 or 270 degrees, not "@
                + text::dec(degrees as nat),
    {
        if degrees == 0 {
            Ok(Rotation::Upright)
        } else if degrees == 90 {
            Ok(Rotation::Quarter)
        } else if degrees == 180 {
            Ok(Rotation::Half)
        } else if degrees == 270 {
            Ok(Rotation::ThreeQuarters)
        } else {
            Err(
                "a camera is mounted at 0, 90, 180 or 270 degrees, not ".to_owned().concat(
                    text::decimal(degrees as u64).as_str(),
                ),
            )
        }
    }

    /// How far the pipeline itself turns the picture. Turning it there costs the encoder its
    /// zero-copy path, so it is left to whoever shows it unless it was asked for.
    pub fn in_pipeline(self, flip: bool) -> (r: Self)
        ensures
            r == if flip {
                self
            } else {
                Rotation::Upright
            },
    {
        if flip {
            self
        } else {
            Rotation::Upright
        }
    }
}

// ── what the pipeline is made of ─────────────────────────────────────────────

/// What the pipeline is built for.
#[derive(Debug)]
pub struct Stream {
    /// Where the signalling server listens.
    pub host: String,
    pub port: u32,
    /// The bitrate to start from, bits per second.
    pub bitrate: u32,
    pub width: u32,
    pub height: u32,
    pub fps: u32,
}

/// The elements of the pipeline.
#[derive(Debug, Clone, Copy, PartialEq, Eq, Structural)]
pub enum Role {
    /// Produces the picture.
    Source,
    /// Pins the format, because both branches depend on it.
    Format,
    /// Splits the raw picture.
    Tee,
    /// Gives the video branch a thread of its own.
    VideoQueue,
    /// Encodes, and serves peers.
    Sink,
    /// Gives the raw branch a thread of its own.
    RawQueue,
    /// Holds the latest frame.
    Snapshot,
}

/// The value of a property.
#[derive(Debug, PartialEq, Eq)]
pub enum Setting {
    Flag(bool),
    Number(u32),
    Wide(u64),
    Text(String),
    /// One of the values an element names.
    Named(&'static str),
    /// Raw NV12 of one size and rate.
    Raw { width: u32, height: u32, fps: u32 },
}

/// A value, by what it holds.
pub enum SettingView {
    Flag(bool),
    Number(u32),
    Wide(u64),
    Text(Seq<char>),
    Named(Seq<char>),
    Raw { width: u32, height: u32, fps: u32 },
}

impl Setting {
    pub open spec fn view(&self) -> SettingView {
        match *self {
            Setting::Flag(b) => SettingView::Flag(b),
            Setting::Number(n) => SettingView::Number(n),
            Setting::Wide(n) => SettingView::Wide(n),
            Setting::Text(s) => SettingView::Text(s@),
            Setting::Named(s) => SettingView::Named(s@),
            Setting::Raw { width, height, fps } => SettingView::Raw { width, height, fps },
        }
    }
}

/// A property and its value.
pub type PropertyView = (Seq<char>, SettingView);

/// What each property is set to.
pub open spec fn property_views(properties: Seq<(&'static str, Setting)>) -> Seq<PropertyView> {
    properties.map_values(|p: (&'static str, Setting)| (p.0@, p.1.view()))
}

/// An element to make: the factory that makes it, and what is set on it.
#[derive(Debug)]
pub struct Part {
    pub role: Role,
    pub factory: &'static str,
    pub properties: Vec<(&'static str, Setting)>,
}

/// A part, by what it holds.
pub type PartView = (Role, Seq<char>, Seq<PropertyView>);

impl Part {
    pub open spec fn view(&self) -> PartView {
        (self.role, self.factory@, property_views(self.properties@))
    }
}

/// What each part is.
pub open spec fn part_views(parts: Seq<Part>) -> Seq<PartView> {
    parts.map_values(|p: Part| p.view())
}

/// Raw video of the size and rate that was asked for.
pub open spec fn raw_video(s: Stream) -> SettingView {
    SettingView::Raw { width: s.width, height: s.height, fps: s.fps }
}

/// The factory of each element.
pub open spec fn factory_of(role: Role) -> Seq<char> {
    match role {
        Role::Source => "videotestsrc"@,
        Role::Format => "capsfilter"@,
        Role::Tee => "tee"@,
        Role::VideoQueue => "queue"@,
        Role::Sink => "webrtcsink"@,
        Role::RawQueue => "queue"@,
        Role::Snapshot => "appsink"@,
    }
}

/// What is set on each element. The source is live, so that it keeps to the clock as a camera
/// does. The raw queue is one buffer deep and drops the oldest, so that a slow reader costs
/// frames and never the encoder; the snapshot waits for no clock and keeps the newest frame.
pub open spec fn properties_of(role: Role, s: Stream) -> Seq<PropertyView> {
    match role {
        Role::Source => seq![("is-live"@, SettingView::Flag(true))],
        Role::Format => seq![("caps"@, raw_video(s))],
        Role::Tee => Seq::empty(),
        Role::VideoQueue => Seq::empty(),
        Role::Sink => seq![
            ("run-signalling-server"@, SettingView::Flag(true)),
            ("signalling-server-host"@, SettingView::Text(s.host@)),
            ("signalling-server-port"@, SettingView::Number(s.port)),
            ("start-bitrate"@, SettingView::Number(s.bitrate)),
        ],
        Role::RawQueue => seq![
            ("max-size-buffers"@, SettingView::Number(1)),
            ("max-size-bytes"@, SettingView::Number(0)),
            ("max-size-time"@, SettingView::Wide(0)),
            ("leaky"@, SettingView::Named("downstream"@)),
        ],
        Role::Snapshot => seq![
            ("caps"@, raw_video(s)),
            ("sync"@, SettingView::Flag(false)),
            ("max-buffers"@, SettingView::Number(1)),
            ("drop"@, SettingView::Flag(true)),
        ],
    }
}

/// The elements, in the order they are added.
pub open spec fn roles() -> Seq<Role> {
    seq![
        Role::Source,
        Role::Format,
        Role::Tee,
        Role::VideoQueue,
        Role::Sink,
        Role::RawQueue,
        Role::Snapshot,
    ]
}

/// The parts of the pipeline.
pub open spec fn parts_of(s: Stream) -> Seq<PartView> {
    Seq::new(7, |i: int| (roles()[i], factory_of(roles()[i]), properties_of(roles()[i], s)))
}

fn part(role: Role, factory: &'static str, properties: Vec<(&'static str, Setting)>) -> (r: Part)
    ensures
        r.view() == (role, factory@, property_views(properties@)),
{
    Part { role, factory, properties }
}

/// Which elements to make and what to set on them, or why there can be no pipeline.
pub fn parts(source: Source, stream: &Stream) -> (r: Result<Vec<Part>, String>)
    ensures
        match source {
            Source::Test => r matches Ok(parts) && part_views(parts@) == parts_of(*stream),
            Source::Camera => r matches Err(e) && e@ == no_camera(),
        },
{
    let producer = match source_element(source) {
        Ok(name) => name,
        Err(e) => {
            return Err(e);
        },
    };
    let (width, height, fps) = (stream.width, stream.height, stream.fps);
    let mut live: Vec<(&'static str, Setting)> = Vec::new();
    live.push(("is-live", Setting::Flag(true)));
    assert(property_views(live@) =~= properties_of(Role::Source, *stream));
    let mut pinned: Vec<(&'static str, Setting)> = Vec::new();
    pinned.push(("caps", Setting::Raw { width, height, fps }));
    assert(property_views(pinned@) =~= properties_of(Role::Format, *stream));
    let mut serving: Vec<(&'static str, Setting)> = Vec::new();
    serving.push(("run-signalling-server", Setting::Flag(true)));
    serving.push(("signalling-server-host", Setting::Text(stream.host.clone())));
    serving.push(("signalling-server-port", Setting::Number(stream.port)));
    serving.push(("start-bitrate", Setting::Number(stream.bitrate)));
    assert(property_views(serving@) =~= properties_of(Role::Sink, *stream));
    let mut leaky: Vec<(&'static str, Setting)> = Vec::new();
    leaky.push(("max-size-buffers", Setting::Number(1)));
    leaky.push(("max-size-bytes", Setting::Number(0)));
    leaky.push(("max-size-time", Setting::Wide(0)));
    leaky.push(("leaky", Setting::Named("downstream")));
    assert(property_views(leaky@) =~= properties_of(Role::RawQueue, *stream));
    let mut newest: Vec<(&'static str, Setting)> = Vec::new();
    newest.push(("caps", Setting::Raw { width, height, fps }));
    newest.push(("sync", Setting::Flag(false)));
    newest.push(("max-buffers", Setting::Number(1)));
    newest.push(("drop", Setting::Flag(true)));
    assert(property_views(newest@) =~= properties_of(Role::Snapshot, *stream));
    let through: Vec<(&'static str, Setting)> = Vec::new();
    assert(property_views(through@) =~= properties_of(Role::Tee, *stream));
    let apart: Vec<(&'static str, Setting)> = Vec::new();
    assert(property_views(apart@) =~= properties_of(Role::VideoQueue, *stream));

    let mut out: Vec<Part> = Vec::new();
    out.push(part(Role::Source, producer, live));
    out.push(part(Role::Format, "capsfilter", pinned));
    out.push(part(Role::Tee, "tee", through));
    out.push(part(Role::VideoQueue, "queue", apart));
    out.push(part(Role::Sink, "webrtcsink", serving));
    out.push(part(Role::RawQueue, "queue", leaky));
    out.push(part(Role::Snapshot, "appsink", newest));
    assert(part_views(out@) =~= parts_of(*stream));
    Ok(out)
}

/// Two elements to connect.
#[derive(Debug, Clone, Copy)]
pub struct Link {
    pub from: Role,
    pub to: Role,
    /// What is said when they will not connect.
    pub complaint: &'static str,
}

/// Which element feeds which. The picture is split while it is raw, before the encoder, and each
/// branch begins with a queue.
pub open spec fn feeds(from: Role, to: Role) -> bool {
    match (from, to) {
        (Role::Source, Role::Format) => true,
        (Role::Format, Role::Tee) => true,
        (Role::Tee, Role::VideoQueue) => true,
        (Role::Tee, Role::RawQueue) => true,
        (Role::VideoQueue, Role::Sink) => true,
        (Role::RawQueue, Role::Snapshot) => true,
        _ => false,
    }
}

/// What is said when the elements that feed each other will not connect.
pub open spec fn link_complaint(from: Role, to: Role) -> Seq<char> {
    match (from, to) {
        (Role::VideoQueue, _) => "could not link the video queue to webrtcsink"@,
        (Role::RawQueue, _) => "could not link the raw branch to its appsink"@,
        (Role::Tee, Role::VideoQueue) => "could not attach the video branch to the tee"@,
        (Role::Tee, _) => "could not attach the raw branch to the tee"@,
        _ => "could not link the source to the tee. A caps failure here means the source cannot produce NV12 at the requested size and rate."@,
    }
}

/// The connections in the order they are made. A tee gives a branch a pad only when asked, so its
/// branches come last.
pub open spec fn connections() -> Seq<(Role, Role)> {
    seq![
        (Role::Source, Role::Format),
        (Role::Format, Role::Tee),
        (Role::VideoQueue, Role::Sink),
        (Role::RawQueue, Role::Snapshot),
        (Role::Tee, Role::VideoQueue),
        (Role::Tee, Role::RawQueue),
    ]
}

/// The connections to make, in order.
pub fn links() -> (r: [Link; 6])
    ensures
        forall|i: int|
            0 <= i < 6 ==> ((#[trigger] r@[i]).from, r@[i].to) == connections()[i]
                && r@[i].complaint@ == link_complaint(r@[i].from, r@[i].to),
{
    let to_tee = "could not link the source to the tee. A caps failure here means the source cannot produce NV12 at the requested size and rate.";
    [
        Link { from: Role::Source, to: Role::Format, complaint: to_tee },
        Link { from: Role::Format, to: Role::Tee, complaint: to_tee },
        Link {
            from: Role::VideoQueue,
            to: Role::Sink,
            complaint: "could not link the video queue to webrtcsink",
        },
        Link {
            from: Role::RawQueue,
            to: Role::Snapshot,
            complaint: "could not link the raw branch to its appsink",
        },
        Link {
            from: Role::Tee,
            to: Role::VideoQueue,
            complaint: "could not attach the video branch to the tee",
        },
        Link {
            from: Role::Tee,
            to: Role::RawQueue,
            complaint: "could not attach the raw branch to the tee",
        },
    ]
}

/// What is connected is what feeds what, each once.
pub proof fn what_feeds_is_connected(from: Role, to: Role)
    ensures
        connections().contains((from, to)) <==> feeds(from, to),
        connections().no_duplicates(),
{
    let all = connections();
    assert(all[0] == (Role::Source, Role::Format));
    assert(all[1] == (Role::Format, Role::Tee));
    assert(all[2] == (Role::VideoQueue, Role::Sink));
    assert(all[3] == (Role::RawQueue, Role::Snapshot));
    assert(all[4] == (Role::Tee, Role::VideoQueue));
    assert(all[5] == (Role::Tee, Role::RawQueue));
}

/// Each branch of the tee begins with a queue of its own, so that neither waits for the other.
pub proof fn every_branch_has_its_own_queue(branch: Role)
    requires
        feeds(Role::Tee, branch),
    ensures
        factory_of(branch) == "queue"@,
        forall|other: Role| #[trigger] feeds(other, branch) ==> other == Role::Tee,
{
}

/// The picture is split before it is encoded, in a format that was pinned: what feeds the tee is
/// the format, what reads the raw branch asks for the same one, and nothing that went through
/// the encoder reaches either.
pub proof fn the_raw_branch_is_raw(s: Stream, from: Role, to: Role)
    requires
        feeds(from, to),
    ensures
        to == Role::Tee ==> from == Role::Format && properties_of(from, s) =~= seq![
            ("caps"@, raw_video(s)),
        ],
        to == Role::Snapshot ==> from == Role::RawQueue && properties_of(to, s)[0] == (
            "caps"@,
            raw_video(s),
        ),
        from != Role::Sink,
        from != Role::Snapshot,
{
}

/// A reader that falls behind loses frames and holds nothing up: the raw branch keeps one buffer
/// and lets the oldest go.
pub proof fn a_slow_reader_costs_only_frames(s: Stream)
    ensures
        properties_of(Role::RawQueue, s).contains(("max-size-buffers"@, SettingView::Number(1))),
        properties_of(Role::RawQueue, s).contains(("leaky"@, SettingView::Named("downstream"@))),
        properties_of(Role::Snapshot, s).contains(("drop"@, SettingView::Flag(true))),
        properties_of(Role::Snapshot, s).contains(("sync"@, SettingView::Flag(false))),
{
    let queue = properties_of(Role::RawQueue, s);
    let snapshot = properties_of(Role::Snapshot, s);
    assert(queue[0] == ("max-size-buffers"@, SettingView::Number(1)));
    assert(queue[3] == ("leaky"@, SettingView::Named("downstream"@)));
    assert(snapshot[3] == ("drop"@, SettingView::Flag(true)));
    assert(snapshot[1] == ("sync"@, SettingView::Flag(false)));
}

/// What is said of an element that could not be made.
pub open spec fn unmade_text(role: Role, factory: Seq<char>) -> Seq<char> {
    match role {
        Role::Format | Role::RawQueue => "no "@ + factory
            + " element; gstreamer core is incomplete"@,
        Role::Sink => "no webrtcsink. It comes from gst-plugins-rs, which Debian packages in no suite — setup-gstreamer.sh installs it from the microduck-gst-plugins release, and GST_PLUGIN_PATH must include /usr/local/lib/gstreamer-1.0."@,
        _ => "no "@ + factory + " element; a GStreamer package is missing"@,
    }
}

/// What is said of a part that could not be made: which package it comes in.
pub fn unmade(role: Role, factory: &str) -> (r: String)
    ensures
        r@ == unmade_text(role, factory@),
{
    match role {
        Role::Format | Role::RawQueue => "no ".to_owned().concat(factory).concat(
            " element; gstreamer core is incomplete",
        ),
        Role::Sink => "no webrtcsink. It comes from gst-plugins-rs, which Debian packages in no suite — setup-gstreamer.sh installs it from the microduck-gst-plugins release, and GST_PLUGIN_PATH must include /usr/local/lib/gstreamer-1.0.".to_owned(),
        _ => missing_element(factory),
    }
}

/// What is said of an element that could not be made.
pub fn missing_element(name: &str) -> (r: String)
    ensures
        r@ == "no "@ + name@ + " element; a GStreamer package is missing"@,
{
    "no ".to_owned().concat(name).concat(" element; a GStreamer package is missing")
}

/// One raw frame, as the last one seen.
#[derive(Debug, PartialEq, Eq)]
pub struct Frame {
    pub width: u32,
    pub height: u32,
    /// NV12, tightly packed.
    pub data: Vec<u8>,
}

impl Frame {
    pub open spec fn view(&self) -> (u32, u32, Seq<u8>) {
        (self.width, self.height, self.data@)
    }
}

/// What a possible frame holds.
pub open spec fn frame_view(f: Option<Frame>) -> Option<(u32, u32, Seq<u8>)> {
    match f {
        Some(f) => Some(f.view()),
        None => None,
    }
}

/// The most recent raw frame, or none yet. Last value wins: a slow reader sees a newer frame
/// next time, and never a queue of stale ones.
#[derive(Debug)]
pub struct Frames {
    pub held: Option<Frame>,
}

impl Frames {
    pub fn new() -> (r: Self)
        ensures
            r.held is None,
    {
        Frames { held: None }
    }

    /// A frame arrived. Replaced, not queued.
    pub fn replace(&mut self, frame: Frame)
        ensures
            final(self).held == Some(frame),
    {
        self.held = Some(frame);
    }

    /// A copy of the latest frame.
    pub fn latest(&self) -> (r: Option<Frame>)
        ensures
            frame_view(r) == frame_view(self.held),
    {
        match &self.held {
            Some(f) => {
                let mut data: Vec<u8> = Vec::new();
                let mut i: usize = 0;
                while i < f.data.len()
                    invariant
                        i <= f.data@.len(),
                        data@ == f.data@.take(i as int),
                    decreases f.data@.len() - i,
                {
                    data.push(f.data[i]);
                    i = i + 1;
                    assert(data@ == f.data@.take(i as int));
                }
                assert(f.data@.take(i as int) == f.data@);
                Some(Frame { width: f.width, height: f.height, data })
            },
            None => None,
        }
    }
}

/// What to do with an encoder, once it is there.
#[derive(Debug)]
pub enum Encoder {
    /// Nothing was handed over: it will run unconfigured.
    Absent,
    /// The hardware encoder: set these properties.
    Configure { properties: Vec<(&'static str, &'static str)> },
    /// Another encoder, which has no such properties: this is software encoding.
    Software,
}

/// How an encoder is set up, by the name of its factory. Only the hardware encoder has these
/// properties, and setting one an element lacks aborts the process: constrained baseline is what
/// every peer decodes, and headers on every key frame are what a late peer needs.
pub fn encoder_setup(factory: Option<&str>) -> (r: Encoder)
    ensures
        match factory {
            None => r is Absent,
            Some(name) => if name@ == "mpph264enc"@ {
                r matches Encoder::Configure { properties } && properties@.len() == 2
                    && properties@[0].0@ == "profile"@ && properties@[0].1@ == "baseline"@
                    && properties@[1].0@ == "header-mode"@ && properties@[1].1@ == "each-idr"@
            } else {
                r is Software
            },
        },
{
    match factory {
        None => Encoder::Absent,
        Some(name) => if text::same(name, "mpph264enc") {
            let mut properties: Vec<(&'static str, &'static str)> = Vec::new();
            properties.push(("profile", "baseline"));
            properties.push(("header-mode", "each-idr"));
            Encoder::Configure { properties }
        } else {
            Encoder::Software
        },
    }
}

/// The label of a peer, or a question mark for one without.
pub fn peer_label(peer: Option<String>) -> (r: String)
    ensures
        r@ == match net::text_view(peer) {
            Some(p) => p,
            None => "?"@,
        },
{
    match peer {
        Some(p) => p,
        None => "?".to_owned(),
    }
}

/// Which element a signal is looked for on.
#[derive(Debug, Clone, Copy, PartialEq, Eq, Structural)]
pub enum Emitter {
    Webrtcbin,
    DataChannel,
    /// The sink, whose encoder could not be set up without its signal.
    Sink,
}

/// Every signal is checked before it is used, since using one that is not there aborts the
/// process. The first that is missing is what is complained of.
pub open spec fn first_missing(present: Seq<bool>, from: int) -> Option<int>
    decreases present.len() - from,
{
    if 0 <= from < present.len() {
        if present[from] {
            first_missing(present, from + 1)
        } else {
            Some(from)
        }
    } else {
        None
    }
}

/// What is said of an element without a signal.
pub open spec fn missing_signal_text(on: Emitter, signal: Seq<char>) -> Seq<char> {
    match on {
        Emitter::Webrtcbin => "webrtcbin has no "@ + signal
            + " signal; gst-plugins-rs may have changed it"@,
        Emitter::DataChannel => "the data channel has no "@ + signal
            + " signal; gst-plugins-rs may have changed it"@,
        Emitter::Sink => "webrtcsink has no "@ + signal
            + " signal; without it the encoder cannot be configured and the stream would be High profile with SPS/PPS only in its first frame"@,
    }
}

/// Are all of these signals there?
pub fn check_signals(on: Emitter, signals: &[&str], present: &[bool]) -> (r: Result<(), String>)
    requires
        signals@.len() == present@.len(),
    ensures
        match first_missing(present@, 0) {
            None => r is Ok,
            Some(i) => r matches Err(e) && e@ == missing_signal_text(on, signals@[i]@),
        },
{
    let mut i: usize = 0;
    while i < present.len()
        invariant
            i <= present@.len(),
            signals@.len() == present@.len(),
            first_missing(present@, 0) == first_missing(present@, i as int),
        decreases present@.len() - i,
    {
        if !present[i] {
            let changed = " signal; gst-plugins-rs may have changed it";
            let (element, consequence) = match on {
                Emitter::Webrtcbin => ("webrtcbin has no ", changed),
                Emitter::DataChannel => ("the data channel has no ", changed),
                Emitter::Sink => (
                    "webrtcsink has no ",
                    " signal; without it the encoder cannot be configured and the stream would be High profile with SPS/PPS only in its first frame",
                ),
            };
            return Err(element.to_owned().concat(signals[i]).concat(consequence));
        }
        i = i + 1;
    }
    Ok(())
}

// ── what the pipeline keeps ──────────────────────────────────────────────────

/// The sink serves where it was told to: the host, the port and the bitrate it starts from are
/// each set under their own name, and it runs the signalling server itself.
pub proof fn the_sink_serves_where_it_was_told_to(s: Stream)
    ensures
        properties_of(Role::Sink, s).contains(("run-signalling-server"@, SettingView::Flag(true))),
        properties_of(Role::Sink, s).contains(
            ("signalling-server-host"@, SettingView::Text(s.host@)),
        ),
        properties_of(Role::Sink, s).contains(
            ("signalling-server-port"@, SettingView::Number(s.port)),
        ),
        properties_of(Role::Sink, s).contains(("start-bitrate"@, SettingView::Number(s.bitrate))),
        properties_of(Role::Sink, s).len() == 4,
{
    let p = properties_of(Role::Sink, s);
    assert(p[0] == ("run-signalling-server"@, SettingView::Flag(true)));
    assert(p[1] == ("signalling-server-host"@, SettingView::Text(s.host@)));
    assert(p[2] == ("signalling-server-port"@, SettingView::Number(s.port)));
    assert(p[3] == ("start-bitrate"@, SettingView::Number(s.bitrate)));
}

/// The picture has the size and the rate that were asked for, in both branches, whatever else the
/// stream is told; the source keeps to the clock; and the raw queue is bounded by its one buffer
/// alone.
pub proof fn the_picture_is_what_was_asked_for(s: Stream)
    ensures
        properties_of(Role::Format, s).contains(
            ("caps"@, SettingView::Raw { width: s.width, height: s.height, fps: s.fps }),
        ),
        properties_of(Role::Snapshot, s).contains(
            ("caps"@, SettingView::Raw { width: s.width, height: s.height, fps: s.fps }),
        ),
        properties_of(Role::Snapshot, s).contains(("max-buffers"@, SettingView::Number(1))),
        properties_of(Role::Source, s).contains(("is-live"@, SettingView::Flag(true))),
        properties_of(Role::RawQueue, s).contains(("max-size-bytes"@, SettingView::Number(0))),
        properties_of(Role::RawQueue, s).contains(("max-size-time"@, SettingView::Wide(0))),
        properties_of(Role::Tee, s).len() == 0,
        properties_of(Role::VideoQueue, s).len() == 0,
        properties_of(Role::Source, s).len() == 1,
        properties_of(Role::Format, s).len() == 1,
        properties_of(Role::RawQueue, s).len() == 4,
        properties_of(Role::Snapshot, s).len() == 4,
{
    let format = properties_of(Role::Format, s);
    let snapshot = properties_of(Role::Snapshot, s);
    let queue = properties_of(Role::RawQueue, s);
    assert(format[0] == ("caps"@, raw_video(s)));
    assert(snapshot[0] == ("caps"@, raw_video(s)));
    assert(snapshot[2] == ("max-buffers"@, SettingView::Number(1)));
    assert(properties_of(Role::Source, s)[0] == ("is-live"@, SettingView::Flag(true)));
    assert(queue[1] == ("max-size-bytes"@, SettingView::Number(0)));
    assert(queue[2] == ("max-size-time"@, SettingView::Wide(0)));
}

/// Every element is made once, by its own factory and with its own properties, and nothing else
/// is made.
pub proof fn every_element_is_made_once(s: Stream, role: Role)
    ensures
        parts_of(s).len() == 7,
        exists|i: int|
            0 <= i < 7 && (#[trigger] parts_of(s)[i]).0 == role && parts_of(s)[i].1 == factory_of(
                role,
            ) && parts_of(s)[i].2 == properties_of(role, s),
        forall|i: int, j: int|
            0 <= i < j < 7 ==> (#[trigger] parts_of(s)[i]).0 != (#[trigger] parts_of(s)[j]).0,
{
    let p = parts_of(s);
    assert(p[0].0 == Role::Source && p[1].0 == Role::Format && p[2].0 == Role::Tee);
    assert(p[3].0 == Role::VideoQueue && p[4].0 == Role::Sink && p[5].0 == Role::RawQueue);
    assert(p[6].0 == Role::Snapshot);
}

/// Each element is made by the factory its work needs.
pub proof fn each_element_has_its_factory(role: Role)
    ensures
        factory_of(role) == "videotestsrc"@ <==> role == Role::Source,
        factory_of(role) == "capsfilter"@ <==> role == Role::Format,
        factory_of(role) == "tee"@ <==> role == Role::Tee,
        factory_of(role) == "webrtcsink"@ <==> role == Role::Sink,
        factory_of(role) == "appsink"@ <==> role == Role::Snapshot,
        factory_of(role) == "queue"@ <==> role == Role::VideoQueue || role == Role::RawQueue,
{
    reveal_strlit("videotestsrc");
    reveal_strlit("capsfilter");
    reveal_strlit("tee");
    reveal_strlit("queue");
    reveal_strlit("webrtcsink");
    reveal_strlit("appsink");
    assert("videotestsrc"@[0] == 'v' && "capsfilter"@[0] == 'c' && "tee"@[0] == 't');
    assert("queue"@[0] == 'q' && "webrtcsink"@[0] == 'w' && "appsink"@[0] == 'a');
}

/// The picture flows one way: from the source through the format to the tee, and from there by
/// its own queue to the sink and by another to the snapshot. Every element but the source is fed
/// by one other, and the two ends feed none.
pub proof fn the_picture_flows_one_way(from: Role, to: Role)
    ensures
        feeds(from, to) <==> (to != Role::Source && from == match to {
            Role::Format => Role::Source,
            Role::Tee => Role::Format,
            Role::VideoQueue => Role::Tee,
            Role::RawQueue => Role::Tee,
            Role::Sink => Role::VideoQueue,
            _ => Role::RawQueue,
        }),
        feeds(from, to) ==> from != Role::Sink && from != Role::Snapshot,
        feeds(from, to) ==> !feeds(to, from),
{
}

/// A tee is connected before its branches are: the two connections that ask it for a pad come
/// last.
pub proof fn the_branches_are_attached_last(i: int)
    requires
        0 <= i < connections().len(),
    ensures
        connections().len() == 6,
        connections()[i].0 == Role::Tee <==> i >= 4,
{
}

/// Connections that fail for different reasons are complained of differently, and what leads up to
/// the tee fails for one reason.
pub proof fn each_connection_has_its_complaint(a: (Role, Role), b: (Role, Role))
    requires
        feeds(a.0, a.1),
        feeds(b.0, b.1),
    ensures
        link_complaint(a.0, a.1) == link_complaint(b.0, b.1) <==> a == b || ((a.1 == Role::Format
            || a.1 == Role::Tee) && (b.1 == Role::Format || b.1 == Role::Tee)),
{
    reveal_strlit("could not link the video queue to webrtcsink");
    reveal_strlit("could not link the raw branch to its appsink");
    reveal_strlit("could not attach the video branch to the tee");
    reveal_strlit("could not attach the raw branch to the tee");
    reveal_strlit(
        "could not link the source to the tee. A caps failure here means the source cannot produce NV12 at the requested size and rate.",
    );
    let (x, y) = (link_complaint(a.0, a.1), link_complaint(b.0, b.1));
    assert(x[10] == y[10] || x != y);
    assert(x[20] == y[20] || x != y);
    assert(x[19] == y[19] || x != y);
    assert(x[22] == y[22] || x != y);
}

/// An element that could not be made is named, whichever it is: the sink by its own advice, every
/// other behind the same words, with what to do about it.
pub proof fn an_unmade_element_is_named(role: Role, a: Seq<char>, b: Seq<char>)
    ensures
        role != Role::Sink ==> text::differ_behind(
            unmade_text(role, a),
            unmade_text(role, b),
            "no "@,
            a,
            b,
        ),
        text::reads(unmade_text(Role::Sink, a), 0, "no webrtcsink"@),
        role == Role::Format || role == Role::RawQueue ==> " element; gstreamer core is incomplete"@.is_suffix_of(
        unmade_text(role, a)),
        role != Role::Format && role != Role::RawQueue && role != Role::Sink
            ==> " element; a GStreamer package is missing"@.is_suffix_of(unmade_text(role, a)),
{
    let none = Seq::<char>::empty();
    if role != Role::Sink {
        let end = if role == Role::Format || role == Role::RawQueue {
            " element; gstreamer core is incomplete"@
        } else {
            " element; a GStreamer package is missing"@
        };
        let t = unmade_text(role, a);
        text::a_change_behind_a_label(none, "no "@, a, b, end);
        assert(t =~= none + "no "@ + a + end);
        assert(unmade_text(role, b) =~= none + "no "@ + b + end);
        assert(t.subrange(t.len() - end.len(), t.len() as int) =~= end);
    }
    reveal_strlit("no webrtcsink");
    reveal_strlit(
        "no webrtcsink. It comes from gst-plugins-rs, which Debian packages in no suite — setup-gstreamer.sh installs it from the microduck-gst-plugins release, and GST_PLUGIN_PATH must include /usr/local/lib/gstreamer-1.0.",
    );
    assert(unmade_text(Role::Sink, a).subrange(0, 13) =~= "no webrtcsink"@);
}

/// The first signal that is missing is the one complained of: it is missing, and none before it
/// is. Nothing is complained of where all of them are there.
pub proof fn the_first_missing_signal_is_found(present: Seq<bool>, from: int)
    requires
        0 <= from <= present.len(),
    ensures
        first_missing(present, from) matches Some(i) ==> {
            &&& from <= i < present.len()
            &&& !present[i]
            &&& forall|j: int| from <= j < i ==> #[trigger] present[j]
        },
        first_missing(present, from) is None ==> forall|j: int|
            from <= j < present.len() ==> #[trigger] present[j],
    decreases present.len() - from,
{
    if from < present.len() && present[from] {
        the_first_missing_signal_is_found(present, from + 1);
    }
}

/// A missing signal is named, behind the element it was looked for on.
pub proof fn a_missing_signal_is_named(on: Emitter, a: Seq<char>, b: Seq<char>)
    ensures
        text::differ_behind(
            missing_signal_text(on, a),
            missing_signal_text(on, b),
            match on {
                Emitter::Webrtcbin => "webrtcbin has no "@,
                Emitter::DataChannel => "the data channel has no "@,
                Emitter::Sink => "webrtcsink has no "@,
            },
            a,
            b,
        ),
{
    let none = Seq::<char>::empty();
    let label = match on {
        Emitter::Webrtcbin => "webrtcbin has no "@,
        Emitter::DataChannel => "the data channel has no "@,
        Emitter::Sink => "webrtcsink has no "@,
    };
    let end = match on {
        Emitter::Sink => " signal; without it the encoder cannot be configured and the stream would be High profile with SPS/PPS only in its first frame"@,
        _ => " signal; gst-plugins-rs may have changed it"@,
    };
    text::a_change_behind_a_label(none, label, a, b, end);
    assert(missing_signal_text(on, a) =~= none + label + a + end);
    assert(missing_signal_text(on, b) =~= none + label + b + end);
}

/// A rotation is a whole number of quarter turns, less than a full one, and no two are by the
/// same angle.
pub proof fn a_rotation_is_quarter_turns(a: Rotation, b: Rotation)
    ensures
        0 <= a.degrees() < 360,
        a.degrees() % 90 == 0,
        a.degrees() == b.degrees() <==> a == b,
        a.degrees() == 0 <==> a == Rotation::Upright,
        a.degrees() == 180 <==> a == Rotation::Half,
        a.degrees() == 90 <==> a == Rotation::Quarter,
{
}

/// What is set is seen: two settings that are seen alike are set to the same, and parts that are
/// seen alike are made alike.
pub proof fn a_setting_is_seen_as_it_is(a: Setting, b: Setting)
    requires
        a.view() == b.view(),
    ensures
        a matches Setting::Flag(x) ==> b == Setting::Flag(x),
        a matches Setting::Number(x) ==> b == Setting::Number(x),
        a matches Setting::Wide(x) ==> b == Setting::Wide(x),
        a matches Setting::Text(x) ==> b is Text && b->Text_0@ == x@,
        a matches Setting::Named(x) ==> b is Named && b->Named_0@ == x@,
        a matches Setting::Raw { width, height, fps } ==> b == (Setting::Raw { width, height, fps }),
{
}

/// Every property of every part is seen, in order, under its own name.
pub proof fn every_property_is_seen(parts: Seq<Part>, i: int, j: int)
    requires
        0 <= i < parts.len(),
        0 <= j < parts[i].properties@.len(),
    ensures
        part_views(parts).len() == parts.len(),
        part_views(parts)[i].0 == parts[i].role,
        part_views(parts)[i].1 == parts[i].factory@,
        part_views(parts)[i].2.len() == parts[i].properties@.len(),
        part_views(parts)[i].2[j].0 == parts[i].properties@[j].0@,
        part_views(parts)[i].2[j].1 == parts[i].properties@[j].1.view(),
{
}

/// A frame is seen with its size and every byte of it.
pub proof fn a_frame_is_seen_whole(a: Frame, b: Frame)
    ensures
        frame_view(Some(a)) == frame_view(Some(b)) <==> a.width == b.width && a.height == b.height
            && a.data@ == b.data@,
        frame_view(Some(a)) != frame_view(None),
{
}

} // verus!
