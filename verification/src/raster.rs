//! The picture of the robot: which pixels are lit, how near each one is, and when the last
//! picture may be shown again.
//!
//! Depths arrive as order keys ([`depth_key`]), so nearer is smaller and nothing here needs a
//! floating point unit.
use vstd::prelude::*;

use crate::duck::Rgb;

verus! {

/// The depth of a pixel nothing has been drawn on: the key of positive infinity.
pub const FAR: i32 = 2139095040;

/// How long a drawn pose may stay on screen while the robot moves, nanoseconds.
pub const RASTER_INTERVAL_NS: u64 = 80_000_000;

/// The smallest picture worth drawing, pixels on a side.
pub const SMALLEST: usize = 8;

/// Where the camera starts: the bits of -0.7 radians.
pub const START_AZIMUTH: u32 = 3207803699;

/// The order key of a single-precision float: comparing keys compares the floats, and both
/// zeros have one key. What is no number is as far away as nothing at all.
pub open spec fn key_of(bits: u32) -> int {
    let magnitude = bits as int % 0x8000_0000;
    if magnitude > FAR {
        FAR as int
    } else if bits < 0x8000_0000 {
        magnitude
    } else {
        -magnitude
    }
}

/// The order key of the float with these bits.
pub fn depth_key(bits: u32) -> (r: i32)
    ensures
        r == key_of(bits),
        r <= FAR,
{
    let magnitude: u32 = bits % 0x8000_0000;
    if magnitude > 2139095040 {
        FAR
    } else if bits < 0x8000_0000 {
        magnitude as i32
    } else {
        -(magnitude as i32)
    }
}

/// One lit pixel.
#[derive(Debug, Clone, Copy, PartialEq, Eq, Structural)]
pub struct Dot {
    pub z: i32,
    pub rgb: Rgb,
}

/// Where a picture was taken from, and its size in pixels.
#[derive(Debug, Clone, Copy, PartialEq, Eq, Structural)]
pub struct Camera {
    pub azimuth: u32,
    pub w: usize,
    pub h: usize,
}

/// What the pixels hold: the pose, the camera it was seen by, and when.
#[derive(Debug, Clone, Copy, PartialEq, Eq, Structural)]
pub struct Drawn {
    pub pose: u64,
    pub camera: Camera,
    pub at_ns: u64,
}

/// What to do about a frame.
#[derive(Debug, Clone, Copy, PartialEq, Eq, Structural)]
pub enum Paint {
    /// No room for a picture.
    Nothing,
    /// Show the pixels there are.
    Reuse,
    /// The pixels were cleared; draw into them.
    Raster,
}

/// One cell of the terminal: two pixels, one above the other.
#[derive(Debug, Clone, Copy)]
pub struct Glyph {
    pub symbol: &'static str,
    pub fg: Rgb,
    pub bg: Option<Rgb>,
}

/// The pixels, and where the camera stands.
#[derive(Debug)]
pub struct DuckView {
    /// Camera azimuth: the bits of an angle in radians.
    pub azimuth: u32,
    pub cached: Option<Drawn>,
    pub w: usize,
    pub h: usize,
    pub dots: Vec<Option<Dot>>,
}

/// How near a pixel is.
pub open spec fn nearness(dot: Option<Dot>) -> int {
    match dot {
        Some(d) => d.z as int,
        None => FAR as int,
    }
}

/// A pixel after `new` was drawn on it: the nearer of the two, the older on a tie.
pub open spec fn plotted(dot: Option<Dot>, new: Dot) -> Option<Dot> {
    if new.z < nearness(dot) {
        Some(new)
    } else {
        dot
    }
}

/// A pixel after several dots were drawn on it in turn.
pub open spec fn plotted_all(dot: Option<Dot>, dots: Seq<Dot>) -> Option<Dot>
    decreases dots.len(),
{
    if dots.len() == 0 {
        dot
    } else {
        plotted(plotted_all(dot, dots.drop_last()), dots.last())
    }
}

/// Whatever is drawn on an empty pixel, what it shows in the end is the nearest of it, and of
/// two equally near the one that came first.
pub proof fn the_nearest_dot_wins(dots: Seq<Dot>)
    ensures
        forall|i: int| 0 <= i < dots.len() ==> nearness(plotted_all(None, dots)) <= dots[i].z,
        match plotted_all(None, dots) {
            None => forall|i: int| 0 <= i < dots.len() ==> dots[i].z >= FAR,
            Some(d) => exists|i: int|
                0 <= i < dots.len() && dots[i] == d && d.z < FAR && forall|j: int|
                    0 <= j < i ==> dots[j].z > d.z,
        },
    decreases dots.len(),
{
    if dots.len() > 0 {
        let rest = dots.drop_last();
        let last = dots.len() - 1;
        the_nearest_dot_wins(rest);
        assert forall|i: int| 0 <= i < dots.len() implies nearness(plotted_all(None, dots))
            <= dots[i].z by {
            if i < last {
                assert(dots[i] == rest[i]);
            }
        }
        if dots.last().z < nearness(plotted_all(None, rest)) {
            assert forall|j: int| 0 <= j < last implies dots[j].z > dots[last].z by {
                assert(dots[j] == rest[j]);
            }
            assert(dots[last] == dots.last());
        } else {
            match plotted_all(None, rest) {
                None => {
                    assert forall|i: int| 0 <= i < dots.len() implies dots[i].z >= FAR by {
                        if i < last {
                            assert(dots[i] == rest[i]);
                        }
                    }
                },
                Some(d) => {
                    let i = choose|i: int|
                        0 <= i < rest.len() && rest[i] == d && d.z < FAR && forall|j: int|
                            0 <= j < i ==> rest[j].z > d.z;
                    assert(dots[i] == d);
                    assert forall|j: int| 0 <= j < i implies dots[j].z > d.z by {
                        assert(dots[j] == rest[j]);
                    }
                },
            }
        }
    }
}

/// A pixel of a picture `w` wide and `h` high is one of its `w * h` dots.
pub proof fn pixel_in_range(x: int, y: int, w: int, h: int)
    requires
        0 <= x < w,
        0 <= y < h,
    ensures
        0 <= y * w <= y * w + x < w * h,
{
    assert(0 <= y * w && y * w + w <= w * h) by (nonlinear_arith)
        requires
            0 <= y < h,
            0 < w,
    ;
}

/// Turning or resizing the view is never answered with the last picture, and a robot that moves
/// is redrawn no more often than the interval allows.
pub proof fn the_camera_is_never_throttled_and_the_robot_is(
    view: PictureView,
    drawn: Drawn,
    pose: u64,
    w: usize,
    h: usize,
    now_ns: u64,
)
    requires
        view.cached == Some(drawn),
    ensures
        drawn.camera != view.camera(w, h) ==> view.paint(pose, w, h, now_ns) != Paint::Reuse,
        drawn.camera == view.camera(w, h) && now_ns - drawn.at_ns < RASTER_INTERVAL_NS
            ==> view.paint(pose, w, h, now_ns) != Paint::Raster,
{
}

/// Once the camera has moved, whatever had been drawn before and however recently, a frame comes
/// out as it would on a fresh view with its camera there: it is drawn from nothing, and the same
/// dots leave the same picture.
pub proof fn a_moved_camera_draws_as_a_fresh_view_does(
    view: PictureView,
    azimuth: u32,
    pose: u64,
    w: usize,
    h: usize,
    now_ns: u64,
    dots: Seq<(int, int, Dot)>,
)
    requires
        view.cached matches Some(drawn) ==> drawn.camera.azimuth != azimuth,
    ensures
        ({
            let moved = view.orbited(azimuth);
            let paint = moved.paint(pose, w, h, now_ns);
            &&& paint == blank(azimuth).paint(pose, w, h, now_ns)
            &&& paint != Paint::Reuse
            &&& paint == Paint::Raster ==> moved.begun(pose, w, h, now_ns).dotted_all(dots)
                == blank(azimuth).begun(pose, w, h, now_ns).dotted_all(dots)
        }),
{
    let moved = view.orbited(azimuth);
    if moved.paint(pose, w, h, now_ns) == Paint::Raster {
        assert(moved.begun(pose, w, h, now_ns) =~= blank(azimuth).begun(pose, w, h, now_ns));
    }
}

/// The two pixels of a cell as one glyph: the upper half block paints the top pixel in the
/// foreground and the bottom one in the background, and a pixel that is not lit is left to the
/// terminal.
pub open spec fn glyph_of(top: Option<Rgb>, bottom: Option<Rgb>) -> Option<(
    Seq<char>,
    Rgb,
    Option<Rgb>,
)> {
    match (top, bottom) {
        (Some(t), Some(b)) => Some((seq!['\u{2580}'], t, Some(b))),
        (Some(t), None) => Some((seq!['\u{2580}'], t, None)),
        (None, Some(b)) => Some((seq!['\u{2584}'], b, None)),
        (None, None) => None,
    }
}

impl Glyph {
    pub open spec fn view(&self) -> (Seq<char>, Rgb, Option<Rgb>) {
        (self.symbol@, self.fg, self.bg)
    }
}

/// A view, by what it holds.
#[verifier::ext_equal]
pub struct PictureView {
    pub azimuth: u32,
    pub cached: Option<Drawn>,
    pub w: int,
    pub h: int,
    pub dots: Seq<Option<Dot>>,
}

impl PictureView {
    /// The camera that would take a picture of this size now.
    pub open spec fn camera(self, w: usize, h: usize) -> Camera {
        Camera { azimuth: self.azimuth, w, h }
    }

    /// May the pixels be shown again? Only for the same camera, and only while the pose is the
    /// same or the picture recent.
    pub open spec fn still_true(self, pose: u64, w: usize, h: usize, now_ns: u64) -> bool {
        self.cached matches Some(c) && c.camera == self.camera(w, h) && (c.pose == pose || now_ns
            - c.at_ns < RASTER_INTERVAL_NS)
    }

    /// What is done about a frame.
    pub open spec fn paint(self, pose: u64, w: usize, h: usize, now_ns: u64) -> Paint {
        if w < SMALLEST || h < SMALLEST {
            Paint::Nothing
        } else if self.still_true(pose, w, h, now_ns) {
            Paint::Reuse
        } else {
            Paint::Raster
        }
    }

    /// The view once a frame has begun: with nothing on it where it is to be drawn, and as it was
    /// otherwise.
    pub open spec fn begun(self, pose: u64, w: usize, h: usize, now_ns: u64) -> PictureView {
        if self.paint(pose, w, h, now_ns) == Paint::Raster {
            PictureView {
                azimuth: self.azimuth,
                cached: Some(Drawn { pose, camera: self.camera(w, h), at_ns: now_ns }),
                w: w as int,
                h: h as int,
                dots: Seq::new((w * h) as nat, |i: int| None),
            }
        } else {
            self
        }
    }

    /// The view with its camera at another azimuth.
    pub open spec fn orbited(self, azimuth: u32) -> PictureView {
        PictureView { azimuth, ..self }
    }

    /// The view with one dot drawn, unless it is off the picture or something nearer is there.
    pub open spec fn dotted(self, x: int, y: int, new: Dot) -> PictureView {
        if 0 <= x < self.w && 0 <= y < self.h {
            let i = y * self.w + x;
            PictureView { dots: self.dots.update(i, plotted(self.dots[i], new)), ..self }
        } else {
            self
        }
    }

    /// The view with several dots drawn in turn, each at its place.
    pub open spec fn dotted_all(self, dots: Seq<(int, int, Dot)>) -> PictureView
        decreases dots.len(),
    {
        if dots.len() == 0 {
            self
        } else {
            let (x, y, new) = dots.last();
            self.dotted_all(dots.drop_last()).dotted(x, y, new)
        }
    }

    /// The colour of one pixel, if it is lit.
    pub open spec fn pixel(self, x: int, y: int) -> Option<Rgb> {
        if 0 <= y < self.h {
            match self.dots[y * self.w + x] {
                Some(d) => Some(d.rgb),
                None => None,
            }
        } else {
            None
        }
    }
}

/// A view nothing has been drawn on, its camera at this azimuth.
pub open spec fn blank(azimuth: u32) -> PictureView {
    PictureView { azimuth, cached: None, w: 0, h: 0, dots: Seq::empty() }
}

impl DuckView {
    pub open spec fn view(&self) -> PictureView {
        PictureView {
            azimuth: self.azimuth,
            cached: self.cached,
            w: self.w as int,
            h: self.h as int,
            dots: self.dots@,
        }
    }

    /// One dot for every pixel, each nearer than infinity.
    pub open spec fn wf(&self) -> bool {
        &&& self.dots@.len() == self.w * self.h
        &&& forall|i: int| 0 <= i < self.dots@.len() ==> nearness(#[trigger] self.dots@[i]) <= FAR
    }

    /// Nothing drawn, the camera on its three-quarter view.
    pub fn new() -> (r: Self)
        ensures
            r.wf(),
            r.view() == blank(START_AZIMUTH),
    {
        let dots: Vec<Option<Dot>> = Vec::new();
        assert(dots@ =~= Seq::<Option<Dot>>::empty());
        DuckView { azimuth: START_AZIMUTH, cached: None, w: 0, h: 0, dots }
    }

    /// Stand the camera at another azimuth. The pixels stay; the next frame sees that they are
    /// another camera's.
    pub fn orbit(&mut self, azimuth: u32)
        requires
            old(self).wf(),
        ensures
            final(self).wf(),
            final(self).view() == old(self).view().orbited(azimuth),
    {
        self.azimuth = azimuth;
    }

    /// Decide about a frame of `w` by `h` pixels, and make room for it if it is to be drawn.
    pub fn begin(&mut self, pose: u64, w: usize, h: usize, now_ns: u64) -> (r: Paint)
        requires
            old(self).wf(),
            w * h <= usize::MAX,
        ensures
            final(self).wf(),
            r == old(self).view().paint(pose, w, h, now_ns),
            final(self).view() == old(self).view().begun(pose, w, h, now_ns),
    {
        if w < SMALLEST || h < SMALLEST {
            return Paint::Nothing;
        }
        let camera = Camera { azimuth: self.azimuth, w, h };
        if let Some(c) = self.cached {
            let recent = now_ns < c.at_ns || now_ns - c.at_ns < RASTER_INTERVAL_NS;
            if c.camera == camera && (c.pose == pose || recent) {
                return Paint::Reuse;
            }
        }
        let n: usize = w * h;
        let mut dots: Vec<Option<Dot>> = Vec::new();
        let mut i: usize = 0;
        while i < n
            invariant
                i <= n,
                dots@.len() == i,
                forall|j: int| 0 <= j < i ==> dots@[j] is None,
            decreases n - i,
        {
            dots.push(None);
            i = i + 1;
        }
        assert(dots@ =~= Seq::new((w * h) as nat, |i: int| None::<Dot>));
        self.cached = Some(Drawn { pose, camera, at_ns: now_ns });
        self.w = w;
        self.h = h;
        self.dots = dots;
        Paint::Raster
    }

    /// Draw one dot, unless it is off the picture or something nearer is there.
    pub fn plot(&mut self, x: i64, y: i64, z: i32, rgb: Rgb)
        requires
            old(self).wf(),
        ensures
            final(self).wf(),
            final(self).view() == old(self).view().dotted(x as int, y as int, Dot { z, rgb }),
    {
        if x < 0 || y < 0 || x as u64 >= self.w as u64 || y as u64 >= self.h as u64 {
            return ;
        }
        proof {
            pixel_in_range(x as int, y as int, self.w as int, self.h as int);
        }
        assert(self.dots.len() <= usize::MAX);
        let i: usize = y as usize * self.w + x as usize;
        let depth: i32 = match self.dots[i] {
            Some(d) => d.z,
            None => FAR,
        };
        if z < depth {
            self.dots.set(i, Some(Dot { z, rgb }));
        }
        assert(self.dots@ =~= old(self).dots@.update(
            i as int,
            plotted(old(self).dots@[i as int], Dot { z, rgb }),
        ));
    }

    /// The colour of one pixel, if it is lit.
    pub fn pixel(&self, x: usize, y: usize) -> (r: Option<Rgb>)
        requires
            self.wf(),
            x < self.w,
        ensures
            r == self.view().pixel(x as int, y as int),
    {
        if y >= self.h {
            return None;
        }
        proof {
            pixel_in_range(x as int, y as int, self.w as int, self.h as int);
        }
        assert(self.dots.len() <= usize::MAX);
        match self.dots[y * self.w + x] {
            Some(d) => Some(d.rgb),
            None => None,
        }
    }

    /// What one terminal cell shows, or `None` where it is left alone.
    pub fn cell(&self, col: usize, row: usize) -> (r: Option<Glyph>)
        requires
            self.wf(),
            col < self.w,
            2 * row + 1 <= usize::MAX,
        ensures
            r is Some <==> glyph_of(
                self.view().pixel(col as int, 2 * row),
                self.view().pixel(col as int, 2 * row + 1),
            ) is Some,
            r matches Some(g) ==> Some(g.view()) == glyph_of(
                self.view().pixel(col as int, 2 * row),
                self.view().pixel(col as int, 2 * row + 1),
            ),
    {
        proof {
            reveal_strlit("▀");
            reveal_strlit("▄");
        }
        let top = self.pixel(col, row * 2);
        let bottom = self.pixel(col, row * 2 + 1);
        match (top, bottom) {
            (Some(t), Some(b)) => Some(Glyph { symbol: "▀", fg: t, bg: Some(b) }),
            (Some(t), None) => Some(Glyph { symbol: "▀", fg: t, bg: None }),
            (None, Some(b)) => Some(Glyph { symbol: "▄", fg: b, bg: None }),
            (None, None) => None,
        }
    }
}

// ── what the picture keeps ───────────────────────────────────────────────────

/// What a terminal shows of a cell, its upper half and its lower half: the upper half block
/// paints the one in the foreground and leaves the other to the background, and the lower half
/// block the other way round.
pub open spec fn halves(glyph: (Seq<char>, Rgb, Option<Rgb>)) -> (Option<Rgb>, Option<Rgb>) {
    if glyph.0 == seq!['▀'] {
        (Some(glyph.1), glyph.2)
    } else {
        (glyph.2, Some(glyph.1))
    }
}

/// A cell shows its two pixels: the top one above and the bottom one below, each in its own
/// colour, and one that is not lit stays as the terminal has it. Only a cell with nothing lit is
/// left alone.
pub proof fn a_cell_shows_its_two_pixels(top: Option<Rgb>, bottom: Option<Rgb>)
    ensures
        glyph_of(top, bottom) is None <==> top is None && bottom is None,
        glyph_of(top, bottom) matches Some(glyph) ==> halves(glyph) == (top, bottom) && (glyph.0
            == seq!['▀'] || glyph.0 == seq!['▄']),
{
    assert(seq!['▀'][0] == '▀');
    assert(seq!['▄'][0] == '▄');
}

/// A dot shows where it was drawn if nothing nearer is there, and changes no other pixel. Off the
/// picture it changes none.
pub proof fn a_dot_shows_only_where_it_was_drawn(
    view: PictureView,
    x: int,
    y: int,
    new: Dot,
    col: int,
    row: int,
)
    requires
        view.w >= 0,
        view.h >= 0,
        view.dots.len() == view.w * view.h,
        0 <= col < view.w,
        0 <= row < view.h,
    ensures
        ({
            let after = view.dotted(x, y, new);
            let here = view.dots[row * view.w + col];
            let front = match here {
                Some(d) => new.z < d.z,
                None => new.z < FAR,
            };
            &&& (col, row) == (x, y) && front ==> after.pixel(col, row) == Some(new.rgb)
            &&& (col, row) == (x, y) && !front ==> after.pixel(col, row) == view.pixel(col, row)
            &&& (col, row) != (x, y) ==> after.pixel(col, row) == view.pixel(col, row)
            &&& !(0 <= x < view.w && 0 <= y < view.h) ==> after == view
            &&& after.w == view.w && after.h == view.h && after.azimuth == view.azimuth
                && after.cached == view.cached
        }),
{
    pixel_in_range(col, row, view.w, view.h);
    if 0 <= x < view.w && 0 <= y < view.h {
        pixel_in_range(x, y, view.w, view.h);
        let w = view.w;
        if row < y {
            assert(y * w >= row * w + w) by (nonlinear_arith)
                requires
                    y >= row + 1,
                    w >= 0,
            ;
        }
        if y < row {
            assert(row * w >= y * w + w) by (nonlinear_arith)
                requires
                    row >= y + 1,
                    w >= 0,
            ;
        }
    }
}

/// When the last picture is shown again: only the same camera's, of the same size, and then
/// while the robot stands still, or for eighty milliseconds. No picture is too small to be
/// worth it but one of fewer than eight pixels on a side.
pub proof fn a_picture_is_reused_while_it_is_true(
    view: PictureView,
    pose: u64,
    w: usize,
    h: usize,
    now_ns: u64,
)
    ensures
        view.paint(pose, w, h, now_ns) == Paint::Nothing <==> w < 8 || h < 8,
        view.paint(pose, w, h, now_ns) == Paint::Reuse <==> w >= 8 && h >= 8 && (
        view.cached matches Some(c) && c.camera.azimuth == view.azimuth && c.camera.w == w
            && c.camera.h == h && (c.pose == pose || now_ns < c.at_ns + 80_000_000)),
{
}

/// A frame that is drawn begins with nothing lit and remembers what it shows: asked for again it
/// is reused, a robot that moved is drawn anew once the interval is over and not before, and a
/// view that was turned is drawn anew at once.
pub proof fn a_begun_frame_is_remembered(
    view: PictureView,
    pose: u64,
    w: usize,
    h: usize,
    now_ns: u64,
    other: u64,
    later: u64,
    azimuth: u32,
    x: int,
    y: int,
)
    requires
        view.paint(pose, w, h, now_ns) == Paint::Raster,
        other != pose,
        azimuth != view.azimuth,
        0 <= x < w,
        0 <= y < h,
    ensures
        ({
            let begun = view.begun(pose, w, h, now_ns);
            &&& begun.pixel(x, y) is None
            &&& begun.dots.len() == w * h
            &&& begun.w == w && begun.h == h && begun.azimuth == view.azimuth
            &&& begun.paint(pose, w, h, later) == Paint::Reuse
            &&& begun.paint(other, w, h, later) == if later - now_ns < 80_000_000 {
                Paint::Reuse
            } else {
                Paint::Raster
            }
            &&& begun.orbited(azimuth).paint(pose, w, h, later) == Paint::Raster
            &&& begun.begun(pose, w, h, later) == begun
        }),
{
    pixel_in_range(x, y, w as int, h as int);
    assert(0 <= w * h);
}

/// The keys of depths are ordered as the depths are: among positive ones by their bits, among
/// negative ones the other way round, negative before positive, and the two zeros alike. What is
/// no number is as far as nothing.
pub proof fn depth_keys_keep_the_order(a: u32, b: u32)
    requires
        a as int % 0x8000_0000 <= 0x7f80_0000,
        b as int % 0x8000_0000 <= 0x7f80_0000,
    ensures
        a < 0x8000_0000 && b < 0x8000_0000 ==> (key_of(a) < key_of(b) <==> a < b),
        a >= 0x8000_0000 && b >= 0x8000_0000 ==> (key_of(a) < key_of(b) <==> a > b),
        a > 0x8000_0000 && b < 0x8000_0000 ==> key_of(a) < key_of(b),
        key_of(0x8000_0000) == key_of(0),
        key_of(a) <= key_of(0x7f80_0000),
        key_of(0x7f80_0000) == FAR,
{
}

/// What is no number is drawn behind everything, whatever its sign.
pub proof fn no_number_is_nowhere_near(bits: u32)
    requires
        bits as int % 0x8000_0000 > 0x7f80_0000,
    ensures
        key_of(bits) == FAR,
        plotted(None, Dot { z: key_of(bits) as i32, rgb: Rgb { r: 0, g: 0, b: 0 } }) is None,
{
}

/// A view is seen by its camera, what it has drawn, its size and every pixel.
pub proof fn a_view_is_seen_whole(view: DuckView)
    ensures
        view.view().azimuth == view.azimuth,
        view.view().cached == view.cached,
        view.view().w == view.w,
        view.view().h == view.h,
        view.view().dots == view.dots@,
        view.view().camera(view.w, view.h) == (Camera {
            azimuth: view.azimuth,
            w: view.w,
            h: view.h,
        }),
{
}

/// A glyph is seen by its symbol and both of its colours.
pub proof fn a_glyph_is_seen_whole(glyph: Glyph)
    ensures
        glyph.view().0 == glyph.symbol@,
        glyph.view().1 == glyph.fg,
        glyph.view().2 == glyph.bg,
{
}

/// A new view has nothing on it.
pub proof fn a_blank_view_has_nothing_on_it(azimuth: u32)
    ensures
        blank(azimuth).azimuth == azimuth,
        blank(azimuth).cached is None,
        blank(azimuth).dots.len() == 0,
        blank(azimuth).w == 0,
        blank(azimuth).h == 0,
{
}

} // verus!
