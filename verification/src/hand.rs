//! Telling a hand from a wall in an 8 by 8 depth frame.
//!
//! A background is captured when the instrument arms, and from then on only what is nearer than
//! the background by a margin is a hand. Arming refuses a background that already looks like
//! one.
//!
//! Ranges are order keys of the metres they stand for ([`crate::rank::range_key`]); what has to
//! be computed from metres arrives computed.
use vstd::prelude::*;

use crate::rank;

verus! {

/// The grid the sensor ranges in.
pub const ROWS: usize = 8;

pub const COLS: usize = 8;

pub const ZONES: usize = 64;

/// Fewest returns worth fitting a plane to.
pub const MIN_FIT_ZONES: usize = 12;

/// Farther than anything: the key of positive infinity.
pub const INFINITELY_FAR: i64 = 0x7ff0_0000_0000_0000;

/// One frame: a range for every zone that has one, row by row.
pub type Frame = [Option<i64>; 64];

/// What a zone's return turned out to be.
#[derive(Debug, Clone, Copy, PartialEq, Eq, Structural)]
pub enum ZoneKind {
    /// No usable return.
    Empty,
    /// Inside the band where the sensor's own crosstalk makes readings up.
    TooClose,
    /// The beam reached the floor before anything stood in its way.
    Floor,
    /// Something is there.
    Hit,
}

/// What a return is, from four comparisons: whether there is one, whether the beam looks below
/// the horizon of a sensor above the floor, whether it is long enough to reach the floor, and
/// whether it is nearer than the sensor can be trusted.
pub fn classify(returned: bool, looks_down: bool, reaches_floor: bool, too_near: bool) -> (r:
    ZoneKind)
    ensures
        r == if !returned {
            ZoneKind::Empty
        } else if looks_down && reaches_floor {
            ZoneKind::Floor
        } else if too_near {
            ZoneKind::TooClose
        } else {
            ZoneKind::Hit
        },
        r == ZoneKind::Empty <==> !returned,
        r == ZoneKind::Floor <==> returned && looks_down && reaches_floor,
        r == ZoneKind::Hit <==> returned && !too_near && !(looks_down && reaches_floor),
{
    if !returned {
        ZoneKind::Empty
    } else if looks_down && reaches_floor {
        ZoneKind::Floor
    } else if too_near {
        ZoneKind::TooClose
    } else {
        ZoneKind::Hit
    }
}

/// Why a background was not accepted.
#[derive(Debug, Clone, Copy, PartialEq, Eq, Structural)]
pub enum Refusal {
    /// The sensor produced almost nothing over the whole window.
    NoReturns,
    /// The background already looks like a hand.
    SomethingInTheWay,
}

impl Refusal {
    /// What to tell whoever asked.
    pub open spec fn sentence(&self) -> Seq<char> {
        match self {
            Refusal::NoReturns => "the depth sensor is not seeing anything to play against"@,
            Refusal::SomethingInTheWay => "something is right in front of the beak — move it away and arm again"@,
        }
    }

    /// What to tell whoever asked.
    pub fn as_str(&self) -> (r: &'static str)
        ensures
            r@ == self.sentence(),
    {
        match self {
            Refusal::NoReturns => "the depth sensor is not seeing anything to play against",
            Refusal::SomethingInTheWay => "something is right in front of the beak — move it away and arm again",
        }
    }
}

/// A background's geometry.
#[derive(Debug, Clone, Copy, PartialEq, Eq, Structural)]
pub enum Shape {
    /// Too few returns to fit anything.
    Open { zones: usize },
    /// A wall, a table, a door: how far it is, and how far the returns sit off it.
    Plane { distance: i64, rms: i64 },
    /// Returns, but not on one plane.
    Cluttered { rms: i64 },
}

/// What fitting a plane to the returns gave.
#[derive(Debug, Clone, Copy, PartialEq, Eq, Structural)]
pub struct Fit {
    /// `None` where no plane could be fitted.
    pub distance: Option<i64>,
    pub rms: i64,
}

/// The geometry of a background with so many returns: open where they are too few, a plane where
/// one was fitted and they sit no further off it than `flat`.
pub fn shape_of(points: usize, fit: Fit, flat: i64) -> (r: Shape)
    ensures
        r == if points < MIN_FIT_ZONES {
            Shape::Open { zones: points }
        } else {
            match fit.distance {
                Some(distance) if fit.rms <= flat => Shape::Plane { distance, rms: fit.rms },
                _ => Shape::Cluttered { rms: fit.rms },
            }
        },
        r is Open <==> points < 12,
        r is Plane <==> points >= 12 && fit.distance is Some && fit.rms <= flat,
{
    if points < MIN_FIT_ZONES {
        return Shape::Open { zones: points };
    }
    match fit.distance {
        Some(distance) => if fit.rms <= flat {
            Shape::Plane { distance, rms: fit.rms }
        } else {
            Shape::Cluttered { rms: fit.rms }
        },
        None => Shape::Cluttered { rms: fit.rms },
    }
}

/// What counts as a hand, with every fraction already counted out in zones.
#[derive(Debug)]
pub struct Config {
    /// Nearest playable range.
    pub near: i64,
    /// Farthest playable range.
    pub far: i64,
    /// How many foreground zones make a hand.
    pub min_zones: usize,
    /// For each number of playable zones, the most foreground zones that may be a hand: more is
    /// a wall that arrived after arming.
    pub most: [usize; 65],
    /// How many frames an arming window must hold.
    pub min_arming_frames: usize,
    /// How many zones a plane must cover to be believed a wall rather than a palm.
    pub wall_zones: usize,
}

/// The ranges one zone reported, frame by frame.
pub open spec fn sightings(samples: Seq<Frame>, zone: int) -> Seq<i64>
    decreases samples.len(),
{
    if samples.len() == 0 {
        Seq::empty()
    } else {
        match samples.last()@[zone] {
            Some(r) => sightings(samples.drop_last(), zone).push(r),
            None => sightings(samples.drop_last(), zone),
        }
    }
}

/// The reference of one zone. Only a zone seen in most of the window has one, and it is the
/// median of what was seen.
pub open spec fn reference_of(samples: Seq<Frame>, zone: int) -> Option<i64> {
    let seen = sightings(samples, zone);
    if 2 * seen.len() > samples.len() {
        Some(rank::at(seen, seen.len() / 2))
    } else {
        None
    }
}

/// The references of all zones.
pub open spec fn references(samples: Seq<Frame>) -> Seq<Option<i64>> {
    Seq::new(64, |zone: int| reference_of(samples, zone))
}

/// How many of the first `n` zones have a range.
pub open spec fn seen_zones(frame: Seq<Option<i64>>, n: nat) -> nat
    decreases n,
{
    if n == 0 {
        0
    } else {
        seen_zones(frame, (n - 1) as nat) + if frame[n - 1] is Some {
            1nat
        } else {
            0nat
        }
    }
}

/// A background that is a wall is accepted though it looks like one enormous hand: a plane that
/// is beyond the playable band, or covers nearly all of the frame as every wall does.
pub open spec fn is_wall(shape: Shape, seen: nat, config: Config) -> bool {
    shape matches Shape::Plane { distance, .. } && (distance > config.far || seen
        >= config.wall_zones)
}

/// No zone has anything against it.
pub open spec fn all_empty() -> Seq<ZoneKind> {
    Seq::new(64, |i: int| ZoneKind::Empty)
}

/// Nothing anywhere to be nearer than.
pub open spec fn nothing_behind() -> Seq<i64> {
    Seq::new(64, |i: int| INFINITELY_FAR)
}

/// The foreground of a frame with nothing behind it.
pub open spec fn bare_foreground(ranges: Seq<Option<i64>>, config: Config) -> Seq<(usize, i64)> {
    foreground_of(ranges, all_empty(), config, nothing_behind(), 64)
}

/// Does a frame, with nothing behind it, look like a hand?
pub open spec fn hand_shaped(ranges: Seq<Option<i64>>, config: Config) -> bool {
    is_hand(
        bare_foreground(ranges, config).len(),
        usable_zones(all_empty(), 64),
        config,
    )
}

/// Gathers arming frames.
#[derive(Debug)]
pub struct Arming {
    pub samples: Vec<Frame>,
}

impl Arming {
    pub fn new() -> (r: Self)
        ensures
            r.samples@.len() == 0,
    {
        Arming { samples: Vec::new() }
    }

    /// Take one frame into the window.
    pub fn observe(&mut self, ranges: &Frame)
        ensures
            final(self).samples@ == old(self).samples@.push(*ranges),
    {
        self.samples.push(*ranges);
    }

    pub fn frames(&self) -> (r: usize)
        ensures
            r == self.samples@.len(),
    {
        self.samples.len()
    }

    /// Enough frames to reduce?
    pub fn ready(&self, config: &Config) -> (r: bool)
        ensures
            r == (self.samples@.len() >= config.min_arming_frames),
    {
        self.samples.len() >= config.min_arming_frames
    }

    fn reference(&self, zone: usize) -> (r: Option<i64>)
        requires
            zone < 64,
        ensures
            r == reference_of(self.samples@, zone as int),
    {
        let mut seen: Vec<i64> = Vec::new();
        let mut i: usize = 0;
        while i < self.samples.len()
            invariant
                zone < 64,
                i <= self.samples@.len(),
                seen@ == sightings(self.samples@.take(i as int), zone as int),
                seen@.len() <= i,
            decreases self.samples@.len() - i,
        {
            assert(self.samples@.take(i + 1).drop_last() == self.samples@.take(i as int));
            assert(self.samples@.take(i + 1).last() == self.samples@[i as int]);
            let frame = &self.samples[i];
            if let Some(r) = frame[zone] {
                seen.push(r);
            }
            i = i + 1;
        }
        assert(self.samples@.take(i as int) == self.samples@);
        if seen.len() <= self.samples.len() / 2 {
            return None;
        }
        let middle: usize = seen.len() / 2;
        Some(rank::pick(&seen, middle))
    }

    /// Reduce the window to one reference range per zone: the median of a zone seen in most of
    /// it, and nothing for a zone that flickers, which as a reference would mask a hand.
    pub fn reduce(&self) -> (r: Frame)
        ensures
            r@ == references(self.samples@),
    {
        let mut out: Frame = [None;64];
        let mut zone: usize = 0;
        while zone < 64
            invariant
                zone <= 64,
                forall|z: int|
                    0 <= z < zone ==> #[trigger] out@[z] == reference_of(self.samples@, z),
            decreases 64 - zone,
        {
            out[zone] = self.reference(zone);
            zone = zone + 1;
        }
        assert(out@ =~= references(self.samples@));
        out
    }

    /// Accept the window as the background, or say why not. The arming check is the play check: a
    /// background that already looks like a hand, with nothing behind it, is refused, unless it
    /// is a wall. `shape` is the geometry of the reduced window. A hand of no zones has no range,
    /// so where one would do, there must be something in front.
    pub fn finish(&self, shape: Shape, config: &Config) -> (r: Result<Background, Refusal>)
        requires
            config.min_zones > 0 || self.samples@.len() == 0 || seen_zones(
                references(self.samples@),
                64,
            ) == 0 || bare_foreground(references(self.samples@), *config).len() > 0,
        ensures
            ({
                let range = references(self.samples@);
                let seen = seen_zones(range, 64);
                &&& (r matches Err(Refusal::NoReturns)) <==> self.samples@.len() == 0 || seen == 0
                &&& (r matches Err(Refusal::SomethingInTheWay)) <==> {
                    &&& self.samples@.len() > 0
                    &&& seen > 0
                    &&& hand_shaped(range, *config)
                    &&& !is_wall(shape, seen, *config)
                }
                &&& r matches Ok(b) ==> b.range@ == range && b.shape == shape
            }),
            ({
                let range = references(self.samples@);
                let seen = zones_with_a_range(range).len();
                let band = zones_in_band(range, *config).len();
                r is Ok <==> self.samples@.len() > 0 && seen > 0 && {
                    ||| band < config.min_zones
                    ||| band > config.most@[64]
                    ||| shape matches Shape::Plane { distance, .. } && (distance > config.far
                        || seen >= config.wall_zones)
                }
            }),
    {
        let reduced = self.reduce();
        let seen = count_seen(&reduced);
        proof {
            every_zone_with_a_range_is_counted(reduced@);
            looking_like_a_hand_is_a_count(reduced@, *config);
        }
        if self.samples.len() == 0 || seen == 0 {
            return Err(Refusal::NoReturns);
        }
        let kinds: [ZoneKind; 64] = [ZoneKind::Empty;64];
        let behind: [i64; 64] = [INFINITELY_FAR;64];
        assert(kinds@ =~= all_empty());
        assert(behind@ =~= nothing_behind());
        let nothing = Background { range: [None;64], shape };
        assert(limits(nothing.range@, behind@) =~= nothing_behind());
        let hand = nothing.detect(&reduced, &kinds, &behind, config);
        let wall = match shape {
            Shape::Plane { distance, .. } => distance > config.far || seen >= config.wall_zones,
            Shape::Open { .. } | Shape::Cluttered { .. } => false,
        };
        if hand.is_some() && !wall {
            return Err(Refusal::SomethingInTheWay);
        }
        Ok(Background { range: reduced, shape })
    }
}

/// How many zones have a range.
pub fn count_seen(frame: &Frame) -> (r: usize)
    ensures
        r == seen_zones(frame@, 64),
        r <= 64,
{
    let mut n: usize = 0;
    let mut i: usize = 0;
    while i < 64
        invariant
            i <= 64,
            n == seen_zones(frame@, i as nat),
            n <= i,
        decreases 64 - i,
    {
        if frame[i].is_some() {
            n = n + 1;
        }
        i = i + 1;
    }
    n
}

/// A zone that can be played at all: the floor is no instrument, and a return the sensor made
/// up is no measurement.
pub open spec fn usable(kind: ZoneKind) -> bool {
    kind != ZoneKind::Floor && kind != ZoneKind::TooClose
}

/// How many of the first `n` zones can be played.
pub open spec fn usable_zones(kinds: Seq<ZoneKind>, n: nat) -> nat
    decreases n,
{
    if n == 0 {
        0
    } else {
        usable_zones(kinds, (n - 1) as nat) + if usable(kinds[n - 1]) {
            1nat
        } else {
            0nat
        }
    }
}

/// Those below `n` that `p` holds of.
pub open spec fn those_where(p: spec_fn(int) -> bool, n: int) -> Set<int> {
    Set::new(|i: int| 0 <= i < n && p(i))
}

/// The zones that have a range.
pub open spec fn zones_with_a_range(frame: Seq<Option<i64>>) -> Set<int> {
    those_where(|z: int| frame[z] is Some, 64)
}

/// The zones that can be played: neither floor nor too close to be believed.
pub open spec fn playable_zones(kinds: Seq<ZoneKind>) -> Set<int> {
    those_where(|z: int| kinds[z] != ZoneKind::Floor && kinds[z] != ZoneKind::TooClose, 64)
}

/// The zones in front of a background: each can be played, has a range inside the band, and is
/// nearer than `nearer_than` wherever the background has a range.
pub open spec fn zones_in_front(
    ranges: Seq<Option<i64>>,
    kinds: Seq<ZoneKind>,
    config: Config,
    background: Seq<Option<i64>>,
    nearer_than: Seq<i64>,
) -> Set<int> {
    those_where(
        |z: int|
            {
                &&& playable_zones(kinds).contains(z)
                &&& ranges[z] matches Some(r) && config.near <= r <= config.far
                    && if background[z] is Some {
                    r < nearer_than[z]
                } else {
                    r < INFINITELY_FAR
                }
            },
        64,
    )
}

/// The zones a hand could cover in a frame with nothing behind it.
pub open spec fn zones_in_band(ranges: Seq<Option<i64>>, config: Config) -> Set<int> {
    those_where(
        |z: int|
            ranges[z] matches Some(r) && config.near <= r <= config.far && r < INFINITELY_FAR,
        64,
    )
}

/// Is a zone foreground: playable, inside the band, and nearer than the background allows?
pub open spec fn is_foreground(
    range: Option<i64>,
    kind: ZoneKind,
    config: Config,
    nearer_than: i64,
) -> bool {
    usable(kind) && (range matches Some(r) && config.near <= r <= config.far && r < nearer_than)
}

/// The foreground among the first `n` zones: each zone with its range, in order.
pub open spec fn foreground_of(
    ranges: Seq<Option<i64>>,
    kinds: Seq<ZoneKind>,
    config: Config,
    nearer_than: Seq<i64>,
    n: nat,
) -> Seq<(usize, i64)>
    decreases n,
{
    if n == 0 {
        Seq::empty()
    } else {
        let rest = foreground_of(ranges, kinds, config, nearer_than, (n - 1) as nat);
        if is_foreground(ranges[n - 1], kinds[n - 1], config, nearer_than[n - 1]) {
            rest.push(((n - 1) as usize, ranges[n - 1]->0))
        } else {
            rest
        }
    }
}

/// What a frame shows in front of the background.
#[derive(Debug)]
pub struct Foreground {
    /// Zones that can be played.
    pub usable: usize,
    /// Foreground zones and their ranges, in order.
    pub zones: Vec<(usize, i64)>,
}

/// Find what is in front of the background. `nearer_than` is the background of each zone less
/// the margin, and infinitely far where there is none.
pub fn foreground(
    ranges: &Frame,
    kinds: &[ZoneKind; 64],
    nearer_than: &[i64; 64],
    config: &Config,
) -> (r: Foreground)
    ensures
        r.usable == usable_zones(kinds@, 64),
        r.zones@ == foreground_of(ranges@, kinds@, *config, nearer_than@, 64),
        r.zones@.len() <= r.usable <= 64,
{
    let mut count: usize = 0;
    let mut zones: Vec<(usize, i64)> = Vec::new();
    let mut i: usize = 0;
    while i < 64
        invariant
            i <= 64,
            count == usable_zones(kinds@, i as nat),
            zones@ == foreground_of(ranges@, kinds@, *config, nearer_than@, i as nat),
            zones@.len() <= count <= i,
        decreases 64 - i,
    {
        let kind = kinds[i];
        if kind != ZoneKind::Floor && kind != ZoneKind::TooClose {
            count = count + 1;
            if let Some(r) = ranges[i] {
                if config.near <= r && r <= config.far && r < nearer_than[i] {
                    zones.push((i, r));
                }
            }
        }
        i = i + 1;
    }
    Foreground { usable: count, zones }
}

/// The ranges of a foreground.
pub open spec fn ranges_of(zones: Seq<(usize, i64)>) -> Seq<i64> {
    zones.map_values(|z: (usize, i64)| z.1)
}

/// The range to a hand: a low percentile of the foreground, because the single nearest zone is
/// regularly a flier.
pub fn hand_range(zones: &Vec<(usize, i64)>) -> (r: i64)
    requires
        zones@.len() > 0,
    ensures
        rank::stands_at(ranges_of(zones@), zones@.len() / 5, r),
{
    let mut ranges: Vec<i64> = Vec::new();
    let mut i: usize = 0;
    while i < zones.len()
        invariant
            i <= zones@.len(),
            ranges@ == ranges_of(zones@).take(i as int),
        decreases zones@.len() - i,
    {
        ranges.push(zones[i].1);
        i = i + 1;
        assert(ranges@ == ranges_of(zones@).take(i as int));
    }
    assert(ranges_of(zones@).take(i as int) == ranges_of(zones@));
    let k: usize = ranges.len() / 5;
    rank::pick(&ranges, k)
}

/// Is this foreground a hand? Too few zones are noise, and one that fills more of the playable
/// frame than a hand could is a wall that arrived after arming.
pub open spec fn is_hand(zones: nat, playable: nat, config: Config) -> bool {
    zones >= config.min_zones && !(playable > 0 && zones > config.most@[playable as int])
}

/// The zones of a foreground that have a point in space.
pub open spec fn hits_of(zones: Seq<(usize, i64)>, kinds: Seq<ZoneKind>) -> Seq<usize>
    decreases zones.len(),
{
    if zones.len() == 0 {
        Seq::empty()
    } else if kinds[zones.last().0 as int] == ZoneKind::Hit {
        hits_of(zones.drop_last(), kinds).push(zones.last().0)
    } else {
        hits_of(zones.drop_last(), kinds)
    }
}

/// How near a return must be to be in front of a background: nearer than `nearer_than`, which is
/// the background less the margin, and in a zone where nothing was ever seen, nearer than
/// infinitely far.
pub open spec fn limits(background: Seq<Option<i64>>, nearer_than: Seq<i64>) -> Seq<i64> {
    Seq::new(
        64,
        |i: int|
            if background[i] is Some {
                nearer_than[i]
            } else {
                INFINITELY_FAR
            },
    )
}

/// A hand.
#[derive(Debug, PartialEq, Eq)]
pub struct Hand {
    /// Robust distance to it.
    pub range: i64,
    /// How many zones it covers.
    pub zones: usize,
    /// The zones whose points its centroid is made of.
    pub hits: Vec<usize>,
}

/// The reference the hand test measures against.
#[derive(Debug)]
pub struct Background {
    /// Reference range of each zone, none where the sensor saw nothing.
    pub range: Frame,
    pub shape: Shape,
}

impl Background {
    fn limit(&self, nearer_than: &[i64; 64]) -> (r: [i64; 64])
        ensures
            r@ == limits(self.range@, nearer_than@),
    {
        let mut out: [i64; 64] = [INFINITELY_FAR;64];
        let mut i: usize = 0;
        while i < 64
            invariant
                i <= 64,
                forall|j: int|
                    0 <= j < i ==> #[trigger] out@[j] == limits(self.range@, nearer_than@)[j],
                forall|j: int| i <= j < 64 ==> #[trigger] out@[j] == INFINITELY_FAR,
            decreases 64 - i,
        {
            if self.range[i].is_some() {
                out[i] = nearer_than[i];
            }
            i = i + 1;
        }
        assert(out@ =~= limits(self.range@, nearer_than@));
        out
    }

    /// Find the hand in one frame, if there is one. `kinds` says which returns are floor or
    /// made up, and `nearer_than` is this background less the margin, for the zones that have one.
    /// A hand of no zones has no range, so where one would do, there must be something in front.
    pub fn detect(
        &self,
        ranges: &Frame,
        kinds: &[ZoneKind; 64],
        nearer_than: &[i64; 64],
        config: &Config,
    ) -> (r: Option<Hand>)
        requires
            config.min_zones > 0 || foreground_of(
                ranges@,
                kinds@,
                *config,
                limits(self.range@, nearer_than@),
                64,
            ).len() > 0,
        ensures
            ({
                let front = foreground_of(
                    ranges@,
                    kinds@,
                    *config,
                    limits(self.range@, nearer_than@),
                    64,
                );
                &&& r is Some <==> is_hand(front.len(), usable_zones(kinds@, 64), *config)
                &&& r matches Some(hand) ==> {
                    &&& hand.zones == front.len()
                    &&& rank::stands_at(ranges_of(front), front.len() / 5, hand.range)
                    &&& hand.hits@ == hits_of(front, kinds@)
                }
            }),
            ({
                let front = zones_in_front(
                    ranges@,
                    kinds@,
                    *config,
                    self.range@,
                    nearer_than@,
                );
                let playable = playable_zones(kinds@);
                &&& r is None <==> {
                    ||| front.len() < config.min_zones
                    ||| playable.len() > 0 && front.len() > config.most@[playable.len() as int]
                }
                &&& r matches Some(hand) ==> {
                    &&& hand.zones == front.len()
                    &&& exists|z: int|
                        #[trigger] front.contains(z) && ranges@[z] == Some(hand.range)
                    &&& forall|z: usize|
                        hand.hits@.contains(z) <==> front.contains(z as int)
                            && kinds@[z as int] == ZoneKind::Hit
                    &&& forall|i: int, j: int|
                        0 <= i < j < hand.hits@.len() ==> hand.hits@[i] < hand.hits@[j]
                }
            }),
    {
        proof {
            the_foreground_is_what_is_in_front(
                ranges@,
                kinds@,
                *config,
                self.range@,
                nearer_than@,
            );
        }
        let limit = self.limit(nearer_than);
        let front = foreground(ranges, kinds, &limit, config);
        if front.zones.len() < config.min_zones {
            return None;
        }
        if front.usable > 0 && front.zones.len() > config.most[front.usable] {
            return None;
        }
        let mut hits: Vec<usize> = Vec::new();
        let mut i: usize = 0;
        while i < front.zones.len()
            invariant
                i <= front.zones@.len(),
                front.zones@ == foreground_of(ranges@, kinds@, *config, limit@, 64),
                hits@ == hits_of(front.zones@.take(i as int), kinds@),
            decreases front.zones@.len() - i,
        {
            assert(front.zones@.take(i + 1).drop_last() == front.zones@.take(i as int));
            assert(front.zones@.take(i + 1).last() == front.zones@[i as int]);
            proof {
                only_playable_zones_are_foreground(
                    ranges@,
                    kinds@,
                    *config,
                    limit@,
                    64,
                    i as int,
                );
            }
            let zone = front.zones[i].0;
            if kinds[zone] == ZoneKind::Hit {
                hits.push(zone);
            }
            i = i + 1;
        }
        assert(front.zones@.take(i as int) == front.zones@);
        proof {
            the_hits_are_the_zones_in_front_with_a_point(
                ranges@,
                kinds@,
                *config,
                self.range@,
                nearer_than@,
            );
        }
        Some(Hand { range: hand_range(&front.zones), zones: front.zones.len(), hits })
    }

    /// Let the reference drift toward what the sensor sees, everywhere the hand may not be.
    /// `blended` is each zone's reference moved a little toward what is measured.
    pub fn relax(&mut self, ranges: &Frame, hand: bool, blended: &[i64; 64], config: &Config)
        ensures
            final(self).shape == old(self).shape,
            forall|i: int|
                0 <= i < 64 ==> #[trigger] final(self).range@[i] == relaxed(
                    old(self).range@[i],
                    ranges@[i],
                    blended@[i],
                    hand,
                    config.far,
                ),
    {
        let ghost before = self.range@;
        let mut i: usize = 0;
        while i < 64
            invariant
                i <= 64,
                self.shape == old(self).shape,
                before == old(self).range@,
                forall|j: int|
                    0 <= j < i ==> #[trigger] self.range@[j] == relaxed(
                        before[j],
                        ranges@[j],
                        blended@[j],
                        hand,
                        config.far,
                    ),
                forall|j: int| i <= j < 64 ==> #[trigger] self.range@[j] == before[j],
            decreases 64 - i,
        {
            match drift(ranges[i], self.range[i].is_some(), hand, config.far) {
                Drift::Keep => {},
                Drift::Blend => {
                    self.range[i] = Some(blended[i]);
                },
                Drift::Adopt => {
                    self.range[i] = ranges[i];
                },
            }
            i = i + 1;
        }
    }
}

/// One zone's reference after it was let drift.
pub open spec fn relaxed(
    reference: Option<i64>,
    measured: Option<i64>,
    blended: i64,
    hand: bool,
    far: i64,
) -> Option<i64> {
    match drifted(measured, reference is Some, hand, far) {
        Drift::Keep => reference,
        Drift::Blend => Some(blended),
        Drift::Adopt => measured,
    }
}

/// What becomes of one zone's reference when the background drifts.
#[derive(Debug, Clone, Copy, PartialEq, Eq, Structural)]
pub enum Drift {
    /// It stays.
    Keep,
    /// It moves a little toward what is measured.
    Blend,
    /// There was none: what is measured is it.
    Adopt,
}

/// What becomes of a reference: it drifts toward what the sensor sees everywhere the hand may
/// not be, and anything in the playable band while a hand is out there might be the hand.
pub open spec fn drifted(measured: Option<i64>, known: bool, hand: bool, far: i64) -> Drift {
    match measured {
        None => Drift::Keep,
        Some(m) => if hand && m <= far {
            Drift::Keep
        } else if known {
            Drift::Blend
        } else {
            Drift::Adopt
        },
    }
}

/// What becomes of one zone's reference.
pub fn drift(measured: Option<i64>, known: bool, hand: bool, far: i64) -> (r: Drift)
    ensures
        r == drifted(measured, known, hand, far),
{
    match measured {
        None => Drift::Keep,
        Some(m) => if hand && m <= far {
            Drift::Keep
        } else if known {
            Drift::Blend
        } else {
            Drift::Adopt
        },
    }
}

// ── what arming keeps ────────────────────────────────────────────────────────

proof fn sightings_of_two_windows(a: Seq<Frame>, b: Seq<Frame>, zone: int)
    ensures
        sightings(a + b, zone) == sightings(a, zone) + sightings(b, zone),
    decreases b.len(),
{
    if b.len() == 0 {
        assert(a + b == a);
    } else {
        sightings_of_two_windows(a, b.drop_last(), zone);
        assert((a + b).drop_last() == a + b.drop_last());
        assert((a + b).last() == b.last());
        assert(sightings(a + b, zone) =~= sightings(a, zone) + sightings(b, zone));
    }
}

proof fn sightings_with_one_more(rest: Seq<Frame>, i: int, frame: Frame, zone: int)
    requires
        0 <= i <= rest.len(),
    ensures
        sightings(rest.insert(i, frame), zone).to_multiset() == sightings(
            rest.push(frame),
            zone,
        ).to_multiset(),
{
    let (front, back) = (rest.take(i), rest.skip(i));
    let (f, m, b) = (
        sightings(front, zone),
        sightings(seq![frame], zone),
        sightings(back, zone),
    );
    assert(rest.insert(i, frame) == (front + seq![frame]) + back);
    assert(rest.push(frame) == (front + back) + seq![frame]);
    sightings_of_two_windows(front + seq![frame], back, zone);
    sightings_of_two_windows(front, seq![frame], zone);
    sightings_of_two_windows(front + back, seq![frame], zone);
    sightings_of_two_windows(front, back, zone);
    vstd::seq_lib::lemma_multiset_commutative(f + m, b);
    vstd::seq_lib::lemma_multiset_commutative(f, m);
    vstd::seq_lib::lemma_multiset_commutative(f + b, m);
    vstd::seq_lib::lemma_multiset_commutative(f, b);
    assert(((f + m) + b).to_multiset() =~= ((f + b) + m).to_multiset());
}

proof fn sightings_do_not_depend_on_order(a: Seq<Frame>, b: Seq<Frame>, zone: int)
    requires
        a.to_multiset() == b.to_multiset(),
    ensures
        sightings(a, zone).to_multiset() == sightings(b, zone).to_multiset(),
        a.len() == b.len(),
    decreases a.len(),
{
    broadcast use vstd::seq_lib::group_to_multiset_ensures;

    assert(a.len() == a.to_multiset().len() == b.to_multiset().len() == b.len());
    if a.len() == 0 {
        assert(a == b);
    } else {
        let frame = a.last();
        let i = rank::the_same_without_one(a, b);
        let rest = b.remove(i);
        sightings_do_not_depend_on_order(a.drop_last(), rest, zone);
        sightings_with_one_more(rest, i, frame, zone);
        assert(rest.push(frame).drop_last() == rest);
        let (x, y) = (sightings(a.drop_last(), zone), sightings(rest, zone));
        if let Some(r) = frame@[zone] {
            assert(x.push(r).to_multiset() == x.to_multiset().insert(r));
            assert(y.push(r).to_multiset() == y.to_multiset().insert(r));
        }
    }
}

proof fn what_was_sighted_was_measured(samples: Seq<Frame>, zone: int, r: i64)
    requires
        sightings(samples, zone).contains(r),
    ensures
        exists|f: int| 0 <= f < samples.len() && #[trigger] samples[f]@[zone] == Some(r),
    decreases samples.len(),
{
    if samples.len() > 0 {
        let rest = samples.drop_last();
        let seen = sightings(rest, zone);
        if samples.last()@[zone] == Some(r) {
            assert(samples[samples.len() - 1]@[zone] == Some(r));
        } else {
            let k = choose|k: int|
                0 <= k < sightings(samples, zone).len() && sightings(samples, zone)[k] == r;
            assert(seen[k] == r);
            what_was_sighted_was_measured(rest, zone, r);
            let f = choose|f: int| 0 <= f < rest.len() && #[trigger] rest[f]@[zone] == Some(r);
            assert(samples[f] == rest[f]);
        }
    }
}

/// A zone has a reference only if it was seen in more than half of the window, and the reference
/// is then the middle one of what was seen, in order: a range that was really measured there.
pub proof fn a_reference_is_the_middle_of_what_was_seen(
    samples: Seq<Frame>,
    zone: int,
    sorted: Seq<i64>,
)
    requires
        rank::in_order(sorted),
        sorted.to_multiset() == sightings(samples, zone).to_multiset(),
    ensures
        reference_of(samples, zone) == if 2 * sorted.len() > samples.len() {
            Some(sorted[sorted.len() as int / 2])
        } else {
            None
        },
        reference_of(samples, zone) matches Some(r) ==> exists|f: int|
            0 <= f < samples.len() && #[trigger] samples[f]@[zone] == Some(r),
{
    broadcast use vstd::seq_lib::group_to_multiset_ensures;

    let seen = sightings(samples, zone);
    assert(seen.len() == seen.to_multiset().len() == sorted.to_multiset().len() == sorted.len());
    if 2 * sorted.len() > samples.len() {
        let k = sorted.len() as int / 2;
        rank::sorting_finds_every_place(seen, sorted, k);
        what_was_sighted_was_measured(samples, zone, sorted[k]);
    }
}

proof fn sightings_counted(
    samples: Seq<Frame>,
    zone: int,
    seen: spec_fn(int) -> bool,
    r: i64,
    measured: spec_fn(int) -> bool,
    n: int,
)
    requires
        0 <= n <= samples.len(),
        forall|f: int| #[trigger] seen(f) <==> samples[f]@[zone] is Some,
        forall|f: int| #[trigger] measured(f) <==> samples[f]@[zone] == Some(r),
    ensures
        those_where(seen, n).finite(),
        those_where(measured, n).finite(),
        sightings(samples.take(n), zone).len() == those_where(seen, n).len(),
        sightings(samples.take(n), zone).to_multiset().count(r) == those_where(measured, n).len(),
    decreases n,
{
    broadcast use vstd::seq_lib::group_to_multiset_ensures;

    if n == 0 {
        assert(those_where(seen, 0) =~= Set::empty());
        assert(those_where(measured, 0) =~= Set::empty());
    } else {
        sightings_counted(samples, zone, seen, r, measured, n - 1);
        one_more(seen, n - 1);
        one_more(measured, n - 1);
        assert(samples.take(n).drop_last() == samples.take(n - 1));
        assert(samples.take(n).last() == samples[n - 1]);
        if let Some(v) = samples[n - 1]@[zone] {
            let before = sightings(samples.take(n - 1), zone);
            assert(before.push(v).to_multiset() == before.to_multiset().insert(v));
        }
    }
}

/// What was seen of a zone is what the frames of the window say: every range as often as frames
/// report it there. A zone has a reference exactly when more than half of the frames have a range
/// for it.
pub proof fn every_frame_of_the_window_counts_once(samples: Seq<Frame>, zone: int, r: i64)
    ensures
        sightings(samples, zone).to_multiset().count(r) == those_where(
            |f: int| samples[f]@[zone] == Some(r),
            samples.len() as int,
        ).len(),
        reference_of(samples, zone) is Some <==> 2 * those_where(
            |f: int| samples[f]@[zone] is Some,
            samples.len() as int,
        ).len() > samples.len(),
{
    let seen = |f: int| samples[f]@[zone] is Some;
    let measured = |f: int| samples[f]@[zone] == Some(r);
    sightings_counted(samples, zone, seen, r, measured, samples.len() as int);
    assert(samples.take(samples.len() as int) == samples);
}

/// Windows of the same frames have the same references, whatever order the frames came in.
pub proof fn the_order_of_the_frames_does_not_matter(a: Seq<Frame>, b: Seq<Frame>)
    requires
        a.to_multiset() == b.to_multiset(),
    ensures
        references(a) == references(b),
{
    broadcast use vstd::seq_lib::group_to_multiset_ensures;

    assert forall|zone: int| 0 <= zone < 64 implies #[trigger] references(a)[zone] == references(
        b,
    )[zone] by {
        let (x, y) = (sightings(a, zone), sightings(b, zone));
        sightings_do_not_depend_on_order(a, b, zone);
        assert(x.len() == x.to_multiset().len() == y.to_multiset().len() == y.len());
        if 2 * x.len() > a.len() {
            rank::a_place_does_not_depend_on_order(x, y, x.len() / 2);
        }
    }
    assert(references(a) =~= references(b));
}

// ── what the hand test keeps ─────────────────────────────────────────────────

/// A frame no nearer than the background less its margin is silent, wherever the background is:
/// the trunk's sway does not play, and neither does the wall the robot stands in front of.
pub proof fn the_background_itself_is_silent(
    ranges: Seq<Option<i64>>,
    kinds: Seq<ZoneKind>,
    config: Config,
    nearer_than: Seq<i64>,
    n: nat,
)
    requires
        forall|i: int|
            0 <= i < n ==> (#[trigger] ranges[i] matches Some(r) ==> r >= nearer_than[i]),
    ensures
        foreground_of(ranges, kinds, config, nearer_than, n).len() == 0,
    decreases n,
{
    if n > 0 {
        the_background_itself_is_silent(ranges, kinds, config, nearer_than, (n - 1) as nat);
        assert(ranges[n - 1] matches Some(r) ==> r >= nearer_than[n - 1]);
    }
}

/// The floor is never the hand, however near it reads, and neither is a return the sensor made
/// up; and no range outside the playable band is.
pub proof fn only_playable_zones_are_foreground(
    ranges: Seq<Option<i64>>,
    kinds: Seq<ZoneKind>,
    config: Config,
    nearer_than: Seq<i64>,
    n: nat,
    k: int,
)
    requires
        n <= 64,
        0 <= k < foreground_of(ranges, kinds, config, nearer_than, n).len(),
    ensures
        ({
            let (zone, range) = foreground_of(ranges, kinds, config, nearer_than, n)[k];
            &&& zone < n
            &&& usable(kinds[zone as int])
            &&& ranges[zone as int] == Some(range)
            &&& config.near <= range <= config.far
            &&& range < nearer_than[zone as int]
        }),
    decreases n,
{
    if n > 0 {
        let rest = foreground_of(ranges, kinds, config, nearer_than, (n - 1) as nat);
        if k < rest.len() {
            only_playable_zones_are_foreground(
                ranges,
                kinds,
                config,
                nearer_than,
                (n - 1) as nat,
                k,
            );
        }
    }
}

/// Nothing in front of the background is missed: a playable zone inside the band and nearer than
/// the background allows is among the foreground.
pub proof fn every_zone_in_front_is_foreground(
    ranges: Seq<Option<i64>>,
    kinds: Seq<ZoneKind>,
    config: Config,
    nearer_than: Seq<i64>,
    n: nat,
    zone: int,
)
    requires
        n <= 64,
        0 <= zone < n,
        is_foreground(ranges[zone], kinds[zone], config, nearer_than[zone]),
    ensures
        exists|k: int|
            0 <= k < foreground_of(ranges, kinds, config, nearer_than, n).len()
                && #[trigger] foreground_of(ranges, kinds, config, nearer_than, n)[k] == (
                zone as usize,
                ranges[zone]->0,
            ),
    decreases n,
{
    let front = foreground_of(ranges, kinds, config, nearer_than, n);
    let rest = foreground_of(ranges, kinds, config, nearer_than, (n - 1) as nat);
    if zone == n - 1 {
        assert(front[front.len() - 1] == (zone as usize, ranges[zone]->0));
    } else {
        every_zone_in_front_is_foreground(
            ranges,
            kinds,
            config,
            nearer_than,
            (n - 1) as nat,
            zone,
        );
        let k = choose|k: int|
            0 <= k < rest.len() && #[trigger] rest[k] == (zone as usize, ranges[zone]->0);
        assert(front[k] == rest[k]);
    }
}

/// The foreground lists its zones in order, each of them once.
pub proof fn the_foreground_is_in_order(
    ranges: Seq<Option<i64>>,
    kinds: Seq<ZoneKind>,
    config: Config,
    nearer_than: Seq<i64>,
    n: nat,
    i: int,
    j: int,
)
    requires
        n <= 64,
        0 <= i < j < foreground_of(ranges, kinds, config, nearer_than, n).len(),
    ensures
        foreground_of(ranges, kinds, config, nearer_than, n)[i].0 < foreground_of(
            ranges,
            kinds,
            config,
            nearer_than,
            n,
        )[j].0,
    decreases n,
{
    if n > 0 {
        let before = (n - 1) as nat;
        let rest = foreground_of(ranges, kinds, config, nearer_than, before);
        if j < rest.len() {
            the_foreground_is_in_order(ranges, kinds, config, nearer_than, before, i, j);
        } else {
            only_playable_zones_are_foreground(ranges, kinds, config, nearer_than, before, i);
        }
    }
}

proof fn one_more(p: spec_fn(int) -> bool, n: int)
    requires
        n >= 0,
        those_where(p, n).finite(),
    ensures
        those_where(p, n + 1).finite(),
        those_where(p, n + 1).len() == those_where(p, n).len() + if p(n) {
            1nat
        } else {
            0nat
        },
{
    if p(n) {
        assert(those_where(p, n + 1) =~= those_where(p, n).insert(n));
    } else {
        assert(those_where(p, n + 1) =~= those_where(p, n));
    }
}

/// Counting the zones that have a range counts each of them once.
pub proof fn every_zone_with_a_range_is_counted(frame: Seq<Option<i64>>)
    ensures
        zones_with_a_range(frame).finite(),
        seen_zones(frame, 64) == zones_with_a_range(frame).len(),
{
    let p = |z: int| frame[z] is Some;
    seen_in(frame, p, 64);
}

proof fn seen_in(frame: Seq<Option<i64>>, p: spec_fn(int) -> bool, n: nat)
    requires
        forall|z: int| #[trigger] p(z) <==> frame[z] is Some,
    ensures
        those_where(p, n as int).finite(),
        seen_zones(frame, n) == those_where(p, n as int).len(),
    decreases n,
{
    if n == 0 {
        assert(those_where(p, 0) =~= Set::empty());
    } else {
        seen_in(frame, p, (n - 1) as nat);
        one_more(p, n - 1);
    }
}

/// Counting the zones that can be played counts each of them once.
pub proof fn every_playable_zone_is_counted(kinds: Seq<ZoneKind>)
    ensures
        playable_zones(kinds).finite(),
        usable_zones(kinds, 64) == playable_zones(kinds).len(),
{
    let p = |z: int| kinds[z] != ZoneKind::Floor && kinds[z] != ZoneKind::TooClose;
    playable_in(kinds, p, 64);
}

proof fn playable_in(kinds: Seq<ZoneKind>, p: spec_fn(int) -> bool, n: nat)
    requires
        forall|z: int|
            #[trigger] p(z) <==> kinds[z] != ZoneKind::Floor && kinds[z] != ZoneKind::TooClose,
    ensures
        those_where(p, n as int).finite(),
        usable_zones(kinds, n) == those_where(p, n as int).len(),
    decreases n,
{
    if n == 0 {
        assert(those_where(p, 0) =~= Set::empty());
    } else {
        playable_in(kinds, p, (n - 1) as nat);
        one_more(p, n - 1);
    }
}

proof fn foreground_in(
    ranges: Seq<Option<i64>>,
    kinds: Seq<ZoneKind>,
    config: Config,
    limit: Seq<i64>,
    p: spec_fn(int) -> bool,
    n: nat,
)
    requires
        n <= 64,
        forall|z: int|
            0 <= z < 64 ==> (#[trigger] p(z) <==> is_foreground(
                ranges[z],
                kinds[z],
                config,
                limit[z],
            )),
    ensures
        those_where(p, n as int).finite(),
        foreground_of(ranges, kinds, config, limit, n).len() == those_where(p, n as int).len(),
        forall|z: int|
            #[trigger] those_where(p, n as int).contains(z) ==> foreground_of(
                ranges,
                kinds,
                config,
                limit,
                n,
            ).contains((z as usize, ranges[z]->0)),
    decreases n,
{
    if n == 0 {
        assert(those_where(p, 0) =~= Set::empty());
    } else {
        foreground_in(ranges, kinds, config, limit, p, (n - 1) as nat);
        one_more(p, n - 1);
        assert forall|z: int| #[trigger]
            those_where(p, n as int).contains(z) implies foreground_of(
            ranges,
            kinds,
            config,
            limit,
            n,
        ).contains((z as usize, ranges[z]->0)) by {
            every_zone_in_front_is_foreground(ranges, kinds, config, limit, n, z);
        }
    }
}

/// The foreground of a frame is the zones in front of the background, each once and with its own
/// range.
pub proof fn the_foreground_is_what_is_in_front(
    ranges: Seq<Option<i64>>,
    kinds: Seq<ZoneKind>,
    config: Config,
    background: Seq<Option<i64>>,
    nearer_than: Seq<i64>,
)
    ensures
        ({
            let listed = foreground_of(ranges, kinds, config, limits(background, nearer_than), 64);
            let front = zones_in_front(ranges, kinds, config, background, nearer_than);
            &&& front.finite()
            &&& listed.len() == front.len()
            &&& forall|k: int|
                0 <= k < listed.len() ==> front.contains((#[trigger] listed[k]).0 as int)
                    && ranges[listed[k].0 as int] == Some(listed[k].1)
            &&& forall|z: int| #[trigger]
                front.contains(z) ==> listed.contains((z as usize, ranges[z]->0))
            &&& forall|i: int, j: int|
                0 <= i < j < listed.len() ==> (#[trigger] listed[i]).0 < (#[trigger] listed[j]).0
        }),
        usable_zones(kinds, 64) == playable_zones(kinds).len(),
{
    let limit = limits(background, nearer_than);
    let listed = foreground_of(ranges, kinds, config, limit, 64);
    let front = zones_in_front(ranges, kinds, config, background, nearer_than);
    let p = |z: int| is_foreground(ranges[z], kinds[z], config, limit[z]);
    foreground_in(ranges, kinds, config, limit, p, 64);
    assert(front =~= those_where(p, 64));
    every_playable_zone_is_counted(kinds);
    assert forall|k: int| 0 <= k < listed.len() implies front.contains(
        (#[trigger] listed[k]).0 as int,
    ) && ranges[listed[k].0 as int] == Some(listed[k].1) by {
        only_playable_zones_are_foreground(ranges, kinds, config, limit, 64, k);
    }
    assert forall|i: int, j: int| 0 <= i < j < listed.len() implies (#[trigger] listed[i]).0 < (
    #[trigger] listed[j]).0 by {
        the_foreground_is_in_order(ranges, kinds, config, limit, 64, i, j);
    }
}

/// A hand covers neither too little nor too much: with fewer zones in front than
/// `config.min_zones` there is none, nor with more than `config.most` allows for the zones that
/// can be played, and otherwise there is one.
pub proof fn a_hand_is_neither_too_small_nor_too_large(
    ranges: Seq<Option<i64>>,
    kinds: Seq<ZoneKind>,
    config: Config,
    background: Seq<Option<i64>>,
    nearer_than: Seq<i64>,
)
    ensures
        ({
            let front = zones_in_front(ranges, kinds, config, background, nearer_than).len();
            let playable = playable_zones(kinds).len();
            let hand = is_hand(
                foreground_of(ranges, kinds, config, limits(background, nearer_than), 64).len(),
                usable_zones(kinds, 64),
                config,
            );
            &&& front < config.min_zones ==> !hand
            &&& playable > 0 && front > config.most@[playable as int] ==> !hand
            &&& front >= config.min_zones && (playable == 0 || front
                <= config.most@[playable as int]) ==> hand
        }),
{
    the_foreground_is_what_is_in_front(ranges, kinds, config, background, nearer_than);
}

proof fn hits_among(zones: Seq<(usize, i64)>, kinds: Seq<ZoneKind>)
    requires
        forall|i: int, j: int|
            0 <= i < j < zones.len() ==> (#[trigger] zones[i]).0 < (#[trigger] zones[j]).0,
    ensures
        forall|z: usize| #[trigger]
            hits_of(zones, kinds).contains(z) <==> kinds[z as int] == ZoneKind::Hit && exists|k: int|
                0 <= k < zones.len() && (#[trigger] zones[k]).0 == z,
        forall|i: int, j: int|
            0 <= i < j < hits_of(zones, kinds).len() ==> hits_of(zones, kinds)[i] < hits_of(
                zones,
                kinds,
            )[j],
    decreases zones.len(),
{
    if zones.len() > 0 {
        let rest = zones.drop_last();
        let before = hits_of(rest, kinds);
        let all = hits_of(zones, kinds);
        let last = zones.last().0;
        hits_among(rest, kinds);
        assert forall|z: usize| #[trigger] all.contains(z) <==> kinds[z as int] == ZoneKind::Hit
            && exists|k: int| 0 <= k < zones.len() && (#[trigger] zones[k]).0 == z by {
            if all.contains(z) {
                let i = choose|i: int| 0 <= i < all.len() && all[i] == z;
                if i < before.len() {
                    assert(before[i] == z);
                    assert(before.contains(z));
                    let k = choose|k: int| 0 <= k < rest.len() && (#[trigger] rest[k]).0 == z;
                    assert(zones[k].0 == z);
                } else {
                    assert(zones[zones.len() - 1].0 == z);
                }
            }
            if kinds[z as int] == ZoneKind::Hit && exists|k: int|
                0 <= k < zones.len() && (#[trigger] zones[k]).0 == z {
                let k = choose|k: int| 0 <= k < zones.len() && (#[trigger] zones[k]).0 == z;
                if k < rest.len() {
                    assert(rest[k].0 == z);
                    assert(before.contains(z));
                    let i = choose|i: int| 0 <= i < before.len() && before[i] == z;
                    assert(all[i] == z);
                } else {
                    assert(all[before.len() as int] == z);
                }
            }
        }
        assert forall|i: int, j: int| 0 <= i < j < all.len() implies all[i] < all[j] by {
            if j == before.len() {
                assert(before.contains(all[i]));
                let k = choose|k: int| 0 <= k < rest.len() && (#[trigger] rest[k]).0 == all[i];
                assert(zones[k].0 < zones[zones.len() - 1].0);
            }
        }
    }
}

/// The hits of a foreground are the zones in front whose return has a point in space, in order.
pub proof fn the_hits_are_the_zones_in_front_with_a_point(
    ranges: Seq<Option<i64>>,
    kinds: Seq<ZoneKind>,
    config: Config,
    background: Seq<Option<i64>>,
    nearer_than: Seq<i64>,
)
    ensures
        ({
            let hits = hits_of(
                foreground_of(ranges, kinds, config, limits(background, nearer_than), 64),
                kinds,
            );
            &&& forall|z: usize| #[trigger]
                hits.contains(z) <==> zones_in_front(
                    ranges,
                    kinds,
                    config,
                    background,
                    nearer_than,
                ).contains(z as int) && kinds[z as int] == ZoneKind::Hit
            &&& forall|i: int, j: int| 0 <= i < j < hits.len() ==> hits[i] < hits[j]
        }),
{
    let listed = foreground_of(ranges, kinds, config, limits(background, nearer_than), 64);
    let front = zones_in_front(ranges, kinds, config, background, nearer_than);
    the_foreground_is_what_is_in_front(ranges, kinds, config, background, nearer_than);
    hits_among(listed, kinds);
    let hits = hits_of(listed, kinds);
    assert forall|z: usize| #[trigger] hits.contains(z) <==> front.contains(z as int)
        && kinds[z as int] == ZoneKind::Hit by {
        if front.contains(z as int) {
            assert(listed.contains((z, ranges[z as int]->0)));
            let k = choose|k: int| 0 <= k < listed.len() && listed[k] == (z, ranges[z as int]->0);
            assert(listed[k].0 == z);
        }
    }
}

/// With nothing behind it, a frame looks like a hand exactly when the zones it has inside the
/// playable band are enough and not more than may be one.
pub proof fn looking_like_a_hand_is_a_count(ranges: Seq<Option<i64>>, config: Config)
    ensures
        ({
            let band = zones_in_band(ranges, config).len();
            hand_shaped(ranges, config) <==> config.min_zones <= band <= config.most@[64]
        }),
        bare_foreground(ranges, config).len() == zones_in_band(ranges, config).len(),
        zones_in_band(ranges, config).finite(),
{
    let bare = Seq::new(64, |i: int| None::<i64>);
    let kinds = all_empty();
    assert(limits(bare, nothing_behind()) =~= nothing_behind());
    the_foreground_is_what_is_in_front(ranges, kinds, config, bare, nothing_behind());
    assert(zones_in_front(ranges, kinds, config, bare, nothing_behind()) =~= zones_in_band(
        ranges,
        config,
    ));
    assert(playable_zones(kinds) =~= vstd::set_lib::set_int_range(0, 64));
    vstd::set_lib::lemma_int_range(0, 64);
}

/// A wall is a plane, and nothing else: one beyond the playable band however little of it is
/// seen, or one near enough to play that covers the zones a wall must.
pub proof fn only_a_plane_is_a_wall(shape: Shape, seen: nat, config: Config)
    ensures
        is_wall(shape, seen, config) ==> shape is Plane,
        shape is Plane && shape->distance > config.far ==> is_wall(shape, seen, config),
        shape is Plane && shape->distance <= config.far ==> (is_wall(shape, seen, config) <==> seen
            >= config.wall_zones),
{
}

/// A reference changes only where something was measured that cannot be the hand, and then it
/// moves to what was blended for it, or is what was measured if there was none.
pub proof fn a_reference_moves_only_to_what_is_measured(
    reference: Option<i64>,
    measured: Option<i64>,
    blended: i64,
    hand: bool,
    far: i64,
)
    ensures
        ({
            let after = relaxed(reference, measured, blended, hand, far);
            &&& measured is None ==> after == reference
            &&& measured matches Some(m) ==> {
                &&& hand && m <= far ==> after == reference
                &&& (!hand || m > far) && reference is Some ==> after == Some(blended)
                &&& (!hand || m > far) && reference is None ==> after == Some(m)
            }
        }),
{
}

/// A hand held still does not become the background: while one is out nothing in the playable
/// band moves a reference. Without one every measurement does.
pub proof fn the_reference_drifts_to_the_room_but_not_to_the_hand(
    measured: i64,
    known: bool,
    far: i64,
)
    ensures
        measured <= far ==> drifted(Some(measured), known, true, far) == Drift::Keep,
        drifted(Some(measured), known, false, far) != Drift::Keep,
{
}

/// The two refusals are told apart, and only the one that can be mended by moving something asks
/// for that.
pub proof fn each_refusal_has_its_sentence(a: Refusal, b: Refusal)
    ensures
        a.sentence() == b.sentence() <==> a == b,
        a == Refusal::NoReturns <==> a.sentence()[0] == 't',
{
    reveal_strlit("the depth sensor is not seeing anything to play against");
    reveal_strlit("something is right in front of the beak — move it away and arm again");
    assert("the depth sensor is not seeing anything to play against"@[0] == 't');
    assert("something is right in front of the beak — move it away and arm again"@[0] == 's');
}

/// Nothing is farther than what is infinitely far, so a zone where nothing was ever seen allows
/// every finite range.
pub proof fn nothing_is_farther(bits: u64)
    requires
        rank::is_number(bits),
    ensures
        rank::key_of(bits) <= INFINITELY_FAR,
        rank::key_of(bits) == INFINITELY_FAR <==> bits == 0x7ff0_0000_0000_0000,
        ROWS * COLS == ZONES,
        ZONES == 64,
{
}

/// The range of a hand is the one a fifth of the way up its zones' ranges put in order, so that a
/// flier in front does not decide it: whatever sorting is used finds the same.
pub proof fn a_hand_is_as_near_as_its_fifth(zones: Seq<(usize, i64)>, sorted: Seq<i64>, range: i64)
    requires
        zones.len() > 0,
        rank::in_order(sorted),
        sorted.to_multiset() == ranges_of(zones).to_multiset(),
        rank::stands_at(ranges_of(zones), zones.len() / 5, range),
    ensures
        range == sorted[zones.len() as int / 5],
        exists|k: int| 0 <= k < zones.len() && (#[trigger] zones[k]).1 == range,
{
    broadcast use vstd::seq_lib::group_to_multiset_ensures;

    let s = ranges_of(zones);
    let k = zones.len() as int / 5;
    assert(s.len() == s.to_multiset().len() == sorted.to_multiset().len() == sorted.len());
    rank::sorting_finds_every_place(s, sorted, k);
    rank::one_number_stands_at_a_place(s, k as nat, range, rank::at(s, k as nat));
    let i = choose|i: int| 0 <= i < s.len() && s[i] == range;
    assert(zones[i].1 == range);
}

} // verus!
