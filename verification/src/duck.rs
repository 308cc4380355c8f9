//! The baked model of the robot.
//!
//! The blob is little-endian: `DUCK`, a format version, three counts, then every mesh, every
//! body and every placed part. Coordinates stay the bit patterns of their floats: nothing here
//! computes with them.
use vstd::prelude::*;
use vstd::slice::slice_subrange;

use crate::framing;

verus! {

/// Bumped in lockstep with the bake. A blob from another era must refuse to parse.
pub const FORMAT_VERSION: u32 = 1;

/// Joints a body may name.
pub const JOINTS: i16 = 15;

/// Three floats, by their bits.
#[derive(Debug, Clone, Copy, PartialEq, Eq, Structural)]
pub struct Vec3 {
    pub x: u32,
    pub y: u32,
    pub z: u32,
}

/// A quaternion, by the bits of its floats.
#[derive(Debug, Clone, Copy, PartialEq, Eq, Structural)]
pub struct Quat {
    pub w: u32,
    pub x: u32,
    pub y: u32,
    pub z: u32,
}

/// One triangle: three indices into its mesh's vertices.
#[derive(Debug, Clone, Copy, PartialEq, Eq, Structural)]
pub struct Triangle {
    pub a: u16,
    pub b: u16,
    pub c: u16,
}

/// A colour.
#[derive(Debug, Clone, Copy, PartialEq, Eq, Structural)]
pub struct Rgb {
    pub r: u8,
    pub g: u8,
    pub b: u8,
}

/// One triangle mesh, shared by every part that instances it.
#[derive(Debug)]
pub struct Mesh {
    pub verts: Vec<Vec3>,
    pub tris: Vec<Triangle>,
}

/// One rigid body of the kinematic tree, parents before children.
#[derive(Debug, Clone, Copy, PartialEq, Eq, Structural)]
pub struct Body {
    /// Index into the body list, `-1` for the trunk.
    pub parent: i16,
    /// Index into the measured joints, negative where the body has no hinge.
    pub joint: i16,
    pub pos: Vec3,
    pub quat: Quat,
    pub axis: Vec3,
}

/// One placed mesh: a body, a mesh, a colour and a fixed offset within the body.
#[derive(Debug, Clone, Copy, PartialEq, Eq, Structural)]
pub struct Part {
    pub body: u16,
    pub mesh: u16,
    pub rgb: Rgb,
    pub pos: Vec3,
    pub quat: Quat,
}

/// The whole robot.
#[derive(Debug)]
pub struct Model {
    pub meshes: Vec<Mesh>,
    pub bodies: Vec<Body>,
    pub parts: Vec<Part>,
}

// ── the layout of a blob ─────────────────────────────────────────────────────

/// The little-endian 16-bit number at `at`.
pub open spec fn le16(d: Seq<u8>, at: int) -> int {
    d[at] + 256 * d[at + 1]
}

/// The little-endian 32-bit number at `at`.
pub open spec fn le32(d: Seq<u8>, at: int) -> int {
    d[at] + 256 * d[at + 1] + 65536 * d[at + 2] + 16777216 * d[at + 3]
}

/// The little-endian two's complement 16-bit number at `at`.
pub open spec fn le_i16(d: Seq<u8>, at: int) -> int {
    if le16(d, at) < 32768 {
        le16(d, at)
    } else {
        le16(d, at) - 65536
    }
}

/// Three floats from `at`.
pub open spec fn vec3_at(d: Seq<u8>, at: int) -> Vec3 {
    Vec3 { x: le32(d, at) as u32, y: le32(d, at + 4) as u32, z: le32(d, at + 8) as u32 }
}

/// Four floats from `at`.
pub open spec fn quat_at(d: Seq<u8>, at: int) -> Quat {
    Quat {
        w: le32(d, at) as u32,
        x: le32(d, at + 4) as u32,
        y: le32(d, at + 8) as u32,
        z: le32(d, at + 12) as u32,
    }
}

/// Three 16-bit indices from `at`.
pub open spec fn triangle_at(d: Seq<u8>, at: int) -> Triangle {
    Triangle { a: le16(d, at) as u16, b: le16(d, at + 2) as u16, c: le16(d, at + 4) as u16 }
}

/// The vertices of the mesh at `at`.
pub open spec fn verts_at(d: Seq<u8>, at: int) -> Seq<Vec3> {
    Seq::new(le16(d, at) as nat, |k: int| vec3_at(d, at + 4 + 12 * k))
}

/// The triangles of the mesh at `at`, which follow its vertices.
pub open spec fn tris_at(d: Seq<u8>, at: int) -> Seq<Triangle> {
    Seq::new(
        le16(d, at + 2) as nat,
        |k: int| triangle_at(d, at + 4 + 12 * le16(d, at) + 6 * k),
    )
}

/// Where the mesh at `at` ends.
pub open spec fn mesh_end(d: Seq<u8>, at: int) -> int {
    at + 4 + 12 * le16(d, at) + 6 * le16(d, at + 2)
}

/// Is the mesh at `at` whole?
pub open spec fn mesh_fits(d: Seq<u8>, at: int) -> bool {
    at + 4 <= d.len() && mesh_end(d, at) <= d.len()
}

/// Where the mesh numbered `i` starts, or where the bodies do after the last one.
pub open spec fn mesh_start(d: Seq<u8>, i: nat) -> int
    decreases i,
{
    if i == 0 {
        14
    } else {
        mesh_end(d, mesh_start(d, (i - 1) as nat))
    }
}

/// The body at `at`.
pub open spec fn body_at(d: Seq<u8>, at: int) -> Body {
    Body {
        parent: le_i16(d, at) as i16,
        joint: le_i16(d, at + 2) as i16,
        pos: vec3_at(d, at + 4),
        quat: quat_at(d, at + 16),
        axis: vec3_at(d, at + 32),
    }
}

/// The part at `at`. The byte after its colour is padding.
pub open spec fn part_at(d: Seq<u8>, at: int) -> Part {
    Part {
        body: le16(d, at) as u16,
        mesh: le16(d, at + 2) as u16,
        rgb: Rgb { r: d[at + 4], g: d[at + 5], b: d[at + 6] },
        pos: vec3_at(d, at + 8),
        quat: quat_at(d, at + 20),
    }
}

pub open spec fn mesh_count(d: Seq<u8>) -> nat {
    le16(d, 8) as nat
}

pub open spec fn body_count(d: Seq<u8>) -> nat {
    le16(d, 10) as nat
}

pub open spec fn part_count(d: Seq<u8>) -> nat {
    le16(d, 12) as nat
}

/// Where the bodies start.
pub open spec fn bodies_start(d: Seq<u8>) -> int {
    mesh_start(d, mesh_count(d))
}

/// Where the parts start.
pub open spec fn parts_start(d: Seq<u8>) -> int {
    bodies_start(d) + 44 * body_count(d)
}

/// Does the blob carry the right magic and version, and all that its counts promise?
pub open spec fn is_whole(d: Seq<u8>) -> bool {
    &&& d.len() >= 14
    &&& d[0] == 68 && d[1] == 85 && d[2] == 67 && d[3] == 75
    &&& le32(d, 4) == FORMAT_VERSION
    &&& forall|i: nat| i < mesh_count(d) ==> mesh_fits(d, #[trigger] mesh_start(d, i))
    &&& parts_start(d) + 36 * part_count(d) <= d.len()
}

pub open spec fn blob_meshes(d: Seq<u8>) -> Seq<(Seq<Vec3>, Seq<Triangle>)> {
    Seq::new(
        mesh_count(d),
        |i: int| (verts_at(d, mesh_start(d, i as nat)), tris_at(d, mesh_start(d, i as nat))),
    )
}

pub open spec fn blob_bodies(d: Seq<u8>) -> Seq<Body> {
    Seq::new(body_count(d), |i: int| body_at(d, bodies_start(d) + 44 * i))
}

pub open spec fn blob_parts(d: Seq<u8>) -> Seq<Part> {
    Seq::new(part_count(d), |i: int| part_at(d, parts_start(d) + 36 * i))
}

/// Every body's parent precedes it, or is none at all, and its joint is one there is.
pub open spec fn bodies_sound(bodies: Seq<Body>) -> bool {
    forall|i: int|
        0 <= i < bodies.len() ==> -1 <= (#[trigger] bodies[i]).parent < i && bodies[i].joint
            < JOINTS
}

/// The body reached from body `i` by going up `steps` times; -1 where the tree has ended.
pub open spec fn ancestor(bodies: Seq<Body>, i: int, steps: nat) -> int
    decreases steps,
{
    if steps == 0 || i < 0 {
        i
    } else {
        ancestor(bodies, bodies[i].parent as int, (steps - 1) as nat)
    }
}

/// The bodies form a forest: going up from any of them comes to an end, and never goes round.
pub proof fn going_up_comes_to_an_end(bodies: Seq<Body>, i: int, steps: nat)
    requires
        bodies_sound(bodies),
        -1 <= i < bodies.len(),
        steps > i,
    ensures
        ancestor(bodies, i, steps) == -1,
    decreases steps,
{
    if i >= 0 {
        assert(-1 <= bodies[i].parent < i);
        going_up_comes_to_an_end(bodies, bodies[i].parent as int, (steps - 1) as nat);
    }
}

/// Every corner is a vertex.
pub open spec fn tris_sound(tris: Seq<Triangle>, n_verts: nat) -> bool {
    forall|k: int|
        0 <= k < tris.len() ==> (#[trigger] tris[k]).a < n_verts && tris[k].b < n_verts
            && tris[k].c < n_verts
}

/// Every part names a body and a mesh there are, and that mesh's corners are its vertices.
pub open spec fn parts_sound(
    parts: Seq<Part>,
    n_bodies: nat,
    meshes: Seq<(Seq<Vec3>, Seq<Triangle>)>,
) -> bool {
    forall|i: int|
        0 <= i < parts.len() ==> (#[trigger] parts[i]).body < n_bodies && parts[i].mesh
            < meshes.len() && tris_sound(
            meshes[parts[i].mesh as int].1,
            meshes[parts[i].mesh as int].0.len(),
        )
}

impl Mesh {
    pub open spec fn view(&self) -> (Seq<Vec3>, Seq<Triangle>) {
        (self.verts@, self.tris@)
    }
}

/// What each mesh holds.
pub open spec fn mesh_views(meshes: Seq<Mesh>) -> Seq<(Seq<Vec3>, Seq<Triangle>)> {
    meshes.map_values(|m: Mesh| m.view())
}

impl Model {
    /// Nothing in the model indexes outside it.
    pub open spec fn sound(&self) -> bool {
        &&& bodies_sound(self.bodies@)
        &&& parts_sound(self.parts@, self.bodies@.len(), mesh_views(self.meshes@))
    }
}

/// How many vertices the first `n` parts have, laid end to end: where the next one starts.
pub open spec fn verts_before(
    parts: Seq<Part>,
    meshes: Seq<(Seq<Vec3>, Seq<Triangle>)>,
    n: nat,
) -> nat
    decreases n,
{
    if n == 0 {
        0
    } else {
        verts_before(parts, meshes, (n - 1) as nat) + meshes[parts[n - 1].mesh as int].0.len()
    }
}

proof fn parts_lie_end_to_end(
    parts: Seq<Part>,
    meshes: Seq<(Seq<Vec3>, Seq<Triangle>)>,
    i: nat,
    j: nat,
)
    requires
        i <= j,
    ensures
        verts_before(parts, meshes, i) <= verts_before(parts, meshes, j),
    decreases j,
{
    if i < j {
        parts_lie_end_to_end(parts, meshes, i, (j - 1) as nat);
    }
}

/// Drawing a sound model never leaves it: with the vertices of all parts laid end to end, every
/// corner of every triangle of every part is one of them, and every part hangs on a body whose
/// pose is known, because its parent's was found before it.
pub proof fn drawing_stays_inside_the_model(model: Model, part: int, tri: int)
    requires
        model.sound(),
        0 <= part < model.parts@.len(),
        0 <= tri < model.meshes@[model.parts@[part].mesh as int].tris@.len(),
    ensures
        ({
            let meshes = mesh_views(model.meshes@);
            let start = verts_before(model.parts@, meshes, part as nat);
            let all = verts_before(model.parts@, meshes, model.parts@.len());
            let corners = model.meshes@[model.parts@[part].mesh as int].tris@[tri];
            &&& start + corners.a < all
            &&& start + corners.b < all
            &&& start + corners.c < all
            &&& model.parts@[part].body < model.bodies@.len()
            &&& model.bodies@[model.parts@[part].body as int].parent < model.parts@[part].body
        }),
{
    let meshes = mesh_views(model.meshes@);
    let mesh = model.parts@[part].mesh as int;
    assert(meshes[mesh] == model.meshes@[mesh].view());
    assert(tris_sound(meshes[mesh].1, meshes[mesh].0.len()));
    parts_lie_end_to_end(model.parts@, meshes, (part + 1) as nat, model.parts@.len());
    assert(bodies_sound(model.bodies@));
}

/// The numbers in a blob fit the types that hold them.
pub proof fn numbers_fit(d: Seq<u8>, at: int)
    ensures
        0 <= le16(d, at) <= 0xffff,
        0 <= le32(d, at) <= 0xffff_ffff,
        -32768 <= le_i16(d, at) <= 32767,
{
}

/// Meshes lie one after the other.
pub proof fn mesh_starts_grow(d: Seq<u8>, i: nat, j: nat)
    requires
        i <= j,
    ensures
        14 <= mesh_start(d, i) <= mesh_start(d, j),
    decreases j,
{
    if j == 0 {
    } else {
        let last = mesh_start(d, (j - 1) as nat);
        numbers_fit(d, last);
        numbers_fit(d, last + 2);
        if i < j {
            mesh_starts_grow(d, i, (j - 1) as nat);
        } else {
            mesh_starts_grow(d, 0, (j - 1) as nat);
        }
    }
}

// ── reading ──────────────────────────────────────────────────────────────────

/// A little-endian cursor over the blob. Every read is checked.
pub struct Reader<'a> {
    pub data: &'a [u8],
    pub at: usize,
}

impl<'a> Reader<'a> {
    /// The cursor is inside the data.
    pub open spec fn wf(&self) -> bool {
        self.at <= self.data@.len()
    }

    /// The next `n` bytes, if there are so many.
    pub fn take(&mut self, n: usize) -> (r: Option<&'a [u8]>)
        requires
            old(self).wf(),
        ensures
            final(self).wf(),
            final(self).data == old(self).data,
            r is Some <==> old(self).at + n <= old(self).data@.len(),
            r is Some ==> r->0@ == old(self).data@.subrange(
                old(self).at as int,
                old(self).at + n,
            ) && final(self).at == old(self).at + n,
            r is None ==> final(self).at == old(self).at,
    {
        if n > self.data.len() - self.at {
            return None;
        }
        let bytes = slice_subrange(self.data, self.at, self.at + n);
        self.at = self.at + n;
        Some(bytes)
    }

    /// A 16-bit number.
    pub fn u16(&mut self) -> (r: Option<u16>)
        requires
            old(self).wf(),
        ensures
            final(self).wf(),
            final(self).data == old(self).data,
            r is Some <==> old(self).at + 2 <= old(self).data@.len(),
            r is Some ==> r->0 == le16(old(self).data@, old(self).at as int) && final(self).at
                == old(self).at + 2,
            r is None ==> final(self).at == old(self).at,
    {
        match self.take(2) {
            Some(b) => Some(b[0] as u16 + 256 * (b[1] as u16)),
            None => None,
        }
    }

    /// A signed 16-bit number.
    pub fn i16(&mut self) -> (r: Option<i16>)
        requires
            old(self).wf(),
        ensures
            final(self).wf(),
            final(self).data == old(self).data,
            r is Some <==> old(self).at + 2 <= old(self).data@.len(),
            r is Some ==> r->0 == le_i16(old(self).data@, old(self).at as int) && final(self).at
                == old(self).at + 2,
            r is None ==> final(self).at == old(self).at,
    {
        match self.u16() {
            Some(n) => if n < 32768 {
                Some(n as i16)
            } else {
                Some((n as i32 - 65536) as i16)
            },
            None => None,
        }
    }

    /// A 32-bit number.
    pub fn u32(&mut self) -> (r: Option<u32>)
        requires
            old(self).wf(),
        ensures
            final(self).wf(),
            final(self).data == old(self).data,
            r is Some <==> old(self).at + 4 <= old(self).data@.len(),
            r is Some ==> r->0 == le32(old(self).data@, old(self).at as int) && final(self).at
                == old(self).at + 4,
            r is None ==> final(self).at == old(self).at,
    {
        match self.take(4) {
            Some(b) => Some(
                b[0] as u32 + 256 * (b[1] as u32) + 65536 * (b[2] as u32) + 16777216 * (b[3] as u32),
            ),
            None => None,
        }
    }

    /// A float, by its bits.
    pub fn float(&mut self) -> (r: Option<u32>)
        requires
            old(self).wf(),
        ensures
            final(self).wf(),
            final(self).data == old(self).data,
            r is Some <==> old(self).at + 4 <= old(self).data@.len(),
            r is Some ==> r->0 == le32(old(self).data@, old(self).at as int) && final(self).at
                == old(self).at + 4,
            r is None ==> final(self).at == old(self).at,
    {
        self.u32()
    }

    /// Three floats.
    pub fn vec3(&mut self) -> (r: Option<Vec3>)
        requires
            old(self).wf(),
        ensures
            final(self).wf(),
            final(self).data == old(self).data,
            r is Some <==> old(self).at + 12 <= old(self).data@.len(),
            r is Some ==> r->0 == vec3_at(old(self).data@, old(self).at as int)
                && final(self).at == old(self).at + 12,
    {
        let x = self.float()?;
        let y = self.float()?;
        let z = self.float()?;
        Some(Vec3 { x, y, z })
    }

    /// Four floats.
    pub fn quat(&mut self) -> (r: Option<Quat>)
        requires
            old(self).wf(),
        ensures
            final(self).wf(),
            final(self).data == old(self).data,
            r is Some <==> old(self).at + 16 <= old(self).data@.len(),
            r is Some ==> r->0 == quat_at(old(self).data@, old(self).at as int)
                && final(self).at == old(self).at + 16,
    {
        let w = self.float()?;
        let x = self.float()?;
        let y = self.float()?;
        let z = self.float()?;
        Some(Quat { w, x, y, z })
    }

    fn triangle(&mut self) -> (r: Option<Triangle>)
        requires
            old(self).wf(),
        ensures
            final(self).wf(),
            final(self).data == old(self).data,
            r is Some <==> old(self).at + 6 <= old(self).data@.len(),
            r is Some ==> r->0 == triangle_at(old(self).data@, old(self).at as int)
                && final(self).at == old(self).at + 6,
    {
        let a = self.u16()?;
        let b = self.u16()?;
        let c = self.u16()?;
        Some(Triangle { a, b, c })
    }

    fn body(&mut self) -> (r: Option<Body>)
        requires
            old(self).wf(),
        ensures
            final(self).wf(),
            final(self).data == old(self).data,
            r is Some <==> old(self).at + 44 <= old(self).data@.len(),
            r is Some ==> r->0 == body_at(old(self).data@, old(self).at as int)
                && final(self).at == old(self).at + 44,
    {
        let parent = self.i16()?;
        let joint = self.i16()?;
        let pos = self.vec3()?;
        let quat = self.quat()?;
        let axis = self.vec3()?;
        Some(Body { parent, joint, pos, quat, axis })
    }

    fn part(&mut self) -> (r: Option<Part>)
        requires
            old(self).wf(),
        ensures
            final(self).wf(),
            final(self).data == old(self).data,
            r is Some <==> old(self).at + 36 <= old(self).data@.len(),
            r is Some ==> r->0 == part_at(old(self).data@, old(self).at as int)
                && final(self).at == old(self).at + 36,
    {
        let body = self.u16()?;
        let mesh = self.u16()?;
        let rgb = self.take(4)?;
        let pos = self.vec3()?;
        let quat = self.quat()?;
        Some(Part { body, mesh, rgb: Rgb { r: rgb[0], g: rgb[1], b: rgb[2] }, pos, quat })
    }

    fn mesh(&mut self) -> (r: Option<Mesh>)
        requires
            old(self).wf(),
        ensures
            final(self).wf(),
            final(self).data == old(self).data,
            r is Some <==> mesh_fits(old(self).data@, old(self).at as int),
            r is Some ==> {
                &&& r->0.verts@ == verts_at(old(self).data@, old(self).at as int)
                &&& r->0.tris@ == tris_at(old(self).data@, old(self).at as int)
                &&& final(self).at == mesh_end(old(self).data@, old(self).at as int)
            },
    {
        let ghost d = self.data@;
        let ghost at = self.at as int;
        proof {
            numbers_fit(d, at);
            numbers_fit(d, at + 2);
        }
        let n_verts = self.u16()?;
        let n_tris = self.u16()?;
        let mut verts: Vec<Vec3> = Vec::new();
        let mut i: u16 = 0;
        while i < n_verts
            invariant
                self.wf(),
                self.data == old(self).data,
                d == old(self).data@,
                at == old(self).at,
                i <= n_verts,
                n_verts == le16(d, at),
                n_tris == le16(d, at + 2),
                self.at == at + 4 + 12 * i,
                verts@ == verts_at(d, at).take(i as int),
            decreases n_verts - i,
        {
            match self.vec3() {
                Some(v) => {
                    verts.push(v);
                },
                None => {
                    return None;
                },
            }
            i = i + 1;
            assert(verts@ == verts_at(d, at).take(i as int));
        }
        assert(verts@ == verts_at(d, at));
        let mut tris: Vec<Triangle> = Vec::new();
        let mut j: u16 = 0;
        while j < n_tris
            invariant
                self.wf(),
                self.data == old(self).data,
                d == old(self).data@,
                at == old(self).at,
                j <= n_tris,
                n_verts == le16(d, at),
                n_tris == le16(d, at + 2),
                self.at == at + 4 + 12 * n_verts + 6 * j,
                tris@ == tris_at(d, at).take(j as int),
            decreases n_tris - j,
        {
            match self.triangle() {
                Some(t) => {
                    tris.push(t);
                },
                None => {
                    return None;
                },
            }
            j = j + 1;
            assert(tris@ == tris_at(d, at).take(j as int));
        }
        assert(tris@ == tris_at(d, at));
        Some(Mesh { verts, tris })
    }
}

/// Are all of a mesh's corners vertices?
fn tris_in_range(tris: &Vec<Triangle>, n_verts: usize) -> (r: bool)
    ensures
        r == tris_sound(tris@, n_verts as nat),
{
    let mut k: usize = 0;
    while k < tris.len()
        invariant
            k <= tris@.len(),
            forall|j: int|
                0 <= j < k ==> (#[trigger] tris@[j]).a < n_verts && tris@[j].b < n_verts
                    && tris@[j].c < n_verts,
        decreases tris@.len() - k,
    {
        let t = tris[k];
        if t.a as usize >= n_verts || t.b as usize >= n_verts || t.c as usize >= n_verts {
            return false;
        }
        k = k + 1;
    }
    true
}

impl Model {
    /// Read a blob. `None` for one of another version, one cut short, or one whose indices
    /// would lead outside it.
    pub fn parse(data: &[u8]) -> (r: Option<Model>)
        ensures
            r is Some <==> {
                &&& is_whole(data@)
                &&& bodies_sound(blob_bodies(data@))
                &&& parts_sound(blob_parts(data@), body_count(data@), blob_meshes(data@))
            },
            r matches Some(m) ==> {
                &&& m.sound()
                &&& mesh_views(m.meshes@) == blob_meshes(data@)
                &&& m.bodies@ == blob_bodies(data@)
                &&& m.parts@ == blob_parts(data@)
            },
    {
        let ghost d = data@;
        proof {
            numbers_fit(d, 8);
            numbers_fit(d, 10);
            numbers_fit(d, 12);
            mesh_starts_grow(d, 0, mesh_count(d));
        }
        let mut r = Reader { data, at: 0 };
        let magic = r.take(4)?;
        if magic[0] != 68 || magic[1] != 85 || magic[2] != 67 || magic[3] != 75 {
            return None;
        }
        if r.u32()? != FORMAT_VERSION {
            return None;
        }
        let n_meshes = r.u16()?;
        let n_bodies = r.u16()?;
        let n_parts = r.u16()?;

        let mut meshes: Vec<Mesh> = Vec::new();
        let mut i: u16 = 0;
        while i < n_meshes
            invariant
                r.wf(),
                r.data@ == d,
                d == data@,
                i <= n_meshes,
                n_meshes == mesh_count(d),
                r.at == mesh_start(d, i as nat),
                forall|k: nat| k < i ==> mesh_fits(d, #[trigger] mesh_start(d, k)),
                mesh_views(meshes@) == blob_meshes(d).take(i as int),
            decreases n_meshes - i,
        {
            let ghost before = meshes@;
            match r.mesh() {
                Some(m) => {
                    assert(m.view() == blob_meshes(d)[i as int]);
                    meshes.push(m);
                },
                None => {
                    return None;
                },
            }
            i = i + 1;
            assert(mesh_views(meshes@) == mesh_views(before).push(blob_meshes(d)[i - 1]));
            assert(mesh_views(meshes@) == blob_meshes(d).take(i as int));
        }
        assert(mesh_views(meshes@) == blob_meshes(d));

        let mut bodies: Vec<Body> = Vec::new();
        let mut j: u16 = 0;
        while j < n_bodies
            invariant
                r.wf(),
                r.data@ == d,
                d == data@,
                j <= n_bodies,
                n_bodies == body_count(d),
                r.at == bodies_start(d) + 44 * j,
                0 <= part_count(d),
                bodies@ == blob_bodies(d).take(j as int),
            decreases n_bodies - j,
        {
            match r.body() {
                Some(b) => {
                    bodies.push(b);
                },
                None => {
                    return None;
                },
            }
            j = j + 1;
            assert(bodies@ == blob_bodies(d).take(j as int));
        }
        assert(bodies@ == blob_bodies(d));

        let mut parts: Vec<Part> = Vec::new();
        let mut k: u16 = 0;
        while k < n_parts
            invariant
                r.wf(),
                r.data@ == d,
                d == data@,
                k <= n_parts,
                n_parts == part_count(d),
                r.at == parts_start(d) + 36 * k,
                parts@ == blob_parts(d).take(k as int),
            decreases n_parts - k,
        {
            match r.part() {
                Some(p) => {
                    parts.push(p);
                },
                None => {
                    return None;
                },
            }
            k = k + 1;
            assert(parts@ == blob_parts(d).take(k as int));
        }
        assert(parts@ == blob_parts(d));

        let model = Model { meshes, bodies, parts };
        if model.check() {
            Some(model)
        } else {
            None
        }
    }

    /// Would every index in the model land inside it?
    fn check(&self) -> (r: bool)
        ensures
            r == self.sound(),
    {
        let ghost views = mesh_views(self.meshes@);
        let n_bodies = self.bodies.len();
        let mut i: usize = 0;
        while i < n_bodies
            invariant
                i <= n_bodies,
                n_bodies == self.bodies@.len(),
                forall|j: int|
                    0 <= j < i ==> -1 <= (#[trigger] self.bodies@[j]).parent < j
                        && self.bodies@[j].joint < JOINTS,
            decreases n_bodies - i,
        {
            let b = self.bodies[i];
            if b.parent < -1 || b.joint >= JOINTS || (b.parent >= 0 && b.parent as usize >= i) {
                return false;
            }
            i = i + 1;
        }
        let mut k: usize = 0;
        while k < self.parts.len()
            invariant
                k <= self.parts@.len(),
                n_bodies == self.bodies@.len(),
                views == mesh_views(self.meshes@),
                forall|j: int|
                    0 <= j < k ==> (#[trigger] self.parts@[j]).body < n_bodies
                        && self.parts@[j].mesh < views.len() && tris_sound(
                        views[self.parts@[j].mesh as int].1,
                        views[self.parts@[j].mesh as int].0.len(),
                    ),
            decreases self.parts@.len() - k,
        {
            let p = self.parts[k];
            if p.body as usize >= n_bodies || p.mesh as usize >= self.meshes.len() {
                return false;
            }
            let mesh = &self.meshes[p.mesh as usize];
            assert(views[p.mesh as int] == mesh.view());
            if !tris_in_range(&mesh.tris, mesh.verts.len()) {
                return false;
            }
            k = k + 1;
        }
        true
    }
}

// ── what a blob is written as ────────────────────────────────────────────────

/// A 16-bit number, least significant byte first, two's complement where it is negative.
pub open spec fn bytes16(n: int) -> Seq<u8> {
    seq![(n % 256) as u8, (n / 256 % 256) as u8]
}

/// A 32-bit number, least significant byte first.
pub open spec fn bytes32(n: int) -> Seq<u8> {
    seq![
        (n % 256) as u8,
        (n / 256 % 256) as u8,
        (n / 65536 % 256) as u8,
        (n / 16777216 % 256) as u8,
    ]
}

/// Three floats: x, y, z.
pub open spec fn vec3_bytes(v: Vec3) -> Seq<u8> {
    bytes32(v.x as int) + bytes32(v.y as int) + bytes32(v.z as int)
}

/// Four floats: w, x, y, z.
pub open spec fn quat_bytes(q: Quat) -> Seq<u8> {
    bytes32(q.w as int) + bytes32(q.x as int) + bytes32(q.y as int) + bytes32(q.z as int)
}

/// Three corners: a, b, c.
pub open spec fn triangle_bytes(t: Triangle) -> Seq<u8> {
    bytes16(t.a as int) + bytes16(t.b as int) + bytes16(t.c as int)
}

/// A mesh: how many vertices, how many triangles, the vertices, the triangles.
#[verifier::opaque]
pub open spec fn mesh_bytes(mesh: (Seq<Vec3>, Seq<Triangle>)) -> Seq<u8> {
    bytes16(mesh.0.len() as int) + bytes16(mesh.1.len() as int) + framing::glued(
        mesh.0.map_values(|v: Vec3| vec3_bytes(v)),
    ) + framing::glued(mesh.1.map_values(|t: Triangle| triangle_bytes(t)))
}

/// A body: parent, joint, position, orientation, axis.
#[verifier::opaque]
pub open spec fn body_bytes(b: Body) -> Seq<u8> {
    bytes16(b.parent as int) + bytes16(b.joint as int) + vec3_bytes(b.pos) + quat_bytes(b.quat)
        + vec3_bytes(b.axis)
}

/// A part: body, mesh, red, green, blue, a byte that says nothing, position, orientation.
#[verifier::opaque]
pub open spec fn part_bytes(p: Part, padding: u8) -> Seq<u8> {
    bytes16(p.body as int) + bytes16(p.mesh as int) + seq![p.rgb.r, p.rgb.g, p.rgb.b, padding]
        + vec3_bytes(p.pos) + quat_bytes(p.quat)
}

/// The meshes, one after the other.
#[verifier::opaque]
pub open spec fn meshes_bytes(meshes: Seq<(Seq<Vec3>, Seq<Triangle>)>) -> Seq<u8> {
    framing::glued(meshes.map_values(|m: (Seq<Vec3>, Seq<Triangle>)| mesh_bytes(m)))
}

/// The bodies, one after the other.
#[verifier::opaque]
pub open spec fn bodies_bytes(bodies: Seq<Body>) -> Seq<u8> {
    framing::glued(bodies.map_values(|b: Body| body_bytes(b)))
}

/// The parts, one after the other.
#[verifier::opaque]
pub open spec fn parts_bytes(parts: Seq<Part>) -> Seq<u8> {
    framing::glued(parts.map_values(|p: Part| part_bytes(p, 0)))
}

/// A blob: magic, version, how many meshes, bodies and parts, then the meshes, the bodies and
/// the parts.
pub open spec fn blob_bytes(
    magic: Seq<u8>,
    version: u32,
    meshes: Seq<(Seq<Vec3>, Seq<Triangle>)>,
    bodies: Seq<Body>,
    parts: Seq<Part>,
) -> Seq<u8> {
    magic + bytes32(version as int) + bytes16(meshes.len() as int) + bytes16(bodies.len() as int)
        + bytes16(parts.len() as int) + meshes_bytes(meshes) + bodies_bytes(bodies)
        + parts_bytes(parts)
}

/// Do these bytes lie at this place of `d`?
pub open spec fn lies_at(d: Seq<u8>, at: int, bytes: Seq<u8>) -> bool {
    0 <= at && at + bytes.len() <= d.len() && d.subrange(at, at + bytes.len()) == bytes
}

proof fn lie_one_after_the_other(d: Seq<u8>, at: int, a: Seq<u8>, b: Seq<u8>)
    requires
        lies_at(d, at, a + b),
    ensures
        lies_at(d, at, a),
        lies_at(d, at + a.len(), b),
{
    let all = d.subrange(at, at + (a + b).len());
    assert(all == a + b);
    assert forall|i: int| 0 <= i < a.len() implies d[at + i] == a[i] by {
        assert(all[i] == d[at + i]);
    }
    assert forall|i: int| 0 <= i < b.len() implies d[at + a.len() + i] == b[i] by {
        assert(all[a.len() + i] == d[at + a.len() + i]);
    }
    assert(d.subrange(at, at + a.len()) =~= a);
    assert(d.subrange(at + a.len(), at + a.len() + b.len()) =~= b);
}

/// A 16-bit number, signed or not, is read back from its bytes.
pub proof fn a_short_number_reads_back(d: Seq<u8>, at: int, n: int)
    requires
        lies_at(d, at, bytes16(n)),
        -32768 <= n <= 0xffff,
    ensures
        n >= 0 ==> le16(d, at) == n,
        n < 32768 ==> le_i16(d, at) == n,
{
    let part = d.subrange(at, at + 2);
    assert(part == bytes16(n));
    assert(d[at] == part[0]);
    assert(d[at + 1] == part[1]);
}

/// A 32-bit number is read back from its bytes.
pub proof fn a_long_number_reads_back(d: Seq<u8>, at: int, n: u32)
    requires
        lies_at(d, at, bytes32(n as int)),
    ensures
        le32(d, at) == n,
{
    let part = d.subrange(at, at + 4);
    assert(part == bytes32(n as int));
    assert(d[at] == part[0]);
    assert(d[at + 1] == part[1]);
    assert(d[at + 2] == part[2]);
    assert(d[at + 3] == part[3]);
}

/// Three floats written x, y, z are read back as that vector.
pub proof fn a_vector_reads_back(d: Seq<u8>, at: int, v: Vec3)
    requires
        lies_at(d, at, vec3_bytes(v)),
    ensures
        vec3_at(d, at) == v,
{
    let (x, y, z) = (bytes32(v.x as int), bytes32(v.y as int), bytes32(v.z as int));
    lie_one_after_the_other(d, at, x + y, z);
    lie_one_after_the_other(d, at, x, y);
    a_long_number_reads_back(d, at, v.x);
    a_long_number_reads_back(d, at + 4, v.y);
    a_long_number_reads_back(d, at + 8, v.z);
}

/// Four floats written w, x, y, z are read back as that quaternion.
pub proof fn a_quaternion_reads_back(d: Seq<u8>, at: int, q: Quat)
    requires
        lies_at(d, at, quat_bytes(q)),
    ensures
        quat_at(d, at) == q,
{
    let (w, x, y, z) = (
        bytes32(q.w as int),
        bytes32(q.x as int),
        bytes32(q.y as int),
        bytes32(q.z as int),
    );
    lie_one_after_the_other(d, at, w + x + y, z);
    lie_one_after_the_other(d, at, w + x, y);
    lie_one_after_the_other(d, at, w, x);
    a_long_number_reads_back(d, at, q.w);
    a_long_number_reads_back(d, at + 4, q.x);
    a_long_number_reads_back(d, at + 8, q.y);
    a_long_number_reads_back(d, at + 12, q.z);
}

/// Three corners written a, b, c are read back as that triangle.
pub proof fn a_triangle_reads_back(d: Seq<u8>, at: int, t: Triangle)
    requires
        lies_at(d, at, triangle_bytes(t)),
    ensures
        triangle_at(d, at) == t,
{
    let (a, b, c) = (bytes16(t.a as int), bytes16(t.b as int), bytes16(t.c as int));
    lie_one_after_the_other(d, at, a + b, c);
    lie_one_after_the_other(d, at, a, b);
    a_short_number_reads_back(d, at, t.a as int);
    a_short_number_reads_back(d, at + 2, t.b as int);
    a_short_number_reads_back(d, at + 4, t.c as int);
}

/// A body written field by field is read back as that body.
#[verifier::rlimit(30)]
pub proof fn a_body_reads_back(d: Seq<u8>, at: int, b: Body)
    requires
        lies_at(d, at, body_bytes(b)),
    ensures
        body_at(d, at) == b,
{
    reveal(body_bytes);
    let (parent, joint) = (bytes16(b.parent as int), bytes16(b.joint as int));
    let (pos, quat, axis) = (vec3_bytes(b.pos), quat_bytes(b.quat), vec3_bytes(b.axis));
    lie_one_after_the_other(d, at, parent + joint + pos + quat, axis);
    lie_one_after_the_other(d, at, parent + joint + pos, quat);
    lie_one_after_the_other(d, at, parent + joint, pos);
    lie_one_after_the_other(d, at, parent, joint);
    a_short_number_reads_back(d, at, b.parent as int);
    a_short_number_reads_back(d, at + 2, b.joint as int);
    a_vector_reads_back(d, at + 4, b.pos);
    a_quaternion_reads_back(d, at + 16, b.quat);
    a_vector_reads_back(d, at + 32, b.axis);
}

/// A part written field by field is read back as that part, whatever the byte behind its colour
/// holds.
#[verifier::rlimit(30)]
pub proof fn a_part_reads_back(d: Seq<u8>, at: int, p: Part, padding: u8)
    requires
        lies_at(d, at, part_bytes(p, padding)),
    ensures
        part_at(d, at) == p,
{
    reveal(part_bytes);
    let (body, mesh) = (bytes16(p.body as int), bytes16(p.mesh as int));
    let colour = seq![p.rgb.r, p.rgb.g, p.rgb.b, padding];
    let (pos, quat) = (vec3_bytes(p.pos), quat_bytes(p.quat));
    lie_one_after_the_other(d, at, body + mesh + colour + pos, quat);
    lie_one_after_the_other(d, at, body + mesh + colour, pos);
    lie_one_after_the_other(d, at, body + mesh, colour);
    lie_one_after_the_other(d, at, body, mesh);
    a_short_number_reads_back(d, at, p.body as int);
    a_short_number_reads_back(d, at + 2, p.mesh as int);
    let four = d.subrange(at + 4, at + 8);
    assert(four == colour);
    assert(d[at + 4] == four[0]);
    assert(d[at + 5] == four[1]);
    assert(d[at + 6] == four[2]);
    a_vector_reads_back(d, at + 8, p.pos);
    a_quaternion_reads_back(d, at + 20, p.quat);
}

proof fn pieces_of_one_size(d: Seq<u8>, at: int, pieces: Seq<Seq<u8>>, size: nat)
    requires
        lies_at(d, at, framing::glued(pieces)),
        forall|i: int| 0 <= i < pieces.len() ==> (#[trigger] pieces[i]).len() == size,
    ensures
        framing::glued(pieces).len() == size * pieces.len(),
        forall|i: int| 0 <= i < pieces.len() ==> lies_at(d, at + size * i, #[trigger] pieces[i]),
    decreases pieces.len(),
{
    if pieces.len() == 0 {
        assert(size * pieces.len() == 0) by (nonlinear_arith)
            requires
                pieces.len() == 0,
        ;
    } else {
        let rest = pieces.drop_last();
        let n = rest.len();
        lie_one_after_the_other(d, at, framing::glued(rest), pieces.last());
        assert forall|i: int| 0 <= i < rest.len() implies (#[trigger] rest[i]).len() == size by {
            assert(rest[i] == pieces[i]);
        }
        pieces_of_one_size(d, at, rest, size);
        assert(pieces[n as int] == pieces.last());
        assert(size * (n + 1) == size * n + size) by (nonlinear_arith);
        assert forall|i: int| 0 <= i < pieces.len() implies lies_at(
            d,
            at + size * i,
            #[trigger] pieces[i],
        ) by {
            if i < n {
                assert(rest[i] == pieces[i]);
            }
        }
    }
}

/// A mesh written field by field is whole, is read back as that mesh, and ends where its bytes
/// do.
#[verifier::rlimit(30)]
pub proof fn a_mesh_reads_back(d: Seq<u8>, at: int, mesh: (Seq<Vec3>, Seq<Triangle>))
    requires
        lies_at(d, at, mesh_bytes(mesh)),
        mesh.0.len() <= 0xffff,
        mesh.1.len() <= 0xffff,
    ensures
        mesh_fits(d, at),
        verts_at(d, at) == mesh.0,
        tris_at(d, at) == mesh.1,
        mesh_end(d, at) == at + mesh_bytes(mesh).len(),
{
    reveal(mesh_bytes);
    let (verts, tris) = mesh;
    let (nv, nt) = (bytes16(verts.len() as int), bytes16(tris.len() as int));
    let vs = verts.map_values(|v: Vec3| vec3_bytes(v));
    let ts = tris.map_values(|t: Triangle| triangle_bytes(t));
    lie_one_after_the_other(d, at, nv + nt + framing::glued(vs), framing::glued(ts));
    lie_one_after_the_other(d, at, nv + nt, framing::glued(vs));
    lie_one_after_the_other(d, at, nv, nt);
    a_short_number_reads_back(d, at, verts.len() as int);
    a_short_number_reads_back(d, at + 2, tris.len() as int);
    pieces_of_one_size(d, at + 4, vs, 12);
    pieces_of_one_size(d, at + 4 + 12 * verts.len(), ts, 6);
    assert forall|k: int| 0 <= k < verts.len() implies verts_at(d, at)[k] == verts[k] by {
        assert(vs[k] == vec3_bytes(verts[k]));
        a_vector_reads_back(d, at + 4 + 12 * k, verts[k]);
    }
    assert forall|k: int| 0 <= k < tris.len() implies tris_at(d, at)[k] == tris[k] by {
        assert(ts[k] == triangle_bytes(tris[k]));
        a_triangle_reads_back(d, at + 4 + 12 * verts.len() + 6 * k, tris[k]);
    }
    assert(verts_at(d, at) =~= verts);
    assert(tris_at(d, at) =~= tris);
}

#[verifier::rlimit(30)]
proof fn meshes_read_back(d: Seq<u8>, meshes: Seq<(Seq<Vec3>, Seq<Triangle>)>)
    requires
        lies_at(d, 14, meshes_bytes(meshes)),
        forall|i: int|
            0 <= i < meshes.len() ==> (#[trigger] meshes[i]).0.len() <= 0xffff && meshes[i].1.len()
                <= 0xffff,
    ensures
        mesh_start(d, meshes.len()) == 14 + meshes_bytes(meshes).len(),
        forall|i: nat|
            i < meshes.len() ==> mesh_fits(d, #[trigger] mesh_start(d, i)) && verts_at(
                d,
                mesh_start(d, i),
            ) == meshes[i as int].0 && tris_at(d, mesh_start(d, i)) == meshes[i as int].1,
    decreases meshes.len(),
{
    reveal(meshes_bytes);
    let all = meshes.map_values(|m: (Seq<Vec3>, Seq<Triangle>)| mesh_bytes(m));
    if meshes.len() > 0 {
        let rest = meshes.drop_last();
        let before = rest.map_values(|m: (Seq<Vec3>, Seq<Triangle>)| mesh_bytes(m));
        assert(all.drop_last() =~= before);
        assert(all.last() == mesh_bytes(meshes.last()));
        lie_one_after_the_other(d, 14, framing::glued(before), all.last());
        assert forall|i: int| 0 <= i < rest.len() implies (#[trigger] rest[i]).0.len() <= 0xffff
            && rest[i].1.len() <= 0xffff by {
            assert(rest[i] == meshes[i]);
        }
        meshes_read_back(d, rest);
        assert(meshes[meshes.len() - 1] == meshes.last());
        a_mesh_reads_back(d, mesh_start(d, rest.len()), meshes.last());
        assert forall|i: nat| i < meshes.len() implies mesh_fits(d, #[trigger] mesh_start(d, i))
            && verts_at(d, mesh_start(d, i)) == meshes[i as int].0 && tris_at(d, mesh_start(d, i))
            == meshes[i as int].1 by {
            if i < rest.len() {
                assert(rest[i as int] == meshes[i as int]);
            }
        }
    }
}

#[verifier::rlimit(30)]
proof fn blobs_lie_piece_by_piece(
    magic: Seq<u8>,
    v: Seq<u8>,
    nm: Seq<u8>,
    nb: Seq<u8>,
    np: Seq<u8>,
    gm: Seq<u8>,
    gb: Seq<u8>,
    gp: Seq<u8>,
    rest: Seq<u8>,
)
    requires
        magic.len() == 4,
        v.len() == 4,
        nm.len() == 2,
        nb.len() == 2,
        np.len() == 2,
    ensures
        ({
            let d = magic + v + nm + nb + np + gm + gb + gp + rest;
            &&& lies_at(d, 0, magic)
            &&& lies_at(d, 4, v)
            &&& lies_at(d, 8, nm)
            &&& lies_at(d, 10, nb)
            &&& lies_at(d, 12, np)
            &&& lies_at(d, 14, gm)
            &&& lies_at(d, 14int + gm.len(), gb)
            &&& lies_at(d, 14int + gm.len() + gb.len(), gp)
            &&& d.len() - rest.len() == 14 + gm.len() + gb.len() + gp.len()
        }),
{
    let d = magic + v + nm + nb + np + gm + gb + gp + rest;
    assert(d.subrange(0, d.len() as int) =~= d);
    lie_one_after_the_other(d, 0, magic + v + nm + nb + np + gm + gb + gp, rest);
    lie_one_after_the_other(d, 0, magic + v + nm + nb + np + gm + gb, gp);
    lie_one_after_the_other(d, 0, magic + v + nm + nb + np + gm, gb);
    lie_one_after_the_other(d, 0, magic + v + nm + nb + np, gm);
    lie_one_after_the_other(d, 0, magic + v + nm + nb, np);
    lie_one_after_the_other(d, 0, magic + v + nm, nb);
    lie_one_after_the_other(d, 0, magic + v, nm);
    lie_one_after_the_other(d, 0, magic, v);
}

proof fn a_body_takes_its_bytes(b: Body)
    ensures
        body_bytes(b).len() == 44,
{
    reveal(body_bytes);
}

proof fn a_part_takes_its_bytes(p: Part)
    ensures
        part_bytes(p, 0).len() == 36,
{
    reveal(part_bytes);
}

#[verifier::rlimit(30)]
proof fn bodies_read_back(d: Seq<u8>, at: int, bodies: Seq<Body>)
    requires
        lies_at(d, at, bodies_bytes(bodies)),
    ensures
        bodies_bytes(bodies).len() == 44 * bodies.len(),
        forall|i: int| 0 <= i < bodies.len() ==> body_at(d, at + 44 * i) == #[trigger] bodies[i],
{
    reveal(bodies_bytes);
    let bs = bodies.map_values(|b: Body| body_bytes(b));
    assert forall|i: int| 0 <= i < bs.len() implies (#[trigger] bs[i]).len() == 44 by {
        a_body_takes_its_bytes(bodies[i]);
    }
    pieces_of_one_size(d, at, bs, 44);
    assert forall|i: int| 0 <= i < bodies.len() implies body_at(d, at + 44 * i)
        == #[trigger] bodies[i] by {
        assert(bs[i] == body_bytes(bodies[i]));
        a_body_reads_back(d, at + 44 * i, bodies[i]);
    }
}

#[verifier::rlimit(30)]
proof fn parts_read_back(d: Seq<u8>, at: int, parts: Seq<Part>)
    requires
        lies_at(d, at, parts_bytes(parts)),
    ensures
        parts_bytes(parts).len() == 36 * parts.len(),
        forall|i: int| 0 <= i < parts.len() ==> part_at(d, at + 36 * i) == #[trigger] parts[i],
{
    reveal(parts_bytes);
    let ps = parts.map_values(|p: Part| part_bytes(p, 0));
    assert forall|i: int| 0 <= i < ps.len() implies (#[trigger] ps[i]).len() == 36 by {
        a_part_takes_its_bytes(parts[i]);
    }
    pieces_of_one_size(d, at, ps, 36);
    assert forall|i: int| 0 <= i < parts.len() implies part_at(d, at + 36 * i)
        == #[trigger] parts[i] by {
        assert(ps[i] == part_bytes(parts[i], 0));
        a_part_reads_back(d, at + 36 * i, parts[i], 0);
    }
}

proof fn counted_lists_read_back(
    d: Seq<u8>,
    meshes: Seq<(Seq<Vec3>, Seq<Triangle>)>,
    bodies: Seq<Body>,
    parts: Seq<Part>,
    ends: (int, int),
)
    requires
        le16(d, 8) == meshes.len(),
        le16(d, 10) == bodies.len(),
        le16(d, 12) == parts.len(),
        mesh_start(d, meshes.len()) == ends.0,
        forall|i: nat|
            i < meshes.len() ==> mesh_fits(d, #[trigger] mesh_start(d, i)) && verts_at(
                d,
                mesh_start(d, i),
            ) == meshes[i as int].0 && tris_at(d, mesh_start(d, i)) == meshes[i as int].1,
        ends.1 == ends.0 + 44 * bodies.len(),
        forall|i: int|
            0 <= i < bodies.len() ==> body_at(d, ends.0 + 44 * i) == #[trigger] bodies[i],
        forall|i: int| 0 <= i < parts.len() ==> part_at(d, ends.1 + 36 * i) == #[trigger] parts[i],
    ensures
        blob_meshes(d) == meshes,
        blob_bodies(d) == bodies,
        blob_parts(d) == parts,
        forall|i: nat| i < mesh_count(d) ==> mesh_fits(d, #[trigger] mesh_start(d, i)),
        parts_start(d) == ends.1,
{
    assert forall|i: int| 0 <= i < meshes.len() implies blob_meshes(d)[i] == meshes[i] by {
        assert(mesh_fits(d, mesh_start(d, i as nat)));
    }
    assert(blob_meshes(d) =~= meshes);
    assert(blob_bodies(d) =~= bodies);
    assert(blob_parts(d) =~= parts);
}

#[verifier::rlimit(30)]
proof fn a_laid_out_model_reads_back(
    d: Seq<u8>,
    magic: Seq<u8>,
    version: u32,
    meshes: Seq<(Seq<Vec3>, Seq<Triangle>)>,
    bodies: Seq<Body>,
    parts: Seq<Part>,
)
    requires
        magic.len() == 4,
        meshes.len() <= 0xffff,
        bodies.len() <= 0xffff,
        parts.len() <= 0xffff,
        forall|i: int|
            0 <= i < meshes.len() ==> (#[trigger] meshes[i]).0.len() <= 0xffff && meshes[i].1.len()
                <= 0xffff,
        lies_at(d, 0, magic),
        lies_at(d, 4, bytes32(version as int)),
        lies_at(d, 8, bytes16(meshes.len() as int)),
        lies_at(d, 10, bytes16(bodies.len() as int)),
        lies_at(d, 12, bytes16(parts.len() as int)),
        lies_at(d, 14, meshes_bytes(meshes)),
        lies_at(d, 14int + meshes_bytes(meshes).len(), bodies_bytes(bodies)),
        lies_at(
            d,
            14int + meshes_bytes(meshes).len() + bodies_bytes(bodies).len(),
            parts_bytes(parts),
        ),
    ensures
        is_whole(d) <==> magic == seq!['D' as u8, 'U' as u8, 'C' as u8, 'K' as u8] && version == 1,
        blob_meshes(d) == meshes,
        blob_bodies(d) == bodies,
        blob_parts(d) == parts,
        mesh_count(d) == meshes.len(),
        body_count(d) == bodies.len(),
        part_count(d) == parts.len(),
        parts_start(d) + 36 * part_count(d) == 14 + meshes_bytes(meshes).len() + bodies_bytes(
            bodies,
        ).len() + parts_bytes(parts).len(),
{
    let (gm, gb) = (meshes_bytes(meshes), bodies_bytes(bodies));
    a_long_number_reads_back(d, 4, version);
    a_short_number_reads_back(d, 8, meshes.len() as int);
    a_short_number_reads_back(d, 10, bodies.len() as int);
    a_short_number_reads_back(d, 12, parts.len() as int);
    meshes_read_back(d, meshes);
    bodies_read_back(d, 14int + gm.len(), bodies);
    parts_read_back(d, 14int + gm.len() + gb.len(), parts);
    counted_lists_read_back(
        d,
        meshes,
        bodies,
        parts,
        (14int + gm.len(), 14int + gm.len() + gb.len()),
    );
    let four = d.subrange(0, 4);
    assert(four == magic);
    assert(four[0] == d[0] && four[1] == d[1] && four[2] == d[2] && four[3] == d[3]);
    if is_whole(d) {
        assert(magic =~= seq!['D' as u8, 'U' as u8, 'C' as u8, 'K' as u8]);
    }
}

/// Reading undoes writing: a blob written field by field is whole exactly when it starts with
/// `DUCK` and its version is the one that is read here, whatever follows it, and then holds
/// exactly the meshes, bodies and parts it was written from.
#[verifier::rlimit(30)]
pub proof fn a_model_reads_back(
    magic: Seq<u8>,
    version: u32,
    meshes: Seq<(Seq<Vec3>, Seq<Triangle>)>,
    bodies: Seq<Body>,
    parts: Seq<Part>,
    rest: Seq<u8>,
)
    requires
        magic.len() == 4,
        meshes.len() <= 0xffff,
        bodies.len() <= 0xffff,
        parts.len() <= 0xffff,
        forall|i: int|
            0 <= i < meshes.len() ==> (#[trigger] meshes[i]).0.len() <= 0xffff && meshes[i].1.len()
                <= 0xffff,
    ensures
        ({
            let d = blob_bytes(magic, version, meshes, bodies, parts) + rest;
            &&& is_whole(d) <==> magic == seq!['D' as u8, 'U' as u8, 'C' as u8, 'K' as u8]
                && version == 1
            &&& blob_meshes(d) == meshes
            &&& blob_bodies(d) == bodies
            &&& blob_parts(d) == parts
            &&& mesh_count(d) == meshes.len()
            &&& body_count(d) == bodies.len()
            &&& part_count(d) == parts.len()
            &&& parts_start(d) + 36 * part_count(d) == d.len() - rest.len()
        }),
{
    let d = blob_bytes(magic, version, meshes, bodies, parts) + rest;
    blobs_lie_piece_by_piece(
        magic,
        bytes32(version as int),
        bytes16(meshes.len() as int),
        bytes16(bodies.len() as int),
        bytes16(parts.len() as int),
        meshes_bytes(meshes),
        bodies_bytes(bodies),
        parts_bytes(parts),
        rest,
    );
    a_laid_out_model_reads_back(d, magic, version, meshes, bodies, parts);
}

proof fn meshes_start_alike(d: Seq<u8>, k: int, i: nat)
    requires
        14 <= k <= d.len(),
        forall|j: nat| j < i ==> mesh_fits(d.take(k), #[trigger] mesh_start(d.take(k), j)),
    ensures
        mesh_start(d.take(k), i) == mesh_start(d, i),
    decreases i,
{
    if i > 0 {
        let before = (i - 1) as nat;
        meshes_start_alike(d, k, before);
        assert(mesh_fits(d.take(k), mesh_start(d.take(k), before)));
        mesh_starts_grow(d, 0, before);
    }
}

/// A blob cut short anywhere is refused.
pub proof fn a_blob_cut_short_is_not_whole(d: Seq<u8>, k: int)
    requires
        is_whole(d),
        0 <= k < parts_start(d) + 36 * part_count(d),
    ensures
        !is_whole(d.take(k)),
{
    let cut = d.take(k);
    if is_whole(cut) {
        meshes_start_alike(d, k, mesh_count(d));
    }
}

// ── which models are sound ───────────────────────────────────────────────────

/// A body can be added to sound bodies exactly when its parent is one of them or none, and its
/// joint is one of the fifteen or none.
pub proof fn a_body_follows_its_parent(bodies: Seq<Body>, b: Body)
    ensures
        bodies_sound(Seq::empty()),
        bodies_sound(bodies.push(b)) <==> bodies_sound(bodies) && (b.parent == -1 || 0 <= b.parent
            < bodies.len()) && b.joint < 15,
{
    let all = bodies.push(b);
    if bodies_sound(all) {
        assert forall|i: int| 0 <= i < bodies.len() implies -1 <= (#[trigger] bodies[i]).parent < i
            && bodies[i].joint < JOINTS by {
            assert(all[i] == bodies[i]);
        }
        assert(all[bodies.len() as int] == b);
    }
}

/// A triangle can be added exactly when its three corners are vertices.
pub proof fn a_triangle_has_three_vertices(tris: Seq<Triangle>, t: Triangle, n_verts: nat)
    ensures
        tris_sound(Seq::empty(), n_verts),
        tris_sound(tris.push(t), n_verts) <==> tris_sound(tris, n_verts) && t.a < n_verts && t.b
            < n_verts && t.c < n_verts,
{
    let all = tris.push(t);
    if tris_sound(all, n_verts) {
        assert forall|k: int| 0 <= k < tris.len() implies (#[trigger] tris[k]).a < n_verts
            && tris[k].b < n_verts && tris[k].c < n_verts by {
            assert(all[k] == tris[k]);
        }
        assert(all[tris.len() as int] == t);
    }
}

/// A part can be added exactly when its body and its mesh are there, and the corners of that
/// mesh are its vertices.
pub proof fn a_part_hangs_on_what_there_is(
    parts: Seq<Part>,
    p: Part,
    n_bodies: nat,
    meshes: Seq<(Seq<Vec3>, Seq<Triangle>)>,
)
    ensures
        parts_sound(Seq::empty(), n_bodies, meshes),
        parts_sound(parts.push(p), n_bodies, meshes) <==> parts_sound(parts, n_bodies, meshes)
            && p.body < n_bodies && p.mesh < meshes.len() && tris_sound(
            meshes[p.mesh as int].1,
            meshes[p.mesh as int].0.len(),
        ),
{
    let all = parts.push(p);
    if parts_sound(all, n_bodies, meshes) {
        assert forall|i: int| 0 <= i < parts.len() implies (#[trigger] parts[i]).body < n_bodies
            && parts[i].mesh < meshes.len() && tris_sound(
            meshes[parts[i].mesh as int].1,
            meshes[parts[i].mesh as int].0.len(),
        ) by {
            assert(all[i] == parts[i]);
        }
        assert(all[parts.len() as int] == p);
    }
}

/// Every mesh is seen with all of its vertices and triangles.
pub proof fn every_mesh_is_seen(meshes: Seq<Mesh>, i: int)
    requires
        0 <= i < meshes.len(),
    ensures
        mesh_views(meshes).len() == meshes.len(),
        mesh_views(meshes)[i].0 == meshes[i].verts@,
        mesh_views(meshes)[i].1 == meshes[i].tris@,
{
}

} // verus!
