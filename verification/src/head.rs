//! The head chain: which of the robot's joints move the camera.
use vstd::prelude::*;

use crate::text;

verus! {

/// The joints of the head, from the trunk out.
pub const HEAD_JOINTS: [&'static str; 4] = ["neck_pitch", "head_pitch", "head_yaw", "head_roll"];

/// The most joints a model may have.
pub const MOST_JOINTS: usize = 32;

/// Where a name stands in a list, counting from `from`.
pub open spec fn index_of(names: Seq<Seq<char>>, name: Seq<char>, from: int) -> Option<int>
    decreases names.len() - from,
{
    if 0 <= from < names.len() {
        if names[from] == name {
            Some(from)
        } else {
            index_of(names, name, from + 1)
        }
    } else {
        None
    }
}

/// Where a joint of this name is, if the model has one.
pub fn joint_index(names: &Vec<String>, name: &str) -> (r: Option<usize>)
    ensures
        match index_of(text::views(names@), name@, 0) {
            Some(i) => r matches Some(found) && found == i,
            None => r is None,
        },
        r matches Some(i) ==> i < names@.len() && names@[i as int]@ == name@,
{
    let ghost all = text::views(names@);
    let mut i: usize = 0;
    while i < names.len()
        invariant
            i <= names@.len(),
            all == text::views(names@),
            index_of(all, name@, 0) == index_of(all, name@, i as int),
        decreases names@.len() - i,
    {
        assert(all[i as int] == names@[i as int]@);
        if text::same(names[i].as_str(), name) {
            return Some(i);
        }
        i = i + 1;
    }
    None
}

/// The head chain of a model, its names looked up once.
#[derive(Debug, Clone, Copy, PartialEq, Eq, Structural)]
pub struct HeadChain {
    pub neck_pitch: usize,
    pub head_pitch: usize,
    pub head_yaw: usize,
    pub head_roll: usize,
}

/// The angle of joint `j` when the head's four are these and every other joint is at zero.
pub open spec fn angle_at(chain: HeadChain, head: [u64; 4], j: int) -> u64 {
    if j == chain.head_roll {
        head@[3]
    } else if j == chain.head_yaw {
        head@[2]
    } else if j == chain.head_pitch {
        head@[1]
    } else if j == chain.neck_pitch {
        head@[0]
    } else {
        0
    }
}

impl HeadChain {
    /// Every joint of the chain is one of the model's.
    pub open spec fn within(&self, joints: nat) -> bool {
        self.neck_pitch < joints && self.head_pitch < joints && self.head_yaw < joints
            && self.head_roll < joints
    }

    /// Look the chain up, each joint where its name first stands. `None` for a model that lacks a
    /// head joint.
    pub fn new(names: &Vec<String>) -> (r: Option<Self>)
        ensures
            r is Some <==> {
                let all = text::views(names@);
                &&& index_of(all, "neck_pitch"@, 0) is Some
                &&& index_of(all, "head_pitch"@, 0) is Some
                &&& index_of(all, "head_yaw"@, 0) is Some
                &&& index_of(all, "head_roll"@, 0) is Some
            },
            r matches Some(chain) ==> {
                let all = text::views(names@);
                &&& chain.within(names@.len())
                &&& index_of(all, "neck_pitch"@, 0) == Some(chain.neck_pitch as int)
                &&& index_of(all, "head_pitch"@, 0) == Some(chain.head_pitch as int)
                &&& index_of(all, "head_yaw"@, 0) == Some(chain.head_yaw as int)
                &&& index_of(all, "head_roll"@, 0) == Some(chain.head_roll as int)
            },
    {
        let neck_pitch = joint_index(names, "neck_pitch")?;
        let head_pitch = joint_index(names, "head_pitch")?;
        let head_yaw = joint_index(names, "head_yaw")?;
        let head_roll = joint_index(names, "head_roll")?;
        Some(HeadChain { neck_pitch, head_pitch, head_yaw, head_roll })
    }

    /// The angles of every joint, by their bits, for these head angles: the legs cannot move the
    /// head within the trunk, so they are taken at zero.
    pub fn angles(&self, head: [u64; 4], joints: usize) -> (r: Vec<u64>)
        requires
            self.within(joints as nat),
            joints <= MOST_JOINTS,
        ensures
            r@.len() == joints,
            forall|j: int| 0 <= j < joints ==> #[trigger] r@[j] == angle_at(*self, head, j),
    {
        let mut out: Vec<u64> = Vec::new();
        let mut i: usize = 0;
        while i < joints
            invariant
                i <= joints,
                out@.len() == i,
                forall|j: int| 0 <= j < i ==> #[trigger] out@[j] == 0,
            decreases joints - i,
        {
            out.push(0);
            i = i + 1;
        }
        out.set(self.neck_pitch, head[0]);
        out.set(self.head_pitch, head[1]);
        out.set(self.head_yaw, head[2]);
        out.set(self.head_roll, head[3]);
        out
    }
}

/// A joint is found where its name first stands, and not at all where no joint has it.
pub proof fn a_joint_is_found_by_its_name(names: Seq<Seq<char>>, name: Seq<char>, from: int)
    requires
        0 <= from <= names.len(),
    ensures
        index_of(names, name, from) matches Some(i) ==> {
            &&& from <= i < names.len()
            &&& names[i] == name
            &&& forall|j: int| from <= j < i ==> #[trigger] names[j] != name
        },
        index_of(names, name, from) is None ==> forall|j: int|
            from <= j < names.len() ==> #[trigger] names[j] != name,
    decreases names.len() - from,
{
    if from < names.len() && names[from] != name {
        a_joint_is_found_by_its_name(names, name, from + 1);
    }
}

/// Each joint of the head gets its own angle, in the order from the trunk out, and every other
/// joint is at zero.
pub proof fn each_head_joint_gets_its_own_angle(chain: HeadChain, head: [u64; 4], j: int)
    requires
        chain.neck_pitch != chain.head_pitch,
        chain.neck_pitch != chain.head_yaw,
        chain.neck_pitch != chain.head_roll,
        chain.head_pitch != chain.head_yaw,
        chain.head_pitch != chain.head_roll,
        chain.head_yaw != chain.head_roll,
    ensures
        angle_at(chain, head, chain.neck_pitch as int) == head@[0],
        angle_at(chain, head, chain.head_pitch as int) == head@[1],
        angle_at(chain, head, chain.head_yaw as int) == head@[2],
        angle_at(chain, head, chain.head_roll as int) == head@[3],
        j != chain.neck_pitch && j != chain.head_pitch && j != chain.head_yaw && j
            != chain.head_roll ==> angle_at(chain, head, j) == 0,
{
}

/// The joints of the head have different names, so a chain that was looked up never takes one
/// joint for two.
pub proof fn a_chain_has_four_joints(
    names: Seq<Seq<char>>,
    neck_pitch: int,
    head_pitch: int,
    head_yaw: int,
    head_roll: int,
)
    requires
        index_of(names, "neck_pitch"@, 0) == Some(neck_pitch),
        index_of(names, "head_pitch"@, 0) == Some(head_pitch),
        index_of(names, "head_yaw"@, 0) == Some(head_yaw),
        index_of(names, "head_roll"@, 0) == Some(head_roll),
    ensures
        neck_pitch != head_pitch,
        neck_pitch != head_yaw,
        neck_pitch != head_roll,
        head_pitch != head_yaw,
        head_pitch != head_roll,
        head_yaw != head_roll,
{
    a_joint_is_found_by_its_name(names, "neck_pitch"@, 0);
    a_joint_is_found_by_its_name(names, "head_pitch"@, 0);
    a_joint_is_found_by_its_name(names, "head_yaw"@, 0);
    a_joint_is_found_by_its_name(names, "head_roll"@, 0);
    reveal_strlit("neck_pitch");
    reveal_strlit("head_pitch");
    reveal_strlit("head_yaw");
    reveal_strlit("head_roll");
    assert("neck_pitch"@[0] == 'n' && "head_pitch"@[0] == 'h');
    assert("head_yaw"@[5] == 'y' && "head_roll"@[5] == 'r' && "head_pitch"@[5] == 'p');
    assert("head_yaw"@[0] == 'h' && "head_roll"@[0] == 'h');
}

} // verus!
