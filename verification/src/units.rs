//! What the service manager and the kernel say about the robot's daemons.
//!
//! The path a process was executed from names the release it belongs to, and names the old one
//! when a restart did not happen.
use vstd::prelude::*;

use crate::net;
use crate::proto::{ServiceUnit, UnitState};
use crate::text;
use crate::version;
use crate::version::Version;

verus! {

/// The unit that turns a pad into intents.
pub const PADD: &'static str = "padd.service";

/// Every unit a daemon release manages, in the order a reader wants them.
pub const MANAGED: [&'static str; 5] = [
    "updaterd.service",
    "robotd.service",
    "configd.service",
    "btd.service",
    "padd.service",
];

/// What the kernel appends to the path of a binary that is gone from disk.
pub open spec fn deleted_marker() -> Seq<char> {
    " (deleted)"@
}

/// A path without the kernel's marker.
pub open spec fn unmarked(path: Seq<char>) -> Seq<char> {
    if deleted_marker().is_suffix_of(path) {
        path.take(path.len() - deleted_marker().len())
    } else {
        path
    }
}

/// Do the parts name a release here: a `releases`, followed by a version?
pub open spec fn names_release(parts: Seq<Seq<char>>, i: int) -> bool {
    &&& 0 <= i < parts.len() - 1
    &&& parts[i] == "releases"@
    &&& version::semver_parsed(parts[i + 1]) is Some
}

/// The first release the parts name at or after `i`.
pub open spec fn release_in(parts: Seq<Seq<char>>, i: int) -> Option<version::VersionView>
    decreases parts.len() - i,
{
    if 0 <= i < parts.len() {
        if names_release(parts, i) {
            version::semver_parsed(parts[i + 1])
        } else {
            release_in(parts, i + 1)
        }
    } else {
        None
    }
}

/// The release a path names.
pub open spec fn release_of(path: Seq<char>) -> Option<version::VersionView> {
    release_in(text::split_on(unmarked(path), '/'), 0)
}

/// The release a binary at this path was installed as. `None` for a path outside the layout: a
/// hand-built binary is a normal thing on a development board.
pub fn release_from_path(path: &str) -> (r: Option<Version>)
    ensures
        version::option_view(r) == release_of(path@),
{
    let n = path.unicode_len();
    proof {
        reveal_strlit(" (deleted)");
    }
    let clean = if text::ends_with(path, " (deleted)") {
        path.substring_char(0, n - 10)
    } else {
        path
    };
    assert(clean@ == unmarked(path@));
    let parts = text::split(clean, '/');
    let ghost all = text::split_on(clean@, '/');
    let mut i: usize = 0;
    while i < parts.len()
        invariant
            i <= parts@.len(),
            all == text::views(parts@),
            all == text::split_on(clean@, '/'),
            clean@ == unmarked(path@),
            release_in(all, 0) == release_in(all, i as int),
        decreases parts@.len() - i,
    {
        assert(all[i as int] == parts@[i as int]@);
        if i + 1 < parts.len() && text::same(parts[i].as_str(), "releases") {
            assert(all[i + 1] == parts@[i + 1]@);
            if let Some(version) = Version::parse(parts[i + 1].as_str()) {
                return Some(version);
            }
        }
        i = i + 1;
    }
    None
}

/// A path with a `releases/<version>` in it names a release, and the first such pair decides
/// which.
pub proof fn the_first_release_in_a_path_is_named(parts: Seq<Seq<char>>, from: int, i: int)
    requires
        0 <= from <= i,
        names_release(parts, i),
        forall|j: int| from <= j < i ==> !names_release(parts, j),
    ensures
        release_in(parts, from) == version::semver_parsed(parts[i + 1]),
        release_in(parts, from) is Some,
    decreases i - from,
{
    if from < i {
        the_first_release_in_a_path_is_named(parts, from + 1, i);
    }
}

/// A path without a `releases/<version>` in it names none.
pub proof fn a_path_outside_the_layout_names_none(parts: Seq<Seq<char>>, from: int)
    requires
        0 <= from,
        forall|j: int| from <= j ==> !names_release(parts, j),
    ensures
        release_in(parts, from) is None,
    decreases parts.len() - from,
{
    if from < parts.len() {
        assert(!names_release(parts, from));
        a_path_outside_the_layout_names_none(parts, from + 1);
    }
}

/// A binary that is gone from disk still names the release it came from.
pub proof fn a_deleted_binary_names_its_release(path: Seq<char>)
    requires
        !deleted_marker().is_suffix_of(path),
    ensures
        release_of(path + deleted_marker()) == release_of(path),
{
    let marked = path + deleted_marker();
    assert(marked.subrange(marked.len() - deleted_marker().len(), marked.len() as int)
        == deleted_marker());
    assert(marked.take(path.len() as int) == path);
}

/// The state behind the service manager's word for it. A unit on its way up counts as active, a
/// failed one as inactive; an unfamiliar word is unknown.
pub open spec fn state_of(active: Seq<char>) -> UnitState {
    if active == "active"@ || active == "activating"@ || active == "reloading"@ {
        UnitState::Active
    } else if active == "inactive"@ || active == "deactivating"@ || active == "failed"@ {
        UnitState::Inactive
    } else {
        UnitState::Unknown
    }
}

/// The state behind the service manager's word for it.
pub fn unit_state(active: &str) -> (r: UnitState)
    ensures
        r == state_of(active@),
{
    if text::same(active, "active") || text::same(active, "activating") || text::same(
        active,
        "reloading",
    ) {
        UnitState::Active
    } else if text::same(active, "inactive") || text::same(active, "deactivating") || text::same(
        active,
        "failed",
    ) {
        UnitState::Inactive
    } else {
        UnitState::Unknown
    }
}

/// The service manager's answer about a unit it has loaded: the state, and the process of a unit
/// that is active. The process of any other unit is one it had once.
pub fn answer(active: &str, main_pid: Option<u32>) -> (r: (UnitState, Option<u32>))
    ensures
        r.0 == state_of(active@),
        r.1 == if state_of(active@) == UnitState::Active {
            match main_pid {
                Some(pid) => Some(pid),
                None => Some(0u32),
            }
        } else {
            None
        },
        r.1 is Some <==> r.0 == UnitState::Active,
{
    let state = unit_state(active);
    let pid: u32 = match main_pid {
        Some(pid) => pid,
        None => 0,
    };
    if state == UnitState::Active {
        (state, Some(pid))
    } else {
        (state, None)
    }
}

/// The process whose binary is worth reading: there is none behind process zero.
pub fn process_of(answered: Result<(UnitState, Option<u32>), String>) -> (r: (
    UnitState,
    Option<u32>,
))
    ensures
        match answered {
            Ok((state, pid)) => r.0 == state && r.1 == match pid {
                Some(pid) if pid > 0 => Some(pid),
                _ => None,
            },
            Err(_) => r.0 == UnitState::Unknown && r.1 is None,
        },
        r.1 matches Some(pid) ==> pid > 0,
{
    match answered {
        Ok((state, Some(pid))) => if pid > 0 {
            (state, Some(pid))
        } else {
            (state, None)
        },
        Ok((state, None)) => (state, None),
        Err(_) => (UnitState::Unknown, None),
    }
}

/// The report on one unit, from its state and the path its process was executed from.
pub fn describe(unit: &str, state: UnitState, binary: Option<String>) -> (r: ServiceUnit)
    ensures
        r.unit@ == unit@,
        r.state == state,
        r.binary == binary,
        version::option_view(r.release) == match net::text_view(binary) {
            Some(path) if state == UnitState::Active => release_of(path),
            _ => None,
        },
        r.deleted == (net::text_view(binary) matches Some(path)
            && deleted_marker().is_suffix_of(path)),
        r.release is Some ==> state == UnitState::Active && binary is Some,
        r.deleted ==> binary is Some,
{
    let release = match &binary {
        Some(path) => if state == UnitState::Active {
            release_from_path(path.as_str())
        } else {
            None
        },
        None => None,
    };
    let deleted = match &binary {
        Some(path) => text::ends_with(path.as_str(), " (deleted)"),
        None => false,
    };
    ServiceUnit { unit: unit.to_owned(), state, release, binary, deleted }
}

/// The report on one unit where there is no service manager to ask.
pub fn unasked(unit: &str) -> (r: ServiceUnit)
    ensures
        r.unit@ == unit@,
        r.state == UnitState::Unknown,
        r.release is None,
        r.binary is None,
        !r.deleted,
{
    describe(unit, UnitState::Unknown, None)
}

/// Every word of the service manager that is known here stands for one state, and every other word
/// for that it is unknown.
pub proof fn each_word_has_its_state(word: Seq<char>)
    ensures
        state_of(word) == UnitState::Active <==> word == "active"@ || word == "activating"@ || word
            == "reloading"@,
        state_of(word) == UnitState::Inactive <==> word == "inactive"@ || word == "deactivating"@
            || word == "failed"@,
{
    reveal_strlit("active");
    reveal_strlit("activating");
    reveal_strlit("reloading");
    reveal_strlit("inactive");
    reveal_strlit("deactivating");
    reveal_strlit("failed");
    assert("active"@[0] == 'a' && "failed"@[0] == 'f');
    assert("active"@.len() == 6 && "failed"@.len() == 6 && "inactive"@.len() == 8);
    assert("activating"@.len() == 10 && "reloading"@.len() == 9 && "deactivating"@.len() == 12);
}

/// A path names the release that stands behind the first `releases` followed by a version,
/// whatever the directories before and behind it are called.
pub proof fn a_path_names_its_first_release(parts: Seq<Seq<char>>, i: int)
    requires
        forall|j: int| 0 <= j < parts.len() ==> !(#[trigger] parts[j]).contains('/'),
        0 <= i < parts.len() - 1,
        parts[i] == "releases"@,
        version::semver_parsed(parts[i + 1]) is Some,
        forall|j: int|
            0 <= j < i ==> !(parts[j] == "releases"@ && version::semver_parsed(
                #[trigger] parts[j + 1],
            ) is Some),
        !deleted_marker().is_suffix_of(text::joined(parts, seq!['/'])),
    ensures
        release_of(text::joined(parts, seq!['/'])) == version::semver_parsed(parts[i + 1]),
        release_of(text::joined(parts, seq!['/']) + " (deleted)"@) == version::semver_parsed(
            parts[i + 1],
        ),
{
    let path = text::joined(parts, seq!['/']);
    text::a_join_splits_back(parts, '/');
    assert forall|j: int| 0 <= j < i implies !names_release(parts, j) by {
        assert(parts[j + 1] == parts[j + 1]);
    }
    the_first_release_in_a_path_is_named(parts, 0, i);
    a_deleted_binary_names_its_release(path);
}

/// The unit that turns a pad into intents is managed too, behind the daemons.
pub proof fn the_pad_unit_is_managed()
    ensures
        MANAGED@.len() == 5,
        MANAGED@[0]@ == "updaterd.service"@,
        MANAGED@[1]@ == "robotd.service"@,
        MANAGED@[2]@ == "configd.service"@,
        MANAGED@[3]@ == "btd.service"@,
        MANAGED@[4]@ == PADD@,
        PADD@ == "padd.service"@,
{
}

} // verus!
