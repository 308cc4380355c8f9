//! Release versions.
//!
//! What counts as a version is the `semver` crate's decision; what one is made of, how it is
//! written and when two are the same is decided here.
use vstd::prelude::*;

use crate::text;

verus! {

/// Major, minor, patch, pre-release and build metadata.
pub type VersionView = (u64, u64, u64, Seq<char>, Seq<char>);

/// One release version.
#[derive(Debug, PartialEq, Eq)]
pub struct Version {
    pub major: u64,
    pub minor: u64,
    pub patch: u64,
    /// Empty for a release.
    pub pre: String,
    /// Empty where there is none.
    pub build: String,
}

/// The version that `semver` reads from a text, or `None` where it reads none.
pub uninterp spec fn semver_parsed(s: Seq<char>) -> Option<VersionView>;

/// A dash and the pre-release, where there is one.
pub open spec fn pre_text(pre: Seq<char>) -> Seq<char> {
    if pre.len() > 0 {
        "-"@ + pre
    } else {
        Seq::empty()
    }
}

/// A plus sign and the build metadata, where there is any.
pub open spec fn build_text(build: Seq<char>) -> Seq<char> {
    if build.len() > 0 {
        "+"@ + build
    } else {
        Seq::empty()
    }
}

/// A version as it is written.
pub open spec fn version_text(v: VersionView) -> Seq<char> {
    text::dec(v.0 as nat) + "."@ + text::dec(v.1 as nat) + "."@ + text::dec(v.2 as nat) + pre_text(
        v.3,
    ) + build_text(v.4)
}

/// What a possible version views as.
pub open spec fn option_view(v: Option<Version>) -> Option<VersionView> {
    match v {
        Some(v) => Some(v@),
        None => None,
    }
}

impl View for Version {
    type V = VersionView;

    open spec fn view(&self) -> VersionView {
        (self.major, self.minor, self.patch, self.pre@, self.build@)
    }
}

/// `semver::Version::parse`, its result taken apart into plain values. The contract names the
/// result, and says of it that a version that was read is written exactly as the text it was
/// read from: numbers carry no leading zeros and the two suffixes are kept verbatim.
#[verifier::external_body]
fn semver_parse(s: &str) -> (r: Option<Version>)
    ensures
        option_view(r) == semver_parsed(s@),
        r matches Some(v) ==> version_text(v@) == s@,
{
    match semver::Version::parse(s) {
        Ok(v) => Some(
            Version {
                major: v.major,
                minor: v.minor,
                patch: v.patch,
                pre: v.pre.as_str().to_owned(),
                build: v.build.as_str().to_owned(),
            },
        ),
        Err(_) => None,
    }
}

impl Clone for Version {
    fn clone(&self) -> (r: Self)
        ensures
            r == *self,
    {
        Version {
            major: self.major,
            minor: self.minor,
            patch: self.patch,
            pre: self.pre.clone(),
            build: self.build.clone(),
        }
    }
}

impl Version {
    /// A release with no suffix.
    pub fn new(major: u64, minor: u64, patch: u64) -> (r: Self)
        ensures
            r@ == (major, minor, patch, Seq::<char>::empty(), Seq::<char>::empty()),
    {
        Version { major, minor, patch, pre: String::new(), build: String::new() }
    }

    /// The version a text spells, if it spells one. What was read is written as it was read,
    /// and so survives being written and read again.
    pub fn parse(s: &str) -> (r: Option<Version>)
        ensures
            option_view(r) == semver_parsed(s@),
            r matches Some(v) ==> version_text(v@) == s@,
            r matches Some(v) ==> semver_parsed(version_text(v@)) == Some(v@),
    {
        semver_parse(s)
    }

    /// The version as it is written.
    pub fn to_string(&self) -> (r: String)
        ensures
            r@ == version_text(self@),
    {
        let mut out = text::decimal(self.major);
        out.append(".");
        out.append(text::decimal(self.minor).as_str());
        out.append(".");
        out.append(text::decimal(self.patch).as_str());
        let pre = if self.pre.as_str().is_empty() {
            String::new()
        } else {
            "-".to_owned().concat(self.pre.as_str())
        };
        let build = if self.build.as_str().is_empty() {
            String::new()
        } else {
            "+".to_owned().concat(self.build.as_str())
        };
        out.append(pre.as_str());
        out.append(build.as_str());
        out
    }

    /// The same release, suffixes and all?
    pub fn is(&self, other: &Version) -> (r: bool)
        ensures
            r == (self@ == other@),
    {
        self.major == other.major && self.minor == other.minor && self.patch == other.patch
            && self.pre == other.pre && self.build == other.build
    }
}

// ── what a written version keeps ─────────────────────────────────────────────

/// A release is written as its three numbers with dots between them, so no two releases are
/// written alike.
pub proof fn a_release_is_three_numbers(major: u64, minor: u64, patch: u64)
    ensures
        ({
            let none = Seq::<char>::empty();
            let parts = text::split_on(version_text((major, minor, patch, none, none)), '.');
            &&& parts.len() == 3
            &&& text::value(parts[0]) == major
            &&& text::value(parts[1]) == minor
            &&& text::value(parts[2]) == patch
        }),
{
    let none = Seq::<char>::empty();
    let (a, b, c) = (text::dec(major as nat), text::dec(minor as nat), text::dec(patch as nat));
    let parts = seq![a, b, c];
    text::decimals_read_back(major as nat);
    text::decimals_read_back(minor as nat);
    text::decimals_read_back(patch as nat);
    assert forall|i: int| 0 <= i < parts.len() implies !(#[trigger] parts[i]).contains('.') by {
        assert forall|j: int| 0 <= j < parts[i].len() implies parts[i][j] != '.' by {
            assert('0' <= parts[i][j] <= '9');
        }
    }
    reveal_strlit(".");
    let dot = seq!['.'];
    assert("."@ =~= dot);
    text::joining_separates(seq![a, b], c, dot);
    text::joining_separates(seq![a], b, dot);
    text::joining_separates(Seq::empty(), a, dot);
    assert(Seq::<Seq<char>>::empty().push(a) =~= seq![a]);
    assert(seq![a].push(b) =~= seq![a, b]);
    assert(seq![a, b].push(c) =~= parts);
    assert(version_text((major, minor, patch, none, none)) =~= text::joined(parts, dot));
    text::a_join_splits_back(parts, '.');
}

/// A pre-release is written behind a dash and build metadata behind a plus sign, each exactly
/// where there is some, the pre-release first.
pub proof fn suffixes_are_added_to_a_release(v: VersionView)
    ensures
        ({
            let none = Seq::<char>::empty();
            let release = version_text((v.0, v.1, v.2, none, none));
            let pre = version_text((v.0, v.1, v.2, v.3, none));
            &&& v.3.len() > 0 ==> pre == release + seq!['-'] + v.3
            &&& v.3.len() == 0 ==> pre == release
            &&& v.4.len() > 0 ==> version_text(v) == pre + seq!['+'] + v.4
            &&& v.4.len() == 0 ==> version_text(v) == pre
        }),
{
    let none = Seq::<char>::empty();
    let release = version_text((v.0, v.1, v.2, none, none));
    let pre = version_text((v.0, v.1, v.2, v.3, none));
    reveal_strlit("-");
    reveal_strlit("+");
    assert("-"@ =~= seq!['-']);
    assert("+"@ =~= seq!['+']);
    assert(v.3.len() == 0 ==> v.3 =~= none);
    assert(v.4.len() == 0 ==> v.4 =~= none);
    let numbers = text::dec(v.0 as nat) + "."@ + text::dec(v.1 as nat) + "."@ + text::dec(
        v.2 as nat,
    );
    assert(release =~= numbers);
    if v.3.len() > 0 {
        assert(pre =~= numbers + seq!['-'] + v.3);
    }
    if v.4.len() > 0 {
        assert(version_text(v) =~= pre + seq!['+'] + v.4);
    }
}

/// A version is seen by all five of its parts.
pub proof fn a_version_is_seen_whole(v: Version)
    ensures
        v@ == (v.major, v.minor, v.patch, v.pre@, v.build@),
        option_view(Some(v)) == Some(v@),
        option_view(None) is None,
{
}

} // verus!
