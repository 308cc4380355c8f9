//! Wifi, as a stack that exists only in memory.
//!
//! It stands in for the network manager wherever there is no radio, with the failures that are
//! awkward to provoke against a real access point.
use vstd::prelude::*;

use crate::proto::{
    ConnectFailure, ConnectResult, ForgetResult, NetScanResult, NetState, NetStatusResult, Network,
    Security,
};
use crate::text;

verus! {

/// What went wrong, in terms a caller can act on.
pub type NetResult<T> = Result<T, String>;

/// A network by what it says: name, signal, security, stored or not.
pub type NetworkView = (Seq<char>, u8, Security, bool);

impl View for Network {
    type V = NetworkView;

    open spec fn view(&self) -> NetworkView {
        (self.ssid@, self.signal, self.security, self.saved)
    }
}

/// What a possible text says.
pub open spec fn text_view(s: Option<String>) -> Option<Seq<char>> {
    match s {
        Some(s) => Some(s@),
        None => None,
    }
}

/// The wifi stack by what it knows.
#[verifier::ext_equal]
pub struct FakeView {
    /// What the radio can see, and the key each network actually wants.
    pub visible: Seq<(NetworkView, Option<Seq<char>>)>,
    /// The networks that are stored, in the order they were.
    pub saved: Seq<Seq<char>>,
    pub connected: Option<Seq<char>>,
}

/// How a join ends.
pub enum JoinView {
    Connected,
    Failed(ConnectFailure, Option<Seq<char>>),
}

/// The first visible network of this name at or after `from`, or the number of them.
pub open spec fn position(
    visible: Seq<(NetworkView, Option<Seq<char>>)>,
    ssid: Seq<char>,
    from: int,
) -> int
    decreases visible.len() - from,
{
    if 0 <= from < visible.len() {
        if (visible[from].0).0 == ssid {
            from
        } else {
            position(visible, ssid, from + 1)
        }
    } else {
        visible.len() as int
    }
}

/// How joining `ssid` with `psk` ends.
pub open spec fn join_outcome(s: FakeView, ssid: Seq<char>, psk: Option<Seq<char>>) -> JoinView {
    let i = position(s.visible, ssid, 0);
    if i >= s.visible.len() {
        JoinView::Failed(ConnectFailure::NotFound, None)
    } else if (s.visible[i].0).2 == Security::Enterprise {
        JoinView::Failed(
            ConnectFailure::Unsupported,
            Some("802.1X needs a certificate flow this API does not have"@),
        )
    } else if s.visible[i].1 is Some && psk is None {
        JoinView::Failed(
            ConnectFailure::Unsupported,
            Some("this network needs a passphrase"@),
        )
    } else if s.visible[i].1 is Some && s.visible[i].1 != psk {
        JoinView::Failed(ConnectFailure::BadKey, None)
    } else {
        JoinView::Connected
    }
}

/// The stack after a join.
pub open spec fn joined(s: FakeView, ssid: Seq<char>, psk: Option<Seq<char>>) -> FakeView {
    if join_outcome(s, ssid, psk) is Connected {
        FakeView {
            visible: s.visible,
            saved: if s.saved.contains(ssid) {
                s.saved
            } else {
                s.saved.push(ssid)
            },
            connected: Some(ssid),
        }
    } else {
        s
    }
}

/// The names other than `ssid`, in order.
pub open spec fn without(saved: Seq<Seq<char>>, ssid: Seq<char>) -> Seq<Seq<char>>
    decreases saved.len(),
{
    if saved.len() == 0 {
        saved
    } else if saved.last() == ssid {
        without(saved.drop_last(), ssid)
    } else {
        without(saved.drop_last(), ssid).push(saved.last())
    }
}

/// The stack after forgetting a network.
pub open spec fn forgotten(s: FakeView, ssid: Seq<char>) -> FakeView {
    FakeView {
        visible: s.visible,
        saved: without(s.saved, ssid),
        connected: if s.connected == Some(ssid) {
            None
        } else {
            s.connected
        },
    }
}

/// The visible networks as a scan lists them, before sorting.
pub open spec fn listed(s: FakeView) -> Seq<NetworkView> {
    s.visible.map_values(
        |v: (NetworkView, Option<Seq<char>>)| ((v.0).0, (v.0).1, (v.0).2, s.saved.contains((v.0).0)),
    )
}

/// The networks with exactly this signal, in order.
pub open spec fn level(networks: Seq<NetworkView>, signal: u8) -> Seq<NetworkView>
    decreases networks.len(),
{
    if networks.len() == 0 {
        networks
    } else if networks.last().1 == signal {
        level(networks.drop_last(), signal).push(networks.last())
    } else {
        level(networks.drop_last(), signal)
    }
}

/// Strongest first.
pub open spec fn strongest_first(networks: Seq<NetworkView>) -> bool {
    forall|i: int, j: int|
        0 <= i < j < networks.len() ==> (#[trigger] networks[i]).1 >= (#[trigger] networks[j]).1
}

/// `sorted` is `networks` strongest first, networks of one strength in the order they had.
pub open spec fn sorted_by_signal(sorted: Seq<NetworkView>, networks: Seq<NetworkView>) -> bool {
    &&& strongest_first(sorted)
    &&& sorted.len() == networks.len()
    &&& forall|signal: u8| #[trigger] level(sorted, signal) == level(networks, signal)
}

/// What each network says.
pub open spec fn network_views(networks: Seq<Network>) -> Seq<NetworkView> {
    networks.map_values(|n: Network| n@)
}

/// What a status answer says.
pub open spec fn reports(r: NetStatusResult, s: FakeView) -> bool {
    &&& text_view(r.ssid) == s.connected
    &&& text_view(r.mac) == Some("50:37:cd:16:1b:92"@)
    &&& text_view(r.iface) == Some("wlan0"@)
    &&& r.ip6 is None
    &&& match s.connected {
        Some(ssid) => {
            let i = position(s.visible, ssid, 0);
            &&& r.state == NetState::Connected
            &&& text_view(r.ip4) == Some("192.168.50.63"@)
            &&& r.signal == if i < s.visible.len() {
                Some((s.visible[i].0).1)
            } else {
                None
            }
        },
        None => {
            &&& r.state == NetState::Disconnected
            &&& r.ip4 is None
            &&& r.signal is None
        },
    }
}

/// A wifi stack that exists only in memory.
#[derive(Debug)]
pub struct FakeNet {
    pub visible: Vec<(Network, Option<String>)>,
    pub saved: Vec<String>,
    pub connected: Option<String>,
}

impl View for FakeNet {
    type V = FakeView;

    open spec fn view(&self) -> FakeView {
        FakeView {
            visible: self.visible@.map_values(
                |v: (Network, Option<String>)| (v.0@, text_view(v.1)),
            ),
            saved: text::views(self.saved@),
            connected: text_view(self.connected),
        }
    }
}

fn option_is(a: &Option<String>, b: Option<&str>) -> (r: bool)
    ensures
        r == (text_view(*a) == match b {
            Some(s) => Some(s@),
            None => None,
        }),
{
    match (a, b) {
        (Some(a), Some(b)) => text::same(a.as_str(), b),
        (None, None) => true,
        _ => false,
    }
}

impl FakeNet {
    /// Nothing is stored twice, and what is connected is stored.
    pub open spec fn wf(&self) -> bool {
        sound(self@)
    }

    /// Two networks in range: one secured with a known key, one open.
    pub fn new() -> (r: Self)
        ensures
            r.wf(),
            r@.visible =~= seq![
                (("Pollen"@, 82u8, Security::WpaPsk, false), Some("correct-key"@)),
                (("Cafe"@, 41u8, Security::Open, false), None),
            ],
            r@.saved.len() == 0,
            r@.connected is None,
    {
        let mut visible: Vec<(Network, Option<String>)> = Vec::new();
        visible.push(
            (
                Network {
                    ssid: "Pollen".to_owned(),
                    signal: 82,
                    security: Security::WpaPsk,
                    saved: false,
                },
                Some("correct-key".to_owned()),
            ),
        );
        visible.push(
            (
                Network {
                    ssid: "Cafe".to_owned(),
                    signal: 41,
                    security: Security::Open,
                    saved: false,
                },
                None,
            ),
        );
        Self::with_visible(visible)
    }

    /// These networks in range, nothing stored, nothing connected.
    pub fn with_visible(visible: Vec<(Network, Option<String>)>) -> (r: Self)
        ensures
            r.wf(),
            r.visible == visible,
            r@.saved.len() == 0,
            r@.connected is None,
    {
        FakeNet { visible, saved: Vec::new(), connected: None }
    }

    fn find(&self, ssid: &str) -> (r: usize)
        ensures
            r == position(self@.visible, ssid@, 0),
            r <= self.visible@.len(),
    {
        let mut i: usize = 0;
        while i < self.visible.len()
            invariant
                i <= self.visible@.len(),
                position(self@.visible, ssid@, 0) == position(self@.visible, ssid@, i as int),
            ensures
                i <= self.visible@.len(),
                i == position(self@.visible, ssid@, 0),
            decreases self.visible@.len() - i,
        {
            assert((self@.visible[i as int].0).0 == self.visible@[i as int].0.ssid@);
            if text::same(self.visible[i].0.ssid.as_str(), ssid) {
                break;
            }
            i = i + 1;
        }
        i
    }

    fn is_saved(&self, ssid: &str) -> (r: bool)
        ensures
            r == self@.saved.contains(ssid@),
    {
        let mut i: usize = 0;
        while i < self.saved.len()
            invariant
                i <= self.saved@.len(),
                forall|j: int| 0 <= j < i ==> self@.saved[j] != ssid@,
            decreases self.saved@.len() - i,
        {
            assert(self@.saved[i as int] == self.saved@[i as int]@);
            if text::same(self.saved[i].as_str(), ssid) {
                return true;
            }
            i = i + 1;
        }
        false
    }

    /// Connected to what, and how well.
    pub fn status(&self) -> (r: NetResult<NetStatusResult>)
        ensures
            r matches Ok(status) && reports(status, self@),
    {
        let mac = Some("50:37:cd:16:1b:92".to_owned());
        let iface = Some("wlan0".to_owned());
        match &self.connected {
            Some(ssid) => {
                let i = self.find(ssid.as_str());
                let signal: Option<u8> = if i < self.visible.len() {
                    Some(self.visible[i].0.signal)
                } else {
                    None
                };
                Ok(
                    NetStatusResult {
                        state: NetState::Connected,
                        ssid: Some(ssid.clone()),
                        signal,
                        ip4: Some("192.168.50.63".to_owned()),
                        ip6: None,
                        mac,
                        iface,
                    },
                )
            },
            None => Ok(
                NetStatusResult {
                    state: NetState::Disconnected,
                    ssid: None,
                    signal: None,
                    ip4: None,
                    ip6: None,
                    mac,
                    iface,
                },
            ),
        }
    }

    /// The networks in range, strongest first, each marked stored or not.
    pub fn scan(&self) -> (r: NetResult<NetScanResult>)
        ensures
            r matches Ok(scan) && sorted_by_signal(network_views(scan.networks@), listed(self@)),
    {
        let mut networks: Vec<Network> = Vec::new();
        let ghost all = listed(self@);
        let mut i: usize = 0;
        assert(network_views(networks@) == all.take(0));
        while i < self.visible.len()
            invariant
                i <= self.visible@.len(),
                all == listed(self@),
                sorted_by_signal(network_views(networks@), all.take(i as int)),
            decreases self.visible@.len() - i,
        {
            let seen = &self.visible[i].0;
            let saved = self.is_saved(seen.ssid.as_str());
            let network = Network {
                ssid: seen.ssid.clone(),
                signal: seen.signal,
                security: seen.security,
                saved,
            };
            let ghost before = network_views(networks@);
            let ghost new = network@;
            assert(new == all[i as int]);
            let mut at: usize = 0;
            while at < networks.len()
                invariant
                    at <= networks@.len(),
                    before == network_views(networks@),
                    forall|j: int| 0 <= j < at ==> (#[trigger] before[j]).1 >= new.1,
                    network@ == new,
                ensures
                    at <= networks@.len(),
                    forall|j: int| 0 <= j < at ==> (#[trigger] before[j]).1 >= new.1,
                    at < networks@.len() ==> before[at as int].1 < new.1,
                decreases networks@.len() - at,
            {
                assert(before[at as int].1 == networks@[at as int].signal);
                if networks[at].signal < network.signal {
                    break;
                }
                at = at + 1;
            }
            networks.insert(at, network);
            assert(network_views(networks@) == before.insert(at as int, new));
            proof {
                insertion_keeps_the_order(before, all.take(i as int), at as int, new);
            }
            i = i + 1;
            assert(all.take(i as int) == all.take(i - 1).push(new));
        }
        assert(all.take(i as int) == all);
        Ok(NetScanResult { networks })
    }

    /// Join a network, and store it so that it is rejoined by itself.
    pub fn connect(&mut self, ssid: &str, psk: Option<&str>) -> (r: NetResult<ConnectResult>)
        requires
            old(self).wf(),
        ensures
            final(self).wf(),
            final(self)@ == joined(old(self)@, ssid@, key_view(psk)),
            r matches Ok(result) && joins(
                result,
                ssid@,
                join_outcome(old(self)@, ssid@, key_view(psk)),
            ),
    {
        let i = self.find(ssid);
        if i >= self.visible.len() {
            return Ok(ConnectResult::Failed { reason: ConnectFailure::NotFound, detail: None });
        }
        let ghost entry = self@.visible[i as int];
        assert(entry == (self.visible@[i as int].0@, text_view(self.visible@[i as int].1)));
        if self.visible[i].0.security == Security::Enterprise {
            return Ok(
                ConnectResult::Failed {
                    reason: ConnectFailure::Unsupported,
                    detail: Some(
                        "802.1X needs a certificate flow this API does not have".to_owned(),
                    ),
                },
            );
        }
        if self.visible[i].1.is_some() {
            if psk.is_none() {
                return Ok(
                    ConnectResult::Failed {
                        reason: ConnectFailure::Unsupported,
                        detail: Some("this network needs a passphrase".to_owned()),
                    },
                );
            }
            if !option_is(&self.visible[i].1, psk) {
                return Ok(ConnectResult::Failed { reason: ConnectFailure::BadKey, detail: None });
            }
        }
        let known = self.is_saved(ssid);
        let ghost before = self@;
        if !known {
            self.saved.push(ssid.to_owned());
            assert(text::views(self.saved@) == before.saved.push(ssid@));
        }
        self.connected = Some(ssid.to_owned());
        assert(self@ == joined(before, ssid@, key_view(psk)));
        proof {
            a_join_is_remembered(before, ssid@, key_view(psk));
        }
        Ok(
            ConnectResult::Connected {
                ssid: ssid.to_owned(),
                ip4: Some("192.168.50.63".to_owned()),
            },
        )
    }

    /// Forget a stored network, and leave it if it is the one in use.
    pub fn forget(&mut self, ssid: &str) -> (r: NetResult<ForgetResult>)
        requires
            old(self).wf(),
        ensures
            final(self).wf(),
            final(self)@ == forgotten(old(self)@, ssid@),
            r matches Ok(result) && result.removed == old(self)@.saved.contains(ssid@),
    {
        let ghost before = self@;
        let removed = self.is_saved(ssid);
        let mut kept: Vec<String> = Vec::new();
        let mut i: usize = 0;
        while i < self.saved.len()
            invariant
                i <= self.saved@.len(),
                before == self@,
                text::views(kept@) == without(before.saved.take(i as int), ssid@),
            decreases self.saved@.len() - i,
        {
            let ghost had = text::views(kept@);
            assert(before.saved.take(i + 1).drop_last() == before.saved.take(i as int));
            assert(before.saved.take(i + 1).last() == self.saved@[i as int]@);
            if !text::same(self.saved[i].as_str(), ssid) {
                kept.push(self.saved[i].clone());
                assert(text::views(kept@) == had.push(self.saved@[i as int]@));
            }
            i = i + 1;
        }
        assert(before.saved.take(i as int) == before.saved);
        self.saved = kept;
        if option_is(&self.connected, Some(ssid)) {
            self.connected = None;
        }
        assert(self@ == forgotten(before, ssid@));
        proof {
            forgetting_forgets(before, ssid@);
        }
        Ok(ForgetResult { removed })
    }
}

impl Default for FakeNet {
    fn default() -> (r: Self)
        ensures
            r.wf(),
            r@.visible =~= seq![
                (("Pollen"@, 82u8, Security::WpaPsk, false), Some("correct-key"@)),
                (("Cafe"@, 41u8, Security::Open, false), None),
            ],
            r@.saved.len() == 0,
            r@.connected is None,
    {
        Self::new()
    }
}

/// What a possible key says.
pub open spec fn key_view(psk: Option<&str>) -> Option<Seq<char>> {
    match psk {
        Some(s) => Some(s@),
        None => None,
    }
}

/// Does this answer say how the join ended?
pub open spec fn joins(r: ConnectResult, ssid: Seq<char>, outcome: JoinView) -> bool {
    match (r, outcome) {
        (ConnectResult::Connected { ssid: s, ip4 }, JoinView::Connected) => s@ == ssid
            && text_view(ip4) == Some("192.168.50.63"@),
        (
            ConnectResult::Failed { reason, detail },
            JoinView::Failed(why, said),
        ) => reason == why && text_view(detail) == said,
        _ => false,
    }
}

// ── what the stack keeps ─────────────────────────────────────────────────────

/// Nothing is stored twice, and what is connected is stored.
pub open spec fn sound(s: FakeView) -> bool {
    &&& s.saved.no_duplicates()
    &&& s.connected matches Some(ssid) ==> s.saved.contains(ssid)
}

/// A join that succeeds leaves the network connected and stored, once, with everything else
/// that was stored; one that fails changes nothing.
pub proof fn a_join_is_remembered(s: FakeView, ssid: Seq<char>, psk: Option<Seq<char>>)
    requires
        sound(s),
    ensures
        sound(joined(s, ssid, psk)),
        join_outcome(s, ssid, psk) is Connected ==> {
            &&& joined(s, ssid, psk).connected == Some(ssid)
            &&& joined(s, ssid, psk).saved.contains(ssid)
            &&& forall|other: Seq<char>|
                s.saved.contains(other) ==> joined(s, ssid, psk).saved.contains(other)
        },
        !(join_outcome(s, ssid, psk) is Connected) ==> joined(s, ssid, psk) == s,
{
    let after = joined(s, ssid, psk);
    if join_outcome(s, ssid, psk) is Connected {
        if !s.saved.contains(ssid) {
            assert(after.saved[s.saved.len() as int] == ssid);
            assert forall|other: Seq<char>| s.saved.contains(other) implies after.saved.contains(
                other,
            ) by {
                let i = choose|i: int| 0 <= i < s.saved.len() && s.saved[i] == other;
                assert(after.saved[i] == other);
            }
        }
    }
}

/// Leaving a name out leaves exactly that name out, and keeps the order of the rest.
pub proof fn without_leaves_one_name_out(saved: Seq<Seq<char>>, ssid: Seq<char>)
    ensures
        without(saved, ssid).len() <= saved.len(),
        forall|other: Seq<char>|
            without(saved, ssid).contains(other) <==> saved.contains(other) && other != ssid,
        saved.no_duplicates() ==> without(saved, ssid).no_duplicates(),
        !saved.contains(ssid) ==> without(saved, ssid) == saved,
    decreases saved.len(),
{
    if saved.len() > 0 {
        let rest = saved.drop_last();
        let last = saved.last();
        without_leaves_one_name_out(rest, ssid);
        let kept = without(rest, ssid);
        assert forall|other: Seq<char>| without(saved, ssid).contains(other) <==> saved.contains(
            other,
        ) && other != ssid by {
            if saved.contains(other) && other != ssid {
                let i = choose|i: int| 0 <= i < saved.len() && saved[i] == other;
                if i < rest.len() {
                    assert(rest[i] == other);
                    assert(rest.contains(other));
                    assert(kept.contains(other));
                    let j = choose|j: int| 0 <= j < kept.len() && kept[j] == other;
                    if last != ssid {
                        assert(kept.push(last)[j] == other);
                    }
                } else {
                    assert(kept.push(last)[kept.len() as int] == other);
                }
            }
            if without(saved, ssid).contains(other) {
                let j = choose|j: int|
                    0 <= j < without(saved, ssid).len() && without(saved, ssid)[j] == other;
                if last != ssid && j == kept.len() {
                    assert(saved[rest.len() as int] == other);
                } else {
                    assert(kept[j] == other);
                    assert(kept.contains(other));
                    assert(rest.contains(other));
                    let i = choose|i: int| 0 <= i < rest.len() && rest[i] == other;
                    assert(saved[i] == other);
                }
            }
        }
        if saved.no_duplicates() {
            assert(rest.no_duplicates());
            if last != ssid {
                assert(!kept.contains(last)) by {
                    if kept.contains(last) {
                        assert(rest.contains(last));
                        let i = choose|i: int| 0 <= i < rest.len() && rest[i] == last;
                        assert(saved[i] == saved[rest.len() as int]);
                    }
                }
                assert forall|a: int, b: int|
                    0 <= a < kept.len() + 1 && 0 <= b < kept.len() + 1 && a != b implies kept.push(
                    last,
                )[a] != kept.push(last)[b] by {
                    if a == kept.len() {
                        assert(kept[b] != last);
                    }
                    if b == kept.len() {
                        assert(kept[a] != last);
                    }
                }
            }
        }
        if !saved.contains(ssid) {
            assert(saved[rest.len() as int] != ssid);
            assert(!rest.contains(ssid)) by {
                if rest.contains(ssid) {
                    let i = choose|i: int| 0 <= i < rest.len() && rest[i] == ssid;
                    assert(saved[i] == ssid);
                }
            }
            assert(rest.push(last) == saved);
        }
    }
}

/// Forgetting a network leaves it neither stored nor connected, and every other one as it was;
/// forgetting it again changes nothing more.
pub proof fn forgetting_forgets(s: FakeView, ssid: Seq<char>)
    requires
        sound(s),
    ensures
        sound(forgotten(s, ssid)),
        !forgotten(s, ssid).saved.contains(ssid),
        forgotten(s, ssid).connected != Some(ssid),
        forall|other: Seq<char>|
            other != ssid ==> (forgotten(s, ssid).saved.contains(other) == s.saved.contains(other)),
        s.connected != Some(ssid) ==> forgotten(s, ssid).connected == s.connected,
        forgotten(forgotten(s, ssid), ssid) == forgotten(s, ssid),
{
    without_leaves_one_name_out(s.saved, ssid);
    without_leaves_one_name_out(forgotten(s, ssid).saved, ssid);
    assert(forgotten(forgotten(s, ssid), ssid) == forgotten(s, ssid));
}

/// Joining a network and forgetting it again leaves nothing of it: where it was not stored
/// before, the stored networks are those there were.
pub proof fn a_join_can_be_undone(s: FakeView, ssid: Seq<char>, psk: Option<Seq<char>>)
    requires
        sound(s),
        !s.saved.contains(ssid),
        join_outcome(s, ssid, psk) is Connected,
    ensures
        forgotten(joined(s, ssid, psk), ssid).saved == s.saved,
        forgotten(joined(s, ssid, psk), ssid).connected is None,
{
    without_leaves_one_name_out(s.saved, ssid);
    assert(s.saved.push(ssid).drop_last() == s.saved);
}

/// The networks of one strength in a list made of two.
proof fn level_of_two_lists(a: Seq<NetworkView>, b: Seq<NetworkView>, signal: u8)
    ensures
        level(a + b, signal) == level(a, signal) + level(b, signal),
    decreases b.len(),
{
    if b.len() == 0 {
        assert(a + b == a);
        assert(level(a, signal) + level(b, signal) == level(a, signal));
    } else {
        level_of_two_lists(a, b.drop_last(), signal);
        assert((a + b).drop_last() == a + b.drop_last());
        assert((a + b).last() == b.last());
        assert(level(a + b, signal) == level(a, signal) + level(b, signal));
    }
}

/// Weaker networks have no part in a strength.
proof fn level_of_others(a: Seq<NetworkView>, signal: u8)
    requires
        forall|i: int| 0 <= i < a.len() ==> (#[trigger] a[i]).1 != signal,
    ensures
        level(a, signal).len() == 0,
    decreases a.len(),
{
    if a.len() > 0 {
        assert(a[a.len() - 1].1 != signal);
        assert forall|i: int| 0 <= i < a.drop_last().len() implies (
        #[trigger] a.drop_last()[i]).1 != signal by {
            assert(a.drop_last()[i] == a[i]);
        }
        level_of_others(a.drop_last(), signal);
    }
}

/// A network put behind every one at least as strong leaves the list sorted, and itself the
/// last of its strength.
proof fn insertion_keeps_the_order(
    sorted: Seq<NetworkView>,
    networks: Seq<NetworkView>,
    at: int,
    new: NetworkView,
)
    requires
        sorted_by_signal(sorted, networks),
        0 <= at <= sorted.len(),
        forall|j: int| 0 <= j < at ==> (#[trigger] sorted[j]).1 >= new.1,
        at < sorted.len() ==> sorted[at].1 < new.1,
    ensures
        sorted_by_signal(sorted.insert(at, new), networks.push(new)),
{
    let after = sorted.insert(at, new);
    let front = sorted.take(at);
    let back = sorted.skip(at);
    assert(sorted == front + back);
    assert(after == front + seq![new] + back);
    assert forall|i: int, j: int| 0 <= i < j < after.len() implies (#[trigger] after[i]).1 >= (
    #[trigger] after[j]).1 by {
        let i0 = if i < at { i } else { i - 1 };
        let j0 = if j < at { j } else { j - 1 };
        if i == at {
            assert(sorted[at].1 >= sorted[j0].1 || at == j0);
        } else if j == at {
            assert(sorted[i0].1 >= new.1);
        } else {
            assert(after[i] == sorted[i0]);
            assert(after[j] == sorted[j0]);
        }
    }
    assert forall|signal: u8| #[trigger] level(after, signal) == level(
        networks.push(new),
        signal,
    ) by {
        level_of_two_lists(front, back, signal);
        level_of_two_lists(front, seq![new], signal);
        level_of_two_lists(front + seq![new], back, signal);
        assert(seq![new].drop_last() == Seq::<NetworkView>::empty());
        assert(networks.push(new).drop_last() == networks);
        assert(level(sorted, signal) == level(networks, signal));
        reveal_with_fuel(level, 2);
        if new.1 == signal {
            assert forall|i: int| 0 <= i < back.len() implies (#[trigger] back[i]).1 != signal by {
                assert(back[i] == sorted[at + i]);
                assert(sorted[at].1 >= sorted[at + i].1 || i == 0);
            }
            level_of_others(back, signal);
            assert(level(seq![new], signal) == seq![new]);
            assert(level(after, signal) == level(networks, signal).push(new));
        } else {
            assert(level(seq![new], signal) == Seq::<NetworkView>::empty());
            assert(level(after, signal) == level(networks, signal));
        }
    }
}

/// The first network of a name is the one that is meant: it has the name, and none before it has.
pub proof fn the_first_of_a_name_is_meant(
    visible: Seq<(NetworkView, Option<Seq<char>>)>,
    ssid: Seq<char>,
    from: int,
)
    requires
        0 <= from <= visible.len(),
    ensures
        ({
            let i = position(visible, ssid, from);
            &&& from <= i <= visible.len()
            &&& i < visible.len() ==> (visible[i].0).0 == ssid
            &&& forall|j: int| from <= j < i ==> ((#[trigger] visible[j]).0).0 != ssid
        }),
    decreases visible.len() - from,
{
    if from < visible.len() && (visible[from].0).0 != ssid {
        the_first_of_a_name_is_meant(visible, ssid, from + 1);
    }
}

/// How a join ends is decided by the first visible network of the name, at `i`, alone: an
/// enterprise network is not supported, an open one takes any key, and a secured one takes
/// exactly its own.
pub proof fn only_the_right_key_joins(
    s: FakeView,
    ssid: Seq<char>,
    psk: Option<Seq<char>>,
    i: int,
)
    requires
        0 <= i < s.visible.len(),
        (s.visible[i].0).0 == ssid,
        forall|j: int| 0 <= j < i ==> ((#[trigger] s.visible[j]).0).0 != ssid,
    ensures
        ({
            let outcome = join_outcome(s, ssid, psk);
            let enterprise = (s.visible[i].0).2 == Security::Enterprise;
            let key = s.visible[i].1;
            &&& outcome is Connected <==> !enterprise && (key is None || psk == key)
            &&& (outcome matches JoinView::Failed(why, _) && why == ConnectFailure::BadKey)
                <==> !enterprise && key is Some && psk is Some && psk->0 != key->0
            &&& (outcome matches JoinView::Failed(why, _) && why == ConnectFailure::Unsupported)
                <==> enterprise || (key is Some && psk is None)
            &&& outcome matches JoinView::Failed(why, _) ==> why != ConnectFailure::NotFound
        }),
{
    the_first_of_a_name_is_meant(s.visible, ssid, 0);
    let p = position(s.visible, ssid, 0);
    if p < i {
        assert((s.visible[p].0).0 != ssid);
    }
    if i < p {
        assert((s.visible[i].0).0 != ssid);
    }
}

/// A network nobody can see is not found, whatever key is given.
pub proof fn what_is_out_of_range_is_not_found(
    s: FakeView,
    ssid: Seq<char>,
    psk: Option<Seq<char>>,
)
    requires
        forall|j: int| 0 <= j < s.visible.len() ==> ((#[trigger] s.visible[j]).0).0 != ssid,
    ensures
        join_outcome(s, ssid, psk) matches JoinView::Failed(why, detail) && why
            == ConnectFailure::NotFound && detail is None,
{
    the_first_of_a_name_is_meant(s.visible, ssid, 0);
}

/// Neither joining nor forgetting changes what is in range, or any other network that is stored.
/// A network that is joined for the first time is stored behind the others.
pub proof fn only_the_named_network_is_touched(
    s: FakeView,
    ssid: Seq<char>,
    psk: Option<Seq<char>>,
)
    ensures
        joined(s, ssid, psk).visible == s.visible,
        forgotten(s, ssid).visible == s.visible,
        s.saved.is_prefix_of(joined(s, ssid, psk).saved),
        joined(s, ssid, psk).saved.len() <= s.saved.len() + 1,
        join_outcome(s, ssid, psk) is Connected && !s.saved.contains(ssid) ==> joined(
            s,
            ssid,
            psk,
        ).saved == s.saved.push(ssid),
        forgotten(s, ssid).saved == s.saved.filter(|name: Seq<char>| name != ssid),
{
    let after = joined(s, ssid, psk).saved;
    assert(after.subrange(0, s.saved.len() as int) =~= s.saved);
    without_is_a_filter(s.saved, ssid);
}

proof fn without_is_a_filter(saved: Seq<Seq<char>>, ssid: Seq<char>)
    ensures
        without(saved, ssid) == saved.filter(|name: Seq<char>| name != ssid),
    decreases saved.len(),
{
    reveal(Seq::filter);
    if saved.len() > 0 {
        without_is_a_filter(saved.drop_last(), ssid);
    }
}

/// A scan lists every network in range once, with its own name, strength and security, and marks
/// exactly those that are stored.
pub proof fn a_scan_lists_what_is_in_range(s: FakeView, i: int)
    requires
        0 <= i < s.visible.len(),
    ensures
        listed(s).len() == s.visible.len(),
        listed(s)[i].0 == (s.visible[i].0).0,
        listed(s)[i].1 == (s.visible[i].0).1,
        listed(s)[i].2 == (s.visible[i].0).2,
        listed(s)[i].3 <==> s.saved.contains((s.visible[i].0).0),
{
}

proof fn a_strength_keeps_its_networks(networks: Seq<NetworkView>, n: NetworkView)
    ensures
        networks.to_multiset().count(n) == level(networks, n.1).to_multiset().count(n),
    decreases networks.len(),
{
    broadcast use vstd::seq_lib::group_to_multiset_ensures;

    if networks.len() > 0 {
        let rest = networks.drop_last();
        let last = networks.last();
        a_strength_keeps_its_networks(rest, n);
        assert(rest.push(last) == networks);
        assert(networks.to_multiset() == rest.to_multiset().insert(last));
        if last.1 == n.1 {
            assert(level(rest, n.1).push(last).to_multiset() == level(
                rest,
                n.1,
            ).to_multiset().insert(last));
        }
    }
}

/// Sorting by strength loses no network and makes none up, and puts the strongest first.
pub proof fn sorting_keeps_every_network(sorted: Seq<NetworkView>, networks: Seq<NetworkView>)
    requires
        sorted_by_signal(sorted, networks),
    ensures
        sorted.to_multiset() == networks.to_multiset(),
        forall|i: int, j: int| 0 <= i < j < sorted.len() ==> sorted[i].1 >= sorted[j].1,
{
    assert forall|n: NetworkView| sorted.to_multiset().count(n) == networks.to_multiset().count(
        n,
    ) by {
        a_strength_keeps_its_networks(sorted, n);
        a_strength_keeps_its_networks(networks, n);
        assert(level(sorted, n.1) == level(networks, n.1));
    }
    assert(sorted.to_multiset() =~= networks.to_multiset());
}

/// Networks of one strength stay in the order they had.
pub proof fn equal_networks_keep_their_order(networks: Seq<NetworkView>, signal: u8)
    ensures
        level(networks, signal) == networks.filter(|n: NetworkView| n.1 == signal),
    decreases networks.len(),
{
    reveal(Seq::filter);
    if networks.len() > 0 {
        equal_networks_keep_their_order(networks.drop_last(), signal);
    }
}

/// The status after a join says connected, to what and how well it is heard, with the address
/// that the join was answered with; and after forgetting that network it says disconnected, with
/// neither.
pub proof fn a_status_follows_a_join(
    s: FakeView,
    ssid: Seq<char>,
    psk: Option<Seq<char>>,
    i: int,
    answer: ConnectResult,
    after: NetStatusResult,
    later: NetStatusResult,
)
    requires
        join_outcome(s, ssid, psk) is Connected,
        0 <= i < s.visible.len(),
        (s.visible[i].0).0 == ssid,
        forall|j: int| 0 <= j < i ==> ((#[trigger] s.visible[j]).0).0 != ssid,
        joins(answer, ssid, join_outcome(s, ssid, psk)),
        reports(after, joined(s, ssid, psk)),
        reports(later, forgotten(joined(s, ssid, psk), ssid)),
    ensures
        answer is Connected,
        answer->ssid@ == ssid,
        after.state == NetState::Connected,
        text_view(after.ssid) == Some(ssid),
        after.signal == Some((s.visible[i].0).1),
        text_view(after.ip4) == text_view(answer->ip4),
        after.ip4 is Some,
        text_view(later.mac) == text_view(after.mac),
        text_view(later.iface) == text_view(after.iface),
        after.mac is Some,
        after.iface is Some,
        later.state == NetState::Disconnected,
        later.ssid is None,
        later.signal is None,
        later.ip4 is None,
        after.ip6 is None,
        later.ip6 is None,
{
    the_first_of_a_name_is_meant(s.visible, ssid, 0);
    let p = position(s.visible, ssid, 0);
    if p < i {
        assert((s.visible[p].0).0 != ssid);
    }
    if i < p {
        assert((s.visible[i].0).0 != ssid);
    }
}

/// A join that failed is answered with the failure it was.
pub proof fn a_failed_join_is_answered_as_one(
    answer: ConnectResult,
    ssid: Seq<char>,
    why: ConnectFailure,
    detail: Option<Seq<char>>,
)
    requires
        joins(answer, ssid, JoinView::Failed(why, detail)),
    ensures
        answer is Failed,
        answer->reason == why,
        text_view(answer->detail) == detail,
{
}

/// Nothing of the stack is left out of what is seen of it: every network in range with its key,
/// every stored name, and what is connected.
pub proof fn the_stack_is_seen_whole(net: FakeNet, i: int, j: int)
    ensures
        net@.visible.len() == net.visible@.len(),
        net@.saved.len() == net.saved@.len(),
        0 <= i < net.visible@.len() ==> {
            &&& (net@.visible[i].0).0 == net.visible@[i].0.ssid@
            &&& (net@.visible[i].0).1 == net.visible@[i].0.signal
            &&& (net@.visible[i].0).2 == net.visible@[i].0.security
            &&& (net@.visible[i].0).3 == net.visible@[i].0.saved
            &&& net.visible@[i].1 matches Some(key) ==> net@.visible[i].1 == Some(key@)
            &&& net.visible@[i].1 is None ==> net@.visible[i].1 is None
        },
        0 <= j < net.saved@.len() ==> net@.saved[j] == net.saved@[j]@,
        net.connected matches Some(ssid) ==> net@.connected == Some(ssid@),
        net.connected is None ==> net@.connected is None,
{
}

/// What a key or a name says is all of it, and saying nothing is told from saying an empty text.
pub proof fn a_text_is_seen_whole(a: String, key: &str)
    ensures
        text_view(Some(a)) == Some(a@),
        text_view(None) is None,
        key_view(Some(key)) == Some(key@),
        key_view(None) is None,
{
}

/// Every network of a scan is seen, in order.
pub proof fn every_network_is_seen(networks: Seq<Network>, i: int)
    requires
        0 <= i < networks.len(),
    ensures
        network_views(networks).len() == networks.len(),
        network_views(networks)[i] == (
            networks[i].ssid@,
            networks[i].signal,
            networks[i].security,
            networks[i].saved,
        ),
{
}

} // verus!
