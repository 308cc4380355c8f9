//! The GATT contract: the UUIDs a client must know, and what each characteristic allows.
//!
//! Random version 4 UUIDs, by their 128-bit value. They must not change once an app has shipped
//! against them.
use vstd::prelude::*;

use crate::proto;
use crate::text;

verus! {

/// The robot's service, 6f5d2a10-3b47-4c8e-9a1f-2d7e8c4b6019. What a client scans for.
pub const SERVICE_UUID: u128 = 0x6f5d2a10_3b47_4c8e_9a1f_2d7e8c4b6019;

/// Central to robot, 6f5d2a11-3b47-4c8e-9a1f-2d7e8c4b6019. Request bytes are written here.
pub const REQUEST_UUID: u128 = 0x6f5d2a11_3b47_4c8e_9a1f_2d7e8c4b6019;

/// Robot to central, 6f5d2a12-3b47-4c8e-9a1f-2d7e8c4b6019. Responses are notified here.
pub const RESPONSE_UUID: u128 = 0x6f5d2a12_3b47_4c8e_9a1f_2d7e8c4b6019;

/// No two of them are the same.
pub proof fn the_uuids_are_distinct()
    ensures
        SERVICE_UUID != REQUEST_UUID,
        SERVICE_UUID != RESPONSE_UUID,
        REQUEST_UUID != RESPONSE_UUID,
{
}

/// The characteristics are numbered from the service on, in the first group alone, and all three
/// are random UUIDs.
pub proof fn the_uuids_are_numbered_in_order()
    ensures
        REQUEST_UUID == SERVICE_UUID + 0x1_0000_0000_0000_0000_0000_0000,
        RESPONSE_UUID == REQUEST_UUID + 0x1_0000_0000_0000_0000_0000_0000,
        SERVICE_UUID as int / 0x1000_0000_0000_0000_0000 % 16 == 4,
{
}

/// How many pieces may queue in either direction before a backend has to slow down.
pub const QUEUE: usize = 32;

/// The notification payload every link is required to support.
pub const FLOOR_MTU: usize = 20;

/// How long to wait between attempts to find an adapter, seconds.
pub const ADAPTER_RETRY_SECONDS: u64 = 5;

/// What is served, and under what protection.
#[derive(Debug, Clone, Copy, PartialEq, Eq, Structural)]
pub struct Plan {
    /// May a device pair at all?
    pub pairable: bool,
    /// Is there an agent to answer passkey requests?
    pub agent: bool,
    /// Reading needs a bond made with a passkey, which is what makes a client start pairing.
    pub encrypt_authenticated_read: bool,
    pub write: bool,
    pub write_without_response: bool,
    /// Writing needs a bond made with a passkey.
    pub encrypt_authenticated_write: bool,
    pub notify: bool,
}

/// With pairing required nothing can be read or written without an authenticated bond, and
/// without it everything is open.
pub fn plan(require_pairing: bool) -> (r: Plan)
    ensures
        r.pairable == require_pairing,
        r.agent == require_pairing,
        r.encrypt_authenticated_read == require_pairing,
        r.encrypt_authenticated_write == require_pairing,
        r.write,
        r.write_without_response,
        r.notify,
{
    Plan {
        pairable: require_pairing,
        agent: require_pairing,
        encrypt_authenticated_read: require_pairing,
        write: true,
        write_without_response: true,
        encrypt_authenticated_write: require_pairing,
        notify: true,
    }
}

/// What reading the characteristic answers: the protocol version.
pub fn read_value() -> (r: Vec<u8>)
    ensures
        r@ == seq![proto::API_VERSION as u8],
        r@ == seq![2u8],
{
    let mut out: Vec<u8> = Vec::new();
    out.push(proto::API_VERSION as u8);
    out
}

/// How handing a written piece to the session went.
#[derive(Debug, Clone, Copy, PartialEq, Eq, Structural)]
pub enum Enqueued {
    Taken,
    Full,
    Closed,
}

/// Is the write acknowledged? A piece the session did not take is refused, never dropped: the
/// client can send the request again, where a line with a piece missing might still parse.
pub fn acknowledges(how: Enqueued) -> (r: bool)
    ensures
        r <==> how == Enqueued::Taken,
{
    match how {
        Enqueued::Taken => true,
        Enqueued::Full | Enqueued::Closed => false,
    }
}

/// The one subscription there is, held by at most one central at a time.
#[derive(Debug)]
pub struct Slot<T> {
    pub idle: Option<T>,
}

impl<T> Slot<T> {
    /// Nobody subscribed yet.
    pub fn new(feed: T) -> (r: Self)
        ensures
            r.idle == Some(feed),
    {
        Slot { idle: Some(feed) }
    }

    /// A central subscribes. `None` while another one holds the feed.
    pub fn subscribe(&mut self) -> (r: Option<T>)
        ensures
            r == old(self).idle,
            final(self).idle is None,
    {
        self.idle.take()
    }

    /// A central went away: the feed is there for the next one.
    pub fn unsubscribe(&mut self, feed: T)
        ensures
            final(self).idle == Some(feed),
    {
        self.idle = Some(feed);
    }
}

/// The name to advertise: the host's, or `robot` where it has none.
pub open spec fn name_of(hostname: Option<Seq<char>>) -> Seq<char> {
    match hostname {
        Some(s) if text::trimmed(s).len() > 0 => text::trimmed(s),
        _ => "robot"@,
    }
}

/// The name to advertise, from what the hostname file holds.
pub fn advertised_name(hostname: Option<&str>) -> (r: String)
    ensures
        r@ == name_of(
            match hostname {
                Some(s) => Some(s@),
                None => None,
            },
        ),
{
    if let Some(s) = hostname {
        let name = text::trim(s);
        if !name.as_str().is_empty() {
            return name;
        }
    }
    "robot".to_owned()
}

/// The name is never empty: a host that has one is advertised by it, without the whitespace
/// round it, and any other as a robot.
pub proof fn a_host_is_advertised_by_its_name(name: Seq<char>, end: Seq<char>, s: Seq<char>)
    requires
        name.len() > 0,
        !text::is_white_space(name[0]),
        !text::is_white_space(name.last()),
        forall|i: int| 0 <= i < end.len() ==> text::is_white_space(#[trigger] end[i]),
        forall|i: int| 0 <= i < s.len() ==> text::is_white_space(#[trigger] s[i]),
    ensures
        name_of(Some(name)) == name,
        name_of(Some(name + end)) == name,
        name_of(Some(s)) == "robot"@,
        name_of(None) == "robot"@,
{
    a_name_is_trimmed(name, end);
    a_name_is_trimmed(name, Seq::empty());
    assert(name + Seq::<char>::empty() =~= name);
    text::only_whitespace_is_trimmed_off(s);
    if text::trimmed(s).len() > 0 {
        let (from, to) = choose|from: int, to: int|
            {
                &&& 0 <= from <= to <= s.len()
                &&& text::trimmed(s) == #[trigger] s.subrange(from, to)
                &&& forall|i: int| 0 <= i < from ==> text::is_white_space(#[trigger] s[i])
                &&& forall|i: int| to <= i < s.len() ==> text::is_white_space(#[trigger] s[i])
            };
        assert(text::trimmed(s)[0] == s[from]);
    }
}

proof fn a_name_is_trimmed(name: Seq<char>, end: Seq<char>)
    requires
        name.len() > 0,
        !text::is_white_space(name[0]),
        !text::is_white_space(name.last()),
        forall|i: int| 0 <= i < end.len() ==> text::is_white_space(#[trigger] end[i]),
    ensures
        text::trimmed(name + end) == name,
{
    let s = name + end;
    text::only_whitespace_is_trimmed_off(s);
    let (from, to) = choose|from: int, to: int|
        {
            &&& 0 <= from <= to <= s.len()
            &&& text::trimmed(s) == #[trigger] s.subrange(from, to)
            &&& forall|i: int| 0 <= i < from ==> text::is_white_space(#[trigger] s[i])
            &&& forall|i: int| to <= i < s.len() ==> text::is_white_space(#[trigger] s[i])
        };
    assert(s[0] == name[0]);
    assert(from == 0);
    assert(s[name.len() - 1] == name.last());
    assert(to >= name.len());
    if to > name.len() {
        assert(text::trimmed(s).last() == s[to - 1]);
        assert(s[to - 1] == end[to - 1 - name.len()]);
    }
    assert(s.subrange(0, name.len() as int) =~= name);
}

} // verus!
