//! Connections to the services that own the answers.
//!
//! Connections are made on demand and one per lane, and a connection that failed is dropped so
//! that the next call reconnects.
use vstd::prelude::*;

use crate::route::{Lane, Upstream};

verus! {

/// Long enough for a loaded board, short enough that a phone gets an answer, seconds.
pub const CONNECT_TIMEOUT_SECONDS: u64 = 3;

/// Cap on a single write, seconds.
pub const WRITE_TIMEOUT_SECONDS: u64 = 5;

/// Where each service listens.
#[derive(Debug, PartialEq, Eq)]
pub struct Sockets {
    pub updater: String,
    pub robot: String,
    pub config: String,
}

impl Clone for Sockets {
    fn clone(&self) -> (r: Self)
        ensures
            r == *self,
    {
        Sockets {
            updater: self.updater.clone(),
            robot: self.robot.clone(),
            config: self.config.clone(),
        }
    }
}

impl Sockets {
    /// Where a service listens.
    pub open spec fn path_of(&self, upstream: Upstream) -> Seq<char> {
        match upstream {
            Upstream::Updater => self.updater@,
            Upstream::Robot => self.robot@,
            Upstream::Config => self.config@,
        }
    }

    pub fn path(&self, upstream: Upstream) -> (r: &str)
        ensures
            r@ == self.path_of(upstream),
    {
        match upstream {
            Upstream::Updater => self.updater.as_str(),
            Upstream::Robot => self.robot.as_str(),
            Upstream::Config => self.config.as_str(),
        }
    }
}

/// How a write went.
#[derive(Debug)]
pub enum Written {
    Done,
    Failed(String),
    TimedOut,
}

/// Which connections are open.
#[derive(Debug)]
pub struct Pool {
    pub sockets: Sockets,
    pub open: Vec<(Upstream, Lane)>,
}

impl Pool {
    /// No connection is listed twice.
    pub open spec fn wf(&self) -> bool {
        self.open@.no_duplicates()
    }

    /// Is this connection open?
    pub open spec fn has(&self, upstream: Upstream, lane: Lane) -> bool {
        self.open@.contains((upstream, lane))
    }

    /// The connections of `after` are those of this pool except possibly this one.
    pub open spec fn others_kept(&self, after: &Pool, upstream: Upstream, lane: Lane) -> bool {
        &&& after.sockets == self.sockets
        &&& forall|u: Upstream, l: Lane|
            (u, l) != (upstream, lane) ==> (#[trigger] after.has(u, l) == self.has(u, l))
    }

    /// Nothing open yet.
    pub fn new(sockets: Sockets) -> (r: Self)
        ensures
            r.wf(),
            r.sockets == sockets,
            forall|u: Upstream, l: Lane| !#[trigger] r.has(u, l),
    {
        Pool { sockets, open: Vec::new() }
    }

    fn find(&self, upstream: Upstream, lane: Lane) -> (r: Option<usize>)
        requires
            self.wf(),
        ensures
            r is Some <==> self.has(upstream, lane),
            r matches Some(i) ==> i < self.open@.len() && self.open@[i as int] == (upstream, lane),
    {
        let mut i: usize = 0;
        while i < self.open.len()
            invariant
                i <= self.open@.len(),
                forall|j: int| 0 <= j < i ==> self.open@[j] != (upstream, lane),
            decreases self.open@.len() - i,
        {
            let (u, l) = self.open[i];
            if u == upstream && l == lane {
                return Some(i);
            }
            i = i + 1;
        }
        None
    }

    /// The socket to connect to before a line can be sent on this lane, or `None` when the
    /// connection is open already.
    pub fn missing(&self, upstream: Upstream, lane: Lane) -> (r: Option<&str>)
        requires
            self.wf(),
        ensures
            r is Some <==> !self.has(upstream, lane),
            r matches Some(path) ==> path@ == self.sockets.path_of(upstream),
    {
        if self.find(upstream, lane).is_some() {
            None
        } else {
            Some(self.sockets.path(upstream))
        }
    }

    /// A connection was made.
    pub fn connected(&mut self, upstream: Upstream, lane: Lane)
        requires
            old(self).wf(),
        ensures
            final(self).wf(),
            final(self).has(upstream, lane),
            old(self).others_kept(final(self), upstream, lane),
    {
        if self.find(upstream, lane).is_none() {
            let ghost before = self.open@;
            self.open.push((upstream, lane));
            assert(self.open@[before.len() as int] == (upstream, lane));
            assert forall|u: Upstream, l: Lane| (u, l) != (upstream, lane) implies (
            #[trigger] self.has(u, l) == old(self).has(u, l)) by {
                if old(self).has(u, l) {
                    let i = choose|i: int| 0 <= i < before.len() && before[i] == (u, l);
                    assert(self.open@[i] == (u, l));
                }
                if self.has(u, l) {
                    let i = choose|i: int| 0 <= i < self.open@.len() && self.open@[i] == (u, l);
                    assert(before[i] == (u, l));
                }
            }
        }
    }

    /// A write ended. One that failed costs the connection, and the next call makes another.
    pub fn written(&mut self, upstream: Upstream, lane: Lane, how: Written) -> (r: Result<
        (),
        String,
    >)
        requires
            old(self).wf(),
        ensures
            final(self).wf(),
            old(self).others_kept(final(self), upstream, lane),
            final(self).has(upstream, lane) == (old(self).has(upstream, lane) && how is Done),
            match how {
                Written::Done => r is Ok,
                Written::Failed(why) => r == Err::<(), String>(why),
                Written::TimedOut => r matches Err(e) && e@ == "upstream write timed out"@,
            },
    {
        match how {
            Written::Done => Ok(()),
            Written::Failed(why) => {
                self.close(upstream, lane);
                Err(why)
            },
            Written::TimedOut => {
                self.close(upstream, lane);
                Err("upstream write timed out".to_owned())
            },
        }
    }

    fn close(&mut self, upstream: Upstream, lane: Lane)
        requires
            old(self).wf(),
        ensures
            final(self).wf(),
            !final(self).has(upstream, lane),
            old(self).others_kept(final(self), upstream, lane),
    {
        if let Some(i) = self.find(upstream, lane) {
            let ghost before = self.open@;
            let _ = self.open.remove(i);
            assert(self.open@ == before.remove(i as int));
            assert forall|a: int, b: int|
                0 <= a < self.open@.len() && 0 <= b < self.open@.len() && a != b implies
                self.open@[a] != self.open@[b] by {
                let a0 = if a < i { a } else { a + 1 };
                let b0 = if b < i { b } else { b + 1 };
                assert(self.open@[a] == before[a0]);
                assert(self.open@[b] == before[b0]);
            }
            assert(!self.has(upstream, lane)) by {
                if self.has(upstream, lane) {
                    let k = choose|k: int|
                        0 <= k < self.open@.len() && self.open@[k] == (upstream, lane);
                    let k0 = if k < i { k } else { k + 1 };
                    assert(before[k0] == before[i as int]);
                }
            }
            assert forall|u: Upstream, l: Lane| (u, l) != (upstream, lane) implies (
            #[trigger] self.has(u, l) == old(self).has(u, l)) by {
                if old(self).has(u, l) {
                    let k = choose|k: int| 0 <= k < before.len() && before[k] == (u, l);
                    let k1 = if k < i { k } else { k - 1 };
                    assert(self.open@[k1] == (u, l));
                }
                if self.has(u, l) {
                    let k = choose|k: int| 0 <= k < self.open@.len() && self.open@[k] == (u, l);
                    let k0 = if k < i { k } else { k + 1 };
                    assert(before[k0] == (u, l));
                }
            }
        }
    }
}

// ── what the pool keeps ──────────────────────────────────────────────────────

/// Every service is looked for at its own socket.
pub proof fn each_service_has_its_own_socket(sockets: Sockets)
    ensures
        sockets.path_of(Upstream::Updater) == sockets.updater@,
        sockets.path_of(Upstream::Robot) == sockets.robot@,
        sockets.path_of(Upstream::Config) == sockets.config@,
{
}

/// What happens on one lane leaves every other connection as it was, those of the same service
/// too.
pub proof fn the_lanes_are_independent(
    before: Pool,
    after: Pool,
    upstream: Upstream,
    lane: Lane,
    u: Upstream,
    l: Lane,
)
    requires
        before.others_kept(&after, upstream, lane),
        u != upstream || l != lane,
    ensures
        after.open@.contains((u, l)) <==> before.open@.contains((u, l)),
        after.sockets == before.sockets,
{
    assert(after.has(u, l) == before.has(u, l));
}

} // verus!
