//! The connections to the broker's endpoints.
//!
//! The pool records which connections exist, to which endpoint, whether their
//! handshake is done and whether a call holds them; the caller makes the
//! transports. A connection that fails is invalidated, which removes it, so
//! the pool never hands out a failed connection: the next `acquire` opens a
//! new one.
use vstd::prelude::*;

verus! {

/// Where a pooled connection stands.
#[derive(Clone, Copy, Debug, PartialEq, Eq, Structural)]
pub enum ConnState {
    /// The transport is being made; not usable yet.
    Connecting,
    /// The handshake is done.
    Ready,
}

/// One connection of the pool.
#[derive(Clone, Copy, Debug, PartialEq, Eq, Structural)]
pub struct Connection {
    pub id: u64,
    /// Index of the endpoint that it reaches.
    pub endpoint: usize,
    pub state: ConnState,
    /// A call holds it.
    pub in_use: bool,
}

/// What `acquire` hands out.
#[derive(Clone, Copy, Debug, PartialEq, Eq, Structural)]
pub enum Acquired {
    /// A ready connection that was idle.
    Reused { id: u64 },
    /// A new connection: make the transport, then report `opened` or
    /// `invalidate`.
    Opened { id: u64 },
}

pub struct ConnectionPool {
    conns: Vec<Connection>,
    next_id: u64,
}

pub ghost struct PoolView {
    pub conns: Seq<Connection>,
    /// The identifier of the next connection opened.
    pub next_id: u64,
}

impl View for ConnectionPool {
    type V = PoolView;

    closed spec fn view(&self) -> PoolView {
        PoolView { conns: self.conns@, next_id: self.next_id }
    }
}

/// Identifiers are unique and below the next one; a connection that is
/// still connecting is held by the call that opened it.
pub open spec fn pool_wf(p: PoolView) -> bool {
    &&& forall|i: int, j: int|
        0 <= i < j < p.conns.len() ==> (#[trigger] p.conns[i]).id != (#[trigger] p.conns[j]).id
    &&& forall|i: int| 0 <= i < p.conns.len() ==> (#[trigger] p.conns[i]).id < p.next_id
    &&& forall|i: int|
        0 <= i < p.conns.len() ==> (#[trigger] p.conns[i]).state == ConnState::Connecting
            ==> p.conns[i].in_use
}

/// A connection that `acquire` may hand out again for `endpoint`.
pub open spec fn idle_ready(c: Connection, endpoint: usize) -> bool {
    c.endpoint == endpoint && c.state == ConnState::Ready && !c.in_use
}

/// The position of the connection `id`, if the pool holds it.
pub open spec fn position_of(p: PoolView, id: u64) -> Option<int> {
    if exists|i: int| 0 <= i < p.conns.len() && (#[trigger] p.conns[i]).id == id {
        Some(choose|i: int| 0 <= i < p.conns.len() && (#[trigger] p.conns[i]).id == id)
    } else {
        None
    }
}

impl ConnectionPool {
    pub fn new() -> (r: ConnectionPool)
        ensures
            r@.conns.len() == 0,
            r@.next_id == 0,
            pool_wf(r@),
    {
        ConnectionPool { conns: Vec::new(), next_id: 0 }
    }

    pub fn len(&self) -> (r: usize)
        ensures
            r == self@.conns.len(),
    {
        self.conns.len()
    }

    /// Where the connection `id` stands in the pool.
    fn find(&self, id: u64) -> (r: Option<usize>)
        requires
            pool_wf(self@),
        ensures
            match r {
                Some(i) => position_of(self@, id) == Some(i as int),
                None => position_of(self@, id) is None,
            },
            r matches Some(i) ==> i < self@.conns.len() && self@.conns[i as int].id == id,
    {
        let mut i: usize = 0;
        while i < self.conns.len()
            invariant
                i <= self@.conns.len(),
                pool_wf(self@),
                forall|j: int| 0 <= j < i ==> (#[trigger] self@.conns[j]).id != id,
            decreases self@.conns.len() - i,
        {
            if self.conns[i].id == id {
                assert(0 <= i < self@.conns.len() && self@.conns[i as int].id == id);
                let ghost k = choose|j: int| 0 <= j < self@.conns.len() && (#[trigger] self@.conns[j]).id == id;
                assert(k == i) by {
                    assert(0 <= k < self@.conns.len() && self@.conns[k].id == id);
                    if k > i as int {
                        let a = self@.conns[i as int];
                        let b = self@.conns[k];
                        assert(a.id != b.id);
                    }
                }
                return Some(i);
            }
            i = i + 1;
        }
        None
    }

    /// Hands out a connection to `endpoint` for one request: the first idle
    /// ready one, else a new one, marked held. `None` once identifiers have
    /// run out.
    pub fn acquire(&mut self, endpoint: usize) -> (r: Option<Acquired>)
        requires
            pool_wf(old(self)@),
        ensures
            pool_wf(final(self)@),
            match r {
                Some(Acquired::Reused { id }) => exists|i: int|
                    0 <= i < old(self)@.conns.len() && idle_ready(
                        #[trigger] old(self)@.conns[i],
                        endpoint,
                    ) && (forall|j: int|
                        0 <= j < i ==> !idle_ready(#[trigger] old(self)@.conns[j], endpoint))
                        && id == old(self)@.conns[i].id && final(self)@ == (PoolView {
                        conns: old(self)@.conns.update(
                            i,
                            Connection { in_use: true, ..old(self)@.conns[i] },
                        ),
                        ..old(self)@
                    }),
                Some(Acquired::Opened { id }) => (forall|j: int|
                    0 <= j < old(self)@.conns.len() ==> !idle_ready(
                        #[trigger] old(self)@.conns[j],
                        endpoint,
                    )) && id == old(self)@.next_id && final(self)@ == (PoolView {
                    conns: old(self)@.conns.push(
                        Connection { id, endpoint, state: ConnState::Connecting, in_use: true },
                    ),
                    next_id: (id + 1) as u64,
                }),
                None => old(self)@.next_id == u64::MAX && (forall|j: int|
                    0 <= j < old(self)@.conns.len() ==> !idle_ready(
                        #[trigger] old(self)@.conns[j],
                        endpoint,
                    )) && final(self)@ == old(self)@,
            },
    {
        let mut i: usize = 0;
        while i < self.conns.len()
            invariant
                i <= self@.conns.len(),
                self@ == old(self)@,
                pool_wf(old(self)@),
                forall|j: int| 0 <= j < i ==> !idle_ready(#[trigger] self@.conns[j], endpoint),
            decreases self@.conns.len() - i,
        {
            let c = self.conns[i];
            if c.endpoint == endpoint && c.state == ConnState::Ready && !c.in_use {
                self.conns.set(i, Connection { in_use: true, ..c });
                proof {
                    assert(idle_ready(old(self)@.conns[i as int], endpoint));
                    assert forall|a: int| 0 <= a < self@.conns.len() implies (#[trigger] self@.conns[a]).id == old(self)@.conns[a].id && self@.conns[a].state == old(self)@.conns[a].state && (old(self)@.conns[a].in_use ==> self@.conns[a].in_use) by {}
                    assert forall|a: int, b: int| 0 <= a < b < self@.conns.len() implies (#[trigger] self@.conns[a]).id != (#[trigger] self@.conns[b]).id by {
                        assert(old(self)@.conns[a].id != old(self)@.conns[b].id);
                    }
                }
                return Some(Acquired::Reused { id: c.id });
            }
            i = i + 1;
        }
        if self.next_id == u64::MAX {
            return None;
        }
        let id = self.next_id;
        self.conns.push(Connection { id, endpoint, state: ConnState::Connecting, in_use: true });
        self.next_id = id + 1;
        Some(Acquired::Opened { id })
    }

    /// The transport of the connection `id` is made: it is ready, and still
    /// held. Returns whether the pool holds a connection `id` that was
    /// connecting; otherwise nothing changes.
    pub fn opened(&mut self, id: u64) -> (r: bool)
        requires
            pool_wf(old(self)@),
        ensures
            pool_wf(final(self)@),
            match position_of(old(self)@, id) {
                Some(i) if old(self)@.conns[i].state == ConnState::Connecting => r && final(self)@
                    == (PoolView {
                    conns: old(self)@.conns.update(
                        i,
                        Connection { state: ConnState::Ready, ..old(self)@.conns[i] },
                    ),
                    ..old(self)@
                }),
                _ => !r && final(self)@ == old(self)@,
            },
    {
        match self.find(id) {
            Some(i) => {
                let c = self.conns[i];
                if c.state == ConnState::Connecting {
                    self.conns.set(i, Connection { state: ConnState::Ready, ..c });
                    true
                } else {
                    false
                }
            },
            None => false,
        }
    }

    /// Gives back a healthy connection: a ready connection `id` becomes
    /// idle, to be reused. Returns whether that happened; otherwise nothing
    /// changes.
    pub fn release(&mut self, id: u64) -> (r: bool)
        requires
            pool_wf(old(self)@),
        ensures
            pool_wf(final(self)@),
            match position_of(old(self)@, id) {
                Some(i) if old(self)@.conns[i].state == ConnState::Ready => r && final(self)@ == (
                PoolView {
                    conns: old(self)@.conns.update(
                        i,
                        Connection { in_use: false, ..old(self)@.conns[i] },
                    ),
                    ..old(self)@
                }),
                _ => !r && final(self)@ == old(self)@,
            },
    {
        match self.find(id) {
            Some(i) => {
                let c = self.conns[i];
                if c.state == ConnState::Ready {
                    self.conns.set(i, Connection { in_use: false, ..c });
                    true
                } else {
                    false
                }
            },
            None => false,
        }
    }

    /// Discards the connection `id`, which failed or is closed; the next
    /// `acquire` for its endpoint opens another. Returns whether the pool
    /// held it.
    pub fn invalidate(&mut self, id: u64) -> (r: bool)
        requires
            pool_wf(old(self)@),
        ensures
            pool_wf(final(self)@),
            match position_of(old(self)@, id) {
                Some(i) => r && final(self)@ == (PoolView {
                    conns: old(self)@.conns.remove(i),
                    ..old(self)@
                }),
                None => !r && final(self)@ == old(self)@,
            },
            forall|i: int|
                0 <= i < final(self)@.conns.len() ==> (#[trigger] final(self)@.conns[i]).id != id,
    {
        match self.find(id) {
            Some(i) => {
                self.conns.remove(i);
                proof {
                    assert forall|a: int, b: int|
                        0 <= a < b < self@.conns.len() implies (#[trigger] self@.conns[a]).id
                        != (#[trigger] self@.conns[b]).id by {
                        let oa = if a < i { a } else { a + 1 };
                        let ob = if b < i { b } else { b + 1 };
                        assert(self@.conns[a] == old(self)@.conns[oa]);
                        assert(self@.conns[b] == old(self)@.conns[ob]);
                    }
                    assert forall|a: int| 0 <= a < self@.conns.len() implies (#[trigger] self@.conns[a]).id != id by {
                        let oa = if a < i { a } else { a + 1 };
                        assert(self@.conns[a] == old(self)@.conns[oa]);
                        assert(old(self)@.conns[i as int].id == id);
                    }
                    assert forall|a: int| 0 <= a < self@.conns.len() implies (#[trigger] self@.conns[a]).id < self@.next_id && (self@.conns[a].state == ConnState::Connecting ==> self@.conns[a].in_use) by {
                        let oa = if a < i { a } else { a + 1 };
                        assert(self@.conns[a] == old(self)@.conns[oa]);
                    }
                }
                true
            },
            None => false,
        }
    }
}

} // verus!
