//! The reverse-listener registry: one shared receiver of sub-connections per
//! `(host, port)`, taken by one session at a time and put back once that
//! session has its sub-connection. Also the decisions of the task that pumps
//! a listener's sub-connections into the receiver.

use vstd::prelude::*;
use crate::tunnel::TunnelError;

verus! {

/// A registry key: the normal text of a host, and a port.
pub type ListenerKey = (Seq<char>, u16);

/// One registered receiver.
pub struct ListenerEntry<R> {
    pub host: String,
    pub port: u16,
    pub receiver: R,
}

/// The receivers of the live reverse listeners, keyed by `(host, port)`.
/// Hosts are compared as texts, never resolved. The entries are a `Vec` with
/// unique keys rather than a hash map: vstd's hash-map specifications give
/// nothing usable for `String` keys, so with one the registry's contents could
/// not be stated, while here `take` and `put_back` are proved exactly.
pub struct ListenerRegistry<R> {
    entries: Vec<ListenerEntry<R>>,
    map: Ghost<Map<ListenerKey, R>>,
}

/// What an acquire for `k` does to the registry when the listener delivers a
/// sub-connection: it takes the receiver for `k` (or one from a fresh
/// listener) and puts it back. The flag says whether a listener was made.
pub open spec fn acquire_step<R>(m: Map<ListenerKey, R>, k: ListenerKey, fresh: R) -> (Map<
    ListenerKey,
    R,
>, bool) {
    if m.contains_key(k) {
        (m.remove(k).insert(k, m[k]), false)
    } else {
        (m.insert(k, fresh), true)
    }
}

/// How many listeners `n` serial acquires for `k` make, each delivering a
/// sub-connection.
pub open spec fn listeners_made<R>(m: Map<ListenerKey, R>, k: ListenerKey, fresh: R, n: nat) -> nat
    decreases n,
{
    if n == 0 {
        0
    } else {
        let (next, made) = acquire_step(m, k, fresh);
        (if made { 1nat } else { 0nat }) + listeners_made(next, k, fresh, (n - 1) as nat)
    }
}

/// Serial acquires for one key share one listener: of any number of them,
/// only the first makes a listener, and only when none was registered.
pub proof fn lemma_serial_acquires_share_listener<R>(
    m: Map<ListenerKey, R>,
    k: ListenerKey,
    fresh: R,
    n: nat,
)
    ensures
        listeners_made(m, k, fresh, n) == (if n > 0 && !m.contains_key(k) { 1nat } else { 0nat }),
    decreases n,
{
    if n > 0 {
        let (next, made) = acquire_step(m, k, fresh);
        assert(next.contains_key(k));
        lemma_serial_acquires_share_listener(next, k, fresh, (n - 1) as nat);
    }
}

/// One acquire as the registry performs it: `take` for `k`, then
/// `finish_acquire` with a delivered sub-connection, putting back the receiver
/// that was taken, or a fresh listener's when `take` found none. The registry
/// then stands as `acquire_step` says, and a listener is made exactly when
/// `take` found none. The hypotheses are the `ensures` of the two functions.
pub proof fn lemma_take_then_finish_is_acquire_step<R>(
    before: Map<ListenerKey, R>,
    k: ListenerKey,
    fresh: R,
    taken: Option<R>,
    after_take: Map<ListenerKey, R>,
    after: Map<ListenerKey, R>,
)
    requires
        after_take == before.remove(k),
        before.contains_key(k) ==> taken == Some(before[k]),
        !before.contains_key(k) ==> taken is None,
        after == after_take.insert(
            k,
            match taken {
                Some(r) => r,
                None => fresh,
            },
        ),
    ensures
        (after, taken is None) == acquire_step(before, k, fresh),
{
    if !before.contains_key(k) {
        assert(before.remove(k) =~= before);
    }
}

impl<R> ListenerRegistry<R> {
    pub closed spec fn view(&self) -> Map<ListenerKey, R> {
        self.map@
    }

    spec fn key_at(&self, i: int) -> ListenerKey {
        (self.entries@[i].host@, self.entries@[i].port)
    }

    /// Each key has one entry, and the entries are exactly the map.
    pub closed spec fn wf(&self) -> bool {
        &&& forall|i: int, j: int|
            0 <= i < j < self.entries@.len() ==> #[trigger] self.key_at(i) != #[trigger] self.key_at(j)
        &&& forall|i: int|
            0 <= i < self.entries@.len() ==> self.map@.contains_key(#[trigger] self.key_at(i))
                && self.map@[self.key_at(i)] == self.entries@[i].receiver
        &&& forall|k: ListenerKey|
            #[trigger] self.map@.contains_key(k) ==> exists|i: int|
                0 <= i < self.entries@.len() && #[trigger] self.key_at(i) == k
    }

    /// An empty registry.
    pub fn new() -> (r: Self)
        ensures
            r.wf(),
            r@ == Map::<ListenerKey, R>::empty(),
    {
        ListenerRegistry { entries: Vec::new(), map: Ghost(Map::empty()) }
    }

    fn find(&self, host: &String, port: u16) -> (r: Option<usize>)
        requires
            self.wf(),
        ensures
            match r {
                Some(i) => i < self.entries@.len() && self.key_at(i as int) == (host@, port),
                None => !self@.contains_key((host@, port)),
            },
    {
        let mut i: usize = 0;
        while i < self.entries.len()
            invariant
                self.wf(),
                i <= self.entries@.len(),
                forall|j: int| 0 <= j < i ==> self.key_at(j) != (host@, port),
            decreases self.entries@.len() - i,
        {
            if self.entries[i].port == port && self.entries[i].host == *host {
                return Some(i);
            }
            i = i + 1;
        }
        None
    }

    /// Takes the receiver registered for `(host, port)`, leaving no entry for it.
    pub fn take(&mut self, host: &String, port: u16) -> (r: Option<R>)
        requires
            old(self).wf(),
        ensures
            final(self).wf(),
            final(self)@ == old(self)@.remove((host@, port)),
            old(self)@.contains_key((host@, port)) ==> r == Some(old(self)@[(host@, port)]),
            !old(self)@.contains_key((host@, port)) ==> r is None,
    {
        match self.find(host, port) {
            None => {
                proof {
                    assert(self.map@.remove((host@, port)) =~= self.map@);
                }
                None
            },
            Some(i) => {
                let ghost old_self = *self;
                let e = self.entries.remove(i);
                let ghost k = (host@, port);
                self.map = Ghost(self.map@.remove(k));
                proof {
                    assert forall|a: int| 0 <= a < self.entries@.len() implies self.key_at(a)
                        == old_self.key_at(if a < i { a } else { a + 1 }) by {}
                    assert forall|a: int, b: int|
                        0 <= a < b < self.entries@.len() implies #[trigger] self.key_at(a)
                        != #[trigger] self.key_at(b) by {
                        let oa = if a < i { a } else { a + 1 };
                        let ob = if b < i { b } else { b + 1 };
                        assert(old_self.key_at(oa) == self.key_at(a));
                        assert(old_self.key_at(ob) == self.key_at(b));
                    }
                    assert forall|a: int|
                        0 <= a < self.entries@.len() implies self.map@.contains_key(
                        #[trigger] self.key_at(a),
                    ) && self.map@[self.key_at(a)] == self.entries@[a].receiver by {
                        let oa = if a < i { a } else { a + 1 };
                        assert(old_self.key_at(oa) == self.key_at(a));
                        assert(old_self.key_at(oa) != old_self.key_at(i as int));
                    }
                    assert forall|q: ListenerKey| #[trigger] self.map@.contains_key(q) implies exists|
                        a: int,
                    | 0 <= a < self.entries@.len() && #[trigger] self.key_at(a) == q by {
                        let oa = choose|oa: int|
                            0 <= oa < old_self.entries@.len() && #[trigger] old_self.key_at(oa) == q;
                        assert(oa != i);
                        let a = if oa < i { oa } else { oa - 1 };
                        assert(self.key_at(a) == q);
                    }
                }
                Some(e.receiver)
            },
        }
    }

    /// Registers `receiver` for `(host, port)`, replacing any receiver there.
    pub fn put_back(&mut self, host: String, port: u16, receiver: R)
        requires
            old(self).wf(),
        ensures
            final(self).wf(),
            final(self)@ == old(self)@.insert((host@, port), receiver),
    {
        let ghost k = (host@, port);
        let _ = self.take(&host, port);
        let ghost mid = *self;
        self.entries.push(ListenerEntry { host, port, receiver });
        self.map = Ghost(self.map@.insert(k, receiver));
        proof {
            let n = mid.entries@.len() as int;
            assert(self.key_at(n) == k);
            assert forall|a: int| 0 <= a < n implies self.key_at(a) == mid.key_at(a) by {}
            assert forall|a: int, b: int|
                0 <= a < b < self.entries@.len() implies #[trigger] self.key_at(a)
                != #[trigger] self.key_at(b) by {
                assert(self.key_at(a) == mid.key_at(a));
                if b == n {
                    assert(!mid.map@.contains_key(k));
                    assert(mid.map@.contains_key(mid.key_at(a)));
                } else {
                    assert(self.key_at(b) == mid.key_at(b));
                }
            }
            assert forall|a: int|
                0 <= a < self.entries@.len() implies self.map@.contains_key(#[trigger] self.key_at(a))
                && self.map@[self.key_at(a)] == self.entries@[a].receiver by {
                if a < n {
                    assert(mid.map@.contains_key(mid.key_at(a)));
                }
            }
            assert forall|q: ListenerKey| #[trigger] self.map@.contains_key(q) implies exists|a: int|
                0 <= a < self.entries@.len() && #[trigger] self.key_at(a) == q by {
                if q != k {
                    let a = choose|a: int| 0 <= a < mid.entries@.len() && #[trigger] mid.key_at(a) == q;
                    assert(self.key_at(a) == q);
                }
            }
        }
    }

    /// Ends an acquire for `(host, port)` once the receiver was awaited: a
    /// delivered sub-connection is returned and the receiver put back for the
    /// next session; a receiver whose listener has ended is dropped.
    pub fn finish_acquire<T>(&mut self, host: String, port: u16, receiver: R, item: Option<T>) -> (r:
        Result<T, TunnelError>)
        requires
            old(self).wf(),
        ensures
            final(self).wf(),
            match item {
                Some(t) => r == Ok::<T, TunnelError>(t) && final(self)@ == old(self)@.insert(
                    (host@, port),
                    receiver,
                ),
                None => r == Err::<T, TunnelError>(TunnelError::ListenerStopped) && final(self)@
                    == old(self)@,
            },
    {
        match item {
            Some(t) => {
                self.put_back(host, port, receiver);
                Ok(t)
            },
            None => Err(TunnelError::ListenerStopped),
        }
    }
}

/// What the listener pump saw when it polled its listener.
#[derive(Clone, Copy, Debug, PartialEq, Eq, Structural)]
pub enum ListenerPoll {
    /// A sub-connection was accepted.
    Accepted,
    /// Accepting failed.
    Failed,
    /// The listener has no more sub-connections.
    Ended,
    /// Nothing yet.
    Pending,
}

/// What the listener pump does next.
#[derive(Clone, Copy, Debug, PartialEq, Eq, Structural)]
pub enum PumpAction {
    /// Hand the accepted sub-connection to the receiver, waiting at most the
    /// delivery timeout.
    Deliver,
    /// Wait for the next poll.
    Wait,
    /// Stop the listener.
    Stop,
}

/// How long the pump waits for a session to take a sub-connection, in
/// milliseconds, before it stops the listener.
pub const DELIVERY_TIMEOUT_MS: u64 = 30_000;

/// The pump's choice after a poll, preferring a ready sub-connection over the
/// news that every session has left, so that an accepted sub-connection is
/// never dropped unoffered.
pub fn pump_step(poll: ListenerPoll, receiver_closed: bool) -> (r: PumpAction)
    ensures
        poll == ListenerPoll::Accepted ==> r == PumpAction::Deliver,
        poll == ListenerPoll::Failed || poll == ListenerPoll::Ended ==> r == PumpAction::Stop,
        poll == ListenerPoll::Pending ==> r == (if receiver_closed {
            PumpAction::Stop
        } else {
            PumpAction::Wait
        }),
{
    match poll {
        ListenerPoll::Accepted => PumpAction::Deliver,
        ListenerPoll::Failed => PumpAction::Stop,
        ListenerPoll::Ended => PumpAction::Stop,
        ListenerPoll::Pending => if receiver_closed {
            PumpAction::Stop
        } else {
            PumpAction::Wait
        },
    }
}

/// The pump's choice after a delivery: go on once the sub-connection was taken;
/// stop when the delivery timed out or the receiver is gone.
pub fn after_delivery(delivered: bool) -> (r: PumpAction)
    ensures
        r == (if delivered { PumpAction::Wait } else { PumpAction::Stop }),
{
    if delivered {
        PumpAction::Wait
    } else {
        PumpAction::Stop
    }
}

} // verus!
