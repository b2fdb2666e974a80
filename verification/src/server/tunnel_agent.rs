//! The pool of tunnel sockets of one registered client, with the requests that wait
//! for one.
use vstd::prelude::*;
use std::collections::VecDeque;

verus! {

/// Manages the tunnel sockets of a single registered client.
///
/// Two queues:
/// - `available`: idle sockets ready to serve the next request
/// - `waiters`: pending acquirers that arrived before a socket was ready
///
/// `total` counts sockets tracked (idle + in flight): every socket that arrived, whether it
/// waits idle or was handed out. It wraps like an atomic counter.
pub struct SocketPool<S, W> {
    available: VecDeque<S>,
    waiters: VecDeque<W>,
    total: usize,
    handed_out: Ghost<nat>,
}

/// One more than the largest `usize`: the modulus the socket counter wraps at.
pub open spec fn counter_modulus() -> nat {
    usize::MAX as nat + 1
}

proof fn lemma_counter_succ(a: nat)
    ensures
        vstd::wrapping::usize_specs::wrapping_add((a % counter_modulus()) as usize, 1)
            == ((a + 1) % counter_modulus()) as usize,
{
    let m = counter_modulus() as int;
    vstd::arithmetic::div_mod::lemma_add_mod_noop(a as int, 1, m);
    vstd::arithmetic::div_mod::lemma_mod_bound(a as int, m);
    vstd::arithmetic::div_mod::lemma_small_mod(1, m as nat);
    let ai = a as int;
    if ai % m + 1 == m {
        vstd::arithmetic::div_mod::lemma_mod_self_0(m);
    } else {
        vstd::arithmetic::div_mod::lemma_small_mod((ai % m + 1) as nat, m as nat);
    }
}

impl<S, W> SocketPool<S, W> {
    /// The idle sockets, oldest first.
    pub closed spec fn idle(&self) -> Seq<S> {
        self.available@
    }

    /// The waiting acquirers, oldest first.
    pub closed spec fn waiting(&self) -> Seq<W> {
        self.waiters@
    }

    /// The socket counter.
    pub closed spec fn total(&self) -> usize {
        self.total
    }

    /// The sockets handed out (in flight), whose count the counter holds beside the idle
    /// ones.
    pub closed spec fn in_flight(&self) -> nat {
        self.handed_out@
    }

    /// The pool's invariant: sockets never sit idle while acquirers wait, and the counter
    /// holds the idle sockets plus those in flight (modulo the counter's width).
    pub open spec fn wf(&self) -> bool {
        &&& self.idle().len() == 0 || self.waiting().len() == 0
        &&& self.total() == (self.idle().len() + self.in_flight()) % counter_modulus()
    }

    /// An empty pool.
    pub fn new() -> (p: Self)
        ensures
            p.wf(),
            p.idle().len() == 0,
            p.waiting().len() == 0,
            p.total() == 0,
            p.in_flight() == 0,
    {
        proof {
            vstd::arithmetic::div_mod::lemma_small_mod(0, counter_modulus());
        }
        SocketPool { available: VecDeque::new(), waiters: VecDeque::new(), total: 0, handed_out: Ghost(0) }
    }

    /// A new socket arrived: it counts towards the total, and goes to the oldest waiting
    /// acquirer (returned with it, for the caller to hand over) or else to the idle queue.
    pub fn on_socket(&mut self, stream: S) -> (handoff: Option<(W, S)>)
        requires
            old(self).wf(),
        ensures
            final(self).wf(),
            final(self).total() == vstd::wrapping::usize_specs::wrapping_add(old(self).total(), 1),
            old(self).waiting().len() > 0 ==> {
                &&& handoff == Some((old(self).waiting()[0], stream))
                &&& final(self).waiting() == old(self).waiting().drop_first()
                &&& final(self).idle() == old(self).idle()
                &&& final(self).in_flight() == old(self).in_flight() + 1
            },
            old(self).waiting().len() == 0 ==> {
                &&& handoff is None
                &&& final(self).waiting() == old(self).waiting()
                &&& final(self).idle() == old(self).idle().push(stream)
                &&& final(self).in_flight() == old(self).in_flight()
            },
    {
        proof {
            lemma_counter_succ(self.available@.len() + self.handed_out@);
        }
        self.total = self.total.wrapping_add(1);
        match self.waiters.pop_front() {
            Some(w) => {
                assert(self.waiters@ =~= old(self).waiters@.drop_first());
                self.handed_out = Ghost(self.handed_out@ + 1);
                Some((w, stream))
            },
            None => {
                self.available.push_back(stream);
                None
            },
        }
    }

    /// The acquirer a socket was handed to had already given up: the socket comes back and
    /// stays counted. It goes to the next waiting acquirer (returned with it, for the caller
    /// to hand over) or else to the idle queue. The socket is one that was handed out.
    pub fn handoff_failed(&mut self, stream: S) -> (handoff: Option<(W, S)>)
        requires
            old(self).wf(),
            old(self).in_flight() > 0,
        ensures
            final(self).wf(),
            final(self).total() == old(self).total(),
            old(self).waiting().len() > 0 ==> {
                &&& handoff == Some((old(self).waiting()[0], stream))
                &&& final(self).waiting() == old(self).waiting().drop_first()
                &&& final(self).idle() == old(self).idle()
                &&& final(self).in_flight() == old(self).in_flight()
            },
            old(self).waiting().len() == 0 ==> {
                &&& handoff is None
                &&& final(self).waiting() == old(self).waiting()
                &&& final(self).idle() == old(self).idle().push(stream)
                &&& final(self).in_flight() == old(self).in_flight() - 1
            },
    {
        match self.waiters.pop_front() {
            Some(w) => {
                assert(self.waiters@ =~= old(self).waiters@.drop_first());
                Some((w, stream))
            },
            None => {
                self.available.push_back(stream);
                self.handed_out = Ghost((self.handed_out@ - 1) as nat);
                None
            },
        }
    }

    /// Fast path of acquiring: the oldest idle socket, if any. It stays counted, now in
    /// flight.
    pub fn take_idle(&mut self) -> (r: Option<S>)
        requires
            old(self).wf(),
        ensures
            final(self).wf(),
            final(self).waiting() == old(self).waiting(),
            final(self).total() == old(self).total(),
            old(self).idle().len() > 0 ==> {
                &&& r == Some(old(self).idle()[0])
                &&& final(self).idle() == old(self).idle().drop_first()
                &&& final(self).in_flight() == old(self).in_flight() + 1
            },
            old(self).idle().len() == 0 ==> {
                &&& r is None
                &&& final(self).idle() == old(self).idle()
                &&& final(self).in_flight() == old(self).in_flight()
            },
    {
        match self.available.pop_front() {
            Some(s) => {
                assert(self.available@ =~= old(self).available@.drop_first());
                self.handed_out = Ghost(self.handed_out@ + 1);
                Some(s)
            },
            None => None,
        }
    }

    /// Slow path of acquiring: with no idle socket, the acquirer waits for the next one.
    pub fn add_waiter(&mut self, waiter: W)
        requires
            old(self).wf(),
            old(self).idle().len() == 0,
        ensures
            final(self).wf(),
            final(self).waiting() == old(self).waiting().push(waiter),
            final(self).idle() == old(self).idle(),
            final(self).total() == old(self).total(),
            final(self).in_flight() == old(self).in_flight(),
    {
        self.waiters.push_back(waiter);
    }

    /// Number of idle sockets.
    pub fn available_count(&self) -> (n: usize)
        ensures
            n == self.idle().len(),
    {
        self.available.len()
    }

    /// Total sockets currently tracked (idle + in flight).
    pub fn total_count(&self) -> (n: usize)
        ensures
            n == self.total(),
    {
        self.total
    }
}

/// The counter holds the idle sockets plus those in flight; so, until more sockets are
/// tracked than a `usize` can count, the idle sockets never outnumber the total.
pub proof fn lemma_total_counts_idle_and_in_flight<S, W>(pool: SocketPool<S, W>)
    requires
        pool.wf(),
        pool.idle().len() + pool.in_flight() <= usize::MAX,
    ensures
        pool.total() == pool.idle().len() + pool.in_flight(),
        pool.idle().len() <= pool.total(),
{
    vstd::arithmetic::div_mod::lemma_small_mod((pool.idle().len() + pool.in_flight()) as nat, counter_modulus());
}

/// Handing-out law: a socket that arrives at a pool with no waiting acquirer is the one the
/// next acquirer gets, straight away.
pub proof fn lemma_idle_socket_is_acquired<S, W>(before: SocketPool<S, W>, after_socket: SocketPool<S, W>, after_take: SocketPool<S, W>, stream: S, got: Option<S>)
    requires
        before.wf(),
        before.idle().len() == 0,
        before.waiting().len() == 0,
        after_socket.idle() == before.idle().push(stream),
        after_socket.waiting() == before.waiting(),
        after_socket.idle().len() > 0 ==> got == Some(after_socket.idle()[0]),
    ensures
        got == Some(stream),
{
}


/// A socket whose acquirer gave up is not lost: with no other acquirer waiting it goes
/// idle, stays counted, and is the one the next acquirer gets.
pub proof fn lemma_abandoned_socket_is_kept<S, W>(
    handed: SocketPool<S, W>,
    after_failure: SocketPool<S, W>,
    stream: S,
    got: Option<S>,
)
    requires
        handed.wf(),
        handed.idle().len() == 0,
        handed.waiting().len() == 0,
        after_failure.idle() == handed.idle().push(stream),
        after_failure.total() == handed.total(),
        after_failure.idle().len() > 0 ==> got == Some(after_failure.idle()[0]),
    ensures
        after_failure.idle().len() == 1,
        after_failure.total() == handed.total(),
        got == Some(stream),
{
}

} // verus!
