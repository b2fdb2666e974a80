//! Port-assignment logic.
//!
//! Probabilistic strategy: 150 random attempts give 99.999% success at 85% port-range
//! utilization.
use vstd::prelude::*;
use std::collections::BTreeSet;
use std::ops::RangeInclusive;
use crate::coordinator::dash::{active_contains, active_ports, ActivePorts};
use crate::domain::error::ConnectError;

verus! {

/// Number of random draws before giving up on a free port.
pub const RANDOM_ATTEMPTS: u32 = 150u32;

/// `fastrand::u16`: a random port of the (non-empty) range.
#[verifier::external_body]
fn random_port(range: &RangeInclusive<u16>) -> (p: u16)
    requires
        range@.start <= range@.end,
        !range@.exhausted,
    ensures
        range@.start <= p <= range@.end,
{
    fastrand::u16(range.clone())
}

/// Whether `port` lies in the range.
pub open spec fn in_range(range: RangeInclusive<u16>, port: u16) -> bool {
    range@.start <= port <= range@.end
}

/// Removes `port` from the pool and hands it out.
fn claim(pool: &mut BTreeSet<u16>, port: u16) -> (r: u16)
    ensures
        r == port,
        final(pool)@ == old(pool)@.remove(port),
{
    pool.remove(&port);
    port
}

/// Assigns a port.
///
/// * `pool` – set of ports not currently active (returned on disconnect)
/// * `active` – ports that are currently in use (authoritative live set)
/// * `range` – allowed port range
/// * `requested` – client hint (0 = server picks any)
pub fn assign_port(
    pool: &mut BTreeSet<u16>,
    active: &ActivePorts,
    range: &RangeInclusive<u16>,
    requested: u16,
) -> (r: Result<u16, ConnectError>)
    requires
        !range@.exhausted,
        requested == 0 ==> range@.start <= range@.end,
    ensures
        requested != 0 && !in_range(*range, requested) ==> r == Err::<u16, ConnectError>(
            ConnectError::PortOutOfRange,
        ),
        requested != 0 && in_range(*range, requested) && active_ports(*active).contains_key(
            requested,
        ) ==> r == Err::<u16, ConnectError>(ConnectError::PortInUse),
        requested != 0 && in_range(*range, requested) && !active_ports(*active).contains_key(
            requested,
        ) ==> r == Ok::<u16, ConnectError>(requested),
        requested == 0 ==> match r {
            Ok(p) => in_range(*range, p) && !active_ports(*active).contains_key(p),
            Err(e) => e == ConnectError::PortExhausted,
        },
        requested == 0 && (forall|p: u16| in_range(*range, p) ==> active_ports(*active).contains_key(p))
            ==> r == Err::<u16, ConnectError>(ConnectError::PortExhausted),
        requested == 0 && (forall|p: u16| in_range(*range, p) ==> !active_ports(*active).contains_key(p))
            ==> r is Ok,
        match r {
            Ok(p) => final(pool)@ == old(pool)@.remove(p),
            Err(_) => final(pool)@ == old(pool)@,
        },
{
    if requested > 0 {
        if !range.contains(&requested) {
            return Err(ConnectError::PortOutOfRange);
        }
        if active_contains(active, requested) {
            return Err(ConnectError::PortInUse);
        }
        Ok(claim(pool, requested))
    } else {
        let draws = draw_ports(range, RANDOM_ATTEMPTS);
        proof {
            lemma_first_free(active_ports(*active), draws@);
            assert(in_range(*range, draws@[0]));
            assert(draws@ == seq![draws@[0]] + draws@.drop_first());
        }
        assign_from_draws(pool, active, &draws)
    }
}

/// The first of `draws` that is not an active port, if any.
pub open spec fn first_free_draw(active: Map<u16, Option<Seq<char>>>, draws: Seq<u16>) -> Option<u16>
    decreases draws.len(),
{
    if draws.len() == 0 {
        None
    } else if !active.contains_key(draws[0]) {
        Some(draws[0])
    } else {
        first_free_draw(active, draws.drop_first())
    }
}

/// The first free draw is one of the draws and not active; there is none exactly when every
/// draw is active.
pub proof fn lemma_first_free(active: Map<u16, Option<Seq<char>>>, draws: Seq<u16>)
    ensures
        match first_free_draw(active, draws) {
            Some(p) => !active.contains_key(p) && draws.contains(p),
            None => forall|i: int| 0 <= i < draws.len() ==> active.contains_key(#[trigger] draws[i]),
        },
        (forall|i: int| 0 <= i < draws.len() ==> active.contains_key(#[trigger] draws[i]))
            ==> first_free_draw(active, draws) is None,
    decreases draws.len(),
{
    if draws.len() > 0 {
        let tail = draws.drop_first();
        lemma_first_free(active, tail);
        if active.contains_key(draws[0]) {
            match first_free_draw(active, tail) {
                Some(p) => {
                    let k = choose|k: int| 0 <= k < tail.len() && tail[k] == p;
                    assert(draws[k + 1] == p);
                },
                None => {
                    assert forall|i: int| 0 <= i < draws.len() implies active.contains_key(#[trigger] draws[i]) by {
                        if i > 0 {
                            assert(draws[i] == tail[i - 1]);
                        }
                    }
                },
            }
        } else {
            assert(draws[0] == draws[0]);
        }
        if forall|i: int| 0 <= i < draws.len() ==> active.contains_key(#[trigger] draws[i]) {
            assert(active.contains_key(draws[0]));
            assert forall|i: int| 0 <= i < tail.len() implies active.contains_key(#[trigger] tail[i]) by {
                assert(tail[i] == draws[i + 1]);
            }
        }
    }
}

/// `n` random ports of the (non-empty) range, drawn one by one.
fn draw_ports(range: &RangeInclusive<u16>, n: u32) -> (draws: Vec<u16>)
    requires
        range@.start <= range@.end,
        !range@.exhausted,
    ensures
        draws@.len() == n,
        forall|i: int| 0 <= i < n ==> in_range(*range, #[trigger] draws@[i]),
{
    let mut draws: Vec<u16> = Vec::new();
    let mut k: u32 = 0;
    while k < n
        invariant
            range@.start <= range@.end,
            !range@.exhausted,
            k <= n,
            draws@.len() == k,
            forall|i: int| 0 <= i < k ==> in_range(*range, #[trigger] draws@[i]),
        decreases n - k,
    {
        let p = random_port(range);
        draws.push(p);
        k = k + 1;
    }
    draws
}

/// Assigns the first of `draws` that is not an active port (the pool gives it up);
/// `PortExhausted` when every draw is active.
pub fn assign_from_draws(
    pool: &mut BTreeSet<u16>,
    active: &ActivePorts,
    draws: &Vec<u16>,
) -> (r: Result<u16, ConnectError>)
    ensures
        r == match first_free_draw(active_ports(*active), draws@) {
            Some(p) => Ok::<u16, ConnectError>(p),
            None => Err(ConnectError::PortExhausted),
        },
        match r {
            Ok(p) => final(pool)@ == old(pool)@.remove(p),
            Err(_) => final(pool)@ == old(pool)@,
        },
{
    let mut i: usize = 0;
    assert(draws@.skip(0) =~= draws@);
    while i < draws.len()
        invariant
            0 <= i <= draws@.len(),
            *pool == *old(pool),
            first_free_draw(active_ports(*active), draws@) == first_free_draw(
                active_ports(*active),
                draws@.skip(i as int),
            ),
        decreases draws@.len() - i,
    {
        let port = draws[i];
        proof {
            let rest = draws@.skip(i as int);
            assert(rest[0] == port);
            assert(rest.drop_first() =~= draws@.skip(i + 1));
        }
        if !active_contains(active, port) {
            return Ok(claim(pool, port));
        }
        i = i + 1;
    }
    assert(draws@.skip(i as int).len() == 0);
    Err(ConnectError::PortExhausted)
}

} // verus!
