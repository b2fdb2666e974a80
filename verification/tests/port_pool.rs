use std::collections::BTreeSet;
use std::ops::RangeInclusive;

use dashmap::DashMap;
use rabbit::coordinator::port_pool::{assign_from_draws, assign_port};
use rabbit::domain::error::ConnectError;

fn make_pool(range: RangeInclusive<u16>) -> BTreeSet<u16> {
    range.clone().collect()
}

#[test]
fn assigns_requested_port() {
    let range = 3000u16..=4000;
    let mut pool = make_pool(range.clone());
    let active: DashMap<u16, Option<String>> = DashMap::new();
    let port = assign_port(&mut pool, &active, &range, 3500).unwrap();
    assert_eq!(port, 3500);
    assert!(!pool.contains(&3500));
}

#[test]
fn rejects_out_of_range() {
    let range = 3000u16..=4000;
    let mut pool = make_pool(range.clone());
    let active: DashMap<u16, Option<String>> = DashMap::new();
    let err = assign_port(&mut pool, &active, &range, 2999).unwrap_err();
    assert_eq!(err, ConnectError::PortOutOfRange);
}

#[test]
fn rejects_in_use() {
    let range = 3000u16..=4000;
    let mut pool = make_pool(range.clone());
    let active: DashMap<u16, Option<String>> = DashMap::new();
    active.insert(3500, Some("existing".into()));
    let err = assign_port(&mut pool, &active, &range, 3500).unwrap_err();
    assert_eq!(err, ConnectError::PortInUse);
}

#[test]
fn assigns_random_port_when_zero() {
    let range = 3000u16..=4000;
    let mut pool = make_pool(range.clone());
    let active: DashMap<u16, Option<String>> = DashMap::new();
    let port = assign_port(&mut pool, &active, &range, 0).unwrap();
    assert!(range.contains(&port));
    assert!(!active.contains_key(&port));
}

#[test]
fn exhausted_when_all_active() {
    let range = 3000u16..=3002;
    let mut pool = make_pool(range.clone());
    let active: DashMap<u16, Option<String>> = DashMap::new();
    for p in range.clone() {
        active.insert(p, None);
    }
    let err = assign_port(&mut pool, &active, &range, 0).unwrap_err();
    assert_eq!(err, ConnectError::PortExhausted);
}

#[test]
fn random_assignment_takes_the_last_free_port() {
    let range = 3000u16..=3002;
    let mut pool = make_pool(range.clone());
    let active: DashMap<u16, Option<String>> = DashMap::new();
    active.insert(3000, None);
    active.insert(3002, None);
    let port = assign_port(&mut pool, &active, &range, 0).unwrap();
    assert_eq!(port, 3001);
    assert!(!pool.contains(&3001));
}

#[test]
fn draws_take_the_first_free_port() {
    let range = 3000u16..=3010;
    let mut pool = make_pool(range.clone());
    let active: DashMap<u16, Option<String>> = DashMap::new();
    active.insert(3001, None);
    active.insert(3002, None);
    let port = assign_from_draws(&mut pool, &active, &vec![3001, 3002, 3005, 3006]).unwrap();
    assert_eq!(port, 3005);
    assert!(!pool.contains(&3005));
    assert!(pool.contains(&3006));
}

#[test]
fn draws_all_active_exhaust() {
    let range = 3000u16..=3010;
    let mut pool = make_pool(range.clone());
    let active: DashMap<u16, Option<String>> = DashMap::new();
    active.insert(3001, None);
    let before = pool.clone();
    assert_eq!(assign_from_draws(&mut pool, &active, &vec![3001, 3001]).unwrap_err(), ConnectError::PortExhausted);
    assert_eq!(assign_from_draws(&mut pool, &active, &vec![]).unwrap_err(), ConnectError::PortExhausted);
    assert_eq!(pool, before);
}
