//! Tests of the interface selector's continuity, failover and failure
//! behaviour.

use aliddns::ifaddrs::Interface;
use aliddns::selector::{SelectionEvent, Selector};
use aliddns::OsError;

fn iface(name: &str) -> Interface {
    Interface { desc: format!("{} adapter", name), name: name.to_string(), addrs: Vec::new() }
}

#[test]
fn first_selection_binds_the_first_interface() {
    let mut sel = Selector::new();
    let (chosen, event) = sel.select(vec![iface("A"), iface("B")]).unwrap();
    assert_eq!(chosen.name, "A");
    assert_eq!(event, Some(SelectionEvent::FirstSelection));
    assert_eq!(sel.last_name.as_deref(), Some("A"));
}

#[test]
fn continuity_wins_over_list_position() {
    let mut sel = Selector::new();
    let (chosen, _) = sel.select(vec![iface("A"), iface("B")]).unwrap();
    assert_eq!(chosen.name, "A");
    let (chosen, event) = sel.select(vec![iface("B"), iface("A")]).unwrap();
    assert_eq!(chosen.name, "A");
    assert_eq!(event, None);
    assert_eq!(sel.last_name.as_deref(), Some("A"));
}

#[test]
fn failover_switches_to_the_first_listed() {
    let mut sel = Selector::new();
    sel.select(vec![iface("A")]).unwrap();
    let (chosen, event) = sel.select(vec![iface("B")]).unwrap();
    assert_eq!(chosen.name, "B");
    assert_eq!(event, Some(SelectionEvent::InterfaceSwitch));
    assert_eq!(sel.last_name.as_deref(), Some("B"));
}

#[test]
fn empty_list_fails_in_unset_state_and_keeps_it() {
    let mut sel = Selector::new();
    let err = sel.select(Vec::new()).unwrap_err();
    assert_eq!(err, OsError::NoInterfaceAvailable);
    assert_eq!(sel.last_name, None);
}

#[test]
fn empty_list_fails_in_bound_state_and_keeps_it() {
    let mut sel = Selector::new();
    sel.select(vec![iface("A")]).unwrap();
    let err = sel.select(Vec::new()).unwrap_err();
    assert_eq!(err, OsError::NoInterfaceAvailable);
    assert_eq!(sel.last_name.as_deref(), Some("A"));
}

#[test]
fn continuity_picks_the_first_entry_with_the_identity() {
    let mut sel = Selector::new();
    sel.select(vec![iface("A")]).unwrap();
    let mut twin = iface("A");
    twin.desc = "second entry with the same identity".to_string();
    let (chosen, event) = sel.select(vec![iface("B"), iface("A"), twin]).unwrap();
    assert_eq!(chosen.name, "A");
    assert_eq!(chosen.desc, "A adapter");
    assert_eq!(event, None);
}
