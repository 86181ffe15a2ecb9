//! Relay topology composition through the public composer.

use nostrdm::errors::AppError;
use nostrdm::relays::{RelayRole, compose_topology};

fn urls(v: &[&str]) -> Vec<String> {
    v.iter().map(|s| s.to_string()).collect()
}

#[test]
fn empty_message_relay_list_is_a_configuration_error() {
    let r = compose_topology(&urls(&[]), &urls(&[]), &urls(&[]));
    assert!(matches!(r, Err(AppError::ConfigurationError(_))));
    let r2 = compose_topology(&urls(&[]), &urls(&["wss://extra.example"]), &urls(&[]));
    assert!(matches!(r2, Err(AppError::ConfigurationError(_))));
}

#[test]
fn single_message_relay_composes() {
    let rs = compose_topology(&urls(&["wss://relay.example"]), &urls(&[]), &urls(&[]))
        .expect("non-empty message relays must compose");
    assert_eq!(rs.read, urls(&["wss://relay.example"]));
    assert_eq!(
        rs.write,
        urls(&[
            "wss://relay.example",
            "wss://relay.damus.io",
            "wss://nos.lol",
            "wss://relay.primal.net",
        ])
    );
}

#[test]
fn write_role_covers_every_message_relay() {
    let dm = urls(&["wss://one.example", "wss://two.example/"]);
    let rs = compose_topology(&dm, &urls(&[]), &urls(&["wss://three.example"]))
        .expect("must compose");
    assert!(rs.write.contains(&"wss://one.example".to_string()));
    assert!(rs.write.contains(&"wss://two.example/".to_string()));
    assert!(rs.write.contains(&"wss://three.example".to_string()));
    assert!(!rs.write.is_empty());
}

#[test]
fn dedup_is_case_insensitive_and_ignores_trailing_slashes() {
    let rs = compose_topology(&urls(&["wss://a/", "wss://A"]), &urls(&[]), &urls(&[]))
        .expect("must compose");
    assert_eq!(rs.read, urls(&["wss://a/"]));
    assert_eq!(rs.write.len(), 4);
    assert_eq!(rs.write[0], "wss://a/");
}

#[test]
fn composing_a_composed_role_set_again_changes_nothing() {
    let rs = compose_topology(
        &urls(&["wss://a/", "wss://A", "wss://b.example"]),
        &urls(&[]),
        &urls(&["WSS://B.EXAMPLE/"]),
    )
    .expect("must compose");
    let again = compose_topology(&rs.write, &urls(&[]), &urls(&[])).expect("must compose");
    assert_eq!(again.read, rs.write);
}

#[test]
fn read_role_is_message_relays_plus_extra_read_relays() {
    let rs = compose_topology(
        &urls(&["wss://dm.example"]),
        &urls(&["wss://read.example", "wss://DM.example/"]),
        &urls(&[]),
    )
    .expect("must compose");
    assert_eq!(rs.read, urls(&["wss://dm.example", "wss://read.example"]));
}

#[test]
fn declared_message_relay_equal_to_a_fallback_is_kept_once() {
    let rs = compose_topology(&urls(&["wss://relay.damus.io/"]), &urls(&[]), &urls(&[]))
        .expect("must compose");
    assert_eq!(
        rs.write,
        urls(&["wss://relay.damus.io/", "wss://nos.lol", "wss://relay.primal.net"])
    );
}

#[test]
fn roles_are_looked_up_by_normalized_url() {
    let rs = compose_topology(
        &urls(&["wss://dm.example"]),
        &urls(&["wss://read.example"]),
        &urls(&[]),
    )
    .expect("must compose");
    assert!(rs.has_role("wss://DM.example/", RelayRole::Read));
    assert!(rs.has_role("wss://DM.example/", RelayRole::Write));
    assert!(rs.has_role("wss://read.example", RelayRole::Read));
    assert!(!rs.has_role("wss://read.example", RelayRole::Write));
    assert!(rs.has_role("wss://nos.lol/", RelayRole::Write));
    assert!(!rs.has_role("wss://nos.lol/", RelayRole::Read));
    assert!(!rs.has_role("wss://other.example", RelayRole::Read));
}

#[test]
fn error_text_is_reachable() {
    let r = compose_topology(&urls(&[]), &urls(&[]), &urls(&[]));
    match r {
        Err(e) => assert!(!e.message().is_empty()),
        Ok(_) => panic!("empty message relays must not compose"),
    }
}

#[test]
fn each_error_variant_carries_its_text() {
    let c = AppError::ConfigurationError("no message relay".to_string());
    assert_eq!(c.message(), "no message relay");
    let i = AppError::InvalidRecipient("bad npub".to_string());
    assert_eq!(i.message(), "bad npub");
    let g = AppError::Generic("something else".to_string());
    assert_eq!(g.message(), "something else");
}
