use fleetcore::registry::Registry;
use fleetcore::states::ChainState;

/// A value with a view, as the registry asks for.
fn digest(byte: u8) -> fleetcore::digest::Digest {
    fleetcore::digest::Digest { bytes: [byte; 32] }
}

#[test]
fn empty_registry() {
    let registry: Registry<fleetcore::digest::Digest> = Registry::new();
    assert_eq!(registry.count(), 0);
    assert_eq!(registry.index_of("a"), None);
    assert!(!registry.contains_key("a"));
    assert!(registry.get("a").is_none());
    assert_eq!(registry.names_list(), Vec::<String>::new());
}

#[test]
fn entries_keep_the_order_in_which_they_came() {
    let mut registry = Registry::new();
    assert_eq!(registry.insert("b".to_string(), digest(2)), None);
    assert_eq!(registry.insert("a".to_string(), digest(1)), None);
    assert_eq!(registry.insert("c".to_string(), digest(3)), None);
    assert_eq!(registry.count(), 3);
    assert_eq!(registry.names_list(), vec!["b".to_string(), "a".to_string(), "c".to_string()]);
    assert_eq!(registry.index_of("b"), Some(0));
    assert_eq!(registry.index_of("a"), Some(1));
    assert_eq!(registry.index_of("c"), Some(2));
    assert_eq!(registry.index_of("d"), None);
    assert_eq!(registry.get("a"), Some(&digest(1)));
    assert!(registry.contains_key("c"));
    assert!(!registry.contains_key(""));
}

#[test]
fn insert_under_a_name_that_is_there_replaces_the_value() {
    let mut registry = Registry::new();
    registry.insert("b".to_string(), digest(2));
    registry.insert("a".to_string(), digest(1));
    assert_eq!(registry.insert("b".to_string(), digest(9)), Some(digest(2)));
    assert_eq!(registry.count(), 2);
    assert_eq!(registry.get("b"), Some(&digest(9)));
    assert_eq!(registry.get("a"), Some(&digest(1)));
    // the entry keeps its place
    assert_eq!(registry.names_list(), vec!["b".to_string(), "a".to_string()]);
}

#[test]
fn names_are_told_apart_exactly() {
    let mut registry = Registry::new();
    registry.insert("game".to_string(), digest(1));
    registry.insert("Game".to_string(), digest(2));
    registry.insert("game ".to_string(), digest(3));
    registry.insert("g\u{e4}me".to_string(), digest(4));
    assert_eq!(registry.count(), 4);
    assert_eq!(registry.get("Game"), Some(&digest(2)));
    assert_eq!(registry.get("g\u{e4}me"), Some(&digest(4)));
    assert!(registry.get("gam").is_none());
}

#[test]
fn new_chain_has_no_games() {
    let chain = ChainState::new();
    assert_eq!(chain.len(), 0);
    assert_eq!(chain.game_ids(), Vec::<String>::new());
    assert!(chain.game("").is_none());
}
