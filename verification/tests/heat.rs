use gossip_expire::rumor::{RumorHeat, RumorKey, RumorType};

#[test]
fn start_hot_creates_and_resets() {
    let mut heat = RumorHeat::new();
    let key = RumorKey::new(RumorType::Member, "m", "");
    assert_eq!(heat.heat_of(&key), None);
    heat.start_hot_rumor(RumorKey::new(RumorType::Member, "m", ""));
    assert_eq!(heat.heat_of(&key), Some(0));
    assert_eq!(heat.len(), 1);
    // Idempotent: igniting again neither duplicates nor changes anything.
    heat.start_hot_rumor(RumorKey::new(RumorType::Member, "m", ""));
    assert_eq!(heat.heat_of(&key), Some(0));
    assert_eq!(heat.len(), 1);
}

#[test]
fn purge_is_scoped_to_one_id() {
    // Heat for one id spread over several categories and secondary keys is
    // removed wholesale; every other id's heat is left untouched.
    let mut heat = RumorHeat::new();
    heat.start_hot_rumor(RumorKey::new(RumorType::Member, "a", ""));
    heat.start_hot_rumor(RumorKey::new(RumorType::Service, "a", "group1"));
    heat.start_hot_rumor(RumorKey::new(RumorType::ServiceConfig, "a", "group2"));
    heat.start_hot_rumor(RumorKey::new(RumorType::Member, "b", ""));
    heat.start_hot_rumor(RumorKey::new(RumorType::Service, "b", "group1"));
    assert_eq!(heat.len(), 5);

    heat.purge(&"a".to_string());

    assert_eq!(heat.len(), 2);
    assert_eq!(heat.heat_of(&RumorKey::new(RumorType::Member, "a", "")), None);
    assert_eq!(heat.heat_of(&RumorKey::new(RumorType::Service, "a", "group1")), None);
    assert_eq!(heat.heat_of(&RumorKey::new(RumorType::ServiceConfig, "a", "group2")), None);
    assert_eq!(heat.heat_of(&RumorKey::new(RumorType::Member, "b", "")), Some(0));
    assert_eq!(heat.heat_of(&RumorKey::new(RumorType::Service, "b", "group1")), Some(0));
}

#[test]
fn purge_of_absent_id_changes_nothing() {
    let mut heat = RumorHeat::new();
    heat.start_hot_rumor(RumorKey::new(RumorType::Member, "a", ""));
    heat.purge(&"missing".to_string());
    assert_eq!(heat.len(), 1);
    assert_eq!(heat.heat_of(&RumorKey::new(RumorType::Member, "a", "")), Some(0));
}

#[test]
fn keys_are_equal_only_when_all_fields_match() {
    let base = RumorKey::new(RumorType::Service, "id", "sec");
    assert!(base.matches(&RumorKey::new(RumorType::Service, "id", "sec")));
    assert!(!base.matches(&RumorKey::new(RumorType::Member, "id", "sec")));
    assert!(!base.matches(&RumorKey::new(RumorType::Service, "other", "sec")));
    assert!(!base.matches(&RumorKey::new(RumorType::Service, "id", "")));
    let copy = base.duplicate();
    assert!(base.matches(&copy));
}
