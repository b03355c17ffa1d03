use sensor_stats::{JsonConv, StatItem, StatType, Stats, StatsError};

fn registry() -> Stats {
    let mut s = Stats::new();
    s.add_stat_item(StatItem::zero("temperature".to_string(), true));
    s.add_stat_item(StatItem::zero("smoke".to_string(), false));
    s
}

#[test]
fn unknown_key_fails_and_changes_nothing() {
    let mut s = registry();
    s.update_stat_item(&"temperature".to_string(), StatType::Numeric(120)).unwrap();
    let before = s.to_json();
    let r = s.update_stat_item(&"pressure".to_string(), StatType::Numeric(5));
    assert_eq!(r, Err(StatsError::UnknownStatKey("pressure".to_string())));
    assert_eq!(s.to_json(), before);
    assert_eq!(s.len(), 2);
}

#[test]
fn update_reaches_only_the_named_entry() {
    let mut s = registry();
    assert_eq!(s.update_stat_item(&"smoke".to_string(), StatType::Bool(true)), Ok(()));
    match s.get(&"smoke".to_string()) {
        Some(StatItem::Bool(b)) => assert_eq!(b.total_triggers(), 1),
        _ => panic!("smoke entry missing"),
    }
    match s.get(&"temperature".to_string()) {
        Some(StatItem::Numeric(n)) => assert_eq!(n.observations(), 0),
        _ => panic!("temperature entry missing"),
    }
}

#[test]
fn registering_a_name_again_replaces_the_entry() {
    let mut s = registry();
    s.update_stat_item(&"temperature".to_string(), StatType::Numeric(120)).unwrap();
    s.add_stat_item(StatItem::zero("temperature".to_string(), true));
    assert_eq!(s.len(), 2);
    match s.get(&"temperature".to_string()) {
        Some(StatItem::Numeric(n)) => assert_eq!(n.observations(), 0),
        _ => panic!("temperature entry missing"),
    }
    assert!(s.get(&"pressure".to_string()).is_none());
}

#[test]
fn snapshot_is_isolated_from_later_updates() {
    let mut s = registry();
    s.update_stat_item(&"temperature".to_string(), StatType::Numeric(200)).unwrap();
    let snap = s.snapshot();
    let frozen = snap.to_json();
    s.update_stat_item(&"temperature".to_string(), StatType::Numeric(400)).unwrap();
    s.update_stat_item(&"smoke".to_string(), StatType::Bool(true)).unwrap();
    assert_eq!(snap.to_json(), frozen);
    match snap.get(&"temperature".to_string()) {
        Some(StatItem::Numeric(n)) => {
            assert_eq!(n.last(), 200);
            assert_eq!(n.observations(), 1);
        }
        _ => panic!("temperature entry missing"),
    }
    assert_ne!(s.to_json(), frozen);
}

#[test]
fn registry_json_joins_items_in_order() {
    let s = registry();
    assert_eq!(
        s.to_json(),
        "{stats:{temperature:{value:0,avg:0,min:0,max:0},smoke:{triggered:false,last_triggered:0,total_triggers:0}}}"
    );
    assert_eq!(Stats::new().to_json(), "{stats:{}}");
}
