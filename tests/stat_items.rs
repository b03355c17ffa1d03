use sensor_stats::{BoolStat, JsonConv, NumericStat, StatItem, StatType};

#[test]
fn numeric_first_reading_sets_all_fields() {
    let mut s = NumericStat::new("temperature".to_string());
    s.update(&StatType::Numeric(200));
    assert_eq!(s.last(), 200);
    assert_eq!(s.min(), 200);
    assert_eq!(s.max(), 200);
    assert_eq!(s.avg(), 200);
    assert_eq!(s.observations(), 1);
    assert_eq!(s.name(), "temperature");
}

#[test]
fn numeric_readings_keep_min_last_max_order() {
    let mut s = NumericStat::new("t".to_string());
    let readings: Vec<i64> = vec![200, 100, 300, 250, -40];
    let mut count: u64 = 0;
    for r in readings {
        s.update(&StatType::Numeric(r));
        count += 1;
        assert!(s.min() <= s.last());
        assert!(s.last() <= s.max());
        assert_eq!(s.last(), r);
        assert_eq!(s.observations(), count);
    }
    assert_eq!(s.min(), -40);
    assert_eq!(s.max(), 300);
    // (200 + 100 + 300 + 250 - 40) / 5 = 162
    assert_eq!(s.avg(), 162);
}

#[test]
fn numeric_average_rounds_toward_zero() {
    let mut s = NumericStat::new("t".to_string());
    s.update(&StatType::Numeric(-5));
    s.update(&StatType::Numeric(-10));
    assert_eq!(s.avg(), -7);
    let mut p = NumericStat::new("p".to_string());
    p.update(&StatType::Numeric(5));
    p.update(&StatType::Numeric(10));
    assert_eq!(p.avg(), 7);
}

#[test]
fn numeric_extreme_readings_do_not_overflow() {
    let mut s = NumericStat::new("t".to_string());
    s.update(&StatType::Numeric(i64::MAX));
    s.update(&StatType::Numeric(i64::MAX));
    s.update(&StatType::Numeric(i64::MIN));
    assert_eq!(s.min(), i64::MIN);
    assert_eq!(s.max(), i64::MAX);
    assert_eq!(s.observations(), 3);
    // (2 * MAX + MIN) / 3 = (MAX - 1) / 3
    assert_eq!(s.avg(), (i64::MAX - 1) / 3);
}

#[test]
fn bool_counts_true_readings_and_is_not_sticky() {
    let mut b = BoolStat::new("smoke".to_string());
    b.update_at(&StatType::Bool(true), 1_000);
    assert!(b.triggered());
    assert_eq!(b.total_triggers(), 1);
    assert_eq!(b.last_triggered(), 1_000);
    b.update_at(&StatType::Bool(false), 2_000);
    assert!(!b.triggered());
    assert_eq!(b.total_triggers(), 1);
    assert_eq!(b.last_triggered(), 1_000);
    b.update_at(&StatType::Bool(true), 3_000);
    assert!(b.triggered());
    assert_eq!(b.total_triggers(), 2);
    assert_eq!(b.last_triggered(), 3_000);
}

#[test]
fn bool_update_stamps_current_time() {
    let mut b = BoolStat::new("motion".to_string());
    b.update(&StatType::Bool(false));
    assert_eq!(b.last_triggered(), 0);
    assert_eq!(b.total_triggers(), 0);
    b.update(&StatType::Bool(true));
    // any clock of this century
    assert!(b.last_triggered() > 1_600_000_000);
    assert_eq!(b.total_triggers(), 1);
}

#[test]
fn stat_item_dispatches_by_kind() {
    let mut n = StatItem::zero("t".to_string(), true);
    let mut b = StatItem::zero("s".to_string(), false);
    assert!(n.is_numeric());
    assert!(!b.is_numeric());
    n.update(&StatType::Numeric(55));
    b.update(&StatType::Bool(true));
    assert_eq!(n.get_last(), StatType::Numeric(55));
    assert_eq!(b.get_last(), StatType::Bool(true));
    assert_eq!(n.name(), "t");
    assert_eq!(b.name(), "s");
}

#[test]
fn box_clone_is_independent() {
    let mut n = NumericStat::new("t".to_string());
    n.update(&StatType::Numeric(10));
    let copy = n.box_clone();
    n.update(&StatType::Numeric(90));
    assert_eq!(copy.last(), 10);
    assert_eq!(copy.observations(), 1);
    assert_eq!(n.last(), 90);
}

#[test]
fn numeric_json_uses_one_decimal_place() {
    let mut s = NumericStat::new("temperature".to_string());
    s.update(&StatType::Numeric(200));
    s.update(&StatType::Numeric(-35));
    assert_eq!(s.to_json(), "temperature:{value:-3.5,avg:8.2,min:-3.5,max:20}");
}

#[test]
fn whole_values_render_without_fraction() {
    let mut s = NumericStat::new("t".to_string());
    s.update(&StatType::Numeric(-10));
    s.update(&StatType::Numeric(-5));
    assert_eq!(s.to_json(), "t:{value:-0.5,avg:-0.7,min:-1,max:-0.5}");
}

#[test]
fn fresh_numeric_json_is_zero() {
    let s = NumericStat::new("humidity".to_string());
    assert_eq!(s.to_json(), "humidity:{value:0,avg:0,min:0,max:0}");
}

#[test]
fn bool_json_lists_trigger_fields() {
    let mut b = BoolStat::new("smoke".to_string());
    assert_eq!(b.to_json(), "smoke:{triggered:false,last_triggered:0,total_triggers:0}");
    b.update_at(&StatType::Bool(true), 1_700_000_123);
    assert_eq!(b.to_json(), "smoke:{triggered:true,last_triggered:1700000123,total_triggers:1}");
    b.update_at(&StatType::Bool(true), -42);
    assert_eq!(b.to_json(), "smoke:{triggered:true,last_triggered:-42,total_triggers:2}");
}
