use sensor_stats::{
    interval_from_config, parse_interval_ms, AM2320Usage, DebugBoolModule, DebugModule,
    DebugNumericModule,
    DebugTemperatureModule, EngineControl, IModule, IStatsGetter, LoopAction, ModuleStatsGetter,
    PollLoop, StatItem, StatType, Stats, StatsError, DEFAULT_INTERVAL_MS,
};

enum Probe {
    Numeric(DebugNumericModule),
    Flag(DebugBoolModule),
    Broken(String),
}

impl IModule for Probe {
    fn get_measurement(&mut self) -> Result<StatType, String> {
        match self {
            Probe::Numeric(m) => m.get_measurement(),
            Probe::Flag(m) => m.get_measurement(),
            Probe::Broken(_) => Err("sensor offline".to_string()),
        }
    }

    fn get_measurement_name(&self) -> String {
        match self {
            Probe::Numeric(m) => m.get_measurement_name(),
            Probe::Flag(m) => m.get_measurement_name(),
            Probe::Broken(name) => name.clone(),
        }
    }

    fn get_base_stat_item(&self) -> StatItem {
        match self {
            Probe::Numeric(m) => m.get_base_stat_item(),
            Probe::Flag(m) => m.get_base_stat_item(),
            Probe::Broken(name) => StatItem::zero(name.clone(), true),
        }
    }
}

fn numeric(name: &str, value: i64) -> Probe {
    Probe::Numeric(DebugNumericModule { return_value: value, name: name.to_string() })
}

fn flag(name: &str, value: bool) -> Probe {
    Probe::Flag(DebugBoolModule { return_value: value, name: name.to_string() })
}

fn numeric_entry(stats: &Stats, name: &str) -> (i64, i64, i64, u64) {
    match stats.get(&name.to_string()) {
        Some(StatItem::Numeric(n)) => (n.last(), n.min(), n.max(), n.observations()),
        _ => panic!("no numeric entry {}", name),
    }
}

fn bool_entry(stats: &Stats, name: &str) -> (bool, u64) {
    match stats.get(&name.to_string()) {
        Some(StatItem::Bool(b)) => (b.triggered(), b.total_triggers()),
        _ => panic!("no boolean entry {}", name),
    }
}

#[test]
fn debug_module_polls_both_kinds() {
    let mut getter = ModuleStatsGetter::new();
    getter.add_module(DebugModule::Numeric(DebugNumericModule {
        return_value: 200,
        name: "debug_temperature".to_string(),
    }));
    getter.add_module(DebugModule::Bool(DebugBoolModule {
        return_value: false,
        name: "debug_smoke".to_string(),
    }));
    assert_eq!(getter.update_stats(), Ok(()));
    let stats = getter.latest_snapshot();
    assert_eq!(numeric_entry(&stats, "debug_temperature"), (200, 200, 200, 1));
    assert_eq!(bool_entry(&stats, "debug_smoke"), (false, 0));
}

#[test]
fn engine_end_to_end_with_two_modules() {
    let mut getter = ModuleStatsGetter::new();
    getter.add_module(numeric("debug_temperature", 200));
    getter.add_module(flag("debug_smoke", false));

    let mut control = EngineControl::new();
    assert_eq!(control.update_stats(), Err(StatsError::EngineNotRunning));
    control.start().unwrap();
    assert!(control.is_running());

    let mut lp = PollLoop::new(interval_from_config(None));
    assert_eq!(lp.first_action(), LoopAction::Sleep(1000));
    // one interval elapses
    assert_eq!(lp.on_woken(Ok(control.is_running())), LoopAction::Poll);
    let outcome = getter.update_stats();
    assert_eq!(outcome, Ok(()));
    assert_eq!(lp.on_polled(&outcome), LoopAction::Sleep(1000));

    let stats = getter.get_stats().unwrap();
    assert_eq!(numeric_entry(&stats, "debug_temperature"), (200, 200, 200, 1));
    assert_eq!(bool_entry(&stats, "debug_smoke"), (false, 0));

    control.stop();
    // one more interval: the loop wakes, sees the stop and leaves
    assert_eq!(lp.on_woken(Ok(control.is_running())), LoopAction::Exit);
    let later = getter.get_stats().unwrap();
    assert_eq!(numeric_entry(&later, "debug_temperature"), (200, 200, 200, 1));
    assert_eq!(bool_entry(&later, "debug_smoke"), (false, 0));
}

#[test]
fn fail_fast_pass_keeps_earlier_updates_only() {
    let mut getter = ModuleStatsGetter::new();
    getter.add_module(numeric("first", 100));
    getter.add_module(Probe::Broken("second".to_string()));
    getter.add_module(numeric("third", 300));

    let r = getter.update_stats();
    assert_eq!(r, Err(StatsError::ModuleReadFailure("sensor offline".to_string())));
    let stats = getter.latest_snapshot();
    assert_eq!(numeric_entry(&stats, "first"), (100, 100, 100, 1));
    assert_eq!(numeric_entry(&stats, "second"), (0, 0, 0, 0));
    assert_eq!(numeric_entry(&stats, "third"), (0, 0, 0, 0));

    // a second failing pass leaves the third entry at its prior value again
    let _ = getter.update_stats();
    let again = getter.latest_snapshot();
    assert_eq!(numeric_entry(&again, "first"), (100, 100, 100, 2));
    assert_eq!(numeric_entry(&again, "third"), (0, 0, 0, 0));
}

#[test]
fn apply_reading_folds_or_reports() {
    let mut getter = ModuleStatsGetter::new();
    getter.add_module(numeric("t", 0));
    assert_eq!(getter.apply_reading(0, Ok(StatType::Numeric(75))), Ok(()));
    assert_eq!(
        getter.apply_reading(0, Err("bus error".to_string())),
        Err(StatsError::ModuleReadFailure("bus error".to_string()))
    );
    assert_eq!(numeric_entry(&getter.latest_snapshot(), "t"), (75, 75, 75, 1));
}

#[test]
fn reading_of_the_wrong_kind_is_a_type_mismatch() {
    let mut getter = ModuleStatsGetter::new();
    getter.add_module(numeric("t", 0));
    assert_eq!(getter.apply_reading(0, Ok(StatType::Bool(true))), Err(StatsError::TypeMismatch));
    assert_eq!(numeric_entry(&getter.latest_snapshot(), "t"), (0, 0, 0, 0));
}

#[test]
fn registering_a_module_name_again_keeps_both_modules() {
    let mut getter = ModuleStatsGetter::new();
    getter.add_module(numeric("a", 10));
    getter.add_module(numeric("b", 20));
    getter.update_stats().unwrap();
    getter.add_module(numeric("a", 30));
    // the entry "a" starts over; both modules named "a" feed it
    assert_eq!(numeric_entry(&getter.latest_snapshot(), "a"), (0, 0, 0, 0));
    getter.update_stats().unwrap();
    let stats = getter.latest_snapshot();
    assert_eq!(stats.len(), 2);
    assert_eq!(numeric_entry(&stats, "a"), (30, 10, 30, 2));
    assert_eq!(numeric_entry(&stats, "b"), (20, 20, 20, 2));
}

#[test]
fn same_name_of_the_other_kind_is_a_type_mismatch() {
    let mut getter = ModuleStatsGetter::new();
    getter.add_module(numeric("a", 10));
    getter.add_module(flag("a", true));
    // the numeric module now reads into the boolean entry "a"
    assert_eq!(getter.update_stats(), Err(StatsError::TypeMismatch));
    assert_eq!(bool_entry(&getter.latest_snapshot(), "a"), (false, 0));
}

#[test]
fn register_uses_the_given_name_and_kind() {
    let mut getter = ModuleStatsGetter::new();
    getter.register(flag("ignored", true), "door".to_string(), StatItem::zero("x".to_string(), false));
    getter.register(numeric("also_ignored", 70), "porch".to_string(), StatItem::zero("y".to_string(), true));
    assert!(getter.has_module(&"door".to_string()));
    assert!(!getter.has_module(&"ignored".to_string()));
    getter.update_stats().unwrap();
    let stats = getter.latest_snapshot();
    assert_eq!(bool_entry(&stats, "door"), (true, 1));
    assert_eq!(numeric_entry(&stats, "porch"), (70, 70, 70, 1));
}

#[test]
fn modules_are_registered_once_by_name() {
    let mut getter = ModuleStatsGetter::new();
    getter.add_module(DebugTemperatureModule {});
    assert!(getter.has_module(&"debug_temperature".to_string()));
    assert!(!getter.has_module(&"humidity".to_string()));
    getter.update_stats().unwrap();
    assert_eq!(numeric_entry(&getter.latest_snapshot(), "debug_temperature"), (0, 0, 0, 1));
}

#[test]
fn start_twice_is_refused() {
    let mut control = EngineControl::new();
    assert_eq!(control.start(), Ok(()));
    assert_eq!(control.start(), Err(StatsError::EngineAlreadyRunning));
    assert_eq!(control.update_stats(), Ok(()));
    control.stop();
    assert!(!control.is_running());
    assert_eq!(control.update_stats(), Err(StatsError::EngineNotRunning));
}

#[test]
fn unreadable_flag_ends_the_loop() {
    let mut lp = PollLoop::new(250);
    assert_eq!(lp.first_action(), LoopAction::Sleep(250));
    assert_eq!(lp.on_woken(Err(StatsError::LockUnavailable)), LoopAction::Exit);
}

#[test]
fn failed_pass_keeps_the_loop_going() {
    let mut lp = PollLoop::new(10);
    assert_eq!(lp.on_woken(Ok(true)), LoopAction::Poll);
    let failed: Result<(), StatsError> = Err(StatsError::LockUnavailable);
    assert_eq!(lp.on_polled(&failed), LoopAction::Sleep(10));
    assert_eq!(lp.on_woken(Ok(true)), LoopAction::Poll);
}

#[test]
fn kind_mismatch_ends_the_loop() {
    let mut lp = PollLoop::new(10);
    assert_eq!(lp.on_woken(Ok(true)), LoopAction::Poll);
    let failed: Result<(), StatsError> = Err(StatsError::TypeMismatch);
    assert_eq!(lp.on_polled(&failed), LoopAction::Abort);
}

#[test]
fn interval_text_is_read_like_u64() {
    assert_eq!(parse_interval_ms("250"), Some(250));
    assert_eq!(parse_interval_ms("+7"), Some(7));
    assert_eq!(parse_interval_ms("007"), Some(7));
    assert_eq!(parse_interval_ms(""), None);
    assert_eq!(parse_interval_ms("+"), None);
    assert_eq!(parse_interval_ms("-5"), None);
    assert_eq!(parse_interval_ms("12a"), None);
    assert_eq!(parse_interval_ms(" 12"), None);
    assert_eq!(parse_interval_ms("18446744073709551615"), Some(u64::MAX));
    assert_eq!(parse_interval_ms("18446744073709551616"), None);
    assert_eq!(parse_interval_ms("99999999999999999999x"), None);
}

#[test]
fn interval_falls_back_to_one_second() {
    assert_eq!(DEFAULT_INTERVAL_MS, 1000);
    assert_eq!(interval_from_config(None), 1000);
    assert_eq!(interval_from_config(Some("fast")), 1000);
    assert_eq!(interval_from_config(Some("50")), 50);
}

#[test]
fn am2320_usage_names_and_selects() {
    assert_eq!(AM2320Usage::Temperature.get_key(), "temperature");
    assert_eq!(AM2320Usage::Humidity.get_key(), "humidity");
    assert_eq!(AM2320Usage::Temperature.select(215, 480), 215);
    assert_eq!(AM2320Usage::Humidity.select(215, 480), 480);
}

#[test]
fn debug_modules_read_their_values() {
    let mut t = DebugTemperatureModule {};
    assert_eq!(t.get_measurement(), Ok(StatType::Numeric(0)));
    assert_eq!(t.get_measurement_name(), "debug_temperature");
    let mut b = DebugBoolModule { return_value: true, name: "debug_motion".to_string() };
    assert_eq!(b.get_measurement(), Ok(StatType::Bool(true)));
    assert!(!b.get_base_stat_item().is_numeric());
    let n = DebugNumericModule { return_value: 400, name: "debug_humidity".to_string() };
    assert!(n.get_base_stat_item().is_numeric());
    assert_eq!(n.get_base_stat_item().name(), "debug_humidity");
}
