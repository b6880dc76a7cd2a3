use soulmemory_rs::events::EventFlag;
use soulmemory_rs::widgets::{parse_flag, ChrDbgFlagsWidget, EventFlagWidget, LogMode, MiscWidget, LOG_CAPACITY};

fn f(time: i64, flag: u32, state: bool) -> EventFlag {
    EventFlag::new(time, flag, state)
}

#[test]
fn parses_flag_ids() {
    assert_eq!(parse_flag("11000000"), Some(11000000));
    assert_eq!(parse_flag("+7"), Some(7));
    assert_eq!(parse_flag("4294967295"), Some(u32::MAX));
    assert_eq!(parse_flag("4294967296"), None);
    assert_eq!(parse_flag(""), None);
    assert_eq!(parse_flag("+"), None);
    assert_eq!(parse_flag("-1"), None);
    assert_eq!(parse_flag("12a"), None);
    assert_eq!(parse_flag(" 1"), None);
}

#[test]
fn unique_mode_logs_each_flag_once() {
    let mut w = EventFlagWidget::new();
    assert_eq!(w.mode(), LogMode::Unique);
    w.ingest(vec![f(1, 10, true), f(2, 10, false), f(3, 11, true)]);
    assert_eq!(w.event_flags(), &vec![f(1, 10, true), f(3, 11, true)]);
    w.clear_unique();
    w.ingest(vec![f(4, 10, true)]);
    assert_eq!(w.event_flags().len(), 3);
}

#[test]
fn all_mode_logs_everything() {
    let mut w = EventFlagWidget::new();
    w.set_mode(LogMode::All);
    w.ingest(vec![f(1, 10, true), f(2, 10, true)]);
    assert_eq!(w.event_flags().len(), 2);
    w.clear_log();
    assert!(w.event_flags().is_empty());
}

#[test]
fn exclusion_mode_skips_excluded_flags() {
    let mut w = EventFlagWidget::new();
    w.set_mode(LogMode::Exclusions);
    w.set_exclusion_input(String::from("10"));
    assert!(w.add_exclusion());
    assert_eq!(w.exclusion_input(), "");
    w.set_exclusion_input(String::from("nope"));
    assert!(!w.add_exclusion());
    assert_eq!(w.exclusion_input(), "nope");
    assert_eq!(w.excluded_flags(), &vec![10]);
    w.ingest(vec![f(1, 10, true), f(2, 12, true)]);
    assert_eq!(w.event_flags(), &vec![f(2, 12, true)]);
    w.remove_exclusion(0);
    w.remove_exclusion(5);
    assert!(w.excluded_flags().is_empty());
}

#[test]
fn log_keeps_newest_hundred() {
    let mut w = EventFlagWidget::new();
    w.set_mode(LogMode::All);
    let flags: Vec<EventFlag> = (0..130).map(|i| f(i, i as u32, true)).collect();
    w.ingest(flags);
    assert_eq!(w.event_flags().len(), LOG_CAPACITY);
    assert_eq!(w.event_flags()[0].time, 30);
    assert_eq!(w.event_flags()[99].time, 129);
}

#[test]
fn watch_list_adds_and_removes() {
    let mut w = EventFlagWidget::new();
    w.set_watch_input(String::from("50"));
    assert!(w.add_watch());
    w.set_watch_input(String::from("60"));
    assert!(w.add_watch());
    assert_eq!(w.watch_input(), "");
    w.remove_watch(0);
    assert_eq!(w.watched_flags(), &vec![60]);
}

#[test]
fn chr_dbg_flags_load_once_and_toggle() {
    let mut w = ChrDbgFlagsWidget::new();
    assert!(!w.is_loaded());
    assert!(w.load(vec![(0, String::from("No Dead"), false), (12, String::from("No Damage"), true)]));
    assert!(!w.load(vec![]));
    assert_eq!(w.flags().len(), 2);
    assert_eq!(w.set_checked(0, true), Some((0, true)));
    assert_eq!(w.flags()[0], (0, String::from("No Dead"), true));
    assert_eq!(w.set_checked(1, false), Some((12, false)));
    assert_eq!(w.set_checked(2, true), None);
}

#[test]
fn quitout_by_button_or_hotkey() {
    let w = MiscWidget::new();
    assert!(w.quitout_requested(true, false));
    assert!(w.quitout_requested(false, true));
    assert!(!w.quitout_requested(false, false));
}
