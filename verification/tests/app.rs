use hare::hardware::cpu::governor::CpuGovernorMetric;
use hare::hardware::cpu::topology::CpuOnlineMetric;
use hare::hardware::cpu::{core_index, SYS_CPU};
use hare::hardware::metric::Metric;
use hare::hardware::registry::Registry;
use hare::hardware::source::{HwError, Listing, Source, Text};
use hare::hardware::value::Value;
use hare::text::{chars_of, decimal_string, parse_unsigned};
use hare::tui::app::{App, ControlTab, FreqCol, MonitorTab, Page, SnapshotEntry};
use hare::tui::event::{
    click_action, click_action_among, handle_key_event, handle_mouse, key_action, Action, Key, Mouse,
};
use hare::tui::layout::{sidebar_tab_rects, tab_rects, tabs, Rect};
use std::collections::HashMap;
use std::sync::Mutex;

/// A source whose writes land in its files, so a read sees what was written.
struct StoreSource {
    files: Mutex<HashMap<String, String>>,
    dirs: HashMap<String, Vec<String>>,
}

impl Source for StoreSource {
    fn served(&self, _path: Text, _content: Text) -> bool {
        true
    }
    fn listed(&self, _path: Text, _entries: Listing) -> bool {
        true
    }
    fn answered(&self, _path: Text, _present: bool) -> bool {
        true
    }
    fn accepted(&self, _path: Text, _content: Text) -> bool {
        true
    }
    fn listing_failed(&self, _path: Text, _e: HwError) -> bool {
        true
    }
    fn read_to_string(&self, path: &str) -> Result<String, HwError> {
        self.files
            .lock()
            .unwrap()
            .get(path)
            .cloned()
            .ok_or_else(|| HwError::Source(format!("not found: {}", path)))
    }
    fn write(&self, path: &str, content: &str) -> Result<(), HwError> {
        self.files.lock().unwrap().insert(path.to_string(), content.to_string());
        Ok(())
    }
    fn path_exists(&self, path: &str) -> bool {
        self.files.lock().unwrap().contains_key(path) || self.dirs.contains_key(path)
    }
    fn list_dir(&self, path: &str) -> Result<Vec<String>, HwError> {
        self.dirs
            .get(path)
            .cloned()
            .ok_or_else(|| HwError::Source(format!("not a dir: {}", path)))
    }
}

fn store() -> StoreSource {
    let cpu0 = format!("{}/cpu0", SYS_CPU);
    let cpu1 = format!("{}/cpu1", SYS_CPU);
    let mut dirs = HashMap::new();
    dirs.insert(SYS_CPU.to_string(), vec![cpu0.clone(), cpu1.clone()]);
    let mut files = HashMap::new();
    files.insert(format!("{}/online", cpu1), "0\n".to_string());
    files.insert(format!("{}/cpufreq/scaling_governor", cpu0), "powersave\n".to_string());
    files.insert(format!("{}/cpufreq/scaling_governor", cpu1), "powersave\n".to_string());
    StoreSource { files: Mutex::new(files), dirs }
}

fn entry(id: &str, value: Value) -> SnapshotEntry {
    SnapshotEntry { id: id.to_string(), label: id.to_string(), unit: String::new(), value }
}

fn app_with_cores(n: usize) -> App {
    let mut app = App::new();
    app.snapshot = vec![entry(
        "cpu.topology.online",
        Value::Series((0..n).map(|i| Value::Bool(i % 2 == 0)).collect()),
    )];
    app
}

#[test]
fn monitor_tabs_cycle_and_step_back() {
    let mut app = App::new();
    app.next_monitor_tab();
    assert_eq!(app.monitor_tab, MonitorTab::Governor);
    app.prev_monitor_tab();
    assert_eq!(app.monitor_tab, MonitorTab::Overview);
    app.prev_monitor_tab();
    assert_eq!(app.monitor_tab, MonitorTab::Cluster);
    for _ in 0..3 {
        app.next_monitor_tab();
    }
    assert_eq!(app.monitor_tab, MonitorTab::Cluster);
    assert_eq!(MonitorTab::Cluster.next(), MonitorTab::Overview);
    assert_eq!(MonitorTab::Overview.prev(), MonitorTab::Cluster);
}

#[test]
fn control_tabs_toggle_and_reset_the_cursor() {
    let mut app = app_with_cores(4);
    app.set_page(Page::Control);
    app.selected_core = 2;
    app.control_message = Some("done".to_string());
    app.next_control_tab();
    assert_eq!(app.control_tab, ControlTab::FreqLimit);
    assert_eq!(app.selected_core, 0);
    assert_eq!(app.control_message, None);
    app.next_control_tab();
    assert_eq!(app.control_tab, ControlTab::Online);
    assert_eq!(ControlTab::Online.prev(), ControlTab::FreqLimit);
}

#[test]
fn selecting_the_current_page_changes_nothing() {
    let mut app = App::new();
    app.scroll_down(5);
    app.set_page(Page::Monitor);
    assert_eq!(app.scroll_offset, (0, 5));
    app.set_page(Page::Control);
    assert_eq!(app.scroll_offset, (0, 0));
    app.scroll_right(4);
    app.set_page(Page::Control);
    assert_eq!(app.current_page, Page::Control);
    assert_eq!(app.scroll_offset, (4, 0));
}

#[test]
fn scrolling_there_and_back_restores_the_offset() {
    let mut app = App::new();
    app.scroll_down(7);
    app.scroll_right(3);
    app.scroll_up(7);
    app.scroll_left(3);
    assert_eq!(app.scroll_offset, (0, 0));
    // At the top, scrolling up saturates, so the way back is shorter.
    app.scroll_up(2);
    app.scroll_down(2);
    assert_eq!(app.scroll_offset, (0, 2));
    app.scroll_down(u16::MAX);
    assert_eq!(app.scroll_offset, (0, u16::MAX));
}

#[test]
fn three_escapes_always_quit() {
    let mut app = app_with_cores(2);
    app.set_page(Page::Control);
    app.set_control_tab(ControlTab::FreqLimit);
    app.freq_input('5');
    assert_eq!(app.freq_edit, Some("5".to_string()));
    app.escape();
    assert_eq!(app.freq_edit, None);
    assert_eq!(app.current_page, Page::Control);
    assert!(!app.should_quit);
    app.escape();
    assert_eq!(app.current_page, Page::Monitor);
    assert!(!app.should_quit);
    app.escape();
    assert!(app.should_quit);
}

#[test]
fn cursor_stays_on_visible_cores() {
    let mut app = app_with_cores(3);
    app.set_page(Page::Control);
    for _ in 0..5 {
        app.move_cursor_vertical(true);
    }
    assert_eq!(app.selected_core, 2);
    for _ in 0..5 {
        app.move_cursor_vertical(false);
    }
    assert_eq!(app.selected_core, 0);
    // Without per-core data the cursor does not move.
    let mut empty = App::new();
    empty.move_cursor_vertical(true);
    assert_eq!(empty.selected_core, 0);
}

#[test]
fn frequency_buffer_holds_at_most_nine_digits() {
    let mut app = App::new();
    for c in "123456789012".chars() {
        app.freq_input(c);
    }
    assert_eq!(app.freq_edit, Some("123456789".to_string()));
    app.freq_input('x');
    assert_eq!(app.freq_edit, Some("123456789".to_string()));
    app.freq_backspace();
    assert_eq!(app.freq_edit, Some("12345678".to_string()));
    for _ in 0..10 {
        app.freq_backspace();
    }
    assert_eq!(app.freq_edit, Some(String::new()));
}

#[test]
fn open_edit_pins_the_control_tab_and_columns() {
    let mut app = app_with_cores(2);
    app.set_page(Page::Control);
    app.set_control_tab(ControlTab::FreqLimit);
    app.freq_input('1');
    app.cycle_sub_tab_next();
    app.cycle_sub_tab_prev();
    assert_eq!(app.control_tab, ControlTab::FreqLimit);
    app.move_cursor_horizontal(false);
    assert_eq!(app.freq_col, FreqCol::Min);
    assert_eq!(app.freq_edit, Some("1".to_string()));
}

#[test]
fn global_keys_act_on_every_page_even_while_editing() {
    let src = store();
    let mut app = app_with_cores(2);
    app.set_page(Page::Control);
    app.set_control_tab(ControlTab::FreqLimit);
    app.freq_input('7');
    assert_eq!(key_action(&app, Key::Char('q')), Action::Quit);
    assert_eq!(key_action(&app, Key::Char('h')), Action::Nothing);
    assert_eq!(key_action(&app, Key::Char('8')), Action::FreqInput('8'));
    handle_key_event(&mut app, Key::Char('1'), &src);
    assert_eq!(app.current_page, Page::Monitor);
    assert_eq!(app.freq_edit, None);
    handle_key_event(&mut app, Key::Char('j'), &src);
    assert_eq!(app.scroll_offset, (0, 1));
    handle_key_event(&mut app, Key::Tab, &src);
    assert_eq!(app.monitor_tab, MonitorTab::Governor);
    assert_eq!(app.scroll_offset, (0, 0));
    handle_key_event(&mut app, Key::Char('q'), &src);
    assert!(app.should_quit);
}

#[test]
fn clicks_while_editing_only_select_pages() {
    let screen = Rect { x: 0, y: 0, width: 80, height: 24 };
    let mut app = app_with_cores(2);
    // On the Monitor page the sidebar's second row selects Governor.
    assert_eq!(click_action(&app, screen, 2, 2), Action::SetMonitorTab(MonitorTab::Governor));
    handle_mouse(&mut app, Mouse::LeftClick { column: 2, row: 2 }, screen);
    assert_eq!(app.monitor_tab, MonitorTab::Governor);
    handle_mouse(&mut app, Mouse::ScrollDown, screen);
    assert_eq!(app.scroll_offset, (0, 3));
    // With an edit open, the sidebar does not react.
    app.freq_input('3');
    assert_eq!(click_action(&app, screen, 2, 3), Action::Nothing);
    let rects = tab_rects(screen, app.current_page);
    let (page, rect) = rects[1];
    assert_eq!(click_action(&app, screen, rect.x, rect.y), Action::SetPage(page));
}

#[test]
fn toggling_a_core_writes_the_opposite_status_and_reads_it_back() {
    let src = store();
    let mut app = App::new();
    app.refresh(&src);
    assert_eq!(app.online_lockable, vec![false, true]);
    app.set_page(Page::Control);
    app.move_cursor_vertical(true);
    assert_eq!(app.selected_core, 1);
    app.toggle_online(&src);
    assert_eq!(app.control_message, Some("core 1: online".to_string()));
    assert_eq!(
        src.read_to_string(&format!("{}/cpu1/online", SYS_CPU)),
        Ok("1".to_string())
    );
    let Value::Series(vs) = CpuOnlineMetric::new().read(&src).unwrap() else { panic!() };
    assert_eq!(vs, vec![Value::Bool(true), Value::Bool(true)]);
    // cpu0 has no online file: it is locked.
    app.move_cursor_vertical(false);
    app.toggle_online(&src);
    assert_eq!(app.control_message, Some("core 0: locked (cannot offline)".to_string()));
}

#[test]
fn committing_a_frequency_reports_the_missing_metric() {
    let src = store();
    let mut app = App::new();
    app.refresh(&src);
    app.set_page(Page::Control);
    app.set_control_tab(ControlTab::FreqLimit);
    app.freq_commit(&src);
    assert_eq!(app.control_message, None);
    app.freq_input('1');
    app.freq_input('2');
    app.freq_commit(&src);
    assert_eq!(app.freq_edit, None);
    assert_eq!(app.control_message, Some("metric cpu.freq.min not registered".to_string()));
    app.freq_input('9');
    for c in "99999999".chars() {
        app.freq_input(c);
    }
    app.move_cursor_horizontal(false);
    assert_eq!(app.freq_col, FreqCol::Min);
}

#[test]
fn written_governor_reads_back() {
    let src = store();
    let mut m = CpuGovernorMetric::new();
    m.write(&src, &Value::Enum("  performance\n".to_string())).unwrap();
    let Value::Series(vs) = m.read(&src).unwrap() else { panic!() };
    assert_eq!(
        vs,
        vec![Value::Enum("performance".to_string()), Value::Enum("performance".to_string())]
    );
}

#[test]
fn decimals_read_back_and_core_directories_are_numbered() {
    for n in [0u64, 7, 10, 4096, u64::MAX] {
        let s = decimal_string(n);
        assert_eq!(parse_unsigned(&chars_of(&s), u64::MAX), Some(n));
    }
    assert_eq!(parse_unsigned(&chars_of("4096"), 4095), None);
    assert_eq!(core_index(&format!("{}/cpu{}", SYS_CPU, 12)), Some(12));
}

#[test]
fn default_registry_lists_the_cpu_metrics_in_order() {
    let reg = Registry::default_cpu();
    let ids: Vec<&str> = reg.iter().iter().map(|m| m.id()).collect();
    assert_eq!(
        ids,
        vec![
            "cpu.freq.cur",
            "cpu.governor",
            "cpu.governor.available",
            "cpu.topology.online",
            "cpu.topology.cluster",
            "cpu.usage",
        ]
    );
    assert_eq!(reg.len(), 6);
    assert!(!reg.is_empty());
    assert_eq!(reg.find("cpu.usage"), Some(5));
    assert_eq!(reg.find("cpu.freq.min"), None);
    assert_eq!(reg.label_at(3), "Online Status");
    assert_eq!(reg.unit_at(0), "MHz");
    assert_eq!(reg.unit_at(1), "");
    assert_eq!(reg.unit_at(5), "%");
    assert_eq!(reg.iter()[2].category(), "cpu");
    let src = store();
    assert_eq!(
        reg.write_at(0, &src, &Value::Freq(Some(1))),
        Err(HwError::ReadOnly("cpu.freq.cur".to_string()))
    );
    assert_eq!(
        reg.write_at(1, &src, &Value::Bool(true)),
        Err(HwError::NotAGovernorName("Bool".to_string()))
    );
    assert!(Registry::new().is_empty());
}

#[test]
fn pages_show_the_digit_that_selects_them() {
    assert_eq!(Page::Monitor.digit(), '1');
    assert_eq!(Page::Control.digit(), '2');
    assert_eq!(Page::Preset.digit(), '3');
    assert_eq!(hare::tui::layout::tab_label_text(Page::Control), " 2:Control");
}

#[test]
fn changing_page_resets_the_cursor() {
    let mut app = app_with_cores(4);
    app.set_page(Page::Control);
    app.move_cursor_vertical(true);
    app.move_cursor_vertical(true);
    assert_eq!(app.selected_core, 2);
    app.set_page(Page::Control);
    assert_eq!(app.selected_core, 2);
    app.set_page(Page::Preset);
    assert_eq!(app.selected_core, 0);
}

#[test]
fn toggle_and_commit_plans_name_the_write() {
    let src = store();
    let mut app = App::new();
    app.refresh(&src);
    let w = app.toggle_request(1).ok().unwrap();
    assert_eq!(w.core, 1);
    assert_eq!(w.value, Value::Bool(true));
    assert_eq!(app.registry.iter()[w.metric].id(), "cpu.topology.online");
    assert_eq!(app.toggle_request(0).err(), Some("core 0: locked (cannot offline)".to_string()));
    assert_eq!(app.toggle_request(7).err(), Some("core 7: unknown".to_string()));
    assert_eq!(
        app.freq_request(&"1.5".to_string()).err(),
        Some("metric cpu.freq.min not registered".to_string())
    );
    for text in ["1e3", "inf", "-NaN", "+Infinity", "5.", ".5", "2E-1"] {
        assert_eq!(
            app.freq_request(&text.to_string()).err(),
            Some("metric cpu.freq.min not registered".to_string())
        );
    }
    for text in ["", ".", "1..2", "1e", "e5", " 1", "infx", "0x10", "1,5"] {
        assert_eq!(
            app.freq_request(&text.to_string()).err(),
            Some(format!("core 0: invalid frequency '{}'", text))
        );
    }
    assert_eq!(
        app.freq_request(&"800".to_string()).err(),
        Some("metric cpu.freq.min not registered".to_string())
    );
}

#[test]
fn snapshot_keeps_exactly_the_values_read() {
    let reg = Registry::default_cpu();
    let results = vec![
        Ok(Value::Series(vec![Value::Freq(Some(1200000))])),
        Err(HwError::CounterOverflow),
        Ok(Value::Series(vec![])),
    ];
    let snap = hare::tui::app::snapshot_from(&reg, results);
    assert_eq!(snap.len(), 2);
    assert_eq!(snap[0].id, "cpu.freq.cur");
    assert_eq!(snap[0].unit, "MHz");
    assert_eq!(snap[0].value, Value::Series(vec![Value::Freq(Some(1200000))]));
    assert_eq!(snap[1].id, "cpu.governor.available");
    assert_eq!(snap[1].label, "Available Governors");
}

#[test]
fn clicks_among_given_rects_pick_the_first_hit() {
    let strip = tabs(Rect { x: 10, y: 0, width: 40, height: 1 });
    assert_eq!(strip.len(), 3);
    assert_eq!(strip[0].0, Page::Monitor);
    assert_eq!(strip[0].1.x, 10);
    assert_eq!(strip[1].1.x, strip[0].1.x + strip[0].1.width + 2);
    assert_eq!(strip[2].1.x, strip[1].1.x + strip[1].1.width + 2);
    let side = sidebar_tab_rects(Rect { x: 0, y: 1, width: 12, height: 20 });
    assert_eq!(side.len(), 3);
    assert_eq!(side[2].0, MonitorTab::Cluster);
    assert_eq!((side[2].1.x, side[2].1.y, side[2].1.width, side[2].1.height), (0, 3, 12, 1));

    let mut app = App::new();
    let control = strip[1].1;
    assert_eq!(click_action_among(&app, &strip, &side, control.x, 0), Action::SetPage(Page::Control));
    assert_eq!(click_action_among(&app, &strip, &side, 5, 2), Action::SetMonitorTab(MonitorTab::Governor));
    assert_eq!(click_action_among(&app, &strip, &side, 5, 10), Action::Nothing);
    assert_eq!(click_action_among(&app, &strip, &side, 5, 0), Action::Nothing);
    app.set_page(Page::Control);
    assert_eq!(click_action_among(&app, &strip, &side, 5, 2), Action::Nothing);
    assert_eq!(click_action_among(&app, &strip, &side, control.x, 0), Action::SetPage(Page::Control));
}
