use hare::hardware::value::Value;
use hare::tui::app::{MonitorTab, Page, SnapshotEntry};
use hare::tui::layout::{layout, monitor_layout, monitor_tab_rects, tab_rects, Rect};
use hare::tui::view::{
    cluster_groups, cluster_page_lines, metric_list_lines, overview_data, render_cluster_groups,
};

#[test]
fn tab_rects_are_contiguous_and_within_header() {
    let screen = Rect { x: 0, y: 0, width: 80, height: 24 };
    let (header, _body, _status) = layout(screen);
    let rects = tab_rects(screen, Page::Monitor);

    assert_eq!(rects.len(), Page::ALL.len());

    let mut prev_end = None;
    for (page, rect) in &rects {
        // All tabs sit on the title-bar row.
        assert_eq!(rect.y, header.y);
        assert_eq!(rect.height, 1);
        // Tab sits within the header width and to the right side.
        assert!(rect.x >= header.x);
        assert!(rect.x + rect.width <= header.x + header.width);
        // Tabs are laid out left-to-right without overlap.
        if let Some(end) = prev_end {
            assert!(
                rect.x >= end,
                "page {:?} overlaps previous (x={} < {})",
                page,
                rect.x,
                end
            );
        }
        prev_end = Some(rect.x + rect.width);
    }

    // The last tab should reach the right edge of the header (right-aligned).
    let last_end = rects.last().unwrap().1.x + rects.last().unwrap().1.width;
    assert_eq!(last_end, header.x + header.width);
}

#[test]
fn clicking_a_tab_column_maps_to_that_page() {
    let screen = Rect { x: 0, y: 0, width: 60, height: 20 };
    let rects = tab_rects(screen, Page::Monitor);

    // Click in the middle of each tab should resolve to that page.
    for (page, rect) in &rects {
        let col = rect.x + rect.width / 2;
        let hit = rects
            .iter()
            .find(|(_, r)| col >= r.x && col < r.x + r.width && rect.y >= r.y && rect.y < r.y + r.height)
            .map(|(p, _)| *p);
        assert_eq!(hit, Some(*page));
    }
}

#[test]
fn monitor_sidebar_tabs_stack_vertically_without_overlap() {
    let body = Rect { x: 0, y: 1, width: 80, height: 22 };
    let (sidebar, content) = monitor_layout(body);
    // Sidebar is on the left, content to its right.
    assert!(sidebar.x <= content.x);
    assert!(sidebar.width < body.width);

    let rects = monitor_tab_rects(body);
    assert_eq!(rects.len(), MonitorTab::ALL.len());

    let mut prev_bottom = None;
    for (i, (tab, rect)) in rects.iter().enumerate() {
        // Each tab fills the sidebar width and is one row tall.
        assert_eq!(rect.width, sidebar.width);
        assert_eq!(rect.height, 1);
        assert_eq!(rect.x, sidebar.x);
        // Stacked top-to-bottom in enum order.
        assert_eq!(rect.y, sidebar.y + i as u16);
        if let Some(bottom) = prev_bottom {
            assert!(rect.y >= bottom);
        }
        prev_bottom = Some(rect.y + rect.height);
        assert!(rect.y < sidebar.y + sidebar.height);
        assert_eq!(*tab, MonitorTab::ALL[i]);
    }
}

fn entry(id: &str, label: &str, unit: &str, value: Value) -> SnapshotEntry {
    SnapshotEntry { id: id.to_string(), label: label.to_string(), unit: unit.to_string(), value }
}

#[test]
fn overview_rows_match_freq_series_and_pad_missing_usage() {
    let snapshot = vec![
        entry(
            "cpu.freq.cur",
            "Current Frequency",
            "MHz",
            Value::Series(vec![
                Value::Freq(Some(2_400_000)),
                Value::Freq(None),
                Value::Freq(Some(1_800_000)),
            ]),
        ),
        // No `cpu.usage` entry -> Usage column should be a dash.
        entry(
            "cpu.governor",
            "Scaling Governor",
            "",
            Value::Series(vec![Value::Enum("powersave".into())]),
        ),
    ];

    let rows = overview_data(&snapshot);
    assert_eq!(rows.len(), 3);

    // Row count tracks the freq series length; CPU number is the index.
    assert_eq!(rows[0].0, "0");
    assert_eq!(rows[2].0, "2");

    // Missing usage => every Usage cell is a dash.
    for (_cpu, _freq, usage) in &rows {
        assert_eq!(usage, "\u{2014}");
    }

    // An unknown frequency renders as a dash.
    assert_eq!(rows[1].1, "\u{2014}");
    // A real frequency renders with its formatted value.
    assert!(rows[0].1.contains("MHz"));
    assert_eq!(rows[0].1, "2400.00 MHz");
}

#[test]
fn cluster_groups_group_cores_by_id_sorted() {
    // cpu0 -> cluster 0, cpu1 -> cluster 4, cpu2 -> cluster 0, cpu3 -> "-"
    let series = vec![
        Value::Raw("0".to_string()),
        Value::Raw("4".to_string()),
        Value::Raw("0".to_string()),
        Value::Raw("-".to_string()),
    ];
    let groups = cluster_groups(&series);
    // Keys in order: "-", "0", "4".
    assert_eq!(groups.len(), 3);
    assert_eq!(groups[0].0, "-");
    assert_eq!(groups[0].1, vec![3]);
    assert_eq!(groups[1].0, "0");
    assert_eq!(groups[1].1, vec![0, 2]);
    assert_eq!(groups[2].0, "4");
    assert_eq!(groups[2].1, vec![1]);
}

#[test]
fn overview_without_data_is_one_row_of_dashes() {
    let rows = overview_data(&Vec::new());
    let d = "\u{2014}".to_string();
    assert_eq!(rows, vec![(d.clone(), d.clone(), d)]);
}

#[test]
fn cluster_page_renders_groups_and_placeholder() {
    let snapshot = vec![entry(
        "cpu.topology.cluster",
        "Cluster",
        "",
        Value::Series(vec![Value::Raw(" 1 ".into()), Value::Raw("0".into()), Value::Raw("1".into())]),
    )];
    let lines = cluster_page_lines(&snapshot);
    let texts: Vec<(String, bool)> = lines.into_iter().map(|l| (l.text, l.bold)).collect();
    assert_eq!(
        texts,
        vec![
            ("Cluster 0".to_string(), true),
            ("  cpu1".to_string(), false),
            (String::new(), false),
            ("Cluster 1".to_string(), true),
            ("  cpu0, cpu2".to_string(), false),
        ]
    );
    let empty = cluster_page_lines(&Vec::new());
    assert_eq!(empty[0].text, "Cluster - no data");
    assert_eq!(empty.len(), 3);
    let groups = cluster_groups(&vec![Value::Bool(false), Value::Bool(true)]);
    let rendered = render_cluster_groups(&groups);
    assert_eq!(rendered[0].text, "Cluster offline");
}

#[test]
fn metric_list_filters_by_prefix() {
    let snapshot = vec![
        entry("cpu.freq.cur", "Current Frequency", "MHz", Value::Freq(Some(1000))),
        entry(
            "cpu.governor",
            "Scaling Governor",
            "",
            Value::Series(vec![Value::Enum("powersave".into()), Value::Enum("performance".into())]),
        ),
        entry("cpu.governor.available", "Available Governors", "", Value::Raw(" a b ".into())),
    ];
    let lines = metric_list_lines(&snapshot, "cpu.governor", "Governor");
    let texts: Vec<String> = lines.iter().map(|l| l.text.clone()).collect();
    assert_eq!(
        texts,
        vec![
            "Scaling Governor",
            "  #0: powersave",
            "  #1: performance",
            "",
            "Available Governors",
            "  a b",
        ]
    );
    assert!(lines[0].bold && !lines[1].bold);
    let none = metric_list_lines(&snapshot, "cpu.temp", "Thermal");
    assert_eq!(none[0].text, "Thermal - no data");
}
