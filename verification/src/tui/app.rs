//! State of the interactive monitor and the actions that change it.
use vstd::prelude::*;
use crate::hardware::cpu::topology::{core_has_online_file, online_path};
use crate::hardware::registry::{kept_after_read, readable_value, write_core_outcome, Registry};
use crate::hardware::source::{error_text, HwError, Source};
use crate::hardware::value::{value_view, TickDelta, Value, ValueView};
use crate::number::{
    float_text, freq_khz, freq_khz_of, is_float_text, law_digits_read_as_mhz, lemma_nine_digits_fit,
};
use crate::text::{
    chars_of, decimal, digits_value, is_digit, push_decimal, push_str, same_text, slice_chars,
    string_from, string_of,
};
use vstd::utf8::encode_utf8;

verus! {

broadcast use vstd::std_specs::vec::group_vec_axioms;

/// A point in time (`std::time::Instant`).
#[verifier::external_type_specification]
#[verifier::external_body]
pub struct ExInstant(std::time::Instant);

/// The current time (`Instant::now`). Nothing is stated of the result.
#[verifier::external_body]
fn now() -> std::time::Instant {
    std::time::Instant::now()
}

/// A TUI page selectable from the title-bar tabs.
#[derive(Clone, Copy, PartialEq, Eq, Debug, Structural)]
pub enum Page {
    Monitor,
    Control,
    Preset,
}

impl Page {
    /// Pages in display order.
    pub const ALL: [Page; 3] = [Page::Monitor, Page::Control, Page::Preset];

    /// Shortcut digit shown in the tab label and handled by the keyboard.
    pub fn digit(&self) -> (r: char)
        ensures
            r == page_digit(*self),
    {
        match self {
            Page::Monitor => '1',
            Page::Control => '2',
            Page::Preset => '3',
        }
    }

    /// Display name shown in the tab label.
    pub fn name(&self) -> (r: &'static str)
        ensures
            r@ == page_name(*self),
    {
        match self {
            Page::Monitor => "Monitor",
            Page::Control => "Control",
            Page::Preset => "Preset",
        }
    }
}

/// The key that selects a page.
pub open spec fn page_digit(p: Page) -> char {
    match p {
        Page::Monitor => '1',
        Page::Control => '2',
        Page::Preset => '3',
    }
}

pub open spec fn page_name(p: Page) -> Seq<char> {
    match p {
        Page::Monitor => "Monitor"@,
        Page::Control => "Control"@,
        Page::Preset => "Preset"@,
    }
}

/// A sub-tab within the Monitor page, selectable from the left sidebar.
#[derive(Clone, Copy, PartialEq, Eq, Debug, Structural)]
pub enum MonitorTab {
    Overview,
    Governor,
    Cluster,
}

/// The position of a Monitor sub-tab in display order.
pub open spec fn monitor_tab_index(t: MonitorTab) -> nat {
    match t {
        MonitorTab::Overview => 0,
        MonitorTab::Governor => 1,
        MonitorTab::Cluster => 2,
    }
}

/// The Monitor sub-tab at a position (modulo their number).
pub open spec fn monitor_tab_at(i: nat) -> MonitorTab {
    if i % 3 == 0 {
        MonitorTab::Overview
    } else if i % 3 == 1 {
        MonitorTab::Governor
    } else {
        MonitorTab::Cluster
    }
}

pub open spec fn monitor_tab_name(t: MonitorTab) -> Seq<char> {
    match t {
        MonitorTab::Overview => "Overview"@,
        MonitorTab::Governor => "Governor"@,
        MonitorTab::Cluster => "Cluster"@,
    }
}

fn monitor_tab_from_index(i: usize) -> (r: MonitorTab)
    ensures
        r == monitor_tab_at(i as nat),
{
    if i % 3 == 0 {
        MonitorTab::Overview
    } else if i % 3 == 1 {
        MonitorTab::Governor
    } else {
        MonitorTab::Cluster
    }
}

impl MonitorTab {
    /// Sub-tabs in display order.
    pub const ALL: [MonitorTab; 3] = [MonitorTab::Overview, MonitorTab::Governor, MonitorTab::Cluster];

    /// Display name shown in the sidebar tab.
    pub fn name(&self) -> (r: &'static str)
        ensures
            r@ == monitor_tab_name(*self),
    {
        match self {
            MonitorTab::Overview => "Overview",
            MonitorTab::Governor => "Governor",
            MonitorTab::Cluster => "Cluster",
        }
    }

    /// Metrics whose id starts with this prefix are shown on list-style
    /// sub-pages. `None` means the page renders custom content.
    pub fn metric_prefix(&self) -> (r: Option<&'static str>)
        ensures
            match *self {
                MonitorTab::Governor => r matches Some(p) && p@ == "cpu.governor"@,
                _ => r is None,
            },
    {
        match self {
            MonitorTab::Overview => None,
            MonitorTab::Governor => Some("cpu.governor"),
            MonitorTab::Cluster => None,
        }
    }

    fn index(self) -> (r: usize)
        ensures
            r == monitor_tab_index(self),
    {
        match self {
            MonitorTab::Overview => 0,
            MonitorTab::Governor => 1,
            MonitorTab::Cluster => 2,
        }
    }

    /// Next sub-tab in display order (wraps around).
    pub fn next(self) -> (r: Self)
        ensures
            r == monitor_tab_at(monitor_tab_index(self) + 1),
    {
        let idx = self.index();
        monitor_tab_from_index((idx + 1) % 3)
    }

    /// Previous sub-tab in display order (wraps around).
    pub fn prev(self) -> (r: Self)
        ensures
            r == monitor_tab_at(monitor_tab_index(self) + 2),
    {
        let idx = self.index();
        let len: usize = 3;
        monitor_tab_from_index((idx + len - 1) % len)
    }
}

/// A sub-tab within the Control page, selectable from the left sidebar.
#[derive(Clone, Copy, PartialEq, Eq, Debug, Structural)]
pub enum ControlTab {
    /// Toggle per-core online/offline status.
    Online,
    /// Set per-core minimum/maximum scaling frequency.
    FreqLimit,
}

pub open spec fn control_tab_index(t: ControlTab) -> nat {
    match t {
        ControlTab::Online => 0,
        ControlTab::FreqLimit => 1,
    }
}

pub open spec fn control_tab_at(i: nat) -> ControlTab {
    if i % 2 == 0 {
        ControlTab::Online
    } else {
        ControlTab::FreqLimit
    }
}

pub open spec fn control_tab_name(t: ControlTab) -> Seq<char> {
    match t {
        ControlTab::Online => "Online"@,
        ControlTab::FreqLimit => "Freq Limit"@,
    }
}

fn control_tab_from_index(i: usize) -> (r: ControlTab)
    ensures
        r == control_tab_at(i as nat),
{
    if i % 2 == 0 {
        ControlTab::Online
    } else {
        ControlTab::FreqLimit
    }
}

impl ControlTab {
    pub const ALL: [ControlTab; 2] = [ControlTab::Online, ControlTab::FreqLimit];

    pub fn name(&self) -> (r: &'static str)
        ensures
            r@ == control_tab_name(*self),
    {
        match self {
            ControlTab::Online => "Online",
            ControlTab::FreqLimit => "Freq Limit",
        }
    }

    fn index(self) -> (r: usize)
        ensures
            r == control_tab_index(self),
    {
        match self {
            ControlTab::Online => 0,
            ControlTab::FreqLimit => 1,
        }
    }

    pub fn next(self) -> (r: Self)
        ensures
            r == control_tab_at(control_tab_index(self) + 1),
    {
        let idx = self.index();
        control_tab_from_index((idx + 1) % 2)
    }

    pub fn prev(self) -> (r: Self)
        ensures
            r == control_tab_at(control_tab_index(self) + 1),
    {
        let idx = self.index();
        let len: usize = 2;
        control_tab_from_index((idx + len - 1) % len)
    }
}

/// Which frequency column is focused in the Freq Limit control tab.
#[derive(Clone, Copy, PartialEq, Eq, Debug, Structural)]
pub enum FreqCol {
    Min,
    Max,
}

/// One sampled metric rendered by the TUI.
pub struct SnapshotEntry {
    pub id: String,
    pub label: String,
    pub unit: String,
    pub value: Value,
}

/// The content of a snapshot entry.
pub struct EntryView {
    pub id: Seq<char>,
    pub label: Seq<char>,
    pub unit: Seq<char>,
    pub value: ValueView,
}

pub open spec fn entry_view(e: SnapshotEntry) -> EntryView {
    EntryView { id: e.id@, label: e.label@, unit: e.unit@, value: value_view(&e.value) }
}

pub open spec fn entry_views(s: Seq<SnapshotEntry>) -> Seq<EntryView> {
    s.map_values(|e: SnapshotEntry| entry_view(e))
}

/// The value of the first entry with the given id.
pub open spec fn first_value(entries: Seq<EntryView>, id: Seq<char>) -> Option<ValueView>
    decreases entries.len(),
{
    if entries.len() == 0 {
        None
    } else if entries[0].id == id {
        Some(entries[0].value)
    } else {
        first_value(entries.drop_first(), id)
    }
}

/// The length of a series value; 0 for anything else.
pub open spec fn series_len(v: Option<ValueView>) -> nat {
    match v {
        Some(ValueView::Series(vs)) => vs.len(),
        _ => 0,
    }
}

/// The element `i` of a series value, if there is one.
pub open spec fn series_item(v: Option<ValueView>, i: int) -> Option<ValueView> {
    match v {
        Some(ValueView::Series(vs)) => if 0 <= i < vs.len() {
            Some(vs[i])
        } else {
            None
        },
        _ => None,
    }
}

pub open spec fn online_id() -> Seq<char> {
    "cpu.topology.online"@
}

pub open spec fn max2(a: nat, b: nat) -> nat {
    if a >= b {
        a
    } else {
        b
    }
}

/// Number of cores visible in the Control pages: the longest of the
/// online, min-frequency, max-frequency and cluster series.
pub open spec fn control_cores(entries: Seq<EntryView>) -> nat {
    max2(
        max2(
            series_len(first_value(entries, online_id())),
            series_len(first_value(entries, "cpu.freq.min"@)),
        ),
        max2(
            series_len(first_value(entries, "cpu.freq.max"@)),
            series_len(first_value(entries, "cpu.topology.cluster"@)),
        ),
    )
}

/// The interface state of the monitor: everything but the metrics and the
/// sampled data.
pub struct UiView {
    pub should_quit: bool,
    pub current_page: Page,
    pub monitor_tab: MonitorTab,
    pub control_tab: ControlTab,
    pub selected_core: usize,
    pub freq_col: FreqCol,
    pub freq_edit: Option<Seq<char>>,
    pub control_message: Option<Seq<char>>,
    pub scroll_offset: (u16, u16),
}

pub open spec fn opt_text(o: Option<String>) -> Option<Seq<char>> {
    match o {
        Some(s) => Some(s@),
        None => None,
    }
}

/// `a - b`, or 0 when `b` is larger.
pub open spec fn sat_sub16(a: u16, b: u16) -> u16 {
    if a >= b {
        (a - b) as u16
    } else {
        0
    }
}

/// `a + b`, or `u16::MAX` when the sum does not fit.
pub open spec fn sat_add16(a: u16, b: u16) -> u16 {
    if a + b <= u16::MAX {
        (a + b) as u16
    } else {
        u16::MAX
    }
}

/// The Monitor sub-tab after `t` (wrapping around).
pub open spec fn next_monitor_tab_of(t: MonitorTab) -> MonitorTab {
    monitor_tab_at(monitor_tab_index(t) + 1)
}

/// The Monitor sub-tab before `t` (wrapping around).
pub open spec fn prev_monitor_tab_of(t: MonitorTab) -> MonitorTab {
    monitor_tab_at(monitor_tab_index(t) + 2)
}

/// The Control sub-tab after `t` (wrapping around).
pub open spec fn next_control_tab_of(t: ControlTab) -> ControlTab {
    control_tab_at(control_tab_index(t) + 1)
}

/// The Control sub-tab before `t` (wrapping around).
pub open spec fn prev_control_tab_of(t: ControlTab) -> ControlTab {
    control_tab_at(control_tab_index(t) + 1)
}

/// The interface after switching to `page`: scroll, cursor, edit and
/// message are reset when the page changes.
pub open spec fn ui_set_page(ui: UiView, page: Page) -> UiView {
    if ui.current_page == page {
        ui
    } else {
        UiView {
            current_page: page,
            scroll_offset: (0, 0),
            selected_core: 0,
            freq_edit: None,
            control_message: None,
            ..ui
        }
    }
}

/// The interface after switching to a Monitor sub-tab: scroll is reset
/// when the sub-tab changes.
pub open spec fn ui_set_monitor_tab(ui: UiView, tab: MonitorTab) -> UiView {
    if ui.monitor_tab == tab {
        ui
    } else {
        UiView { monitor_tab: tab, scroll_offset: (0, 0), ..ui }
    }
}

/// The interface after switching to a Control sub-tab: cursor, edit,
/// message and scroll are reset when the sub-tab changes.
pub open spec fn ui_set_control_tab(ui: UiView, tab: ControlTab) -> UiView {
    if ui.control_tab == tab {
        ui
    } else {
        UiView {
            control_tab: tab,
            selected_core: 0,
            freq_edit: None,
            control_message: None,
            scroll_offset: (0, 0),
            ..ui
        }
    }
}

/// The interface after moving to the next Control sub-tab, which an open
/// edit prevents.
pub open spec fn ui_next_control_tab(ui: UiView) -> UiView {
    if ui.freq_edit is Some {
        ui
    } else {
        ui_set_control_tab(ui, next_control_tab_of(ui.control_tab))
    }
}

/// The interface after moving to the previous Control sub-tab, which an
/// open edit prevents.
pub open spec fn ui_prev_control_tab(ui: UiView) -> UiView {
    if ui.freq_edit is Some {
        ui
    } else {
        ui_set_control_tab(ui, prev_control_tab_of(ui.control_tab))
    }
}

/// The interface after the Tab key: the sub-tab of the current page
/// moves forward.
pub open spec fn ui_cycle_next(ui: UiView) -> UiView {
    match ui.current_page {
        Page::Monitor => ui_set_monitor_tab(ui, next_monitor_tab_of(ui.monitor_tab)),
        Page::Control => ui_next_control_tab(ui),
        Page::Preset => ui,
    }
}

/// The interface after Shift+Tab: the sub-tab of the current page moves
/// backward.
pub open spec fn ui_cycle_prev(ui: UiView) -> UiView {
    match ui.current_page {
        Page::Monitor => ui_set_monitor_tab(ui, prev_monitor_tab_of(ui.monitor_tab)),
        Page::Control => ui_prev_control_tab(ui),
        Page::Preset => ui,
    }
}

/// The interface after a quit request.
pub open spec fn ui_quit(ui: UiView) -> UiView {
    UiView { should_quit: true, ..ui }
}

/// The interface after Esc: an open edit is cancelled; otherwise the
/// Monitor page quits and any other page returns to it.
pub open spec fn ui_escape(ui: UiView) -> UiView {
    if ui.freq_edit is Some {
        UiView { freq_edit: None, ..ui }
    } else if ui.current_page == Page::Monitor {
        ui_quit(ui)
    } else {
        ui_set_page(ui, Page::Monitor)
    }
}

/// One scroll coordinate moved by `amount` toward the start (up or left)
/// or the end, saturating at the edges.
pub open spec fn scrolled(v: u16, toward_start: bool, amount: u16) -> u16 {
    if toward_start {
        sat_sub16(v, amount)
    } else {
        sat_add16(v, amount)
    }
}

/// The interface after scrolling by `amount` along one axis.
pub open spec fn ui_scroll(ui: UiView, horizontal: bool, toward_start: bool, amount: u16) -> UiView {
    UiView {
        scroll_offset: if horizontal {
            (scrolled(ui.scroll_offset.0, toward_start, amount), ui.scroll_offset.1)
        } else {
            (ui.scroll_offset.0, scrolled(ui.scroll_offset.1, toward_start, amount))
        },
        ..ui
    }
}

/// The interface after moving the core cursor among `cores` visible cores:
/// down stops at the last core, up at the first.
pub open spec fn ui_cursor_vertical(ui: UiView, cores: nat, down: bool) -> UiView {
    if cores == 0 {
        ui
    } else {
        UiView {
            selected_core: if down {
                if ui.selected_core + 1 <= cores - 1 {
                    (ui.selected_core + 1) as usize
                } else {
                    (cores - 1) as usize
                }
            } else {
                if ui.selected_core >= 1 {
                    (ui.selected_core - 1) as usize
                } else {
                    0
                }
            },
            ..ui
        }
    }
}

/// The interface after moving the column cursor, which an open edit
/// prevents.
pub open spec fn ui_cursor_horizontal(ui: UiView, left: bool) -> UiView {
    if ui.freq_edit is Some {
        ui
    } else {
        UiView {
            freq_col: if left {
                FreqCol::Min
            } else {
                FreqCol::Max
            },
            ..ui
        }
    }
}

/// The edit buffer after typing the digit `c`: appended while the buffer
/// holds fewer than 9 bytes.
pub open spec fn typed(buf: Seq<char>, c: char) -> Seq<char> {
    if (encode_utf8(buf).len() as usize) < 9 {
        buf.push(c)
    } else {
        buf
    }
}

/// The interface after typing `c` in the frequency field: a digit opens
/// the edit if needed and is appended; anything else is ignored.
pub open spec fn ui_freq_input(ui: UiView, c: char) -> UiView {
    if !('0' <= c && c <= '9') {
        ui
    } else {
        UiView {
            freq_edit: Some(
                typed(
                    match ui.freq_edit {
                        Some(b) => b,
                        None => Seq::empty(),
                    },
                    c,
                ),
            ),
            ..ui
        }
    }
}

/// The interface after Backspace in the frequency field: the last digit
/// goes, and the edit stays open.
pub open spec fn ui_freq_backspace(ui: UiView) -> UiView {
    match ui.freq_edit {
        Some(b) => UiView {
            freq_edit: Some(
                if b.len() > 0 {
                    b.drop_last()
                } else {
                    b
                },
            ),
            ..ui
        },
        None => ui,
    }
}

/// The first entry of `s` with the given id is at `i`.
pub proof fn lemma_first_value(s: Seq<EntryView>, id: Seq<char>, i: int)
    requires
        0 <= i < s.len(),
        s[i].id == id,
        forall|j: int| 0 <= j < i ==> s[j].id != id,
    ensures
        first_value(s, id) == Some(s[i].value),
    decreases i,
{
    if i > 0 {
        lemma_first_value(s.drop_first(), id, i - 1);
    }
}

/// No entry of `s` has the given id.
pub proof fn lemma_first_value_none(s: Seq<EntryView>, id: Seq<char>)
    requires
        forall|j: int| 0 <= j < s.len() ==> s[j].id != id,
    ensures
        first_value(s, id) is None,
    decreases s.len(),
{
    if s.len() > 0 {
        lemma_first_value_none(s.drop_first(), id);
    }
}

/// The position of the first snapshot entry with the given id.
pub fn find_entry(snapshot: &Vec<SnapshotEntry>, id: &str) -> (r: Option<usize>)
    ensures
        match r {
            Some(i) => i < snapshot@.len() && first_value(entry_views(snapshot@), id@) == Some(
                value_view(&snapshot@[i as int].value),
            ),
            None => first_value(entry_views(snapshot@), id@) is None,
        },
{
    let ghost es = entry_views(snapshot@);
    let mut i: usize = 0;
    while i < snapshot.len()
        invariant
            0 <= i <= snapshot.len(),
            es == entry_views(snapshot@),
            forall|j: int| 0 <= j < i ==> #[trigger] es[j].id != id@,
        decreases snapshot.len() - i,
    {
        if same_text(snapshot[i].id.as_str(), id) {
            proof {
                lemma_first_value(es, id@, i as int);
            }
            return Some(i);
        }
        i = i + 1;
    }
    proof {
        lemma_first_value_none(es, id@);
    }
    None
}

/// The length of the series of the first snapshot entry with the given id
/// (0 when there is none, or its value is not a series).
pub fn series_len_for(snapshot: &Vec<SnapshotEntry>, id: &str) -> (r: usize)
    ensures
        r == series_len(first_value(entry_views(snapshot@), id@)),
{
    match find_entry(snapshot, id) {
        Some(i) => match &snapshot[i].value {
            Value::Series(vs) => {
                proof {
                    crate::hardware::value::lemma_value_views(vs@);
                }
                vs.len()
            },
            _ => 0,
        },
        None => 0,
    }
}

/// The online status of core `core` in the sampled online series.
pub open spec fn current_online(entries: Seq<EntryView>, core: int) -> Option<bool> {
    match series_item(first_value(entries, online_id()), core) {
        Some(ValueView::Bool(b)) => Some(b),
        _ => None,
    }
}

/// `"core <core>: "`.
pub open spec fn core_prefix(core: usize) -> Seq<char> {
    "core "@ + decimal(core as nat) + ": "@
}

pub open spec fn col_text(col: FreqCol) -> Seq<char> {
    match col {
        FreqCol::Min => "min"@,
        FreqCol::Max => "max"@,
    }
}

pub open spec fn freq_metric_id(col: FreqCol) -> Seq<char> {
    match col {
        FreqCol::Min => "cpu.freq.min"@,
        FreqCol::Max => "cpu.freq.max"@,
    }
}

pub open spec fn absent(ids: Seq<Seq<char>>, id: Seq<char>) -> bool {
    forall|j: int| 0 <= j < ids.len() ==> ids[j] != id
}

fn col_name(col: FreqCol) -> (r: &'static str)
    ensures
        r@ == col_text(col),
{
    match col {
        FreqCol::Min => "min",
        FreqCol::Max => "max",
    }
}

fn push_core_prefix(s: &mut String, core: usize)
    ensures
        final(s)@ == old(s)@ + core_prefix(core),
{
    push_str(s, "core ");
    push_decimal(s, core as u128);
    push_str(s, ": ");
    assert(s@ =~= old(s)@ + core_prefix(core));
}

/// A per-core write that a control action asks for: `value` to core
/// `core`, through the registered metric at position `metric`.
pub struct CoreWrite {
    pub metric: usize,
    pub core: usize,
    pub value: Value,
}

/// `request` is a write of `value` to core `core` through the first
/// registered metric with id `id`.
pub open spec fn is_write_request(app: App, request: CoreWrite, id: Seq<char>, core: usize, value: ValueView) -> bool {
    &&& request.metric < app.registry.ids().len()
    &&& app.registry.ids()[request.metric as int] == id
    &&& forall|j: int| 0 <= j < request.metric ==> app.registry.ids()[j] != id
    &&& request.core == core
    &&& request.value@ == value
}

/// The message for the outcome `r` of a write to core `core`: `ok` when it
/// succeeded, the error's message otherwise.
pub open spec fn write_text(core: usize, ok: Seq<char>, r: Result<(), HwError>) -> Seq<char> {
    match r {
        Ok(()) => core_prefix(core) + ok,
        Err(e) => core_prefix(core) + error_text(e),
    }
}

/// `"online"` or `"offline"`.
pub open spec fn status_text(online: bool) -> Seq<char> {
    if online {
        "online"@
    } else {
        "offline"@
    }
}

/// What toggling core `core` of `app` comes to: the message of why nothing
/// is written (no such core, a locked core, no sampled status, no online
/// metric), or the status to write, the opposite of the sampled one. (The
/// online metric is always per-core writable.)
pub open spec fn toggle_plan(app: App, core: usize) -> Result<bool, Seq<char>> {
    if core >= app.online_lockable@.len() {
        Err(core_prefix(core) + "unknown"@)
    } else if !app.online_lockable@[core as int] {
        Err(core_prefix(core) + "locked (cannot offline)"@)
    } else {
        match current_online(app.entries(), core as int) {
            None => Err(core_prefix(core) + "no online data"@),
            Some(b) => if absent(app.registry.ids(), online_id()) {
                Err("metric cpu.topology.online not registered"@)
            } else {
                Ok(!b)
            },
        }
    }
}

/// The message of toggling core `core` in `app`: the plan's message, or
/// the outcome of writing the planned status through the online metric.
pub open spec fn toggle_message<S: Source + ?Sized>(source: &S, app: App, core: usize, msg: Seq<char>) -> bool {
    match toggle_plan(app, core) {
        Err(t) => msg == t,
        Ok(d) => exists|r: Result<(), HwError>|
            write_core_outcome(source, online_id(), core, ValueView::Bool(d), r) && msg == #[trigger] write_text(
                core,
                status_text(d),
                r,
            ),
    }
}

/// What committing the frequency text `buf` (MHz, in the number syntax of
/// `str::parse::<f64>`) to the focused core and column of `app` comes to:
/// the message of why nothing is written (text that is no number, no such
/// metric, a metric that is not per-core writable), or the frequency to
/// write, in kHz where the text has a value in kHz (`freq_khz`).
pub open spec fn commit_plan(app: App, buf: Seq<char>) -> Result<Option<nat>, Seq<char>> {
    let core = app.selected_core;
    let id = freq_metric_id(app.freq_col);
    if !float_text(buf) {
        Err(core_prefix(core) + "invalid frequency '"@ + buf + "'"@)
    } else if absent(app.registry.ids(), id) {
        Err("metric "@ + id + " not registered"@)
    } else if id != online_id() {
        Err(core_prefix(core) + "not per-core writable"@)
    } else {
        Ok(freq_khz(buf))
    }
}

/// The frequency value of a kHz count, where there is one.
pub open spec fn khz_value(k: Option<nat>) -> Option<u64> {
    match k {
        Some(k) => Some(k as u64),
        None => None,
    }
}

/// How a committed frequency is shown: in whole MHz (halves up) where it
/// has a value in kHz, else as the text `buf` that was typed.
pub open spec fn mhz_label(k: Option<nat>, buf: Seq<char>) -> Seq<char> {
    match k {
        Some(k) => decimal((k + 500) / 1000),
        None => buf,
    }
}

/// The message of committing `buf` in `app`: the plan's message, or the
/// outcome of writing the planned frequency through the column's metric.
pub open spec fn commit_message<S: Source + ?Sized>(source: &S, app: App, buf: Seq<char>, msg: Seq<char>) -> bool {
    match commit_plan(app, buf) {
        Err(t) => msg == t,
        Ok(k) => exists|r: Result<(), HwError>|
            write_core_outcome(
                source,
                freq_metric_id(app.freq_col),
                app.selected_core,
                ValueView::Freq(khz_value(k)),
                r,
            ) && msg == #[trigger] write_text(
                app.selected_core,
                col_text(app.freq_col) + " = "@ + mhz_label(k, buf) + " MHz"@,
                r,
            ),
    }
}

/// The message for the outcome `r` of a write to core `core`: `ok` when it
/// succeeded, the error's message otherwise.
pub fn write_message(core: usize, ok: &str, r: &Result<(), HwError>) -> (m: String)
    ensures
        m@ == write_text(core, ok@, *r),
{
    let mut s = String::new();
    push_core_prefix(&mut s, core);
    match r {
        Ok(()) => push_str(&mut s, ok),
        Err(e) => {
            let t = e.message();
            push_str(&mut s, t.as_str());
        },
    }
    s
}

fn status_str(online: bool) -> (r: &'static str)
    ensures
        r@ == status_text(online),
{
    if online {
        "online"
    } else {
        "offline"
    }
}

/// The view of each read's outcome: its value, or `None` for an error.
pub open spec fn read_views(results: Seq<Result<Value, HwError>>) -> Seq<Option<ValueView>> {
    results.map_values(
        |r: Result<Value, HwError>|
            match r {
                Ok(v) => Some(v@),
                Err(_) => None,
            },
    )
}

/// The snapshot of reading the metrics with these ids, labels and units:
/// an entry for each metric whose read gave a value, with that value, in
/// registration order; metrics that could not be read are left out.
pub open spec fn snapshot_view(
    ids: Seq<Seq<char>>,
    labels: Seq<Seq<char>>,
    units: Seq<Seq<char>>,
    reads: Seq<Option<ValueView>>,
) -> Seq<EntryView>
    decreases reads.len(),
{
    if reads.len() == 0 {
        Seq::empty()
    } else {
        let prev = snapshot_view(ids, labels, units, reads.drop_last());
        let k = reads.len() - 1;
        match reads.last() {
            Some(v) => prev.push(EntryView { id: ids[k], label: labels[k], unit: units[k], value: v }),
            None => prev,
        }
    }
}

/// The snapshot entries of the read outcomes `results`, one per metric of
/// `registry` in registration order: an entry with the metric's id, label
/// and unit for each value read; errors are skipped.
pub fn snapshot_from(registry: &Registry, results: Vec<Result<Value, HwError>>) -> (r: Vec<
    SnapshotEntry,
>)
    requires
        results@.len() <= registry.ids().len(),
    ensures
        entry_views(r@) == snapshot_view(
            registry.ids(),
            registry.labels(),
            registry.units(),
            read_views(results@),
        ),
{
    proof {
        registry.lemma_labels_len();
    }
    let ghost all = read_views(results@);
    let ghost ids = registry.ids();
    let ghost labels = registry.labels();
    let ghost units = registry.units();
    let n = results.len();
    let mut rest = results;
    let mut out: Vec<SnapshotEntry> = Vec::new();
    let mut i: usize = 0;
    while rest.len() > 0
        invariant
            n == all.len(),
            n <= ids.len(),
            ids == registry.ids(),
            labels == registry.labels(),
            units == registry.units(),
            i + rest@.len() == n,
            read_views(rest@) == all.skip(i as int),
            entry_views(out@) == snapshot_view(ids, labels, units, all.take(i as int)),
        decreases rest@.len(),
    {
        let ghost before_rest = rest@;
        let ghost before = entry_views(out@);
        let res = rest.remove(0);
        assert(read_views(before_rest)[0] == all[i as int]);
        assert(read_views(rest@) =~= all.skip(i + 1)) by {
            assert(rest@ =~= before_rest.drop_first());
            assert(read_views(before_rest).drop_first() =~= all.skip(i + 1));
        }
        assert(all.take(i + 1).drop_last() =~= all.take(i as int));
        assert(all.take(i + 1).last() == all[i as int]);
        match res {
            Ok(value) => {
                let e = SnapshotEntry {
                    id: registry.id_at(i),
                    label: registry.label_at(i),
                    unit: registry.unit_at(i),
                    value,
                };
                let ghost ev = entry_view(e);
                out.push(e);
                assert(entry_views(out@) =~= before.push(ev));
            },
            Err(_) => {},
        }
        i = i + 1;
    }
    assert(all.take(n as int) =~= all);
    out
}

/// `after` is `before` sampled again through `source`: the same metrics;
/// one read per metric, each value one its metric's read can give, and the
/// snapshot is exactly the values read, in registration order; the samples
/// each metric keeps are what that read leaves of them (the usage metric
/// steps from its previous samples, so its percentages are deltas); one
/// lockable flag per core of the sampled online series, each the source's
/// answer to whether that core's `online` file exists; and a time stamp.
pub open spec fn refreshed<S: Source + ?Sized>(source: &S, before: App, after: App) -> bool {
    &&& after.registry.ids() == before.registry.ids()
    &&& after.registry.labels() == before.registry.labels()
    &&& after.registry.units() == before.registry.units()
    &&& exists|reads: Seq<Option<ValueView>>|
        #![trigger snapshot_view(before.registry.ids(), before.registry.labels(), before.registry.units(), reads)]
        reads.len() == before.registry.ids().len() && (forall|i: int|
            0 <= i < reads.len() ==> (#[trigger] reads[i] matches Some(v) ==> readable_value(
                source,
                before.registry.ids()[i],
                v,
            ))) && after.registry.kept().len() == reads.len() && (forall|i: int|
            0 <= i < reads.len() ==> kept_after_read(
                source,
                before.registry.ids()[i],
                before.registry.kept()[i],
                #[trigger] after.registry.kept()[i],
                reads[i],
            )) && after.entries() == snapshot_view(
            before.registry.ids(),
            before.registry.labels(),
            before.registry.units(),
            reads,
        )
    &&& after.online_lockable@.len() == series_len(first_value(after.entries(), online_id()))
    &&& forall|c: int|
        0 <= c < after.online_lockable@.len() ==> source.answered(
            online_path(c as usize),
            #[trigger] after.online_lockable@[c],
        )
    &&& after.last_refresh is Some
}

pub struct App {
    pub registry: Registry,
    pub snapshot: Vec<SnapshotEntry>,
    pub last_refresh: Option<std::time::Instant>,
    pub should_quit: bool,
    pub current_page: Page,
    /// Active sub-tab within the Monitor page.
    pub monitor_tab: MonitorTab,
    /// Active sub-tab within the Control page.
    pub control_tab: ControlTab,
    /// Per-core lockability of the `online` file (computed in `refresh`),
    /// indexed by core index. `false` means the core cannot be toggled (e.g.
    /// cpu0 has no `online` file) and is shown as "locked".
    pub online_lockable: Vec<bool>,
    /// Currently highlighted core in the Control pages.
    pub selected_core: usize,
    /// Focused column in the Freq Limit tab.
    pub freq_col: FreqCol,
    /// Active frequency input buffer; `Some` means the Freq Limit tab is in
    /// edit mode for the focused (core, column).
    pub freq_edit: Option<String>,
    /// Last control action result message (success or error), shown inline.
    pub control_message: Option<String>,
    /// Scroll offset as (x, y).
    pub scroll_offset: (u16, u16),
}

impl App {
    /// The interface state.
    pub open spec fn ui(&self) -> UiView {
        UiView {
            should_quit: self.should_quit,
            current_page: self.current_page,
            monitor_tab: self.monitor_tab,
            control_tab: self.control_tab,
            selected_core: self.selected_core,
            freq_col: self.freq_col,
            freq_edit: opt_text(self.freq_edit),
            control_message: opt_text(self.control_message),
            scroll_offset: self.scroll_offset,
        }
    }

    /// The sampled data.
    pub open spec fn entries(&self) -> Seq<EntryView> {
        entry_views(self.snapshot@)
    }

    /// The metrics and sampled data are those of `other`.
    pub open spec fn same_data(&self, other: &App) -> bool {
        &&& self.registry == other.registry
        &&& self.snapshot == other.snapshot
        &&& self.online_lockable == other.online_lockable
        &&& self.last_refresh == other.last_refresh
    }

    pub fn new() -> (r: Self)
        ensures
            r.registry.ids() == crate::hardware::registry::default_cpu_ids(),
            r.registry.labels() == crate::hardware::registry::default_cpu_labels(),
            r.registry.units() == crate::hardware::registry::default_cpu_units(),
            r.snapshot@.len() == 0,
            r.last_refresh is None,
            r.online_lockable@.len() == 0,
            r.ui() == (UiView {
                should_quit: false,
                current_page: Page::Monitor,
                monitor_tab: MonitorTab::Overview,
                control_tab: ControlTab::Online,
                selected_core: 0,
                freq_col: FreqCol::Min,
                freq_edit: None,
                control_message: None,
                scroll_offset: (0, 0),
            }),
    {
        let registry = Registry::default_cpu();
        App {
            registry,
            snapshot: Vec::new(),
            last_refresh: None,
            should_quit: false,
            current_page: Page::Monitor,
            monitor_tab: MonitorTab::Overview,
            control_tab: ControlTab::Online,
            online_lockable: Vec::new(),
            selected_core: 0,
            freq_col: FreqCol::Min,
            freq_edit: None,
            control_message: None,
            scroll_offset: (0, 0),
        }
    }

    /// Switch to `page`; resets scroll, cursor, edit and message when the
    /// page changes.
    pub fn set_page(&mut self, page: Page)
        ensures
            final(self).same_data(old(self)),
            final(self).ui() == ui_set_page(old(self).ui(), page),
    {
        if self.current_page != page {
            self.current_page = page;
            self.scroll_offset = (0, 0);
            self.selected_core = 0;
            self.freq_edit = None;
            self.control_message = None;
        }
    }

    /// Switch to a Monitor sub-tab; resets scroll to the top on change.
    pub fn set_monitor_tab(&mut self, tab: MonitorTab)
        ensures
            final(self).same_data(old(self)),
            final(self).ui() == ui_set_monitor_tab(old(self).ui(), tab),
    {
        if self.monitor_tab != tab {
            self.monitor_tab = tab;
            self.scroll_offset = (0, 0);
        }
    }

    /// Cycle to the next Monitor sub-tab.
    pub fn next_monitor_tab(&mut self)
        ensures
            final(self).same_data(old(self)),
            final(self).ui() == ui_set_monitor_tab(old(self).ui(), next_monitor_tab_of(old(self).monitor_tab)),
    {
        let next = self.monitor_tab.next();
        self.set_monitor_tab(next);
    }

    /// Cycle to the previous Monitor sub-tab.
    pub fn prev_monitor_tab(&mut self)
        ensures
            final(self).same_data(old(self)),
            final(self).ui() == ui_set_monitor_tab(old(self).ui(), prev_monitor_tab_of(old(self).monitor_tab)),
    {
        let prev = self.monitor_tab.prev();
        self.set_monitor_tab(prev);
    }

    /// Switch to a Control sub-tab; resets cursor, edit, message and scroll
    /// on change.
    pub fn set_control_tab(&mut self, tab: ControlTab)
        ensures
            final(self).same_data(old(self)),
            final(self).ui() == ui_set_control_tab(old(self).ui(), tab),
    {
        if self.control_tab != tab {
            self.control_tab = tab;
            self.selected_core = 0;
            self.freq_edit = None;
            self.control_message = None;
            self.scroll_offset = (0, 0);
        }
    }

    /// Cycle to the next Control sub-tab, unless editing.
    pub fn next_control_tab(&mut self)
        ensures
            final(self).same_data(old(self)),
            final(self).ui() == ui_next_control_tab(old(self).ui()),
    {
        if self.freq_edit.is_some() {
            return;
        }
        self.set_control_tab(self.control_tab.next());
    }

    /// Cycle to the previous Control sub-tab, unless editing.
    pub fn prev_control_tab(&mut self)
        ensures
            final(self).same_data(old(self)),
            final(self).ui() == ui_prev_control_tab(old(self).ui()),
    {
        if self.freq_edit.is_some() {
            return;
        }
        self.set_control_tab(self.control_tab.prev());
    }

    /// Cycle the active page's sub-tab forward (Tab key).
    pub fn cycle_sub_tab_next(&mut self)
        ensures
            final(self).same_data(old(self)),
            final(self).ui() == ui_cycle_next(old(self).ui()),
    {
        match self.current_page {
            Page::Monitor => self.next_monitor_tab(),
            Page::Control => self.next_control_tab(),
            Page::Preset => {},
        }
    }

    /// Cycle the active page's sub-tab backward (Shift+Tab key).
    pub fn cycle_sub_tab_prev(&mut self)
        ensures
            final(self).same_data(old(self)),
            final(self).ui() == ui_cycle_prev(old(self).ui()),
    {
        match self.current_page {
            Page::Monitor => self.prev_monitor_tab(),
            Page::Control => self.prev_control_tab(),
            Page::Preset => {},
        }
    }

    /// Esc: cancel an active freq edit first; otherwise return to the
    /// monitor page, or quit if already there.
    pub fn escape(&mut self)
        ensures
            final(self).same_data(old(self)),
            final(self).ui() == ui_escape(old(self).ui()),
    {
        if self.freq_edit.take().is_some() {
            return;
        }
        if self.current_page == Page::Monitor {
            self.should_quit = true;
        } else {
            self.set_page(Page::Monitor);
        }
    }

    /// Reads every registered metric through `source` into the snapshot
    /// (metrics that cannot be read are skipped rather than blanking the
    /// view), records which cores have an `online` file, and stamps the
    /// time.
    pub fn refresh<S: Source + ?Sized>(&mut self, source: &S)
        ensures
            final(self).ui() == old(self).ui(),
            refreshed(source, *old(self), *final(self)),
    {
        let ghost ids = self.registry.ids();
        let ghost labels = self.registry.labels();
        let ghost units = self.registry.units();
        let ghost ui0 = self.ui();
        let ghost kept0 = self.registry.kept();
        proof {
            self.registry.lemma_labels_len();
        }
        let mut results: Vec<Result<Value, HwError>> = Vec::new();
        let mut i: usize = 0;
        while i < self.registry.len()
            invariant
                0 <= i <= self.registry.ids().len(),
                self.registry.ids() == ids,
                self.registry.labels() == labels,
                self.registry.units() == units,
                kept0.len() == ids.len(),
                self.registry.kept().len() == ids.len(),
                self.ui() == ui0,
                results@.len() == i,
                forall|k: int|
                    0 <= k < i ==> (#[trigger] read_views(results@)[k] matches Some(v)
                        ==> readable_value(source, ids[k], v)),
                forall|k: int|
                    0 <= k < i ==> kept_after_read(
                        source,
                        ids[k],
                        kept0[k],
                        #[trigger] self.registry.kept()[k],
                        read_views(results@)[k],
                    ),
                forall|k: int| i <= k < ids.len() ==> #[trigger] self.registry.kept()[k] == kept0[k],
            decreases ids.len() - i,
        {
            let ghost kept_before = self.registry.kept();
            let r = self.registry.read_at(i, source);
            let ghost before = results@;
            results.push(r);
            assert(read_views(results@) =~= read_views(before).push(read_views(results@)[i as int]));
            assert(kept_after_read(source, ids[i as int], kept0[i as int], self.registry.kept()[i as int], read_views(results@)[i as int]));
            assert forall|k: int| 0 <= k < i implies kept_after_read(
                source,
                ids[k],
                kept0[k],
                #[trigger] self.registry.kept()[k],
                read_views(results@)[k],
            ) by {
                assert(self.registry.kept()[k] == kept_before[k]);
                assert(read_views(results@)[k] == read_views(before)[k]);
            }
            i = i + 1;
        }
        let ghost reads = read_views(results@);
        self.snapshot = snapshot_from(&self.registry, results);
        assert(self.entries() == snapshot_view(ids, labels, units, reads));
        let core_count = series_len_for(&self.snapshot, "cpu.topology.online");
        let mut lockable: Vec<bool> = Vec::new();
        let mut c: usize = 0;
        while c < core_count
            invariant
                0 <= c <= core_count,
                lockable@.len() == c,
                forall|k: int|
                    0 <= k < c ==> source.answered(online_path(k as usize), #[trigger] lockable@[k]),
            decreases core_count - c,
        {
            lockable.push(core_has_online_file(source, c));
            c = c + 1;
        }
        self.online_lockable = lockable;
        self.last_refresh = Some(now());
        proof {
            reveal_strlit("cpu.topology.online");
        }
    }

    /// Number of cores visible in the Control pages (the longest per-core
    /// series among online status, frequency limits and cluster).
    fn control_core_count(&self) -> (r: usize)
        ensures
            r == control_cores(self.entries()),
    {
        let a = series_len_for(&self.snapshot, "cpu.topology.online");
        let b = series_len_for(&self.snapshot, "cpu.freq.min");
        let c = series_len_for(&self.snapshot, "cpu.freq.max");
        let d = series_len_for(&self.snapshot, "cpu.topology.cluster");
        let ab = if a >= b {
            a
        } else {
            b
        };
        let cd = if c >= d {
            c
        } else {
            d
        };
        proof {
            reveal_strlit("cpu.topology.online");
        }
        if ab >= cd {
            ab
        } else {
            cd
        }
    }

    /// Move the core cursor vertically (Online + FreqLimit tabs), within
    /// the visible cores.
    pub fn move_cursor_vertical(&mut self, down: bool)
        ensures
            final(self).same_data(old(self)),
            final(self).ui() == ui_cursor_vertical(old(self).ui(), control_cores(old(self).entries()), down),
    {
        let n = self.control_core_count();
        if n == 0 {
            return;
        }
        let i = self.selected_core;
        self.selected_core = if down {
            if i < n - 1 {
                i + 1
            } else {
                n - 1
            }
        } else {
            i.saturating_sub(1)
        };
    }

    /// Move the column cursor horizontally (FreqLimit tab only); no-op
    /// while editing.
    pub fn move_cursor_horizontal(&mut self, left: bool)
        ensures
            final(self).same_data(old(self)),
            final(self).ui() == ui_cursor_horizontal(old(self).ui(), left),
    {
        if self.freq_edit.is_some() {
            return;
        }
        self.freq_col = if left {
            FreqCol::Min
        } else {
            FreqCol::Max
        };
    }

    /// The plan of toggling core `core`: the message of why nothing is
    /// written, or the write of the opposite of the sampled status through
    /// the online metric.
    pub fn toggle_request(&self, core: usize) -> (r: Result<CoreWrite, String>)
        ensures
            match toggle_plan(*self, core) {
                Err(t) => r matches Err(m) && m@ == t,
                Ok(d) => r matches Ok(w) && is_write_request(
                    *self,
                    w,
                    online_id(),
                    core,
                    ValueView::Bool(d),
                ),
            },
    {
        if core >= self.online_lockable.len() {
            let mut s = String::new();
            push_core_prefix(&mut s, core);
            push_str(&mut s, "unknown");
            return Err(s);
        }
        if !self.online_lockable[core] {
            let mut s = String::new();
            push_core_prefix(&mut s, core);
            push_str(&mut s, "locked (cannot offline)");
            return Err(s);
        }
        let current = match find_entry(&self.snapshot, "cpu.topology.online") {
            Some(i) => match &self.snapshot[i].value {
                Value::Series(vs) => {
                    proof {
                        crate::hardware::value::lemma_value_views(vs@);
                    }
                    if core < vs.len() {
                        match &vs[core] {
                            Value::Bool(b) => Some(*b),
                            _ => None,
                        }
                    } else {
                        None
                    }
                },
                _ => None,
            },
            None => None,
        };
        proof {
            reveal_strlit("cpu.topology.online");
        }
        let current = match current {
            Some(b) => b,
            None => {
                let mut s = String::new();
                push_core_prefix(&mut s, core);
                push_str(&mut s, "no online data");
                return Err(s);
            },
        };
        match self.registry.find("cpu.topology.online") {
            Some(m) => {
                proof {
                    self.registry.lemma_core_writable(m as int);
                }
                if !self.registry.is_core_writable_at(m) {
                    let mut s = String::new();
                    push_core_prefix(&mut s, core);
                    push_str(&mut s, "not per-core writable");
                    return Err(s);
                }
                Ok(CoreWrite { metric: m, core, value: Value::Bool(!current) })
            },
            None => Err(string_from("metric cpu.topology.online not registered")),
        }
    }

    /// The message of toggling the online status of `core`: why nothing
    /// was written, or the outcome of writing the opposite of its sampled
    /// status.
    fn do_toggle_online<S: Source + ?Sized>(&self, core: usize, source: &S) -> (r: String)
        ensures
            toggle_message(source, *self, core, r@),
    {
        match self.toggle_request(core) {
            Err(msg) => msg,
            Ok(w) => {
                let desired = match &w.value {
                    Value::Bool(b) => *b,
                    _ => false,
                };
                let r = self.registry.write_core_at(w.metric, source, w.core, &w.value);
                proof {
                    reveal_strlit("cpu.topology.online");
                }
                write_message(core, status_str(desired), &r)
            },
        }
    }

    /// Toggle the selected core's online/offline status (Online tab), show
    /// the outcome, and refresh.
    pub fn toggle_online<S: Source + ?Sized>(&mut self, source: &S)
        ensures
            final(self).ui() == (UiView {
                control_message: final(self).ui().control_message,
                ..old(self).ui()
            }),
            final(self).control_message matches Some(m) && toggle_message(
                source,
                *old(self),
                old(self).selected_core,
                m@,
            ),
            refreshed(source, *old(self), *final(self)),
    {
        let core = self.selected_core;
        let msg = self.do_toggle_online(core, source);
        self.control_message = Some(msg);
        self.refresh(source);
    }

    /// Append a digit to the freq input buffer, starting an edit if idle;
    /// the buffer holds at most 9 bytes (`String::len`).
    pub fn freq_input(&mut self, c: char)
        ensures
            final(self).same_data(old(self)),
            final(self).ui() == ui_freq_input(old(self).ui(), c),
    {
        if !('0' <= c && c <= '9') {
            return;
        }
        let mut buf = match self.freq_edit.take() {
            Some(b) => b,
            None => String::new(),
        };
        if buf.as_str().len() < 9 {
            let mut cs = chars_of(buf.as_str());
            cs.push(c);
            buf = string_of(&cs);
        }
        self.freq_edit = Some(buf);
    }

    /// Remove the last digit of the freq input buffer; the edit stays open
    /// with an empty buffer.
    pub fn freq_backspace(&mut self)
        ensures
            final(self).same_data(old(self)),
            final(self).ui() == ui_freq_backspace(old(self).ui()),
    {
        match self.freq_edit.take() {
            Some(buf) => {
                let cs = chars_of(buf.as_str());
                let kept = if cs.len() > 0 {
                    slice_chars(&cs, 0, cs.len() - 1)
                } else {
                    cs
                };
                proof {
                    if cs@.len() > 0 {
                        assert(kept@ =~= buf@.drop_last());
                    }
                }
                self.freq_edit = Some(string_of(&kept));
            },
            None => {},
        }
    }

    /// The plan of committing the frequency text `buf` to the focused core
    /// and column: the message of why nothing is written, or the write of
    /// the frequency through the column's metric. The text is read as
    /// `str::parse::<f64>` reads it (`"1.5"`, `"1e3"` and `"inf"` are
    /// numbers); a fraction of a MHz is rounded to the nearest kHz.
    pub fn freq_request(&self, buf: &String) -> (r: Result<CoreWrite, String>)
        ensures
            match commit_plan(*self, buf@) {
                Err(t) => r matches Err(m) && m@ == t,
                Ok(k) => r matches Ok(w) && is_write_request(
                    *self,
                    w,
                    freq_metric_id(self.freq_col),
                    self.selected_core,
                    ValueView::Freq(khz_value(k)),
                ),
            },
    {
        let core = self.selected_core;
        let col = self.freq_col;
        let cs = chars_of(buf.as_str());
        if !is_float_text(&cs) {
            let mut s = String::new();
            push_core_prefix(&mut s, core);
            push_str(&mut s, "invalid frequency '");
            push_str(&mut s, buf.as_str());
            push_str(&mut s, "'");
            return Err(s);
        }
        let id = match col {
            FreqCol::Min => "cpu.freq.min",
            FreqCol::Max => "cpu.freq.max",
        };
        proof {
            reveal_strlit("cpu.freq.min");
            reveal_strlit("cpu.freq.max");
            reveal_strlit("cpu.topology.online");
        }
        match self.registry.find(id) {
            Some(m) => {
                proof {
                    self.registry.lemma_core_writable(m as int);
                }
                if !self.registry.is_core_writable_at(m) {
                    let mut s = String::new();
                    push_core_prefix(&mut s, core);
                    push_str(&mut s, "not per-core writable");
                    return Err(s);
                }
                Ok(CoreWrite { metric: m, core, value: Value::Freq(freq_khz_of(&cs)) })
            },
            None => {
                let mut s = string_from("metric ");
                push_str(&mut s, id);
                push_str(&mut s, " not registered");
                Err(s)
            },
        }
    }

    /// The message of committing the frequency `buf` (MHz) to the focused
    /// core and column: why nothing was written, or the outcome of the
    /// write.
    fn do_freq_commit<S: Source + ?Sized>(&self, buf: &String, source: &S) -> (r: String)
        ensures
            commit_message(source, *self, buf@, r@),
    {
        match self.freq_request(buf) {
            Err(msg) => msg,
            Ok(w) => {
                let ghost k = commit_plan(*self, buf@)->Ok_0;
                let r = self.registry.write_core_at(w.metric, source, w.core, &w.value);
                let mut ok = string_from(col_name(self.freq_col));
                push_str(&mut ok, " = ");
                let ghost head = ok@;
                match &w.value {
                    Value::Freq(Some(f)) => {
                        assert(k is Some && k->0 == *f);
                        let q: u64 = *f / 1000 + if *f % 1000 >= 500 {
                            1
                        } else {
                            0
                        };
                        assert(q == (*f as int + 500) / 1000);
                        push_decimal(&mut ok, q as u128);
                    },
                    _ => {
                        assert(k is None);
                        push_str(&mut ok, buf.as_str());
                    },
                }
                assert(ok@ == head + mhz_label(k, buf@));
                push_str(&mut ok, " MHz");
                let m = write_message(self.selected_core, ok.as_str(), &r);
                assert(m@ == write_text(self.selected_core, col_text(self.freq_col) + " = "@ + mhz_label(k, buf@) + " MHz"@, r));
                m
            },
        }
    }

    /// Commit the current freq input buffer to the focused (core, column),
    /// close the edit, show the outcome, and refresh. No-op when not
    /// editing.
    pub fn freq_commit<S: Source + ?Sized>(&mut self, source: &S)
        ensures
            old(self).freq_edit is None ==> final(self).ui() == old(self).ui() && final(self).same_data(old(self)),
            old(self).freq_edit is Some ==> final(self).ui() == (UiView {
                freq_edit: None,
                control_message: final(self).ui().control_message,
                ..old(self).ui()
            }),
            old(self).freq_edit matches Some(b) ==> final(self).control_message matches Some(m)
                && commit_message(source, *old(self), b@, m@),
            old(self).freq_edit is Some ==> refreshed(source, *old(self), *final(self)),
    {
        let buf = match &self.freq_edit {
            Some(b) => crate::text::copy_string(b),
            None => {
                return;
            },
        };
        let msg = self.do_freq_commit(&buf, source);
        self.freq_edit = None;
        self.control_message = Some(msg);
        self.refresh(source);
    }

    pub fn quit(&mut self)
        ensures
            final(self).same_data(old(self)),
            final(self).ui() == ui_quit(old(self).ui()),
    {
        self.should_quit = true;
    }

    pub fn scroll_up(&mut self, amount: u16)
        ensures
            final(self).same_data(old(self)),
            final(self).ui() == ui_scroll(old(self).ui(), false, true, amount),
    {
        self.scroll_offset.1 = self.scroll_offset.1.saturating_sub(amount);
    }

    pub fn scroll_down(&mut self, amount: u16)
        ensures
            final(self).same_data(old(self)),
            final(self).ui() == ui_scroll(old(self).ui(), false, false, amount),
    {
        self.scroll_offset.1 = self.scroll_offset.1.saturating_add(amount);
    }

    pub fn scroll_left(&mut self, amount: u16)
        ensures
            final(self).same_data(old(self)),
            final(self).ui() == ui_scroll(old(self).ui(), true, true, amount),
    {
        self.scroll_offset.0 = self.scroll_offset.0.saturating_sub(amount);
    }

    pub fn scroll_right(&mut self, amount: u16)
        ensures
            final(self).same_data(old(self)),
            final(self).ui() == ui_scroll(old(self).ui(), true, false, amount),
    {
        self.scroll_offset.0 = self.scroll_offset.0.saturating_add(amount);
    }
}


// ---------------------------------------------------------------------------
// Properties of the interface transitions.

/// Stepping the Monitor sub-tabs forward and back cancel out, and three
/// steps forward come back to the start.
pub proof fn law_monitor_tabs_cycle(t: MonitorTab)
    ensures
        prev_monitor_tab_of(next_monitor_tab_of(t)) == t,
        next_monitor_tab_of(prev_monitor_tab_of(t)) == t,
        next_monitor_tab_of(next_monitor_tab_of(next_monitor_tab_of(t))) == t,
        next_monitor_tab_of(t) != t,
{
}

/// With two Control sub-tabs, forward and back are the same step, and two
/// steps come back to the start.
pub proof fn law_control_tabs_cycle(t: ControlTab)
    ensures
        prev_control_tab_of(t) == next_control_tab_of(t),
        next_control_tab_of(next_control_tab_of(t)) == t,
        next_control_tab_of(t) != t,
{
}

/// Selecting the page that is already shown changes nothing.
pub proof fn law_set_page_idempotent(ui: UiView, page: Page)
    ensures
        ui_set_page(ui_set_page(ui, page), page) == ui_set_page(ui, page),
        ui_set_page(ui, ui.current_page) == ui,
{
}

/// Scrolling by an amount and back again restores the view, as long as
/// the first scroll did not hit the far edge.
pub proof fn law_scroll_round_trip(ui: UiView, horizontal: bool, amount: u16)
    requires
        (if horizontal {
            ui.scroll_offset.0
        } else {
            ui.scroll_offset.1
        }) + amount <= u16::MAX,
    ensures
        ui_scroll(ui_scroll(ui, horizontal, false, amount), horizontal, true, amount) == ui,
{
}

/// On the Monitor page, Tab then Shift+Tab returns to the same sub-tab
/// scrolled to the top; on the Control page without an open edit, Tab
/// twice returns to the same sub-tab with the cursor, message and scroll
/// reset.
pub proof fn law_sub_tab_round_trip(ui: UiView)
    ensures
        ui.current_page == Page::Monitor ==> ui_cycle_prev(ui_cycle_next(ui)) == (UiView {
            scroll_offset: (0, 0),
            ..ui
        }),
        ui.current_page == Page::Control && ui.freq_edit is None ==> ui_cycle_next(
            ui_cycle_next(ui),
        ) == (UiView {
            selected_core: 0,
            control_message: None,
            scroll_offset: (0, 0),
            ..ui
        }),
{
}

/// An open frequency edit pins the Control sub-tab: Tab and Shift+Tab do
/// nothing until it is committed or cancelled.
pub proof fn law_edit_pins_control_tab(ui: UiView)
    requires
        ui.current_page == Page::Control,
        ui.freq_edit is Some,
    ensures
        ui_cycle_next(ui) == ui,
        ui_cycle_prev(ui) == ui,
{
}

/// Esc never leaves an edit open, and at most three presses of Esc quit
/// from any state: the first cancels an edit, the next returns to the
/// Monitor page, the last quits.
pub proof fn law_escape_quits(ui: UiView)
    ensures
        ui_escape(ui).freq_edit is None,
        ui_escape(ui_escape(ui_escape(ui))).should_quit,
        ui.freq_edit is Some ==> ui_escape(ui).current_page == ui.current_page
            && ui_escape(ui).should_quit == ui.should_quit,
{
}

/// The core cursor stays on a visible core: moving it keeps it below the
/// number of visible cores.
pub proof fn law_cursor_in_range(ui: UiView, cores: nat, down: bool)
    requires
        ui.selected_core < cores,
    ensures
        ui_cursor_vertical(ui, cores, down).selected_core < cores,
{
}

/// A frequency edit buffer of at most nine digits.
pub open spec fn short_digits(b: Seq<char>) -> bool {
    b.len() <= 9 && forall|i: int| 0 <= i < b.len() ==> is_digit(#[trigger] b[i])
}

/// No edit is open, or its buffer holds at most nine digits.
pub open spec fn edit_ok(e: Option<Seq<char>>) -> bool {
    match e {
        Some(b) => short_digits(b),
        None => true,
    }
}

/// Digits take one byte each in UTF-8.
proof fn lemma_digits_utf8_len(b: Seq<char>)
    requires
        forall|i: int| 0 <= i < b.len() ==> is_digit(#[trigger] b[i]),
    ensures
        encode_utf8(b).len() == b.len(),
    decreases b.len(),
{
    if b.len() > 0 {
        assert(is_digit(b[0]));
        assert forall|i: int| 0 <= i < b.drop_first().len() implies is_digit(
            #[trigger] b.drop_first()[i],
        ) by {
            assert(is_digit(b[i + 1]));
        }
        lemma_digits_utf8_len(b.drop_first());
    }
}

/// A planned toggle always writes the opposite of the status sampled for
/// the core: the core's item of the sampled online series is the negation
/// of the status to write.
pub proof fn law_toggle_flips(app: App, core: usize)
    ensures
        toggle_plan(app, core) matches Ok(d) ==> first_value(app.entries(), "cpu.topology.online"@) matches Some(
            ValueView::Series(vs),
        ) && core < vs.len() && vs[core as int] == ValueView::Bool(!d),
{
}

/// Toggling a lockable core whose sampled online status is `b` plans the
/// write of `!b`, once the online metric is registered.
pub proof fn law_toggle_writes_opposite(app: App, core: usize, vs: Seq<ValueView>, b: bool)
    requires
        first_value(app.entries(), "cpu.topology.online"@) == Some(ValueView::Series(vs)),
        core < vs.len(),
        vs[core as int] == ValueView::Bool(b),
        core < app.online_lockable@.len(),
        app.online_lockable@[core as int],
        exists|j: int| 0 <= j < app.registry.ids().len() && app.registry.ids()[j] == "cpu.topology.online"@,
    ensures
        toggle_plan(app, core) == Ok::<bool, Seq<char>>(!b),
{
}

/// Whatever the frequency field holds, once it holds anything, is read by
/// the commit as a number: its digits, in MHz, which is that many thousand
/// kHz.
pub proof fn law_edit_reads_as_mhz(b: Seq<char>)
    requires
        short_digits(b),
        b.len() > 0,
    ensures
        float_text(b),
        freq_khz(b) == Some(digits_value(b) * 1000),
{
    lemma_nine_digits_fit(b);
    law_digits_read_as_mhz(b);
}

/// Typing and deleting in the frequency field keep its buffer to at most
/// nine digits.
pub proof fn law_freq_buffer_short(ui: UiView, c: char)
    requires
        edit_ok(ui.freq_edit),
    ensures
        edit_ok(ui_freq_input(ui, c).freq_edit),
        edit_ok(ui_freq_backspace(ui).freq_edit),
{
    let buf = match ui.freq_edit {
        Some(b) => b,
        None => Seq::empty(),
    };
    lemma_digits_utf8_len(buf);
    if '0' <= c && c <= '9' {
        let t = typed(buf, c);
        assert forall|i: int| 0 <= i < t.len() implies is_digit(#[trigger] t[i]) by {
            if i < buf.len() {
                assert(t[i] == buf[i]);
            }
        }
    }
    match ui.freq_edit {
        Some(b) => {
            if b.len() > 0 {
                assert forall|i: int| 0 <= i < b.drop_last().len() implies is_digit(
                    #[trigger] b.drop_last()[i],
                ) by {
                    assert(is_digit(b[i]));
                }
            }
        },
        None => {},
    }
}

} // verus!
