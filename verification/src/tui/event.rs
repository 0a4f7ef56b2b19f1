//! Keyboard and mouse input of the monitor: which action an input asks
//! for, and applying it to the state.
use vstd::prelude::*;
use crate::hardware::source::Source;
use crate::tui::app::{
    commit_message, control_cores, edit_ok, law_freq_buffer_short, refreshed, toggle_message,
    ui_cursor_horizontal, ui_cursor_vertical, ui_cycle_next, ui_cycle_prev, ui_escape,
    ui_freq_backspace, ui_freq_input, ui_quit, ui_scroll, ui_set_control_tab, ui_set_monitor_tab,
    ui_set_page, App, ControlTab, FreqCol, MonitorTab, Page, UiView,
};
use crate::tui::layout::{
    contains, hit, layout, monitor_tab_rects, page_at, sidebar_tab_layout, tab_layout, tab_rects,
    tab_width, tab_x, Direction, Rect,
};

verus! {

broadcast use vstd::std_specs::vec::group_vec_axioms;

/// A key press, as the monitor distinguishes keys.
#[derive(Clone, Copy, PartialEq, Eq, Debug, Structural)]
pub enum Key {
    Char(char),
    Esc,
    Tab,
    BackTab,
    Up,
    Down,
    Left,
    Right,
    PageUp,
    PageDown,
    Home,
    End,
    Enter,
    Backspace,
    Other,
}

/// What an input asks the monitor to do.
#[derive(Clone, Copy, PartialEq, Eq, Debug, Structural)]
pub enum Action {
    Quit,
    Escape,
    SetPage(Page),
    CycleNext,
    CyclePrev,
    ScrollUp(u16),
    ScrollDown(u16),
    ScrollLeft(u16),
    ScrollRight(u16),
    /// Move the core cursor; `true` is down.
    CursorVertical(bool),
    /// Move the column cursor; `true` is left.
    CursorHorizontal(bool),
    ToggleOnline,
    FreqInput(char),
    FreqBackspace,
    FreqCommit,
    SetMonitorTab(MonitorTab),
    SetControlTab(ControlTab),
    Nothing,
}

pub open spec fn is_digit_char(c: char) -> bool {
    '0' <= c && c <= '9'
}

/// The action of a key press, given the page, the Control sub-tab, and
/// whether a frequency edit is open. Global keys come first: `q` quits,
/// Esc escapes, `1`/`2`/`3` switch pages, Tab/Shift+Tab cycle sub-tabs.
pub open spec fn key_action_spec(page: Page, control_tab: ControlTab, editing: bool, key: Key) -> Action {
    match key {
        Key::Char('q') => Action::Quit,
        Key::Esc => Action::Escape,
        Key::Char('1') => Action::SetPage(Page::Monitor),
        Key::Char('2') => Action::SetPage(Page::Control),
        Key::Char('3') => Action::SetPage(Page::Preset),
        Key::Tab => Action::CycleNext,
        Key::BackTab => Action::CyclePrev,
        _ => match page {
            Page::Monitor => monitor_key_action(key),
            Page::Control => match control_tab {
                ControlTab::Online => online_key_action(key),
                ControlTab::FreqLimit => freq_limit_key_action(editing, key),
            },
            Page::Preset => Action::Nothing,
        },
    }
}

/// Monitor page: arrows and `hjkl` scroll, PageUp/PageDown by ten rows,
/// Home/End to the top/bottom.
pub open spec fn monitor_key_action(key: Key) -> Action {
    match key {
        Key::Up | Key::Char('k') => Action::ScrollUp(1),
        Key::Down | Key::Char('j') => Action::ScrollDown(1),
        Key::Left | Key::Char('h') => Action::ScrollLeft(3),
        Key::Right | Key::Char('l') => Action::ScrollRight(3),
        Key::PageUp => Action::ScrollUp(10),
        Key::PageDown => Action::ScrollDown(10),
        Key::Home => Action::ScrollUp(u16::MAX),
        Key::End => Action::ScrollDown(u16::MAX),
        _ => Action::Nothing,
    }
}

/// Online control tab: up/down move the core cursor, Space/Enter toggle.
pub open spec fn online_key_action(key: Key) -> Action {
    match key {
        Key::Up | Key::Char('k') => Action::CursorVertical(false),
        Key::Down | Key::Char('j') => Action::CursorVertical(true),
        Key::Char(' ') | Key::Enter => Action::ToggleOnline,
        _ => Action::Nothing,
    }
}

/// Freq Limit control tab: while editing only digits, Backspace and Enter
/// act; otherwise arrows move the cursors, digits start an edit and Enter
/// commits.
pub open spec fn freq_limit_key_action(editing: bool, key: Key) -> Action {
    if editing {
        match key {
            Key::Char(c) => if is_digit_char(c) {
                Action::FreqInput(c)
            } else {
                Action::Nothing
            },
            Key::Backspace => Action::FreqBackspace,
            Key::Enter => Action::FreqCommit,
            _ => Action::Nothing,
        }
    } else {
        match key {
            Key::Up | Key::Char('k') => Action::CursorVertical(false),
            Key::Down | Key::Char('j') => Action::CursorVertical(true),
            Key::Left | Key::Char('h') => Action::CursorHorizontal(true),
            Key::Right | Key::Char('l') => Action::CursorHorizontal(false),
            Key::Char(c) => if is_digit_char(c) {
                Action::FreqInput(c)
            } else {
                Action::Nothing
            },
            Key::Enter => Action::FreqCommit,
            _ => Action::Nothing,
        }
    }
}

fn monitor_key(key: Key) -> (r: Action)
    ensures
        r == monitor_key_action(key),
{
    match key {
        Key::Up | Key::Char('k') => Action::ScrollUp(1),
        Key::Down | Key::Char('j') => Action::ScrollDown(1),
        Key::Left | Key::Char('h') => Action::ScrollLeft(3),
        Key::Right | Key::Char('l') => Action::ScrollRight(3),
        Key::PageUp => Action::ScrollUp(10),
        Key::PageDown => Action::ScrollDown(10),
        Key::Home => Action::ScrollUp(u16::MAX),
        Key::End => Action::ScrollDown(u16::MAX),
        _ => Action::Nothing,
    }
}

fn online_key(key: Key) -> (r: Action)
    ensures
        r == online_key_action(key),
{
    match key {
        Key::Up | Key::Char('k') => Action::CursorVertical(false),
        Key::Down | Key::Char('j') => Action::CursorVertical(true),
        Key::Char(' ') | Key::Enter => Action::ToggleOnline,
        _ => Action::Nothing,
    }
}

fn freq_limit_key(editing: bool, key: Key) -> (r: Action)
    ensures
        r == freq_limit_key_action(editing, key),
{
    if editing {
        match key {
            Key::Char(c) => if '0' <= c && c <= '9' {
                Action::FreqInput(c)
            } else {
                Action::Nothing
            },
            Key::Backspace => Action::FreqBackspace,
            Key::Enter => Action::FreqCommit,
            _ => Action::Nothing,
        }
    } else {
        match key {
            Key::Up | Key::Char('k') => Action::CursorVertical(false),
            Key::Down | Key::Char('j') => Action::CursorVertical(true),
            Key::Left | Key::Char('h') => Action::CursorHorizontal(true),
            Key::Right | Key::Char('l') => Action::CursorHorizontal(false),
            Key::Char(c) => if '0' <= c && c <= '9' {
                Action::FreqInput(c)
            } else {
                Action::Nothing
            },
            Key::Enter => Action::FreqCommit,
            _ => Action::Nothing,
        }
    }
}

/// The action a key press asks for in the current state.
pub fn key_action(app: &App, key: Key) -> (r: Action)
    ensures
        r == key_action_spec(app.current_page, app.control_tab, app.freq_edit is Some, key),
{
    match key {
        Key::Char('q') => Action::Quit,
        Key::Esc => Action::Escape,
        Key::Char('1') => Action::SetPage(Page::Monitor),
        Key::Char('2') => Action::SetPage(Page::Control),
        Key::Char('3') => Action::SetPage(Page::Preset),
        Key::Tab => Action::CycleNext,
        Key::BackTab => Action::CyclePrev,
        _ => match app.current_page {
            Page::Monitor => monitor_key(key),
            Page::Control => match app.control_tab {
                ControlTab::Online => online_key(key),
                ControlTab::FreqLimit => freq_limit_key(app.freq_edit.is_some(), key),
            },
            Page::Preset => Action::Nothing,
        },
    }
}

/// The actions that only change the interface state (no write through a
/// source).
pub open spec fn is_local(action: Action) -> bool {
    action != Action::ToggleOnline && action != Action::FreqCommit
}

/// The interface after a local action, with `cores` cores visible in the
/// Control pages.
pub open spec fn ui_after(ui: UiView, cores: nat, action: Action) -> UiView {
    match action {
        Action::Quit => ui_quit(ui),
        Action::Escape => ui_escape(ui),
        Action::SetPage(p) => ui_set_page(ui, p),
        Action::CycleNext => ui_cycle_next(ui),
        Action::CyclePrev => ui_cycle_prev(ui),
        Action::ScrollUp(n) => ui_scroll(ui, false, true, n),
        Action::ScrollDown(n) => ui_scroll(ui, false, false, n),
        Action::ScrollLeft(n) => ui_scroll(ui, true, true, n),
        Action::ScrollRight(n) => ui_scroll(ui, true, false, n),
        Action::CursorVertical(down) => ui_cursor_vertical(ui, cores, down),
        Action::CursorHorizontal(left) => ui_cursor_horizontal(ui, left),
        Action::FreqInput(c) => ui_freq_input(ui, c),
        Action::FreqBackspace => ui_freq_backspace(ui),
        Action::SetMonitorTab(t) => ui_set_monitor_tab(ui, t),
        Action::SetControlTab(t) => ui_set_control_tab(ui, t),
        _ => ui,
    }
}

/// What performing `action` does to the state: a local action changes the
/// interface as `ui_after` says and keeps the data; a toggle leaves the
/// message of toggling the selected core and samples the metrics again; a
/// commit (while editing) closes the edit, leaves the message of committing
/// its text and samples the metrics again.
pub open spec fn applied<S: Source + ?Sized>(source: &S, old_app: App, new_app: App, action: Action) -> bool {
    &&& is_local(action) ==> new_app.ui() == ui_after(
        old_app.ui(),
        control_cores(old_app.entries()),
        action,
    ) && new_app.same_data(&old_app)
    &&& action == Action::ToggleOnline ==> new_app.ui() == (UiView {
        control_message: new_app.ui().control_message,
        ..old_app.ui()
    }) && (new_app.control_message matches Some(m) && toggle_message(
        source,
        old_app,
        old_app.selected_core,
        m@,
    )) && refreshed(source, old_app, new_app)
    &&& action == Action::FreqCommit ==> match old_app.freq_edit {
        None => new_app.ui() == old_app.ui() && new_app.same_data(&old_app),
        Some(b) => new_app.ui() == (UiView {
            freq_edit: None,
            control_message: new_app.ui().control_message,
            ..old_app.ui()
        }) && (new_app.control_message matches Some(m) && commit_message(source, old_app, b@, m@))
            && refreshed(source, old_app, new_app),
    }
}

/// Performs `action` on the state; the control actions write and read
/// through `source`.
pub fn apply_action<S: Source + ?Sized>(app: &mut App, action: Action, source: &S)
    ensures
        applied(source, *old(app), *final(app), action),
{
    match action {
        Action::Quit => app.quit(),
        Action::Escape => app.escape(),
        Action::SetPage(p) => app.set_page(p),
        Action::CycleNext => app.cycle_sub_tab_next(),
        Action::CyclePrev => app.cycle_sub_tab_prev(),
        Action::ScrollUp(n) => app.scroll_up(n),
        Action::ScrollDown(n) => app.scroll_down(n),
        Action::ScrollLeft(n) => app.scroll_left(n),
        Action::ScrollRight(n) => app.scroll_right(n),
        Action::CursorVertical(down) => app.move_cursor_vertical(down),
        Action::CursorHorizontal(left) => app.move_cursor_horizontal(left),
        Action::ToggleOnline => app.toggle_online(source),
        Action::FreqInput(c) => app.freq_input(c),
        Action::FreqBackspace => app.freq_backspace(),
        Action::FreqCommit => app.freq_commit(source),
        Action::SetMonitorTab(t) => app.set_monitor_tab(t),
        Action::SetControlTab(t) => app.set_control_tab(t),
        Action::Nothing => {},
    }
}

/// Handles a key press: the action it asks for, applied.
pub fn handle_key_event<S: Source + ?Sized>(app: &mut App, key: Key, source: &S)
    ensures
        applied(
            source,
            *old(app),
            *final(app),
            key_action_spec(old(app).current_page, old(app).control_tab, old(app).freq_edit is Some, key),
        ),
{
    let action = key_action(app, key);
    apply_action(app, action, source);
}

/// A mouse event, as the monitor distinguishes them.
#[derive(Clone, Copy, PartialEq, Eq, Debug, Structural)]
pub enum Mouse {
    ScrollUp,
    ScrollDown,
    LeftClick { column: u16, row: u16 },
    Other,
}

/// The position of the first rectangle containing `(column, row)`.
pub open spec fn first_hit<T>(rects: Seq<(T, Rect)>, column: u16, row: u16) -> Option<nat>
    decreases rects.len(),
{
    if rects.len() == 0 {
        None
    } else {
        match first_hit(rects.drop_last(), column, row) {
            Some(i) => Some(i),
            None => if contains(rects.last().1, column, row) {
                Some((rects.len() - 1) as nat)
            } else {
                None
            },
        }
    }
}

proof fn lemma_first_hit_bound<T>(rects: Seq<(T, Rect)>, column: u16, row: u16)
    ensures
        first_hit(rects, column, row) matches Some(i) ==> i < rects.len(),
    decreases rects.len(),
{
    if rects.len() > 0 {
        lemma_first_hit_bound(rects.drop_last(), column, row);
    }
}

fn find_hit<T: Copy>(rects: &Vec<(T, Rect)>, column: u16, row: u16) -> (r: Option<usize>)
    ensures
        r matches Some(i) ==> i < rects@.len(),
        match first_hit(rects@, column, row) {
            Some(i) => r == Some(i as usize),
            None => r is None,
        },
{
    let mut i: usize = 0;
    while i < rects.len()
        invariant
            0 <= i <= rects.len(),
            first_hit(rects@.take(i as int), column, row) is None,
        decreases rects.len() - i,
    {
        assert(rects@.take(i + 1).drop_last() =~= rects@.take(i as int));
        if hit(rects[i].1, column, row) {
            proof {
                lemma_first_hit_prefix(rects@, i + 1, column, row);
                lemma_first_hit_bound(rects@, column, row);
            }
            return Some(i);
        }
        i = i + 1;
    }
    assert(rects@.take(rects.len() as int) =~= rects@);
    None
}

proof fn lemma_first_hit_prefix<T>(rects: Seq<(T, Rect)>, k: int, column: u16, row: u16)
    requires
        0 <= k <= rects.len(),
        first_hit(rects.take(k), column, row) is Some,
    ensures
        first_hit(rects, column, row) == first_hit(rects.take(k), column, row),
    decreases rects.len() - k,
{
    if k < rects.len() {
        assert(rects.take(k + 1).drop_last() =~= rects.take(k));
        lemma_first_hit_prefix(rects, k + 1, column, row);
    } else {
        assert(rects.take(k) =~= rects);
    }
}

/// What a left click at `(column, row)` selects among the page tabs `tabs`
/// and the sidebar tabs `side`: a page tab first; then, on the Monitor
/// page and unless a frequency edit is open, a sidebar sub-tab. (The
/// Control and Preset pages draw no sidebar tabs.)
pub open spec fn click_action_spec(
    page: Page,
    editing: bool,
    tabs: Seq<(Page, Rect)>,
    side: Seq<(MonitorTab, Rect)>,
    column: u16,
    row: u16,
) -> Action {
    match first_hit(tabs, column, row) {
        Some(i) => Action::SetPage(tabs[i as int].0),
        None => if page == Page::Monitor && !editing {
            match first_hit(side, column, row) {
                Some(j) => Action::SetMonitorTab(side[j as int].0),
                None => Action::Nothing,
            }
        } else {
            Action::Nothing
        },
    }
}

/// `tabs` and `side` are click areas of a screen: the page tabs laid out
/// in some tab strip, and either no sidebar tabs or the sub-tabs laid out
/// in a sidebar column. (Where the layout solver puts the strip and the
/// column is its choice.)
pub open spec fn click_areas(tabs: Seq<(Page, Rect)>, side: Seq<(MonitorTab, Rect)>) -> bool {
    &&& exists|area: Rect| tabs == #[trigger] tab_layout(area)
    &&& side.len() == 0 || exists|sidebar: Rect|
        sidebar.y + 2 <= u16::MAX && side == #[trigger] sidebar_tab_layout(sidebar)
}

/// The action of a left click at `(column, row)`, given the page tabs and
/// the sidebar tabs on screen.
pub fn click_action_among(
    app: &App,
    tabs: &Vec<(Page, Rect)>,
    side: &Vec<(MonitorTab, Rect)>,
    column: u16,
    row: u16,
) -> (r: Action)
    ensures
        r == click_action_spec(app.current_page, app.freq_edit is Some, tabs@, side@, column, row),
{
    let _tab_count: usize = tabs.len();
    let _side_count: usize = side.len();
    proof {
        lemma_first_hit_bound(tabs@, column, row);
        lemma_first_hit_bound(side@, column, row);
    }
    match find_hit(tabs, column, row) {
        Some(i) => {
            assert(first_hit(tabs@, column, row) == Some(i as nat));
            return Action::SetPage(tabs[i].0);
        },
        None => {},
    }
    if app.current_page != Page::Monitor || app.freq_edit.is_some() {
        return Action::Nothing;
    }
    match find_hit(side, column, row) {
        Some(j) => {
            assert(first_hit(side@, column, row) == Some(j as nat));
            Action::SetMonitorTab(side[j].0)
        },
        None => Action::Nothing,
    }
}

/// The action of a left click at `(column, row)` on a screen of the given
/// size: the click among the page tabs and (on the Monitor page) the
/// sidebar tabs as laid out on that screen.
pub fn click_action(app: &App, screen: Rect, column: u16, row: u16) -> (r: Action)
    ensures
        exists|tabs: Seq<(Page, Rect)>, side: Seq<(MonitorTab, Rect)>|
            click_areas(tabs, side) && r == #[trigger] click_action_spec(
                app.current_page,
                app.freq_edit is Some,
                tabs,
                side,
                column,
                row,
            ),
{
    let tabs = tab_rects(screen, app.current_page);
    let (_header, body, _status) = layout(screen);
    let side = if app.current_page == Page::Monitor && app.freq_edit.is_none() && body.y <= u16::MAX
        - 2 {
        monitor_tab_rects(body)
    } else {
        Vec::new()
    };
    let r = click_action_among(app, &tabs, &side, column, row);
    assert(click_areas(tabs@, side@));
    r
}

/// Handle a left-click: top-level title-bar tabs first, then the left
/// sidebar sub-tabs.
pub fn handle_click(app: &mut App, screen: Rect, column: u16, row: u16)
    ensures
        final(app).same_data(old(app)),
        exists|tabs: Seq<(Page, Rect)>, side: Seq<(MonitorTab, Rect)>|
            click_areas(tabs, side) && final(app).ui() == ui_after(
                old(app).ui(),
                control_cores(old(app).entries()),
                #[trigger] click_action_spec(
                    old(app).current_page,
                    old(app).freq_edit is Some,
                    tabs,
                    side,
                    column,
                    row,
                ),
            ),
{
    let action = click_action(app, screen, column, row);
    match action {
        Action::SetPage(p) => app.set_page(p),
        Action::SetMonitorTab(t) => app.set_monitor_tab(t),
        _ => {},
    }
}

/// Handles a mouse event: the wheel scrolls by three rows, a left click
/// selects tabs.
pub fn handle_mouse(app: &mut App, event: Mouse, screen: Rect)
    ensures
        final(app).same_data(old(app)),
        match event {
            Mouse::ScrollUp => final(app).ui() == ui_scroll(old(app).ui(), false, true, 3),
            Mouse::ScrollDown => final(app).ui() == ui_scroll(old(app).ui(), false, false, 3),
            Mouse::LeftClick { column, row } => exists|
                tabs: Seq<(Page, Rect)>,
                side: Seq<(MonitorTab, Rect)>,
            |
                click_areas(tabs, side) && final(app).ui() == ui_after(
                    old(app).ui(),
                    control_cores(old(app).entries()),
                    #[trigger] click_action_spec(
                        old(app).current_page,
                        old(app).freq_edit is Some,
                        tabs,
                        side,
                        column,
                        row,
                    ),
                ),
            Mouse::Other => final(app).ui() == old(app).ui(),
        },
{
    match event {
        Mouse::ScrollUp => app.scroll_up(3),
        Mouse::ScrollDown => app.scroll_down(3),
        Mouse::LeftClick { column, row } => handle_click(app, screen, column, row),
        Mouse::Other => {},
    }
}


// ---------------------------------------------------------------------------
// Properties of input handling.

/// Whatever local action is taken, an open frequency edit keeps holding at
/// most nine digits.
pub proof fn law_edit_stays_short(ui: UiView, cores: nat, action: Action)
    requires
        edit_ok(ui.freq_edit),
    ensures
        edit_ok(ui_after(ui, cores, action).freq_edit),
{
    match action {
        Action::FreqInput(c) => law_freq_buffer_short(ui, c),
        Action::FreqBackspace => law_freq_buffer_short(ui, ' '),
        _ => {},
    }
}

/// The global keys act the same on every page and in every mode: `q`
/// quits, Esc escapes, `1`/`2`/`3` select the pages and Tab/Shift+Tab
/// cycle the sub-tabs.
pub proof fn law_global_keys(page: Page, tab: ControlTab, editing: bool)
    ensures
        key_action_spec(page, tab, editing, Key::Char('q')) == Action::Quit,
        key_action_spec(page, tab, editing, Key::Esc) == Action::Escape,
        key_action_spec(page, tab, editing, Key::Char('1')) == Action::SetPage(Page::Monitor),
        key_action_spec(page, tab, editing, Key::Char('2')) == Action::SetPage(Page::Control),
        key_action_spec(page, tab, editing, Key::Char('3')) == Action::SetPage(Page::Preset),
        key_action_spec(page, tab, editing, Key::Tab) == Action::CycleNext,
        key_action_spec(page, tab, editing, Key::BackTab) == Action::CyclePrev,
{
}

/// On the Control page, where the core cursor moves (the Online tab, and
/// the Freq Limit tab without an open edit), Down and `j` move it down one
/// core and Up and `k` move it up one, stopping at the last and the first
/// core.
pub proof fn law_cursor_keys(ui: UiView, cores: nat)
    requires
        ui.current_page == Page::Control,
        ui.control_tab == ControlTab::Online || (ui.control_tab == ControlTab::FreqLimit
            && ui.freq_edit is None),
        ui.selected_core < cores <= usize::MAX,
    ensures
        forall|key: Key|
            (key == Key::Down || key == Key::Char('j')) ==> #[trigger] ui_after(
                ui,
                cores,
                key_action_spec(ui.current_page, ui.control_tab, ui.freq_edit is Some, key),
            ).selected_core == if ui.selected_core + 1 < cores {
                ui.selected_core + 1
            } else {
                ui.selected_core as int
            },
        forall|key: Key|
            (key == Key::Up || key == Key::Char('k')) ==> #[trigger] ui_after(
                ui,
                cores,
                key_action_spec(ui.current_page, ui.control_tab, ui.freq_edit is Some, key),
            ).selected_core == if ui.selected_core > 0 {
                ui.selected_core - 1
            } else {
                0
            },
{
}

/// On the Online tab, Space and Enter toggle the selected core, whether
/// or not an edit is open.
pub proof fn law_online_toggle_keys(editing: bool)
    ensures
        key_action_spec(Page::Control, ControlTab::Online, editing, Key::Char(' ')) == Action::ToggleOnline,
        key_action_spec(Page::Control, ControlTab::Online, editing, Key::Enter) == Action::ToggleOnline,
{
}

/// On the Freq Limit tab, a digit types into the frequency field (opening
/// it when it is closed) and Enter commits it, whether or not it is open.
pub proof fn law_freq_limit_entry_keys(editing: bool, c: char)
    requires
        '0' <= c <= '9',
    ensures
        key_action_spec(Page::Control, ControlTab::FreqLimit, editing, Key::Char(c)) == if c == '1' {
            Action::SetPage(Page::Monitor)
        } else if c == '2' {
            Action::SetPage(Page::Control)
        } else if c == '3' {
            Action::SetPage(Page::Preset)
        } else {
            Action::FreqInput(c)
        },
        key_action_spec(Page::Control, ControlTab::FreqLimit, editing, Key::Enter) == Action::FreqCommit,
{
}

/// On the Freq Limit tab without an open edit, Left and `h` select the
/// minimum column and Right and `l` the maximum column.
pub proof fn law_column_keys(ui: UiView, cores: nat)
    requires
        ui.current_page == Page::Control,
        ui.control_tab == ControlTab::FreqLimit,
        ui.freq_edit is None,
    ensures
        forall|key: Key|
            (key == Key::Left || key == Key::Char('h')) ==> #[trigger] ui_after(
                ui,
                cores,
                key_action_spec(ui.current_page, ui.control_tab, ui.freq_edit is Some, key),
            ).freq_col == FreqCol::Min,
        forall|key: Key|
            (key == Key::Right || key == Key::Char('l')) ==> #[trigger] ui_after(
                ui,
                cores,
                key_action_spec(ui.current_page, ui.control_tab, ui.freq_edit is Some, key),
            ).freq_col == FreqCol::Max,
{
}

/// `x` kept within the range of a scroll offset.
pub open spec fn clamped(x: int) -> int {
    if x < 0 {
        0
    } else if x > u16::MAX {
        u16::MAX as int
    } else {
        x
    }
}

/// The offset after pressing `key` on the Monitor page: `(columns, rows)`
/// moved by the key's step, kept within `0..=u16::MAX`.
pub open spec fn monitor_key_step(key: Key) -> (int, int) {
    match key {
        Key::Up | Key::Char('k') => (0, -1),
        Key::Down | Key::Char('j') => (0, 1),
        Key::Left | Key::Char('h') => (-3, 0),
        Key::Right | Key::Char('l') => (3, 0),
        Key::PageUp => (0, -10),
        Key::PageDown => (0, 10),
        Key::Home => (0, -(u16::MAX as int)),
        Key::End => (0, u16::MAX as int),
        _ => (0, 0),
    }
}

/// On the Monitor page the arrows and `hjkl` scroll: Up/`k` one row up,
/// Down/`j` one row down, Left/`h` and Right/`l` three columns, PageUp and
/// PageDown ten rows, Home to the top and End to the bottom, never past
/// either end.
pub proof fn law_monitor_scroll_keys(ui: UiView, cores: nat, key: Key)
    requires
        ui.current_page == Page::Monitor,
        !(key is Char && (key->0 == 'q' || key->0 == '1' || key->0 == '2' || key->0 == '3')),
        key != Key::Esc,
        key != Key::Tab,
        key != Key::BackTab,
    ensures
        ui_after(ui, cores, key_action_spec(ui.current_page, ui.control_tab, ui.freq_edit is Some, key)).scroll_offset.0
            == clamped(ui.scroll_offset.0 + monitor_key_step(key).0),
        ui_after(ui, cores, key_action_spec(ui.current_page, ui.control_tab, ui.freq_edit is Some, key)).scroll_offset.1
            == clamped(ui.scroll_offset.1 + monitor_key_step(key).1),
{
    let a = key_action_spec(ui.current_page, ui.control_tab, ui.freq_edit is Some, key);
    assert(a == monitor_key_action(key));
    match key {
        Key::Up | Key::Char('k') => {},
        Key::Down | Key::Char('j') => {},
        Key::Left | Key::Char('h') => {},
        Key::Right | Key::Char('l') => {},
        Key::PageUp => {},
        Key::PageDown => {},
        Key::Home => {},
        Key::End => {},
        _ => {
            assert(a == Action::Nothing);
        },
    }
}

/// While a frequency edit is open, the Freq Limit keys only type digits,
/// delete, or commit: they never move the cursors.
pub proof fn law_editing_keys(key: Key)
    ensures
        ({
            let a = freq_limit_key_action(true, key);
            a is FreqInput || a == Action::FreqBackspace || a == Action::FreqCommit || a
                == Action::Nothing
        }),
{
}

/// While a frequency edit is open, a click can only select a page tab.
pub proof fn law_click_while_editing(
    page: Page,
    tabs: Seq<(Page, Rect)>,
    side: Seq<(MonitorTab, Rect)>,
    column: u16,
    row: u16,
)
    ensures
        ({
            let a = click_action_spec(page, true, tabs, side, column, row);
            a is SetPage || a == Action::Nothing
        }),
{
}

/// A click anywhere on a page tab selects that tab, as long as the tab
/// strip fits on the screen row without running into its right edge.
pub proof fn law_tab_click_hits_tab(area: Rect, i: int, column: u16)
    requires
        0 <= i < 3,
        area.x + tab_width(Page::Monitor) + tab_width(Page::Control) + tab_width(Page::Preset) + 4
            <= u16::MAX,
        area.y < u16::MAX,
        tab_x(area.x, i) <= column < tab_x(area.x, i) + tab_width(page_at(i)),
    ensures
        first_hit(tab_layout(area), column, area.y) == Some(i as nat),
{
    let t = tab_layout(area);
    let w0 = tab_width(Page::Monitor);
    let w1 = tab_width(Page::Control);
    assert(tab_x(area.x, 0) == area.x);
    assert(tab_x(area.x, 1) == area.x + w0 + 2);
    assert(tab_x(area.x, 2) == area.x + w0 + 2 + w1 + 2);
    let t1 = t.drop_last();
    let t0 = t1.drop_last();
    assert(t0.drop_last() =~= Seq::<(Page, Rect)>::empty());
    assert(t0.len() == 1 && t0.last() == t[0]);
    assert(t1.len() == 2 && t1.last() == t[1]);
    assert(first_hit(t0.drop_last(), column, area.y) is None);
    reveal_with_fuel(first_hit, 4);
}

} // verus!
