//! Screen geometry of the monitor: the title bar / body / status bar
//! regions, the page tabs of the title bar and the sub-tabs of the Monitor
//! sidebar. Regions are computed by ratatui's layout solver, so drawing and
//! mouse hit-testing share one geometry.
use vstd::prelude::*;
use crate::tui::app::{monitor_tab_at, monitor_tab_name, page_digit, page_name, MonitorTab, Page};
use ratatui::layout as rl;

verus! {

broadcast use vstd::std_specs::vec::group_vec_axioms;

/// A rectangular screen area, in terminal cells.
#[derive(Clone, Copy, PartialEq, Eq, Debug, Structural)]
pub struct Rect {
    pub x: u16,
    pub y: u16,
    pub width: u16,
    pub height: u16,
}

/// The direction in which a layout splits an area.
#[derive(Clone, Copy, PartialEq, Eq, Debug, Structural)]
pub enum Direction {
    Horizontal,
    Vertical,
}

/// A size constraint of one region of a layout.
#[derive(Clone, Copy, PartialEq, Eq, Debug, Structural)]
pub enum Constraint {
    /// Exactly this many cells.
    Length(u16),
    /// At least this many cells.
    Min(u16),
}

/// `rects` is a split of `area` along `direction` into `n` regions: one per
/// constraint, each spanning the area across the split direction. (Where
/// the regions lie along the split direction is the layout solver's
/// choice, which can differ between runs when constraints tie.)
pub open spec fn is_split(direction: Direction, n: nat, area: Rect, rects: Seq<Rect>) -> bool {
    &&& rects.len() == n
    &&& forall|i: int|
        0 <= i < rects.len() ==> match direction {
            Direction::Horizontal => #[trigger] rects[i].y == area.y && rects[i].height
                == area.height,
            Direction::Vertical => rects[i].x == area.x && rects[i].width == area.width,
        }
}

/// The display width of a text as ratatui's `Line::width` measures it
/// (Unicode widths of its characters).
pub uninterp spec fn text_width(s: Seq<char>) -> usize;

/// Splits `area` with ratatui's `Layout::default().direction(..)
/// .constraints(..).split(area)`. The contract claims, as ratatui 0.29's
/// source shows (`Layout::try_split`, `changes_to_rects`), one region per
/// constraint, and that every region spans the area across the split
/// direction. The solver's required constraints (regions inside the area,
/// in order) are always satisfiable, so the call does not panic. Where the
/// regions lie along the split direction is left unsaid: the solver walks
/// hash maps seeded per process, so ties can be broken differently.
#[verifier::external_body]
fn split(direction: Direction, constraints: &Vec<Constraint>, area: Rect) -> (r: Vec<Rect>)
    ensures
        is_split(direction, constraints@.len(), area, r@),
{
    let dir = match direction {
        Direction::Horizontal => rl::Direction::Horizontal,
        Direction::Vertical => rl::Direction::Vertical,
    };
    let cs: Vec<rl::Constraint> = constraints.iter().map(|c| match c {
        Constraint::Length(n) => rl::Constraint::Length(*n),
        Constraint::Min(n) => rl::Constraint::Min(*n),
    }).collect();
    let a = rl::Rect { x: area.x, y: area.y, width: area.width, height: area.height };
    let out = rl::Layout::default().direction(dir).constraints(cs).split(a);
    out.iter().map(|r| Rect { x: r.x, y: r.y, width: r.width, height: r.height }).collect()
}

/// The display width of `s` (ratatui's `Line::from(s).width()`).
#[verifier::external_body]
fn line_width(s: &str) -> (r: usize)
    ensures
        r == text_width(s@),
{
    ratatui::text::Line::from(s.to_string()).width()
}

pub open spec fn three_rows() -> Seq<Constraint> {
    seq![Constraint::Length(1), Constraint::Min(0), Constraint::Length(1)]
}

/// The three-region layout (title bar / body / status bar) of a screen:
/// three rows, each spanning the screen's width.
pub fn layout(screen: Rect) -> (r: (Rect, Rect, Rect))
    ensures
        is_split(Direction::Vertical, 3, screen, seq![r.0, r.1, r.2]),
{
    let cs = vec![Constraint::Length(1), Constraint::Min(0), Constraint::Length(1)];
    assert(cs@ =~= three_rows());
    let chunks = split(Direction::Vertical, &cs, screen);
    let r = (chunks[0], chunks[1], chunks[2]);
    assert(seq![r.0, r.1, r.2] =~= chunks@);
    r
}

/// The label of a page tab: `" <letter>:<name>"`.
pub open spec fn tab_label(p: Page) -> Seq<char> {
    seq![' ', page_digit(p), ':'] + page_name(p)
}

pub open spec fn page_at(i: int) -> Page {
    if i == 0 {
        Page::Monitor
    } else if i == 1 {
        Page::Control
    } else {
        Page::Preset
    }
}

/// The label of a page tab.
pub fn tab_label_text(p: Page) -> (r: String)
    ensures
        r@ == tab_label(p),
{
    let mut s = crate::text::string_from(" ");
    let d = p.digit();
    let mut cs = crate::text::chars_of(s.as_str());
    cs.push(d);
    cs.push(':');
    let mut s = crate::text::string_of(&cs);
    crate::text::push_str(&mut s, p.name());
    proof {
        reveal_strlit(" ");
    }
    assert(s@ =~= tab_label(p));
    s
}

/// The width of the tab label of `p`, in cells, as a `u16` (truncating).
pub open spec fn tab_width(p: Page) -> u16 {
    text_width(tab_label(p)) as u16
}

pub open spec fn sat_add(a: u16, b: u16) -> u16 {
    if a + b <= u16::MAX {
        (a + b) as u16
    } else {
        u16::MAX
    }
}

/// The left edge of the tab of page `i` (in display order) when the tab
/// strip starts at `x0`: the tabs follow each other with two cells between
/// them.
pub open spec fn tab_x(x0: u16, i: int) -> u16
    decreases i,
{
    if i <= 0 {
        x0
    } else {
        sat_add(sat_add(tab_x(x0, i - 1), tab_width(page_at(i - 1))), 2)
    }
}

/// The hit-rectangles of the page tabs laid out in `tabs_area`: each one row
/// tall, on the area's row, as wide as its label.
pub open spec fn tab_layout(tabs_area: Rect) -> Seq<(Page, Rect)> {
    Seq::new(
        3,
        |i: int|
            (
                page_at(i),
                Rect {
                    x: tab_x(tabs_area.x, i),
                    y: tabs_area.y,
                    width: tab_width(page_at(i)),
                    height: 1,
                },
            ),
    )
}

/// Each tab's hit-rectangle, computed relative to `tabs_area`. (The label
/// line itself is built where it is drawn.)
pub fn tabs(tabs_area: Rect) -> (r: Vec<(Page, Rect)>)
    ensures
        r@ == tab_layout(tabs_area),
{
    let pages = [Page::Monitor, Page::Control, Page::Preset];
    let mut rects: Vec<(Page, Rect)> = Vec::new();
    let mut x = tabs_area.x;
    let mut i: usize = 0;
    while i < 3
        invariant
            0 <= i <= 3,
            pages@ == seq![Page::Monitor, Page::Control, Page::Preset],
            rects@ == tab_layout(tabs_area).take(i as int),
            i > 0 ==> x == sat_add(tab_x(tabs_area.x, i - 1), tab_width(page_at(i - 1))),
            i == 0 ==> x == tabs_area.x,
        decreases 3 - i,
    {
        let page = pages[i];
        assert(page == page_at(i as int));
        if i > 0 {
            x = x.saturating_add(2);
        }
        assert(x == tab_x(tabs_area.x, i as int));
        let label = tab_label_text(page);
        let width = line_width(label.as_str()) as u16;
        rects.push((page, Rect { x, y: tabs_area.y, width, height: 1 }));
        assert(rects@ =~= tab_layout(tabs_area).take(i + 1));
        x = x.saturating_add(width);
        i = i + 1;
    }
    assert(tab_layout(tabs_area).take(3) =~= tab_layout(tabs_area));
    rects
}

/// The width of the whole tab strip: the label widths plus two cells
/// between tabs, as a `u16` (truncating).
pub open spec fn tabs_total() -> u16 {
    (text_width(tab_label(Page::Monitor)) + text_width(tab_label(Page::Control)) + text_width(
        tab_label(Page::Preset),
    ) + 4) as u16
}

pub open spec fn tab_columns() -> Seq<Constraint> {
    seq![Constraint::Min(0), Constraint::Length(tabs_total())]
}

/// The right-hand part of the title bar that holds the tab strip: the
/// second of two columns `[Min(0), Length(tabs_total())]`, on the title
/// bar's row.
pub fn tabs_area(header: Rect) -> (r: Rect)
    ensures
        r.y == header.y,
        r.height == header.height,
{
    let a = tab_label_text(Page::Monitor);
    let b = tab_label_text(Page::Control);
    let c = tab_label_text(Page::Preset);
    let wa = line_width(a.as_str()) as u128;
    let wb = line_width(b.as_str()) as u128;
    let wc = line_width(c.as_str()) as u128;
    let total = (wa + wb + wc + 4) as u16;
    let cs = vec![Constraint::Min(0), Constraint::Length(total)];
    assert(cs@ =~= tab_columns());
    let parts = split(Direction::Horizontal, &cs, header);
    parts[1]
}

/// Per-tab hit-rectangles for the given screen, in display order: the tab
/// layout of the tab strip of the screen's title bar, whatever the active
/// page.
pub fn tab_rects(screen: Rect, active: Page) -> (r: Vec<(Page, Rect)>)
    ensures
        exists|area: Rect| r@ == #[trigger] tab_layout(area),
{
    let (header, _body, _status) = layout(screen);
    let area = tabs_area(header);
    tabs(area)
}

/// Width of the Monitor sidebar: the longest sub-tab label plus one cell
/// on each side, as a `u16` (truncating).
pub open spec fn sidebar_cells() -> u16 {
    let a = text_width(monitor_tab_name(MonitorTab::Overview));
    let b = text_width(monitor_tab_name(MonitorTab::Governor));
    let c = text_width(monitor_tab_name(MonitorTab::Cluster));
    let m = if a >= b && a >= c {
        a
    } else if b >= c {
        b
    } else {
        c
    };
    (m + 2) as u16
}

/// Width of the left sidebar: longest tab label + padding.
fn sidebar_width() -> (r: u16)
    ensures
        r == sidebar_cells(),
{
    let a = line_width(MonitorTab::Overview.name());
    let b = line_width(MonitorTab::Governor.name());
    let c = line_width(MonitorTab::Cluster.name());
    let m = if a >= b && a >= c {
        a
    } else if b >= c {
        b
    } else {
        c
    };
    (m as u128 + 2) as u16
}

pub open spec fn sidebar_columns() -> Seq<Constraint> {
    seq![Constraint::Length(sidebar_cells()), Constraint::Min(0)]
}

/// Split the Monitor body into a left sidebar (vertical tabs) and content
/// area: two columns `[Length(sidebar_cells()), Min(0)]`, each spanning the
/// body's height.
pub fn monitor_layout(body: Rect) -> (r: (Rect, Rect))
    ensures
        is_split(Direction::Horizontal, 2, body, seq![r.0, r.1]),
{
    let w = sidebar_width();
    let cs = vec![Constraint::Length(w), Constraint::Min(0)];
    assert(cs@ =~= sidebar_columns());
    let chunks = split(Direction::Horizontal, &cs, body);
    let r = (chunks[0], chunks[1]);
    assert(seq![r.0, r.1] =~= chunks@);
    r
}

/// The hit-rectangles of the Monitor sub-tabs within `sidebar`: one row
/// each, stacked from its top in display order, spanning its width.
pub open spec fn sidebar_tab_layout(sidebar: Rect) -> Seq<(MonitorTab, Rect)> {
    Seq::new(
        3,
        |i: int|
            (
                monitor_tab_at(i as nat),
                Rect { x: sidebar.x, y: (sidebar.y + i) as u16, width: sidebar.width, height: 1 },
            ),
    )
}

/// Per-sub-tab hit-rectangles within the sidebar of the Monitor body, for
/// mouse click handling: the sidebar tab layout of a column that starts on
/// the body's top row.
pub fn monitor_tab_rects(body: Rect) -> (r: Vec<(MonitorTab, Rect)>)
    requires
        body.y + 2 <= u16::MAX,
    ensures
        exists|sidebar: Rect| sidebar.y == body.y && r@ == #[trigger] sidebar_tab_layout(sidebar),
{
    let (sidebar, _content) = monitor_layout(body);
    assert(seq![sidebar, _content][0] == sidebar);
    sidebar_tab_rects(sidebar)
}

/// The hit-rectangles of the Monitor sub-tabs within `sidebar`.
pub fn sidebar_tab_rects(sidebar: Rect) -> (r: Vec<(MonitorTab, Rect)>)
    requires
        sidebar.y + 2 <= u16::MAX,
    ensures
        r@ == sidebar_tab_layout(sidebar),
{
    let tabs = [MonitorTab::Overview, MonitorTab::Governor, MonitorTab::Cluster];
    let mut out: Vec<(MonitorTab, Rect)> = Vec::new();
    let mut i: usize = 0;
    while i < 3
        invariant
            0 <= i <= 3,
            sidebar.y + 2 <= u16::MAX,
            tabs@ == seq![MonitorTab::Overview, MonitorTab::Governor, MonitorTab::Cluster],
            out@ == sidebar_tab_layout(sidebar).take(i as int),
        decreases 3 - i,
    {
        let tab = tabs[i];
        assert(tab == monitor_tab_at(i as nat));
        out.push(
            (tab, Rect { x: sidebar.x, y: sidebar.y + i as u16, width: sidebar.width, height: 1 }),
        );
        i = i + 1;
        assert(out@ =~= sidebar_tab_layout(sidebar).take(i as int));
    }
    assert(sidebar_tab_layout(sidebar).take(3) =~= sidebar_tab_layout(sidebar));
    out
}

/// Whether the cell `(column, row)` lies in `rect`.
pub open spec fn contains(rect: Rect, column: u16, row: u16) -> bool {
    &&& rect.y <= row
    &&& row < sat_add(rect.y, rect.height)
    &&& rect.x <= column
    &&& column < sat_add(rect.x, rect.width)
}

/// Whether the cell `(column, row)` lies in `rect` (edges saturate at the
/// screen's limit).
pub fn hit(rect: Rect, column: u16, row: u16) -> (r: bool)
    ensures
        r == contains(rect, column, row),
{
    row >= rect.y && row < rect.y.saturating_add(rect.height) && column >= rect.x && column
        < rect.x.saturating_add(rect.width)
}

} // verus!
