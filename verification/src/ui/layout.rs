//! Screen areas of the view: where the tabs, the content, the search box and
//! the status bar are, and where each tab's list is.
use vstd::prelude::*;

use crate::ui::Tab;
use ratatui::layout::{Constraint, Direction, Layout, Rect};

verus! {

/// A rectangle of terminal cells.
#[derive(Debug, Clone, Copy, PartialEq, Eq, Structural)]
pub struct Area {
    pub x: u16,
    pub y: u16,
    pub width: u16,
    pub height: u16,
}

/// How much of the split direction a part takes.
#[derive(Debug, Clone, Copy, PartialEq, Eq, Structural)]
pub enum SizeRule {
    Min(u16),
    Length(u16),
    Percentage(u16),
}

/// The part lies within the area.
pub open spec fn inside(part: Area, area: Area) -> bool {
    &&& area.x <= part.x
    &&& part.x + part.width <= area.x + area.width
    &&& area.y <= part.y
    &&& part.y + part.height <= area.y + area.height
}

/// Where an area starts along the split: its top when `vertical`, else its left.
pub open spec fn start_on(a: Area, vertical: bool) -> int {
    if vertical {
        a.y as int
    } else {
        a.x as int
    }
}

/// How long an area is along the split: its height when `vertical`, else its width.
pub open spec fn size_on(a: Area, vertical: bool) -> int {
    if vertical {
        a.height as int
    } else {
        a.width as int
    }
}

/// The part spans the area across the split.
pub open spec fn same_across(part: Area, area: Area, vertical: bool) -> bool {
    if vertical {
        part.x == area.x && part.width == area.width
    } else {
        part.y == area.y && part.height == area.height
    }
}

/// The area's far edges lie on the screen's coordinates.
pub open spec fn no_overflow(a: Area) -> bool {
    a.x + a.width <= u16::MAX && a.y + a.height <= u16::MAX
}

/// The parts follow one another from the start of the area, each spanning
/// the area across the split.
pub open spec fn tiled(parts: Seq<Area>, area: Area, vertical: bool) -> bool {
    &&& forall|i: int| 0 <= i < parts.len() ==> same_across(#[trigger] parts[i], area, vertical)
    &&& parts.len() > 0 ==> start_on(parts[0], vertical) == start_on(area, vertical)
    &&& forall|i: int|
        1 <= i < parts.len() ==> start_on(#[trigger] parts[i], vertical) == start_on(
            parts[i - 1],
            vertical,
        ) + size_on(parts[i - 1], vertical)
}

/// Every rule is a `Length` or a `Min`.
pub open spec fn lengths_and_mins(rules: Seq<SizeRule>) -> bool {
    forall|i: int| 0 <= i < rules.len() ==> (#[trigger] rules[i] is Length || rules[i] is Min)
}

/// Some rule is a `Min`.
pub open spec fn has_min(rules: Seq<SizeRule>) -> bool {
    exists|i: int| 0 <= i < rules.len() && #[trigger] rules[i] is Min
}

/// Every rule is a `Percentage`.
pub open spec fn percentages_only(rules: Seq<SizeRule>) -> bool {
    forall|i: int| 0 <= i < rules.len() ==> #[trigger] rules[i] is Percentage
}

/// The cells that the `Length` and `Min` rules ask for at least.
pub open spec fn fixed_total(rules: Seq<SizeRule>) -> int
    decreases rules.len(),
{
    if rules.len() == 0 {
        0
    } else {
        fixed_total(rules.drop_last()) + match rules.last() {
            SizeRule::Length(l) => l as int,
            SizeRule::Min(m) => m as int,
            SizeRule::Percentage(_) => 0,
        }
    }
}

/// The percentages that the rules ask for.
pub open spec fn percent_total(rules: Seq<SizeRule>) -> int
    decreases rules.len(),
{
    if rules.len() == 0 {
        0
    } else {
        percent_total(rules.drop_last()) + match rules.last() {
            SizeRule::Percentage(p) => p as int,
            _ => 0,
        }
    }
}

/// The rule's contribution to `fixed_total`.
pub open spec fn rule_fixed(r: SizeRule) -> int {
    match r {
        SizeRule::Length(l) => l as int,
        SizeRule::Min(m) => m as int,
        SizeRule::Percentage(_) => 0,
    }
}

/// The rule's contribution to `percent_total`.
pub open spec fn rule_percent(r: SizeRule) -> int {
    match r {
        SizeRule::Percentage(p) => p as int,
        _ => 0,
    }
}

proof fn lemma_totals_push(s: Seq<SizeRule>, r: SizeRule)
    ensures
        fixed_total(s.push(r)) == fixed_total(s) + rule_fixed(r),
        percent_total(s.push(r)) == percent_total(s) + rule_percent(r),
{
    assert(s.push(r).drop_last() =~= s);
}

/// The totals of three rules.
proof fn lemma_totals3(a: SizeRule, b: SizeRule, c: SizeRule)
    ensures
        fixed_total(seq![a, b, c]) == rule_fixed(a) + rule_fixed(b) + rule_fixed(c),
        percent_total(seq![a, b, c]) == rule_percent(a) + rule_percent(b) + rule_percent(c),
        fixed_total(seq![a, b]) == rule_fixed(a) + rule_fixed(b),
        percent_total(seq![a, b]) == rule_percent(a) + rule_percent(b),
{
    let e = Seq::<SizeRule>::empty();
    assert(fixed_total(e) == 0 && percent_total(e) == 0);
    lemma_totals_push(e, a);
    assert(e.push(a) =~= seq![a]);
    lemma_totals_push(seq![a], b);
    assert(seq![a].push(b) =~= seq![a, b]);
    lemma_totals_push(seq![a, b], c);
    assert(seq![a, b].push(c) =~= seq![a, b, c]);
}

/// `size` is `percent` percent of `total` with each edge rounded to a whole
/// cell: less than one cell off either way.
pub open spec fn near_share(size: int, percent: int, total: int) -> bool {
    100 * (size - 1) < percent * total && percent * total < 100 * (size + 1)
}

/// Calls ratatui's `Layout::split` with the direction and the constraints
/// that `vertical` and `rules` name (default flex, margin and spacing). What is
/// claimed holds of every outcome of its solver, whose constraints are in
/// `ratatui-0.27.0/src/layout/layout.rs` (`try_split` and the `configure_*`
/// functions, with the strengths of the `strengths` module):
/// - one part per rule, each within the area: every boundary is required to
///   lie between the area's edges, in ascending order, and is rounded once;
/// - the parts follow one another from the area's start and span it across
///   the split: the spacers before and between the parts are held empty at
///   strength `REQUIRED - 1`, which nothing else outweighs, and
///   `changes_to_rects` gives each part the area's cross extent;
/// - with only `Length` and `Min` rules, some `Min` among them, and room for
///   all their cells, each `Length` part has its length exactly and the
///   parts reach the area's end: the lengths (`STRONG * 10`) and minimums
///   (`STRONG * 100`) can all be met, and a `Min` part's wish to grow
///   (`MEDIUM`) outweighs the trailing spacer's (`MEDIUM / 10`);
/// - with only `Percentage` rules adding up to at most 100, each part is its
///   share of the area to within a cell: the shares (`STRONG`) can all be met
///   exactly and only the part edges are rounded.
/// Which parts come back where several splits fit equally well (too little
/// room, or room left over) is not claimed: the solver's choice then depends
/// on the order of its hash maps, which each process seeds afresh.
#[verifier::external_body]
fn split_area(vertical: bool, rules: &Vec<SizeRule>, area: Area) -> (parts: Vec<Area>)
    ensures
        parts@.len() == rules@.len(),
        forall|i: int| 0 <= i < parts@.len() ==> inside(#[trigger] parts@[i], area),
        tiled(parts@, area, vertical),
        no_overflow(area) && lengths_and_mins(rules@) && has_min(rules@) && fixed_total(rules@)
            <= size_on(area, vertical) ==> {
            &&& forall|i: int|
                0 <= i < rules@.len() && #[trigger] rules@[i] is Length ==> size_on(
                    parts@[i],
                    vertical,
                ) == rules@[i]->Length_0
            &&& start_on(parts@.last(), vertical) + size_on(parts@.last(), vertical) == start_on(
                area,
                vertical,
            ) + size_on(area, vertical)
        },
        no_overflow(area) && percentages_only(rules@) && percent_total(rules@) <= 100 ==> forall|
            i: int,
        |
            0 <= i < rules@.len() ==> near_share(
                size_on(#[trigger] parts@[i], vertical),
                rules@[i]->Percentage_0 as int,
                size_on(area, vertical),
            ),
{
    let dir = if vertical { Direction::Vertical } else { Direction::Horizontal };
    let cs = rules.iter().map(|r| match *r {
        SizeRule::Min(v) => Constraint::Min(v),
        SizeRule::Length(v) => Constraint::Length(v),
        SizeRule::Percentage(v) => Constraint::Percentage(v),
    });
    let rect = Rect { x: area.x, y: area.y, width: area.width, height: area.height };
    let rects = Layout::default().direction(dir).constraints(cs).split(rect);
    rects.iter().map(|r| Area { x: r.x, y: r.y, width: r.width, height: r.height }).collect()
}

/// Where the parts of the screen are.
#[derive(Debug, Clone, Copy, PartialEq, Eq, Structural)]
pub struct UiLayout {
    pub tabs: Area,
    pub content: Area,
    pub search: Option<Area>,
    pub status: Area,
}

/// The screen as laid out with room for every part: the tab bar on the top
/// three lines, the status bar on the bottom line, the search box (while
/// searching) on the three lines above it, and the content between.
pub open spec fn full_layout(area: Area, search_mode: bool) -> UiLayout {
    let l: int = if search_mode {
        3
    } else {
        0
    };
    UiLayout {
        tabs: Area { x: area.x, y: area.y, width: area.width, height: 3 },
        content: Area {
            x: area.x,
            y: (area.y + 3) as u16,
            width: area.width,
            height: (area.height - 4 - l) as u16,
        },
        search: if search_mode {
            Some(Area { x: area.x, y: (area.y + area.height - 4) as u16, width: area.width, height: 3 })
        } else {
            None
        },
        status: Area { x: area.x, y: (area.y + area.height - 1) as u16, width: area.width, height: 1 },
    }
}

/// The screen needs at least this many lines for every part to get its
/// lines: tab bar, status bar and (while searching) search box.
pub open spec fn lines_needed(search_mode: bool) -> int {
    if search_mode {
        7
    } else {
        4
    }
}

/// Splits the screen into a one-line status bar at the bottom and, above it,
/// the tab bar (three lines), the content, and the search box (three lines,
/// only while searching). Every part lies within the screen; the status bar
/// is the bottom line of any screen with a line, and where the screen has
/// room for every part the layout is `full_layout`. On a smaller screen how
/// the lines are shared is the layout solver's choice.
pub fn ui_layout(area: Area, search_mode: bool) -> (r: UiLayout)
    ensures
        r.search is Some <==> search_mode,
        inside(r.tabs, area),
        inside(r.content, area),
        inside(r.status, area),
        r.search matches Some(s) ==> inside(s, area),
        no_overflow(area) && area.height >= 1 ==> r.status == full_layout(area, search_mode).status,
        no_overflow(area) && area.height >= lines_needed(search_mode) ==> r == full_layout(
            area,
            search_mode,
        ),
{
    let main_rules = vec![SizeRule::Min(0), SizeRule::Length(1)];
    let main = split_area(true, &main_rules, area);
    let l: u16 = if search_mode {
        3
    } else {
        0
    };
    let chunk_rules = vec![SizeRule::Length(3), SizeRule::Min(0), SizeRule::Length(l)];
    let chunks = split_area(true, &chunk_rules, main[0]);
    assert(inside(chunks@[0], main@[0]) && inside(chunks@[1], main@[0]));
    assert(inside(chunks@[2], main@[0]) && inside(main@[0], area) && inside(main@[1], area));
    proof {
        assert(main_rules@[0] is Min);
        lemma_totals3(SizeRule::Min(0), SizeRule::Length(1), SizeRule::Min(0));
        assert(main_rules@ =~= seq![SizeRule::Min(0), SizeRule::Length(1)]);
        assert(fixed_total(main_rules@) == 1);
        assert(lengths_and_mins(main_rules@));
        assert(has_min(main_rules@));
        assert(main_rules@[1] is Length);
        assert(same_across(main@[0], area, true) && same_across(main@[1], area, true));
        assert(chunk_rules@[1] is Min);
        lemma_totals3(SizeRule::Length(3), SizeRule::Min(0), SizeRule::Length(l));
        assert(chunk_rules@ =~= seq![SizeRule::Length(3), SizeRule::Min(0), SizeRule::Length(l)]);
        assert(fixed_total(chunk_rules@) == 3 + l);
        assert(lengths_and_mins(chunk_rules@));
        assert(has_min(chunk_rules@));
        assert(chunk_rules@[0] is Length && chunk_rules@[2] is Length);
        assert(same_across(chunks@[0], main@[0], true) && same_across(chunks@[1], main@[0], true));
        assert(same_across(chunks@[2], main@[0], true));
        assert(start_on(main@[1], true) == start_on(main@[0], true) + size_on(main@[0], true));
        assert(start_on(chunks@[1], true) == start_on(chunks@[0], true) + size_on(chunks@[0], true));
        assert(start_on(chunks@[2], true) == start_on(chunks@[1], true) + size_on(chunks@[1], true));
    }
    UiLayout {
        tabs: chunks[0],
        content: chunks[1],
        search: if search_mode {
            Some(chunks[2])
        } else {
            None
        },
        status: main[1],
    }
}

/// Where a view was drawn: the parts of its screen, and the list of the tab
/// it showed (none for the raw tab).
#[derive(Debug, Clone, Copy, PartialEq, Eq, Structural)]
pub struct DrawnView {
    pub layout: UiLayout,
    pub list: Option<Area>,
}

/// Lays out a screen of size `area` for a view showing `tab`: the parts of
/// the screen, and the tab's list within the content.
pub fn view_areas(area: Area, search_mode: bool, tab: Tab) -> (r: DrawnView)
    ensures
        r.layout.search is Some <==> search_mode,
        inside(r.layout.tabs, area),
        inside(r.layout.content, area),
        inside(r.layout.status, area),
        r.layout.search matches Some(s) ==> inside(s, area),
        no_overflow(area) && area.height >= 1 ==> r.layout.status == full_layout(
            area,
            search_mode,
        ).status,
        no_overflow(area) && area.height >= lines_needed(search_mode) ==> r.layout == full_layout(
            area,
            search_mode,
        ),
        r.list is Some <==> tab != Tab::Raw,
        r.list matches Some(a) ==> inside(a, r.layout.content),
        r.list matches Some(a) ==> (no_overflow(area) ==> list_fits(tab, a, r.layout.content)),
{
    let layout = ui_layout(area, search_mode);
    let list = current_list_area(tab, layout.content);
    DrawnView { layout, list }
}

/// The share of the content that a tab's list takes, in percent, and
/// whether the content is split top to bottom for it.
pub open spec fn list_share(tab: Tab) -> (int, bool) {
    match tab {
        Tab::Interfaces => (60, false),
        Tab::Rdma => (30, true),
        _ => (50, true),
    }
}

/// The list area lies at the start of the content, spans it across the
/// split, and is the tab's share of it to within a cell.
pub open spec fn list_fits(tab: Tab, a: Area, area: Area) -> bool {
    let (p, v) = list_share(tab);
    &&& a.x == area.x
    &&& a.y == area.y
    &&& same_across(a, area, v)
    &&& near_share(size_on(a, v), p, size_on(area, v))
}

/// Where the tab draws its list within the content area: the left 60% for
/// interfaces, the top 30% for RDMA, the top half for PCI, each to within a
/// cell as the layout solver rounds it; the raw tab has none.
pub fn current_list_area(tab: Tab, area: Area) -> (r: Option<Area>)
    ensures
        r is Some <==> tab != Tab::Raw,
        r matches Some(a) ==> inside(a, area),
        r matches Some(a) ==> (no_overflow(area) ==> list_fits(tab, a, area)),
{
    match tab {
        Tab::Interfaces => {
            let parts = split_area(
                false,
                &vec![SizeRule::Percentage(60), SizeRule::Percentage(40)],
                area,
            );
            proof {
                let rs = seq![SizeRule::Percentage(60), SizeRule::Percentage(40)];
                lemma_totals3(rs[0], rs[1], rs[0]);
                assert(percent_total(rs) == 100);
            }
            Some(parts[0])
        },
        Tab::Rdma => {
            let parts = split_area(
                true,
                &vec![SizeRule::Percentage(30), SizeRule::Percentage(70)],
                area,
            );
            proof {
                let rs = seq![SizeRule::Percentage(30), SizeRule::Percentage(70)];
                lemma_totals3(rs[0], rs[1], rs[0]);
                assert(percent_total(rs) == 100);
            }
            Some(parts[0])
        },
        Tab::Pci => {
            let parts = split_area(
                true,
                &vec![SizeRule::Percentage(50), SizeRule::Percentage(50)],
                area,
            );
            proof {
                let rs = seq![SizeRule::Percentage(50), SizeRule::Percentage(50)];
                lemma_totals3(rs[0], rs[1], rs[0]);
                assert(percent_total(rs) == 100);
            }
            Some(parts[0])
        },
        Tab::Raw => None,
    }
}

/// The share on either side of a centred part of `percent` percent.
pub open spec fn side_share(percent: u16) -> int {
    (100 - percent) / 2
}

fn centered_rules(percent: u16) -> (r: Vec<SizeRule>)
    requires
        percent <= 100,
    ensures
        r@.len() == 3,
        percentages_only(r@),
        percent_total(r@) <= 100,
        r@[0] == SizeRule::Percentage(side_share(percent) as u16),
        r@[1] == SizeRule::Percentage(percent),
{
    let side = (100 - percent) / 2;
    let r = vec![SizeRule::Percentage(side), SizeRule::Percentage(percent), SizeRule::Percentage(side)];
    proof {
        lemma_totals3(
            SizeRule::Percentage(side),
            SizeRule::Percentage(percent),
            SizeRule::Percentage(side),
        );
        assert(r@ =~= seq![
            SizeRule::Percentage(side),
            SizeRule::Percentage(percent),
            SizeRule::Percentage(side),
        ]);
    }
    r
}

/// The part of `area` in which a pop-up of `percent_x` by `percent_y`
/// percent of it is drawn, centred: the middle of three rows split
/// `(100 - percent_y) / 2`, `percent_y`, `(100 - percent_y) / 2` percent,
/// then the middle of three columns of that row split likewise. It lies
/// within the area, and its size and its offset from the area's corner are
/// those shares of the area to within a cell.
pub fn centered_rect(percent_x: u16, percent_y: u16, area: Area) -> (r: Area)
    requires
        percent_x <= 100,
        percent_y <= 100,
    ensures
        inside(r, area),
        no_overflow(area) ==> {
            &&& near_share(r.height as int, percent_y as int, area.height as int)
            &&& near_share(r.y - area.y, side_share(percent_y), area.height as int)
            &&& near_share(r.width as int, percent_x as int, area.width as int)
            &&& near_share(r.x - area.x, side_share(percent_x), area.width as int)
        },
{
    let row_rules = centered_rules(percent_y);
    let rows = split_area(true, &row_rules, area);
    let col_rules = centered_rules(percent_x);
    let cols = split_area(false, &col_rules, rows[1]);
    assert(inside(cols@[1], rows@[1]) && inside(rows@[1], area));
    assert(same_across(rows@[0], area, true) && same_across(rows@[1], area, true));
    assert(same_across(cols@[0], rows@[1], false) && same_across(cols@[1], rows@[1], false));
    proof {
        if no_overflow(area) {
            assert(near_share(size_on(rows@[0], true), row_rules@[0]->Percentage_0 as int, size_on(area, true)));
            assert(near_share(size_on(rows@[1], true), row_rules@[1]->Percentage_0 as int, size_on(area, true)));
            assert(no_overflow(rows@[1]));
            assert(near_share(size_on(cols@[0], false), col_rules@[0]->Percentage_0 as int, size_on(rows@[1], false)));
            assert(near_share(size_on(cols@[1], false), col_rules@[1]->Percentage_0 as int, size_on(rows@[1], false)));
            assert(start_on(rows@[1], true) == start_on(rows@[0], true) + size_on(rows@[0], true));
            assert(start_on(cols@[1], false) == start_on(cols@[0], false) + size_on(cols@[0], false));
        }
    }
    cols[1]
}

/// `a + b`, or the largest `u16`.
pub open spec fn sat_add(a: u16, b: u16) -> u16 {
    if a + b <= u16::MAX {
        (a + b) as u16
    } else {
        u16::MAX
    }
}

/// The cell lies within the area (whose far edges are cut at the screen's
/// largest coordinate).
pub open spec fn area_holds(area: Area, column: u16, row: u16) -> bool {
    column >= area.x && column < sat_add(area.x, area.width) && row >= area.y && row < sat_add(
        area.y,
        area.height,
    )
}

/// Whether the cell at `column`, `row` lies within the area.
pub fn rect_contains(area: Area, column: u16, row: u16) -> (r: bool)
    ensures
        r == area_holds(area, column, row),
{
    column >= area.x && column < area.x.saturating_add(area.width) && row >= area.y && row
        < area.y.saturating_add(area.height)
}

/// How far paging scrolls on a screen of the given height: five lines less
/// than the height but at least one, or 10 when the height is unknown.
pub open spec fn page_step_for(height: Option<u16>) -> u16 {
    match height {
        Some(h) => if h >= 6 {
            (h - 5) as u16
        } else {
            1
        },
        None => 10,
    }
}

/// How far paging scrolls on a screen of the given height.
pub fn raw_page_step(height: Option<u16>) -> (r: u16)
    ensures
        r == page_step_for(height),
{
    match height {
        Some(h) => {
            let s = h.saturating_sub(5);
            if s > 1 {
                s
            } else {
                1
            }
        },
        None => 10,
    }
}

} // verus!
