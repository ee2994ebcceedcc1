//! Where each panel goes on the screen.
//!
//! ```text
//! ┌─ title bar (1 line) ─────────────────────────────────────────┐
//! │ recipes (40% of left) │                                       │
//! │                       │ command preview (60% width)           │
//! │ files   (60% of left) │                                       │
//! ├─ log (30% of the middle) ────────────────────────────────────┤
//! └─ status bar (1 line) ────────────────────────────────────────┘
//! ```

use vstd::prelude::*;
use ratatui::layout::{Constraint, Direction, Layout, Rect};

verus! {

/// A rectangle of terminal cells.
#[derive(Clone, Copy, Debug, PartialEq, Eq, Structural)]
pub struct Area {
    pub x: u16,
    pub y: u16,
    pub width: u16,
    pub height: u16,
}

/// A size rule for one part of a split.
pub enum LayoutConstraint {
    /// Exactly this many cells.
    Length(u16),
    /// At least this many cells.
    Min(u16),
    /// This percentage of the area.
    Percentage(u16),
}

/// The regions of the screen, one per panel.
#[derive(Clone, Copy, Debug)]
pub struct LayoutAreas {
    /// Top bar with the application name and quick status.
    pub title_bar: Area,
    /// Recipe list (top left).
    pub recipe_panel: Area,
    /// File browser (bottom left).
    pub file_panel: Area,
    /// Command preview (right column).
    pub command_panel: Area,
    /// Log panel (full width, below the columns).
    pub log_panel: Area,
    /// Status bar with key hints.
    pub status_bar: Area,
}

/// What ratatui's `Layout::split` returns for an area, a direction and the
/// constraints.
pub uninterp spec fn layout_split(area: Area, vertical: bool, constraints: Seq<LayoutConstraint>) -> Seq<
    Area,
>;

/// `ratatui::layout::Layout::split`: split `area` vertically or
/// horizontally by the constraints (a cassowary solve). The contract names
/// the result and states that there is one part per constraint, which is
/// how the solver sets up its segments. The solver's `expect` on a failed
/// solve is not ruled out by the contract.
#[verifier::external_body]
fn split_area(area: Area, vertical: bool, constraints: &Vec<LayoutConstraint>) -> (r: Vec<Area>)
    ensures
        r@ == layout_split(area, vertical, constraints@),
        r@.len() == constraints@.len(),
{
    let cs: Vec<Constraint> = constraints.iter().map(|c| match c {
        LayoutConstraint::Length(n) => Constraint::Length(*n),
        LayoutConstraint::Min(n) => Constraint::Min(*n),
        LayoutConstraint::Percentage(n) => Constraint::Percentage(*n),
    }).collect();
    let dir = if vertical { Direction::Vertical } else { Direction::Horizontal };
    let rect = Rect { x: area.x, y: area.y, width: area.width, height: area.height };
    let parts = Layout::default().direction(dir).constraints(cs).split(rect);
    parts.iter().map(|r| Area { x: r.x, y: r.y, width: r.width, height: r.height }).collect()
}

/// The constraints of the first split: title, main area, status.
pub open spec fn outer_rules() -> Seq<LayoutConstraint> {
    seq![LayoutConstraint::Length(1), LayoutConstraint::Min(0), LayoutConstraint::Length(1)]
}

/// Two parts of `a` and `b` percent.
pub open spec fn two_rules(a: u16, b: u16) -> Seq<LayoutConstraint> {
    seq![LayoutConstraint::Percentage(a), LayoutConstraint::Percentage(b)]
}

/// The regions that [`chunk_areas`] gives for a screen area.
pub open spec fn screen_layout(area: Area) -> LayoutAreas {
    let v = layout_split(area, true, outer_rules());
    let m = layout_split(v[1], true, two_rules(70, 30));
    let h = layout_split(m[0], false, two_rules(40, 60));
    let l = layout_split(h[0], true, two_rules(40, 60));
    LayoutAreas {
        title_bar: v[0],
        recipe_panel: l[0],
        file_panel: l[1],
        command_panel: h[1],
        log_panel: m[1],
        status_bar: v[2],
    }
}

fn two(a: u16, b: u16) -> (r: Vec<LayoutConstraint>)
    ensures
        r@ == two_rules(a, b),
{
    let mut r = Vec::new();
    r.push(LayoutConstraint::Percentage(a));
    r.push(LayoutConstraint::Percentage(b));
    assert(r@ =~= two_rules(a, b));
    r
}

/// Divide the screen into the panels: title (1 line) | main | status
/// (1 line); main into columns (70%) | log (30%); columns into left (40%)
/// | command preview (60%); left into recipes (40%) | files (60%).
pub fn chunk_areas(area: Area) -> (r: LayoutAreas)
    ensures
        r == screen_layout(area),
{
    let mut outer = Vec::new();
    outer.push(LayoutConstraint::Length(1));
    outer.push(LayoutConstraint::Min(0));
    outer.push(LayoutConstraint::Length(1));
    assert(outer@ =~= outer_rules());
    let v = split_area(area, true, &outer);
    let title_bar = v[0];
    let main_area = v[1];
    let status_bar = v[2];
    let m = split_area(main_area, true, &two(70, 30));
    let columns_row = m[0];
    let log_panel = m[1];
    let h = split_area(columns_row, false, &two(40, 60));
    let left = h[0];
    let command_panel = h[1];
    let l = split_area(left, true, &two(40, 60));
    LayoutAreas {
        title_bar,
        recipe_panel: l[0],
        file_panel: l[1],
        command_panel,
        log_panel,
        status_bar,
    }
}

} // verus!
