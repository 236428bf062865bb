//! Rectangles, sizing rules and the region splitter.
//!
//! A [`Layout`] divides a rectangle along one axis into as many regions as it
//! has sizing rules. The sizes themselves are chosen by the constraint solver
//! of `ratatui`; this module states what every solution has in common.

use vstd::prelude::*;
use ratatui::layout::Constraint as SolverRule;
use ratatui::layout::Direction as SolverDirection;
use ratatui::layout::Layout as SolverLayout;
use ratatui::layout::Rect as SolverRect;

verus! {

/// A rectangle of terminal cells: top-left corner, width and height.
#[derive(Clone, Copy, Debug, PartialEq, Eq, Structural)]
pub struct Rect {
    pub x: u16,
    pub y: u16,
    pub width: u16,
    pub height: u16,
}

/// Axis along which a layout divides its area.
#[derive(Clone, Copy, Debug, PartialEq, Eq, Structural)]
pub enum Direction {
    Horizontal,
    Vertical,
}

/// One sizing rule of a layout.
#[derive(Clone, Copy, Debug, PartialEq, Eq, Structural)]
pub enum Constraint {
    /// A fixed number of cells.
    Length(u16),
    /// At least this number of cells.
    Min(u16),
    /// A share of the remaining space, proportional to the weight.
    Fill(u16),
}

/// A direction and an ordered list of sizing rules.
#[derive(Debug)]
pub struct Layout {
    pub direction: Direction,
    pub constraints: Vec<Constraint>,
}

impl Rect {
    /// Number of cells covered by the rectangle.
    pub open spec fn spec_area(self) -> nat {
        (self.width as nat) * (self.height as nat)
    }

    /// A rectangle is empty when it covers no cell.
    pub open spec fn spec_is_empty(self) -> bool {
        self.width == 0 || self.height == 0
    }

    /// First column to the right of the rectangle, capped at the largest coordinate.
    pub open spec fn spec_right(self) -> int {
        if self.x + self.width > u16::MAX {
            u16::MAX as int
        } else {
            self.x + self.width
        }
    }

    /// First row below the rectangle, capped at the largest coordinate.
    pub open spec fn spec_bottom(self) -> int {
        if self.y + self.height > u16::MAX {
            u16::MAX as int
        } else {
            self.y + self.height
        }
    }

    /// `inner` lies inside `self` on both axes.
    pub open spec fn encloses(self, inner: Rect) -> bool {
        &&& self.x <= inner.x
        &&& inner.x + inner.width <= self.x + self.width
        &&& self.y <= inner.y
        &&& inner.y + inner.height <= self.y + self.height
    }

    pub fn new(x: u16, y: u16, width: u16, height: u16) -> (r: Rect)
        ensures
            r == (Rect { x, y, width, height }),
    {
        Rect { x, y, width, height }
    }

    #[verifier::when_used_as_spec(spec_is_empty)]
    pub fn is_empty(self) -> (b: bool)
        ensures
            b == self.spec_is_empty(),
            b <==> self.spec_area() == 0,
    {
        proof {
            assert(self.spec_area() == 0 <==> (self.width == 0 || self.height == 0))
                by (nonlinear_arith)
                requires
                    self.spec_area() == (self.width as nat) * (self.height as nat),
            ;
        }
        self.width == 0 || self.height == 0
    }

    pub fn right(self) -> (r: u16)
        ensures
            r == self.spec_right(),
    {
        self.x.saturating_add(self.width)
    }

    pub fn bottom(self) -> (r: u16)
        ensures
            r == self.spec_bottom(),
    {
        self.y.saturating_add(self.height)
    }
}

/// Position of a rectangle along the axis of `direction`.
pub open spec fn main_start(direction: Direction, r: Rect) -> int {
    match direction {
        Direction::Horizontal => r.x as int,
        Direction::Vertical => r.y as int,
    }
}

/// Extent of a rectangle along the axis of `direction`.
pub open spec fn main_size(direction: Direction, r: Rect) -> int {
    match direction {
        Direction::Horizontal => r.width as int,
        Direction::Vertical => r.height as int,
    }
}

/// First coordinate after a rectangle along the axis of `direction`, capped
/// at the largest coordinate.
pub open spec fn main_end(direction: Direction, r: Rect) -> int {
    match direction {
        Direction::Horizontal => r.spec_right(),
        Direction::Vertical => r.spec_bottom(),
    }
}

/// A region spans the whole of `area` across the axis, and lies inside it
/// along the axis.
pub open spec fn region_in_area(direction: Direction, area: Rect, region: Rect) -> bool {
    &&& match direction {
        Direction::Horizontal => region.y == area.y && region.height == area.height,
        Direction::Vertical => region.x == area.x && region.width == area.width,
    }
    &&& main_start(direction, area) <= main_start(direction, region)
    &&& main_start(direction, region) + main_size(direction, region) <= main_end(direction, area)
}

/// What holds of every division of `area` into `count` regions: there is one
/// region per sizing rule, each inside the area, and they follow one another
/// along the axis without overlap.
pub open spec fn is_division(direction: Direction, count: nat, area: Rect, regions: Seq<Rect>) -> bool {
    &&& regions.len() == count
    &&& forall|i: int| 0 <= i < regions.len() ==> region_in_area(direction, area, #[trigger] regions[i])
    &&& forall|i: int, j: int|
        0 <= i < j < regions.len() ==> main_start(direction, #[trigger] regions[i]) + main_size(
            direction,
            regions[i],
        ) <= main_start(direction, #[trigger] regions[j])
}

/// Calls `ratatui::layout::Layout::new(..).split(..)` with the default margin,
/// flex and spacing.
///
/// The sizes come out of a constraint solver whose tie-breaking is not fixed,
/// so the contract claims only what the solver is made to respect in every
/// solution: one region per rule; every boundary inside the area and the
/// boundaries in ascending order (its required constraints); and the area's
/// own position and extent across the axis, which are copied into each region.
#[verifier::external_body]
fn solve_regions(direction: Direction, constraints: &Vec<Constraint>, area: Rect) -> (regions: Vec<Rect>)
    ensures
        is_division(direction, constraints@.len(), area, regions@),
{
    let rules = constraints.iter().map(|c| match *c {
        Constraint::Length(n) => SolverRule::Length(n),
        Constraint::Min(n) => SolverRule::Min(n),
        Constraint::Fill(n) => SolverRule::Fill(n),
    });
    let axis = match direction {
        Direction::Horizontal => SolverDirection::Horizontal,
        Direction::Vertical => SolverDirection::Vertical,
    };
    let whole = SolverRect { x: area.x, y: area.y, width: area.width, height: area.height };
    let parts = SolverLayout::new(axis, rules).split(whole);
    parts.iter().map(|r| Rect { x: r.x, y: r.y, width: r.width, height: r.height }).collect()
}

impl Layout {
    pub open spec fn spec_len(&self) -> nat {
        self.constraints@.len()
    }

    pub fn new(direction: Direction, constraints: Vec<Constraint>) -> (layout: Layout)
        ensures
            layout.direction == direction,
            layout.constraints@ == constraints@,
    {
        Layout { direction, constraints }
    }

    /// Number of regions that a split produces.
    pub fn len(&self) -> (n: usize)
        ensures
            n == self.spec_len(),
    {
        self.constraints.len()
    }

    /// Divides `area` along the layout's direction, one region per sizing
    /// rule, in the order of the rules.
    ///
    /// Every region lies inside `area`, the regions do not overlap, and an
    /// empty area yields empty regions only.
    pub fn split(&self, area: Rect) -> (regions: Vec<Rect>)
        ensures
            is_division(self.direction, self.constraints@.len(), area, regions@),
            forall|i: int| 0 <= i < regions@.len() ==> area.encloses(#[trigger] regions@[i]),
            area.spec_is_empty() ==> forall|i: int|
                0 <= i < regions@.len() ==> (#[trigger] regions@[i]).spec_is_empty(),
    {
        let regions = solve_regions(self.direction, &self.constraints, area);
        proof {
            lemma_division_enclosed(self.direction, self.constraints@.len(), area, regions@);
            if area.spec_is_empty() {
                lemma_division_of_empty(self.direction, self.constraints@.len(), area, regions@);
            }
        }
        regions
    }
}

impl Default for Layout {
    fn default() -> (layout: Layout)
        ensures
            layout.direction == Direction::Vertical,
            layout.constraints@.len() == 0,
    {
        Layout { direction: Direction::Vertical, constraints: Vec::new() }
    }
}

/// Every region of a division lies inside the divided area on both axes.
pub proof fn lemma_division_enclosed(direction: Direction, count: nat, area: Rect, regions: Seq<Rect>)
    requires
        is_division(direction, count, area, regions),
    ensures
        forall|i: int| 0 <= i < regions.len() ==> area.encloses(#[trigger] regions[i]),
{
    assert forall|i: int| 0 <= i < regions.len() implies area.encloses(#[trigger] regions[i]) by {
        assert(region_in_area(direction, area, regions[i]));
    }
}

/// Dividing an area that covers no cell yields regions that cover no cell.
pub proof fn lemma_division_of_empty(direction: Direction, count: nat, area: Rect, regions: Seq<Rect>)
    requires
        is_division(direction, count, area, regions),
        area.spec_is_empty(),
    ensures
        regions.len() == count,
        forall|i: int| 0 <= i < regions.len() ==> (#[trigger] regions[i]).spec_is_empty(),
        forall|i: int| 0 <= i < regions.len() ==> (#[trigger] regions[i]).spec_area() == 0,
{
    assert forall|i: int| 0 <= i < regions.len() implies (#[trigger] regions[i]).spec_is_empty()
        && regions[i].spec_area() == 0 by {
        assert(region_in_area(direction, area, regions[i]));
        let r = regions[i];
        assert(r.width == 0 || r.height == 0);
        assert((r.width as nat) * (r.height as nat) == 0) by (nonlinear_arith)
            requires
                r.width == 0 || r.height == 0,
        ;
    }
}

/// The regions of a division, taken together, cover no more cells along the
/// axis than the divided area has.
pub proof fn lemma_division_fits(direction: Direction, count: nat, area: Rect, regions: Seq<Rect>, n: int)
    requires
        is_division(direction, count, area, regions),
        0 <= n <= regions.len(),
    ensures
        total_size(direction, regions.take(n)) <= main_end(direction, area) - main_start(direction, area),
        n > 0 ==> main_start(direction, area) + total_size(direction, regions.take(n)) <= main_start(
            direction,
            regions[n - 1],
        ) + main_size(direction, regions[n - 1]),
    decreases n,
{
    if n == 0 {
        assert(regions.take(0) =~= Seq::<Rect>::empty());
    } else {
        lemma_division_fits(direction, count, area, regions, n - 1);
        let prefix = regions.take(n);
        assert(prefix.drop_last() =~= regions.take(n - 1));
        assert(prefix.last() == regions[n - 1]);
        assert(region_in_area(direction, area, regions[n - 1]));
        if n > 1 {
            assert(main_start(direction, regions[n - 2]) + main_size(direction, regions[n - 2])
                <= main_start(direction, regions[n - 1]));
        }
    }
}

/// Sum of the extents of `regions` along the axis of `direction`.
pub open spec fn total_size(direction: Direction, regions: Seq<Rect>) -> int
    decreases regions.len(),
{
    if regions.len() == 0 {
        0
    } else {
        total_size(direction, regions.drop_last()) + main_size(direction, regions.last())
    }
}

} // verus!
