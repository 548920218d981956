//! Screen rectangles on the integer pixel grid, and the equal partition of a rectangle
//! into a row or a column of cells.

use vstd::prelude::*;

verus! {

/// The direction in which a ribbon lines up its children.
#[derive(Clone, Copy, Debug, PartialEq, Eq, Structural)]
pub enum RibbonOrientation {
    /// One row: the width is shared.
    Horizontal,
    /// One column: the height is shared.
    Vertical,
}

impl RibbonOrientation {
    /// The other orientation.
    pub open spec fn flipped(self) -> RibbonOrientation {
        match self {
            RibbonOrientation::Horizontal => RibbonOrientation::Vertical,
            RibbonOrientation::Vertical => RibbonOrientation::Horizontal,
        }
    }

}

impl std::ops::Not for RibbonOrientation {
    type Output = Self;

    /// Turns a row into a column and a column into a row.
    fn not(self) -> (other: RibbonOrientation) {
        match self {
            RibbonOrientation::Horizontal => RibbonOrientation::Vertical,
            RibbonOrientation::Vertical => RibbonOrientation::Horizontal,
        }
    }
}

impl vstd::std_specs::ops::NotSpecImpl for RibbonOrientation {
    open spec fn obeys_not_spec() -> bool {
        true
    }

    open spec fn not_req(self) -> bool {
        true
    }

    open spec fn not_spec(self) -> RibbonOrientation {
        self.flipped()
    }
}

/// An axis-aligned rectangle: top-left corner and extent, in pixels.
#[derive(Clone, Copy, Debug, PartialEq, Eq, Structural)]
pub struct Rect {
    /// Left edge.
    pub x: i32,
    /// Top edge.
    pub y: i32,
    /// Width.
    pub w: u32,
    /// Height.
    pub h: u32,
}

impl Default for Rect {
    fn default() -> (rect: Rect)
        ensures
            rect == (Rect { x: 0, y: 0, w: 0, h: 0 }),
    {
        Rect { x: 0, y: 0, w: 0, h: 0 }
    }
}

impl Rect {
    /// The right and bottom edges lie on the pixel grid too.
    pub open spec fn valid(self) -> bool {
        self.x + self.w <= i32::MAX && self.y + self.h <= i32::MAX
    }

    /// The right edge.
    pub open spec fn right(self) -> int {
        self.x + self.w
    }

    /// The bottom edge.
    pub open spec fn bottom(self) -> int {
        self.y + self.h
    }

    /// The point lies inside the rectangle or on its border.
    pub open spec fn holds(self, px: int, py: int) -> bool {
        self.x <= px <= self.right() && self.y <= py <= self.bottom()
    }

    /// The rectangle with the given corner and extent.
    pub fn new(x: i32, y: i32, w: u32, h: u32) -> (rect: Rect)
        ensures
            rect == (Rect { x, y, w, h }),
    {
        Rect { x, y, w, h }
    }

    /// Whether both far edges lie on the pixel grid.
    pub fn is_valid(&self) -> (ok: bool)
        ensures
            ok == self.valid(),
    {
        self.x as i64 + self.w as i64 <= i32::MAX as i64 && self.y as i64 + self.h as i64
            <= i32::MAX as i64
    }

    /// Whether the point lies inside the rectangle or on its border.
    pub fn contains(&self, px: i32, py: i32) -> (inside: bool)
        ensures
            inside == self.holds(px as int, py as int),
    {
        let right: i64 = self.x as i64 + self.w as i64;
        let bottom: i64 = self.y as i64 + self.h as i64;
        self.x <= px && px as i64 <= right && self.y <= py && py as i64 <= bottom
    }
}

/// Where the `i`-th of `n` equal parts of a length begins, measured from the start.
pub open spec fn part_start(len: int, n: int, i: int) -> int {
    (len * i) / n
}

/// The `i`-th of the `n` cells into which a ribbon of the given orientation divides `rect`.
pub open spec fn cell(rect: Rect, orientation: RibbonOrientation, n: int, i: int) -> Rect {
    match orientation {
        RibbonOrientation::Horizontal => Rect {
            x: (rect.x + part_start(rect.w as int, n, i)) as i32,
            y: rect.y,
            w: (part_start(rect.w as int, n, i + 1) - part_start(rect.w as int, n, i)) as u32,
            h: rect.h,
        },
        RibbonOrientation::Vertical => Rect {
            x: rect.x,
            y: (rect.y + part_start(rect.h as int, n, i)) as i32,
            w: rect.w,
            h: (part_start(rect.h as int, n, i + 1) - part_start(rect.h as int, n, i)) as u32,
        },
    }
}

/// The extent of a cell along the ribbon's direction.
pub open spec fn along(rect: Rect, orientation: RibbonOrientation) -> int {
    match orientation {
        RibbonOrientation::Horizontal => rect.w as int,
        RibbonOrientation::Vertical => rect.h as int,
    }
}

/// The near edge of a cell along the ribbon's direction.
pub open spec fn near(rect: Rect, orientation: RibbonOrientation) -> int {
    match orientation {
        RibbonOrientation::Horizontal => rect.x as int,
        RibbonOrientation::Vertical => rect.y as int,
    }
}

/// The extents of the first `k` cells, added up.
pub open spec fn extent_sum(rect: Rect, orientation: RibbonOrientation, n: int, k: int) -> int
    decreases k,
{
    if k <= 0 {
        0
    } else {
        extent_sum(rect, orientation, n, k - 1) + along(cell(rect, orientation, n, k - 1), orientation)
    }
}

/// The starts of the parts rise from 0 to the whole length.
pub proof fn lemma_part_start_bounds(len: int, n: int, i: int)
    requires
        0 <= len,
        0 < n,
        0 <= i <= n,
    ensures
        0 <= part_start(len, n, i) <= len,
        part_start(len, n, 0) == 0,
        part_start(len, n, n) == len,
        i < n ==> part_start(len, n, i) <= part_start(len, n, i + 1),
{
    assert(0 <= len * i <= len * n) by (nonlinear_arith)
        requires
            0 <= len,
            0 <= i <= n,
    ;
    assert((len * n) / n == len) by (nonlinear_arith)
        requires
            0 < n,
    ;
    assert(0 <= (len * i) / n <= (len * n) / n) by (nonlinear_arith)
        requires
            0 <= len * i <= len * n,
            0 < n,
    ;
    assert(len * 0 == 0) by (nonlinear_arith);
    if i < n {
        assert(len * i <= len * (i + 1)) by (nonlinear_arith)
            requires
                0 <= len,
        ;
        assert((len * i) / n <= (len * (i + 1)) / n) by (nonlinear_arith)
            requires
                len * i <= len * (i + 1),
                0 < n,
        ;
    }
}

/// Each cell keeps the ribbon's extent across its direction, starts where the one before
/// it ends, and the first and last reach the ribbon's own edges: the cells tile the
/// rectangle without gap or overlap.
pub proof fn lemma_cells_tile(rect: Rect, orientation: RibbonOrientation, n: int, i: int)
    requires
        rect.valid(),
        0 <= i < n,
    ensures
        cell(rect, orientation, n, i).valid(),
        near(cell(rect, orientation, n, 0), orientation) == near(rect, orientation),
        near(cell(rect, orientation, n, i), orientation) + along(
            cell(rect, orientation, n, i),
            orientation,
        ) == if i + 1 < n {
            near(cell(rect, orientation, n, i + 1), orientation)
        } else {
            near(rect, orientation) + along(rect, orientation)
        },
        near(rect, orientation) <= near(cell(rect, orientation, n, i), orientation),
        orientation == RibbonOrientation::Horizontal ==> cell(rect, orientation, n, i).y == rect.y
            && cell(rect, orientation, n, i).h == rect.h,
        orientation == RibbonOrientation::Vertical ==> cell(rect, orientation, n, i).x == rect.x
            && cell(rect, orientation, n, i).w == rect.w,
{
    let len = along(rect, orientation);
    lemma_part_start_bounds(len, n, 0);
    lemma_part_start_bounds(len, n, i);
    lemma_part_start_bounds(len, n, i + 1);
    if i + 1 < n {
        lemma_part_start_bounds(len, n, i + 2);
    }
}

/// The extents of the first `k` cells add up to where the `k`-th part begins; those of all
/// `n` cells add up to the ribbon's own extent.
pub proof fn lemma_extents_add_up(rect: Rect, orientation: RibbonOrientation, n: int, k: int)
    requires
        rect.valid(),
        0 < n,
        0 <= k <= n,
    ensures
        extent_sum(rect, orientation, n, k) == part_start(along(rect, orientation), n, k),
        extent_sum(rect, orientation, n, n) == along(rect, orientation),
{
    lemma_extents_add_up_to(rect, orientation, n, k);
    lemma_extents_add_up_to(rect, orientation, n, n);
}

/// The extents of the first `k` cells add up to where the `k`-th part begins.
proof fn lemma_extents_add_up_to(rect: Rect, orientation: RibbonOrientation, n: int, k: int)
    requires
        rect.valid(),
        0 < n,
        0 <= k <= n,
    ensures
        extent_sum(rect, orientation, n, k) == part_start(along(rect, orientation), n, k),
        k == n ==> extent_sum(rect, orientation, n, k) == along(rect, orientation),
    decreases k,
{
    let len = along(rect, orientation);
    lemma_part_start_bounds(len, n, k);
    if k > 0 {
        lemma_extents_add_up_to(rect, orientation, n, k - 1);
        lemma_part_start_bounds(len, n, k - 1);
    }
}

/// Where the ribbon's extent is a multiple of the number of cells, every cell gets exactly
/// its share.
pub proof fn lemma_even_split(rect: Rect, orientation: RibbonOrientation, n: int, i: int, share: int)
    requires
        rect.valid(),
        0 <= i < n,
        along(rect, orientation) == share * n,
    ensures
        along(cell(rect, orientation, n, i), orientation) == share,
        near(cell(rect, orientation, n, i), orientation) == near(rect, orientation) + share * i,
{
    let len = along(rect, orientation);
    lemma_part_start_bounds(len, n, i);
    lemma_part_start_bounds(len, n, i + 1);
    assert((share * n * i) / n == share * i) by (nonlinear_arith)
        requires
            0 < n,
    ;
    assert((share * n * (i + 1)) / n == share * (i + 1)) by (nonlinear_arith)
        requires
            0 < n,
    ;
    assert(share * (i + 1) - share * i == share) by (nonlinear_arith);
    assert(len * i == share * n * i) by (nonlinear_arith)
        requires
            len == share * n,
    ;
    assert(len * (i + 1) == share * n * (i + 1)) by (nonlinear_arith)
        requires
            len == share * n,
    ;
}

/// Where the `i`-th of `n` equal parts of `len` begins.
fn part_offset(len: u32, n: usize, i: usize) -> (start: u32)
    requires
        i <= n,
        0 < n,
    ensures
        start == part_start(len as int, n as int, i as int),
{
    proof {
        lemma_part_start_bounds(len as int, n as int, i as int);
        assert(0 <= len * i <= 0xffff_ffff * 0xffff_ffff_ffff_ffff) by (nonlinear_arith)
            requires
                0 <= len <= 0xffff_ffff,
                0 <= i <= 0xffff_ffff_ffff_ffff,
        ;
    }
    let product: u128 = (len as u128) * (i as u128);
    (product / (n as u128)) as u32
}

/// The `i`-th of the `n` cells of a ribbon that covers `rect`.
pub fn cell_rect(rect: Rect, orientation: RibbonOrientation, n: usize, i: usize) -> (c: Rect)
    requires
        rect.valid(),
        i < n,
    ensures
        c == cell(rect, orientation, n as int, i as int),
        c.valid(),
{
    proof {
        lemma_cells_tile(rect, orientation, n as int, i as int);
        lemma_part_start_bounds(along(rect, orientation), n as int, i as int);
        lemma_part_start_bounds(along(rect, orientation), n as int, i as int + 1);
    }
    match orientation {
        RibbonOrientation::Horizontal => {
            let start: u32 = part_offset(rect.w, n, i);
            let end: u32 = part_offset(rect.w, n, i + 1);
            Rect { x: (rect.x as i64 + start as i64) as i32, y: rect.y, w: end - start, h: rect.h }
        },
        RibbonOrientation::Vertical => {
            let start: u32 = part_offset(rect.h, n, i);
            let end: u32 = part_offset(rect.h, n, i + 1);
            Rect { x: rect.x, y: (rect.y as i64 + start as i64) as i32, w: rect.w, h: end - start }
        },
    }
}

} // verus!
