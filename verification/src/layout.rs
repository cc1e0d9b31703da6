//! The page layout: two columns of problem lines on an A4 page, with a font
//! sized so that the rows fill the height between the margins.
//!
//! Lengths are exact fractions. Horizontal and vertical positions are in
//! millimetres, measured from the left and from the bottom edge of the page;
//! the font size is in points.

use vstd::prelude::*;

verus! {

/// Page width in millimetres.
pub const PAGE_WIDTH: u128 = 210;

/// Page height in millimetres.
pub const PAGE_HEIGHT: u128 = 297;

/// Margin on the left and on the right.
pub const MARGIN_X: u128 = 18;

/// Margin above the top row.
pub const MARGIN_TOP: u128 = 18;

/// Margin below the bottom row.
pub const MARGIN_BOTTOM: u128 = 18;

/// Space between the two columns.
pub const GUTTER: u128 = 12;

/// Font size, in points, of a page with a single row.
pub const SINGLE_ROW_FONT_SIZE: u128 = 24;

/// One millimetre is `POINTS_PER_MM_NUM / POINTS_PER_MM_DEN` points.
pub const POINTS_PER_MM_NUM: u128 = 283465;

/// The denominator that goes with `POINTS_PER_MM_NUM`.
pub const POINTS_PER_MM_DEN: u128 = 100000;

/// A fraction `num / den` of integers.
pub struct Ratio {
    pub num: int,
    pub den: int,
}

impl Ratio {
    /// Whether two fractions with positive denominators have the same value.
    pub open spec fn same_value(self, other: Ratio) -> bool {
        self.num * other.den == other.num * self.den
    }

    /// Whether this fraction is at most `other`, both with positive
    /// denominators.
    pub open spec fn at_most(self, other: Ratio) -> bool {
        self.num * other.den <= other.num * self.den
    }

    /// The whole number `n` as a fraction.
    pub open spec fn whole(n: int) -> Ratio {
        Ratio { num: n, den: 1 }
    }

    /// This fraction times `other`.
    pub open spec fn times(self, other: Ratio) -> Ratio {
        Ratio { num: self.num * other.num, den: self.den * other.den }
    }
}

/// A length as an exact fraction `num / den`.
#[derive(Clone, Copy, Debug, PartialEq, Eq, Structural)]
pub struct Length {
    pub num: u128,
    pub den: u128,
}

impl View for Length {
    type V = Ratio;

    open spec fn view(&self) -> Ratio {
        Ratio { num: self.num as int, den: self.den as int }
    }
}

/// Where one problem line goes.
#[derive(Clone, Copy, Debug, PartialEq, Eq, Structural)]
pub struct Placement {
    /// 0 for the left column, 1 for the right.
    pub column: usize,
    /// Row within the column, counted from the top.
    pub row: usize,
    /// Left end of the line.
    pub x: Length,
    /// Baseline of the line.
    pub y: Length,
}

/// The layout of one page.
pub struct PageLayout {
    /// Rows per column.
    pub rows: usize,
    /// Font size in points.
    pub font_size: Length,
    /// Distance between the baselines of two rows, in millimetres.
    pub line_spacing: Length,
    /// The place of each problem line, in the order of the lines.
    pub placements: Vec<Placement>,
}

/// Rows per column for `count` lines: half of them, rounded up.
pub open spec fn rows_for(count: nat) -> nat {
    (count + 1) / 2
}

/// The column of line `index` on a page of `rows` rows per column.
pub open spec fn column_of(index: nat, rows: nat) -> nat {
    if rows == 0 {
        0
    } else {
        index / rows
    }
}

/// The row of line `index` on a page of `rows` rows per column.
pub open spec fn row_of(index: nat, rows: nat) -> nat {
    if rows == 0 {
        0
    } else {
        index % rows
    }
}

/// The height between the top and the bottom margin, in millimetres.
pub open spec fn available_height() -> int {
    PAGE_HEIGHT - MARGIN_TOP - MARGIN_BOTTOM
}

/// The height of `rows` rows in font sizes: one for each line, and one for
/// each gap between two lines.
pub open spec fn line_units(rows: nat) -> int {
    rows + (rows - 1)
}

/// Font size in points: with more than one row, the available height divided
/// by `line_units`, and `SINGLE_ROW_FONT_SIZE` otherwise.
pub open spec fn font_size_for(rows: nat) -> Ratio {
    if rows > 1 {
        Ratio {
            num: available_height() * POINTS_PER_MM_NUM,
            den: POINTS_PER_MM_DEN * line_units(rows),
        }
    } else {
        Ratio::whole(SINGLE_ROW_FONT_SIZE as int)
    }
}

/// Distance between two baselines in millimetres: with more than one row, two
/// font sizes, and nothing otherwise.
pub open spec fn line_spacing_for(rows: nat) -> Ratio {
    if rows > 1 {
        Ratio { num: 2 * available_height(), den: line_units(rows) }
    } else {
        Ratio::whole(0)
    }
}

/// The width of one column.
pub open spec fn column_width() -> int {
    (PAGE_WIDTH - 2 * MARGIN_X - GUTTER) / 2
}

/// Where the lines of a column start.
pub open spec fn column_x(column: nat) -> Ratio {
    if column == 0 {
        Ratio::whole(MARGIN_X as int)
    } else {
        Ratio::whole(MARGIN_X + column_width() + GUTTER)
    }
}

/// The baseline of the top row.
pub open spec fn top_y() -> int {
    PAGE_HEIGHT - MARGIN_TOP
}

/// The baseline of `row`: `row` line spacings below the top row.
pub open spec fn baseline_of(row: nat, rows: nat) -> Ratio {
    let spacing = line_spacing_for(rows);
    Ratio { num: top_y() * spacing.den - row * spacing.num, den: spacing.den }
}

/// Whether `placement` is the place of line `index` among `count` lines.
pub open spec fn is_place_of(placement: Placement, index: nat, count: nat) -> bool {
    let rows = rows_for(count);
    &&& placement.column == column_of(index, rows)
    &&& placement.row == row_of(index, rows)
    &&& placement.x@ == column_x(placement.column as nat)
    &&& placement.y@ == baseline_of(placement.row as nat, rows)
}

/// Rows per column for `count` lines.
pub fn rows_per_column(count: usize) -> (rows: usize)
    ensures
        rows == rows_for(count as nat),
{
    count / 2 + count % 2
}

/// The font size, in points, of a page with `rows` rows per column.
pub fn font_size(rows: usize) -> (size: Length)
    ensures
        size@ == font_size_for(rows as nat),
        size.den > 0,
{
    if rows > 1 {
        let units: u128 = 2 * (rows as u128) - 1;
        Length {
            num: (PAGE_HEIGHT - MARGIN_TOP - MARGIN_BOTTOM) * POINTS_PER_MM_NUM,
            den: POINTS_PER_MM_DEN * units,
        }
    } else {
        Length { num: SINGLE_ROW_FONT_SIZE, den: 1 }
    }
}

/// The distance between two baselines, in millimetres, of a page with `rows`
/// rows per column.
pub fn line_spacing(rows: usize) -> (spacing: Length)
    ensures
        spacing@ == line_spacing_for(rows as nat),
        spacing.den > 0,
{
    if rows > 1 {
        let units: u128 = 2 * (rows as u128) - 1;
        Length { num: 2 * (PAGE_HEIGHT - MARGIN_TOP - MARGIN_BOTTOM), den: units }
    } else {
        Length { num: 0, den: 1 }
    }
}

/// The place of line `index` among `count` lines: the first half of the
/// lines fills the left column from the top, the second half the right one.
pub fn place(index: usize, count: usize) -> (placement: Placement)
    requires
        index < count,
    ensures
        is_place_of(placement, index as nat, count as nat),
{
    let rows = rows_per_column(count);
    let column = index / rows;
    let row = index % rows;
    let x = if column == 0 {
        Length { num: MARGIN_X, den: 1 }
    } else {
        Length { num: MARGIN_X + (PAGE_WIDTH - 2 * MARGIN_X - GUTTER) / 2 + GUTTER, den: 1 }
    };
    let spacing = line_spacing(rows);
    proof {
        lemma_baseline_within_margins(row as nat, rows as nat);
        lemma_baseline_bounded(row as nat, rows as nat);
    }
    let y = Length {
        num: (PAGE_HEIGHT - MARGIN_TOP) * spacing.den - (row as u128) * spacing.num,
        den: spacing.den,
    };
    Placement { column, row, x, y }
}

/// Lays `count` lines out on one page.
///
/// An empty page is never laid out: whoever takes the request turns an empty
/// one away first.
pub fn layout(count: usize) -> (page: PageLayout)
    requires
        count >= 1,
    ensures
        page.rows == rows_for(count as nat),
        page.font_size@ == font_size_for(page.rows as nat),
        page.line_spacing@ == line_spacing_for(page.rows as nat),
        page.placements@.len() == count,
        forall|i: int|
            0 <= i < count ==> is_place_of(#[trigger] page.placements@[i], i as nat, count as nat),
{
    let rows = rows_per_column(count);
    let mut placements: Vec<Placement> = Vec::new();
    let mut index: usize = 0;
    while index < count
        invariant
            index <= count,
            placements@.len() == index,
            forall|i: int|
                0 <= i < index ==> is_place_of(#[trigger] placements@[i], i as nat, count as nat),
        decreases count - index,
    {
        placements.push(place(index, count));
        index += 1;
    }
    PageLayout { rows, font_size: font_size(rows), line_spacing: line_spacing(rows), placements }
}

/// The left column takes half of the lines, rounded up, and the right one the
/// rest: the first `rows_for(count)` lines stand in the left column in
/// order, and the others in the right column in order.
pub proof fn lemma_columns_split(index: nat, count: nat)
    requires
        index < count,
    ensures
        rows_for(count) + count / 2 == count,
        index < rows_for(count) ==> column_of(index, rows_for(count)) == 0 && row_of(
            index,
            rows_for(count),
        ) == index,
        index >= rows_for(count) ==> column_of(index, rows_for(count)) == 1 && row_of(
            index,
            rows_for(count),
        ) == index - rows_for(count),
{
    let rows = rows_for(count) as int;
    let i = index as int;
    assert(rows >= 1 && i < 2 * rows);
    if i < rows {
        assert(i / rows == 0 && i % rows == i) by (nonlinear_arith)
            requires
                0 <= i < rows,
        ;
    } else {
        assert(i / rows == 1 && i % rows == i - rows) by (nonlinear_arith)
            requires
                0 < rows <= i < 2 * rows,
        ;
    }
}

/// No two lines of a page share a cell.
pub proof fn lemma_cells_distinct(first: nat, second: nat, count: nat)
    requires
        first < count,
        second < count,
        first != second,
    ensures
        column_of(first, rows_for(count)) != column_of(second, rows_for(count)) || row_of(
            first,
            rows_for(count),
        ) != row_of(second, rows_for(count)),
{
    lemma_columns_split(first, count);
    lemma_columns_split(second, count);
}

/// With more than one row, the lines and the gaps between them fill the
/// available height exactly: the font size times `line_units` is the
/// available height in points.
pub proof fn lemma_font_fills_height(rows: nat)
    requires
        rows > 1,
    ensures
        font_size_for(rows).den > 0,
        font_size_for(rows).times(Ratio::whole(line_units(rows))).same_value(
            Ratio::whole(available_height()).times(
                Ratio { num: POINTS_PER_MM_NUM as int, den: POINTS_PER_MM_DEN as int },
            ),
        ),
{
    let units = line_units(rows);
    let height = available_height() * POINTS_PER_MM_NUM;
    assert((height * units) * POINTS_PER_MM_DEN == height * (POINTS_PER_MM_DEN * units))
        by (nonlinear_arith);
}

/// With more than one row, the line spacing is two font sizes: the line
/// spacing in points is twice the font size.
pub proof fn lemma_spacing_is_two_font_sizes(rows: nat)
    requires
        rows > 1,
    ensures
        line_spacing_for(rows).den > 0,
        line_spacing_for(rows).times(
            Ratio { num: POINTS_PER_MM_NUM as int, den: POINTS_PER_MM_DEN as int },
        ).same_value(font_size_for(rows).times(Ratio::whole(2))),
{
    let units = line_units(rows);
    let height = available_height();
    assert(((2 * height) * POINTS_PER_MM_NUM) * (POINTS_PER_MM_DEN * units) == ((height
        * POINTS_PER_MM_NUM) * 2) * (units * POINTS_PER_MM_DEN)) by (nonlinear_arith);
}

/// Every baseline lies between the bottom margin and the top row.
pub proof fn lemma_baseline_within_margins(row: nat, rows: nat)
    requires
        row < rows,
    ensures
        baseline_of(row, rows).den > 0,
        Ratio::whole(MARGIN_BOTTOM as int).at_most(baseline_of(row, rows)),
        baseline_of(row, rows).at_most(Ratio::whole(top_y())),
{
    let spacing = line_spacing_for(rows);
    let height = available_height();
    if rows > 1 {
        // The rows below the top one take less than the available height.
        assert(row * (2 * height) <= height * (2 * rows - 1)) by (nonlinear_arith)
            requires
                row < rows,
                height >= 0,
        ;
        assert((top_y() - height) * spacing.den == MARGIN_BOTTOM * spacing.den);
        assert(top_y() * spacing.den - height * spacing.den == (top_y() - height) * spacing.den)
            by (nonlinear_arith);
    }
}

/// The numbers that make up a baseline fit in 128 bits.
proof fn lemma_baseline_bounded(row: nat, rows: nat)
    requires
        row < rows,
        rows <= usize::MAX,
    ensures
        top_y() * line_spacing_for(rows).den <= u128::MAX,
        0 <= row * line_spacing_for(rows).num <= top_y() * line_spacing_for(rows).den,
{
    lemma_baseline_within_margins(row, rows);
    if rows > 1 {
        assert(row * (2 * available_height()) >= 0) by (nonlinear_arith)
            requires
                available_height() >= 0,
        ;
    }
}

/// Both columns have the same width and fit between the margins.
pub proof fn lemma_columns_fit()
    ensures
        column_x(0) == Ratio::whole(MARGIN_X as int),
        column_x(1).num == column_x(0).num + column_width() + GUTTER,
        column_x(1).num + column_width() == PAGE_WIDTH - MARGIN_X,
{
}

/// A page of one line has one row, the fixed font size, no line spacing, and
/// its line at the top of the left column.
pub proof fn lemma_single_line()
    ensures
        rows_for(1) == 1,
        font_size_for(1) == Ratio::whole(SINGLE_ROW_FONT_SIZE as int),
        line_spacing_for(1) == Ratio::whole(0),
        column_of(0, 1) == 0,
        row_of(0, 1) == 0,
        baseline_of(0, 1) == Ratio::whole(top_y()),
{
}

} // verus!
