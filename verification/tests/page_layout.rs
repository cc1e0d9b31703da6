use math_worksheet::layout::{
    font_size, layout, line_spacing, place, rows_per_column, Length, Placement,
};

fn millimetres(length: Length) -> f64 {
    length.num as f64 / length.den as f64
}

fn close(a: f64, b: f64) -> bool {
    (a - b).abs() < 1e-3
}

#[test]
fn single_line_page() {
    let page = layout(1);
    assert_eq!(page.rows, 1);
    assert_eq!(page.font_size, Length { num: 24, den: 1 });
    assert_eq!(page.line_spacing, Length { num: 0, den: 1 });
    assert_eq!(
        page.placements,
        vec![Placement {
            column: 0,
            row: 0,
            x: Length { num: 18, den: 1 },
            y: Length { num: 279, den: 1 },
        }]
    );
}

#[test]
fn two_lines_share_the_top_row() {
    let page = layout(2);
    assert_eq!(page.rows, 1);
    assert_eq!(page.font_size, Length { num: 24, den: 1 });
    assert_eq!(page.line_spacing, Length { num: 0, den: 1 });
    assert_eq!(page.placements.len(), 2);
    assert_eq!(page.placements[0].column, 0);
    assert_eq!(page.placements[1].column, 1);
    assert_eq!(page.placements[0].row, 0);
    assert_eq!(page.placements[1].row, 0);
    assert_eq!(page.placements[0].x, Length { num: 18, den: 1 });
    assert_eq!(page.placements[1].x, Length { num: 111, den: 1 });
    assert_eq!(page.placements[0].y, page.placements[1].y);
    assert_eq!(page.placements[0].y, Length { num: 279, den: 1 });
}

#[test]
fn thirty_lines_fill_the_page() {
    let page = layout(30);
    assert_eq!(page.rows, 15);
    assert_eq!(page.font_size, Length { num: 73_984_365, den: 2_900_000 });
    assert_eq!(page.line_spacing, Length { num: 522, den: 29 });
    assert_eq!(page.placements.len(), 30);
    assert_eq!(
        page.placements[0],
        Placement {
            column: 0,
            row: 0,
            x: Length { num: 18, den: 1 },
            y: Length { num: 8091, den: 29 },
        }
    );
    assert_eq!(
        page.placements[14],
        Placement {
            column: 0,
            row: 14,
            x: Length { num: 18, den: 1 },
            y: Length { num: 783, den: 29 },
        }
    );
    assert_eq!(
        page.placements[15],
        Placement {
            column: 1,
            row: 0,
            x: Length { num: 111, den: 1 },
            y: Length { num: 8091, den: 29 },
        }
    );
    assert_eq!(
        page.placements[29],
        Placement {
            column: 1,
            row: 14,
            x: Length { num: 111, den: 1 },
            y: Length { num: 783, den: 29 },
        }
    );
    assert!(close(millimetres(page.placements[29].y), 27.0));
}

#[test]
fn five_lines_split_three_and_two() {
    let page = layout(5);
    assert_eq!(page.rows, 3);
    let cells: Vec<(usize, usize)> =
        page.placements.iter().map(|placement| (placement.column, placement.row)).collect();
    assert_eq!(cells, vec![(0, 0), (0, 1), (0, 2), (1, 0), (1, 1)]);
    assert_eq!(page.font_size, Length { num: 73_984_365, den: 500_000 });
    assert_eq!(page.line_spacing, Length { num: 522, den: 5 });
    assert_eq!(page.placements[2].y, Length { num: 279 * 5 - 2 * 522, den: 5 });
    assert_eq!(page.placements[4].y, Length { num: 279 * 5 - 522, den: 5 });
}

#[test]
fn columns_hold_half_rounded_up_and_half_rounded_down() {
    for count in 1..=60usize {
        let page = layout(count);
        let rows = (count + 1) / 2;
        assert_eq!(page.rows, rows);
        assert_eq!(page.placements.len(), count);
        let left = page.placements.iter().filter(|placement| placement.column == 0).count();
        let right = page.placements.iter().filter(|placement| placement.column == 1).count();
        assert_eq!(left, rows);
        assert_eq!(right, count / 2);
        for (index, placement) in page.placements.iter().enumerate() {
            assert_eq!(placement.column, index / rows);
            assert_eq!(placement.row, index % rows);
            assert_eq!(*placement, place(index, count));
        }
    }
}

#[test]
fn no_two_lines_share_a_cell() {
    for count in 1..=40usize {
        let page = layout(count);
        for i in 0..count {
            for j in (i + 1)..count {
                let a = page.placements[i];
                let b = page.placements[j];
                assert!(a.column != b.column || a.row != b.row);
            }
        }
    }
}

#[test]
fn rows_per_column_rounds_up() {
    assert_eq!(rows_per_column(0), 0);
    assert_eq!(rows_per_column(1), 1);
    assert_eq!(rows_per_column(2), 1);
    assert_eq!(rows_per_column(3), 2);
    assert_eq!(rows_per_column(29), 15);
    assert_eq!(rows_per_column(30), 15);
    assert_eq!(rows_per_column(usize::MAX), usize::MAX / 2 + 1);
}

#[test]
fn font_size_of_few_rows_is_fixed() {
    assert_eq!(font_size(0), Length { num: 24, den: 1 });
    assert_eq!(font_size(1), Length { num: 24, den: 1 });
    assert_eq!(line_spacing(0), Length { num: 0, den: 1 });
    assert_eq!(line_spacing(1), Length { num: 0, den: 1 });
}

#[test]
fn font_size_of_two_rows_is_a_third_of_the_height() {
    assert_eq!(font_size(2), Length { num: 73_984_365, den: 300_000 });
    assert_eq!(line_spacing(2), Length { num: 522, den: 3 });
    assert!(close(millimetres(font_size(2)), 246.61455));
    assert!(close(millimetres(line_spacing(2)), 174.0));
}

#[test]
fn lines_and_gaps_fill_the_available_height() {
    for rows in 2..=40usize {
        let size = millimetres(font_size(rows));
        let units = (rows + (rows - 1)) as f64;
        assert!(close(size * units, 261.0 * 2.83465));
        let spacing = millimetres(line_spacing(rows));
        assert!(close(spacing * 2.83465, size * 2.0));
    }
}

#[test]
fn lengths_agree_with_single_precision_arithmetic() {
    for count in 1..=30usize {
        let page = layout(count);
        let rows = (count + 1) / 2;
        let page_height = 297.0_f32;
        let margin = 18.0_f32;
        let pt_per_mm = 2.834_65_f32;
        let available = (page_height - margin - margin) * pt_per_mm;
        let size = if rows > 1 { available / (rows as f32 + (rows as f32 - 1.0)) } else { 24.0 };
        let spacing = if rows > 1 { size * 2.0 / pt_per_mm } else { 0.0 };
        assert!(close(millimetres(page.font_size), size as f64));
        assert!(close(millimetres(page.line_spacing), spacing as f64));
        for (index, placement) in page.placements.iter().enumerate() {
            let row = index % rows;
            let x = if index / rows == 0 { 18.0_f32 } else { 18.0 + 81.0 + 12.0 };
            let y = (page_height - margin) - spacing * row as f32;
            assert!(close(millimetres(placement.x), x as f64));
            assert!(close(millimetres(placement.y), y as f64));
        }
    }
}

#[test]
fn every_baseline_stays_between_the_margins() {
    for count in 1..=200usize {
        for placement in layout(count).placements {
            let y = millimetres(placement.y);
            assert!(y >= 18.0 && y <= 279.0);
            assert!(placement.y.den > 0);
        }
    }
}

#[test]
fn layout_of_a_very_long_list_does_not_overflow() {
    let count = usize::MAX;
    let last = place(count - 1, count);
    assert_eq!(last.column, 1);
    assert_eq!(last.row, count / 2 - 1);
    let first = place(0, count);
    assert_eq!(first.column, 0);
    assert_eq!(first.row, 0);
    assert!(last.y.num > 18 * last.y.den);
    assert!(last.y.num < 279 * last.y.den);
}
