//! Where things are on the screen: the parts of a drawn table, of the tab bar and of a dialog that
//! can be clicked.
use vstd::prelude::*;

use super::{Piece, PieceView};
use crate::app::state::{Rect, Rows};
use crate::text::chars_of;

verus! {

/// A number of cells; the screen is never wider than the largest cell number.
pub open spec fn cells(count: nat) -> u16 {
    if count > u16::MAX {
        u16::MAX
    } else {
        count as u16
    }
}

fn to_cells(count: usize) -> (width: u16)
    ensures
        width == cells(count as nat),
{
    if count > u16::MAX as usize {
        u16::MAX
    } else {
        count as u16
    }
}

/// `a` moved on by `b` cells, but not past the last cell.
pub open spec fn onward(a: u16, b: nat) -> u16 {
    cells(a as nat + b)
}

fn move_on(a: u16, b: u16) -> (moved: u16)
    ensures
        moved == onward(a, b as nat),
{
    a.saturating_add(b)
}

// ---------------------------------------------------------------------------------------------
// Tables
// ---------------------------------------------------------------------------------------------

/// The rows of a table that fills `area`: all but its header line.
pub open spec fn rows_in(area: Rect, offset: usize) -> Rows {
    Rows {
        area: Rect {
            x: area.x,
            y: onward(area.y, 1),
            width: area.width,
            height: if area.height == 0 {
                0
            } else {
                (area.height - 1) as u16
            },
        },
        offset,
        row_height: 1,
    }
}

/// The rows of a table that fills `area`, scrolled to `offset`.
pub fn table_rows(area: Rect, offset: usize) -> (rows: Rows)
    ensures
        rows == rows_in(area, offset),
{
    Rows {
        area: Rect {
            x: area.x,
            y: move_on(area.y, 1),
            width: area.width,
            height: area.height.saturating_sub(1),
        },
        offset,
        row_height: 1,
    }
}

/// The widths of the worktree columns, but for the path, which takes what is left: mark, branch,
/// ahead, behind, sync, PR, files, added, deleted.
pub open spec fn column_widths(branch: u16) -> Seq<u16> {
    seq![1u16, branch, 6, 6, 14, 14, 6, 8, 8]
}

/// The widths of the worktree columns, but for the path.
pub fn worktree_columns(branch: u16) -> (widths: Vec<u16>)
    ensures
        widths@ == column_widths(branch),
{
    vec![1, branch, 6, 6, 14, 14, 6, 8, 8]
}

/// Cells from the left edge of a table to a column: the cursor takes two, and one cell separates
/// the columns.
pub open spec fn column_start(widths: Seq<u16>, column: int) -> nat
    decreases column,
{
    if column <= 0 {
        2
    } else {
        column_start(widths, column - 1) + widths[column - 1] as nat + 1
    }
}

/// A column of a worktree table with these rows.
pub open spec fn column_area(rows: Rect, branch: u16, column: int) -> Rect {
    Rect {
        x: onward(rows.x, column_start(column_widths(branch), column)),
        width: column_widths(branch)[column],
        ..rows
    }
}

/// The mark column of a worktree table with these rows.
pub fn mark_column(rows: Rect, branch: u16) -> (area: Rect)
    ensures
        area == column_area(rows, branch, 0),
{
    Rect { x: move_on(rows.x, 2), y: rows.y, width: 1, height: rows.height }
}

/// The PR column of a worktree table with these rows.
pub fn pr_column(rows: Rect, branch: u16) -> (area: Rect)
    ensures
        area == column_area(rows, branch, 5),
{
    let start: u32 = 2 + 2 + branch as u32 + 1 + 7 + 7 + 15;
    let x: u32 = rows.x as u32 + start;
    proof {
        reveal_with_fuel(column_start, 6);
        assert(column_start(column_widths(branch), 5) == start);
    }
    Rect {
        x: if x > u16::MAX as u32 {
            u16::MAX
        } else {
            x as u16
        },
        y: rows.y,
        width: 14,
        height: rows.height,
    }
}

/// No cell is in both the mark column and the PR column of a table.
pub proof fn columns_do_not_overlap(rows: Rect, branch: u16, x: u16, y: u16)
    ensures
        !(column_area(rows, branch, 0).covers(x, y) && column_area(rows, branch, 5).covers(x, y)),
{
    reveal_with_fuel(column_start, 6);
}

// ---------------------------------------------------------------------------------------------
// Side by side
// ---------------------------------------------------------------------------------------------

/// Two texts side by side at the top left of `area`, with `gap` cells between them.
pub open spec fn pair_areas(area: Rect, first: nat, second: nat, gap: u16) -> (Rect, Rect) {
    (
        Rect { x: area.x, y: area.y, width: cells(first), height: 1 },
        Rect {
            x: onward(onward(area.x, cells(first) as nat), gap as nat),
            y: area.y,
            width: cells(second),
            height: 1,
        },
    )
}

fn side_by_side(area: Rect, first: usize, second: usize, gap: u16) -> (areas: (Rect, Rect))
    ensures
        areas == pair_areas(area, first as nat, second as nat, gap),
{
    let width = to_cells(first);
    (
        Rect { x: area.x, y: area.y, width, height: 1 },
        Rect {
            x: move_on(move_on(area.x, width), gap),
            y: area.y,
            width: to_cells(second),
            height: 1,
        },
    )
}

/// Where the two tab titles are in a tab bar: a title has one cell on either side, and one cell
/// separates them.
pub fn tab_areas(area: Rect, first: &str, second: &str) -> (areas: (Rect, Rect))
    ensures
        areas == pair_areas(area, first@.len() + 2, second@.len() + 2, 1),
{
    side_by_side(
        area,
        chars_of(first).len().saturating_add(2),
        chars_of(second).len().saturating_add(2),
        1,
    )
}

/// Where the two buttons of a dialog are; two cells separate them.
pub fn button_areas(area: Rect, yes: &str, no: &str) -> (areas: (Rect, Rect))
    ensures
        areas == pair_areas(area, yes@.len(), no@.len(), 2),
{
    side_by_side(area, chars_of(yes).len(), chars_of(no).len(), 2)
}

/// No cell belongs to two things that stand side by side.
pub proof fn neighbours_do_not_overlap(
    area: Rect,
    first: nat,
    second: nat,
    gap: u16,
    x: u16,
    y: u16,
)
    ensures
        !(pair_areas(area, first, second, gap).0.covers(x, y) && pair_areas(
            area,
            first,
            second,
            gap,
        ).1.covers(x, y)),
{
}

// ---------------------------------------------------------------------------------------------
// Sizes
// ---------------------------------------------------------------------------------------------

/// The longest line.
pub open spec fn longest_line(lines: Seq<PieceView>) -> nat
    decreases lines.len(),
{
    if lines.len() == 0 {
        0
    } else {
        let before = longest_line(lines.drop_last());
        let here = lines.last().text.len();
        if here > before {
            here
        } else {
            before
        }
    }
}

/// Width and height of a yes/no dialog: room for every line, its border, a blank line and the
/// buttons, and not too narrow.
pub open spec fn dialog_size_of(lines: Seq<PieceView>) -> (u16, u16) {
    let width = onward(cells(longest_line(lines)), 4);
    (
        if width < 64 {
            64
        } else {
            width
        },
        onward(cells(lines.len()), 4),
    )
}

/// Width and height of a yes/no dialog with these lines.
pub fn dialog_size(lines: &Vec<Piece>) -> (size: (u16, u16))
    ensures
        size == dialog_size_of(lines.deep_view()),
{
    let ghost all = lines.deep_view();
    let mut widest: usize = 0;
    let mut i: usize = 0;
    while i < lines.len()
        invariant
            i <= lines@.len(),
            all == lines.deep_view(),
            widest == longest_line(all.take(i as int)),
        decreases lines@.len() - i,
    {
        proof {
            assert(all.take(i + 1).drop_last() =~= all.take(i as int));
            assert(all.take(i + 1).last() == lines@[i as int].deep_view());
        }
        let here = chars_of(&lines[i].text).len();
        if here > widest {
            widest = here;
        }
        i = i + 1;
    }
    proof {
        assert(all.take(i as int) =~= all);
    }
    let width = move_on(to_cells(widest), 4);
    (
        if width < 64 {
            64
        } else {
            width
        },
        move_on(to_cells(lines.len()), 4),
    )
}

/// How many of `lines` lines are above the first one shown, so that the last one is in view.
pub fn scrolled_past(lines: usize, height: u16) -> (above: u16)
    ensures
        above == cells(
            if lines > height {
                (lines - height) as nat
            } else {
                0
            },
        ),
{
    to_cells(lines.saturating_sub(height as usize))
}

} // verus!
