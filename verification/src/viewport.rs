//! The viewport: which part of the endless grid is on screen, and how it
//! follows the selected cell.
//!
//! All cells have one size. The grid area has a row of column labels along
//! its top, one cell high, and a gutter of row labels down its left side. The
//! rest of the area is the client rectangle, in which cells are shown from
//! `view_offset` on. Sizes and coordinates are whole pixels.

use crate::sheet::CellIdx;
use crate::sheet_state::SheetState;
use vstd::prelude::*;

verus! {

/// The width of a cell.
pub const CELL_WIDTH: u32 = 80;

/// The height of a cell.
pub const CELL_HEIGHT: u32 = 20;

/// The place of a cell in the client rectangle. A cell left of the viewport
/// or above it has negative coordinates.
#[derive(Clone, Copy, PartialEq, Eq, Debug, Structural)]
pub struct CellRect {
    pub left: i64,
    pub top: i64,
    pub right: i64,
    pub bottom: i64,
}

/// The place of the cell `idx` when the cell `offset` is in the top left
/// corner.
pub open spec fn rect_of(offset: CellIdx, idx: CellIdx) -> CellRect {
    CellRect {
        left: ((idx.col - offset.col) * CELL_WIDTH) as i64,
        top: ((idx.row - offset.row) * CELL_HEIGHT) as i64,
        right: ((idx.col - offset.col) * CELL_WIDTH + CELL_WIDTH) as i64,
        bottom: ((idx.row - offset.row) * CELL_HEIGHT + CELL_HEIGHT) as i64,
    }
}

/// The place of the cell `idx` when the cell `offset` is in the top left
/// corner; without an offset, when the first cell is.
pub fn cell_rect(offset: Option<&CellIdx>, idx: &CellIdx) -> (rect: CellRect)
    ensures
        rect == rect_of(
            match offset {
                Some(offset) => *offset,
                None => CellIdx { col: 0, row: 0 },
            },
            *idx,
        ),
{
    let (col, row): (u32, u32) = match offset {
        Some(offset) => (offset.col, offset.row),
        None => (0, 0),
    };
    let across: i64 = idx.col as i64 - col as i64;
    let down: i64 = idx.row as i64 - row as i64;
    assert(-0x100_0000_0000 <= across * CELL_WIDTH <= 0x100_0000_0000) by (nonlinear_arith)
        requires
            -0x1_0000_0000 <= across <= 0x1_0000_0000,
            CELL_WIDTH == 80,
    ;
    assert(-0x100_0000_0000 <= down * CELL_HEIGHT <= 0x100_0000_0000) by (nonlinear_arith)
        requires
            -0x1_0000_0000 <= down <= 0x1_0000_0000,
            CELL_HEIGHT == 20,
    ;
    let x: i64 = across * CELL_WIDTH as i64;
    let y: i64 = down * CELL_HEIGHT as i64;
    CellRect { left: x, top: y, right: x + CELL_WIDTH as i64, bottom: y + CELL_HEIGHT as i64 }
}

/// Whether a grid area of this size, with a gutter this wide, has room for a
/// layout: for the gutter and two cells across, and for the labels and two
/// cells down.
pub open spec fn has_room(width: u32, height: u32, gutter: u32) -> bool {
    width >= 2 * CELL_WIDTH + gutter && height >= 3 * CELL_HEIGHT
}

/// Where the viewport begins along one axis once it has followed the
/// selection, when `fit` whole cells fit the client rectangle along that
/// axis. A selection before the viewport pulls its start back to itself. One
/// beyond the last cell that fits pushes the start on until the selection is
/// that last cell. Otherwise the viewport stays.
pub open spec fn scrolled(offset: int, selected: int, fit: int) -> int {
    if selected < offset {
        selected
    } else if selected - offset >= fit {
        selected - fit + 1
    } else {
        offset
    }
}

/// The viewport after it has followed the selection, in a grid area with
/// room for a layout.
pub open spec fn scrolled_offset(
    offset: CellIdx,
    selected: CellIdx,
    width: u32,
    height: u32,
    gutter: u32,
) -> CellIdx {
    CellIdx {
        col: scrolled(
            offset.col as int,
            selected.col as int,
            (width - gutter) / CELL_WIDTH as int,
        ) as u32,
        row: scrolled(
            offset.row as int,
            selected.row as int,
            (height - CELL_HEIGHT) / CELL_HEIGHT as int,
        ) as u32,
    }
}

/// Whether the cell `selected` lies wholly within a client rectangle of this
/// size whose top left cell is `offset`.
pub open spec fn is_visible(offset: CellIdx, selected: CellIdx, width: int, height: int) -> bool {
    let rect = rect_of(offset, selected);
    0 <= rect.left && rect.right <= width && 0 <= rect.top && rect.bottom <= height
}

/// A viewport that has followed the selection begins at or before it, along
/// its axis, and shows it; one that showed it already has not moved.
pub proof fn lemma_scrolled(offset: int, selected: int, fit: int)
    requires
        0 <= offset,
        0 <= selected,
        1 <= fit,
    ensures
        0 <= scrolled(offset, selected, fit) <= selected,
        selected - scrolled(offset, selected, fit) < fit,
        offset <= selected < offset + fit ==> scrolled(offset, selected, fit) == offset,
        scrolled(scrolled(offset, selected, fit), selected, fit) == scrolled(offset, selected, fit),
{
}

/// A selection far beyond the viewport moves the viewport on, and the
/// viewport still begins before the selection.
pub proof fn lemma_scrolled_after_far_selection(offset: int, selected: int, fit: int)
    requires
        0 <= offset,
        2 <= fit,
        selected >= offset + fit,
    ensures
        offset < scrolled(offset, selected, fit) < selected,
{
}

/// A selection back at the first cell brings the viewport back to it.
pub proof fn lemma_scrolled_home(offset: int, fit: int)
    requires
        0 <= offset,
        1 <= fit,
    ensures
        scrolled(offset, 0, fit) == 0,
{
}

/// The axes do not touch each other: where the viewport begins across
/// depends on neither the rows nor the height, and where it begins down on
/// neither the columns nor the width.
pub proof fn lemma_axes_are_independent(
    offset: CellIdx,
    selected: CellIdx,
    other_offset: CellIdx,
    other_selected: CellIdx,
    width: u32,
    height: u32,
    other_width: u32,
    other_height: u32,
    gutter: u32,
)
    ensures
        offset.col == other_offset.col && selected.col == other_selected.col ==> scrolled_offset(
            offset,
            selected,
            width,
            height,
            gutter,
        ).col == scrolled_offset(other_offset, other_selected, width, other_height, gutter).col,
        offset.row == other_offset.row && selected.row == other_selected.row ==> scrolled_offset(
            offset,
            selected,
            width,
            height,
            gutter,
        ).row == scrolled_offset(other_offset, other_selected, other_width, height, gutter).row,
{
}

/// Moves the viewport of `state` until the selected cell is wholly visible
/// in a grid area of `width` by `height` pixels whose gutter of row labels is
/// `gutter` pixels wide. Returns whether there was room for a layout; without
/// room nothing is changed, and nothing is to be drawn.
///
/// The viewport moves one cell at a time: back while the selected cell
/// begins before the client rectangle, on while it ends beyond it. The
/// selection itself is then kept from lying before the viewport, which it
/// never does by then.
pub fn scroll_into_view(state: &mut SheetState, width: u32, height: u32, gutter: u32) -> (laid_out:
    bool)
    ensures
        laid_out == has_room(width, height, gutter),
        !laid_out ==> *final(state) == *old(state),
        final(state).sheet == old(state).sheet,
        final(state).text == old(state).text,
        final(state).selected == old(state).selected,
        laid_out ==> final(state).view_offset == scrolled_offset(
            old(state).view_offset,
            old(state).selected,
            width,
            height,
            gutter,
        ),
        laid_out ==> final(state).view_offset.col <= final(state).selected.col,
        laid_out ==> final(state).view_offset.row <= final(state).selected.row,
        laid_out ==> is_visible(
            final(state).view_offset,
            final(state).selected,
            width - gutter,
            height - CELL_HEIGHT,
        ),
{
    if width < gutter || width - gutter < 2 * CELL_WIDTH || height < 3 * CELL_HEIGHT {
        return false;
    }
    let client_width: i64 = (width - gutter) as i64;
    let client_height: i64 = (height - CELL_HEIGHT) as i64;
    let ghost fit_across = (width - gutter) / CELL_WIDTH as int;
    let ghost fit_down = (height - CELL_HEIGHT) / CELL_HEIGHT as int;
    let ghost start = state.view_offset;
    let selected = state.selected;
    let mut offset = state.view_offset;
    loop
        invariant_except_break
            scrolled(offset.col as int, selected.col as int, fit_across) == scrolled(
                start.col as int,
                selected.col as int,
                fit_across,
            ),
            scrolled(offset.row as int, selected.row as int, fit_down) == scrolled(
                start.row as int,
                selected.row as int,
                fit_down,
            ),
        invariant
            client_width == width - gutter,
            client_height == height - CELL_HEIGHT,
            fit_across == (client_width as int) / (CELL_WIDTH as int),
            fit_down == (client_height as int) / (CELL_HEIGHT as int),
            fit_across >= 2,
            fit_down >= 2,
        ensures
            offset.col == scrolled(start.col as int, selected.col as int, fit_across),
            offset.row == scrolled(start.row as int, selected.row as int, fit_down),
            is_visible(offset, selected, client_width as int, client_height as int),
        decreases
                vstd::math::abs(offset.col - scrolled(offset.col as int, selected.col as int, fit_across))
                + vstd::math::abs(
                offset.row - scrolled(offset.row as int, selected.row as int, fit_down),
            ),
    {
        let rect = cell_rect(Some(&offset), &selected);
        let ghost before = offset;
        proof {
            lemma_fit(client_width as int, CELL_WIDTH as int, selected.col - offset.col + 1);
            lemma_fit(client_height as int, CELL_HEIGHT as int, selected.row - offset.row + 1);
        }
        let mut moved = false;
        if rect.left < 0 {
            offset.col = offset.col - 1;
            moved = true;
        }
        if rect.right > client_width {
            offset.col = offset.col + 1;
            moved = true;
        }
        if rect.top < 0 {
            offset.row = offset.row - 1;
            moved = true;
        }
        if rect.bottom > client_height {
            offset.row = offset.row + 1;
            moved = true;
        }
        if !moved {
            break ;
        }
    }
    state.view_offset = offset;
    if state.selected.col < state.view_offset.col {
        state.selected.col = state.view_offset.col;
    }
    if state.selected.row < state.view_offset.row {
        state.selected.row = state.view_offset.row;
    }
    true
}

/// `cells` cells in a row end beyond an extent exactly when they are more
/// than the whole cells that fit it.
proof fn lemma_fit(extent: int, cell: int, cells: int)
    requires
        0 <= extent,
        0 < cell,
    ensures
        cells * cell > extent <==> cells > extent / cell,
{
    assert(cells * cell > extent <==> cells > extent / cell) by (nonlinear_arith)
        requires
            0 <= extent,
            0 < cell,
    ;
}

} // verus!
