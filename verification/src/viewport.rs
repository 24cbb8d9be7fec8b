//! Which rows of the screen the editor and the index-card board show: the
//! scroll position of the text (plain, typewriter and strict typewriter
//! modes) and the row offset that keeps the selected card in view. The
//! terminal drawing itself is left to the caller.
use vstd::prelude::*;

verus! {

/// Where the text view starts: the first layout row shown, and the blank
/// rows set above the text.
#[derive(Clone, Copy, Debug, PartialEq, Eq, Structural)]
pub struct Viewport {
    pub scroll: usize,
    pub pad_top: usize,
}

/// `a - b`, or 0 where `b` is larger.
pub open spec fn sat(a: int, b: int) -> int {
    if a >= b {
        a - b
    } else {
        0
    }
}

/// The screen row, counted from the top of the text area at row `text_y`,
/// of the middle of a screen `area_height` rows high.
pub open spec fn center_offset(area_height: int, text_y: int) -> int {
    sat(area_height / 2, text_y)
}

/// The view of the text with the cursor on layout row `vis_row`, from the
/// view starting at row `scroll`, in a text area `height` rows high:
/// strict typewriter mode keeps the cursor's row in the middle of the
/// screen, padding the top with blank rows near the start of the script;
/// typewriter mode keeps it in the middle where the script allows; else
/// the view moves only as far as needed to show the cursor's row.
pub open spec fn viewport_spec(
    strict_typewriter: bool,
    typewriter: bool,
    area_height: int,
    text_y: int,
    height: int,
    vis_row: int,
    scroll: int,
) -> Viewport {
    let c = center_offset(area_height, text_y);
    if strict_typewriter {
        Viewport { scroll: sat(vis_row, c) as usize, pad_top: sat(c, vis_row) as usize }
    } else if typewriter {
        Viewport { scroll: sat(vis_row, c) as usize, pad_top: 0 }
    } else {
        let s1 = if vis_row < scroll { vis_row } else { scroll };
        Viewport { scroll: (if vis_row >= s1 + height { vis_row + 1 - height } else { s1 }) as usize, pad_top: 0 }
    }
}

/// The view of the text (see `viewport_spec`). In plain mode the cursor's
/// row is always in view; in strict typewriter mode it is always on the
/// middle row of the screen.
pub fn viewport_scroll(
    strict_typewriter: bool,
    typewriter: bool,
    area_height: u16,
    text_y: u16,
    height: usize,
    vis_row: usize,
    scroll: usize,
) -> (r: Viewport)
    requires
        vis_row < usize::MAX,
        scroll + height <= usize::MAX,
    ensures
        r == viewport_spec(strict_typewriter, typewriter, area_height as int, text_y as int, height as int, vis_row as int, scroll as int),
        !strict_typewriter && !typewriter && height > 0 ==> r.scroll <= vis_row < r.scroll + height,
        strict_typewriter ==> r.pad_top + vis_row - r.scroll == center_offset(area_height as int, text_y as int),
        !strict_typewriter && typewriter && vis_row >= center_offset(area_height as int, text_y as int) ==> vis_row - r.scroll
            == center_offset(area_height as int, text_y as int),
{
    let absolute_center = area_height / 2;
    let c: usize = absolute_center.saturating_sub(text_y) as usize;
    if strict_typewriter {
        let pad = if vis_row < c {
            c - vis_row
        } else {
            0
        };
        Viewport { scroll: vis_row.saturating_sub(c), pad_top: pad }
    } else if typewriter {
        Viewport { scroll: vis_row.saturating_sub(c), pad_top: 0 }
    } else {
        let mut s = scroll;
        if vis_row < s {
            s = vis_row;
        }
        if vis_row >= s + height {
            s = vis_row + 1 - height;
        }
        Viewport { scroll: s, pad_top: 0 }
    }
}

/// The row offset of the card board that shows the selected card, which
/// spans rows `y` to `y + h`, in a view `view` rows high: the offset moves
/// up to the card's top when the card starts above the view, down so that
/// the card ends at the view's bottom when it ends below, and stays else.
pub open spec fn card_offset_spec(offset: int, y: int, h: int, view: int) -> int {
    if y < offset {
        y
    } else if y + h > offset + view {
        y + h - view
    } else {
        offset
    }
}

/// The row offset of the card board (see `card_offset_spec`): a card no
/// taller than the view is then wholly in view.
pub fn card_row_offset(offset: usize, sel_y: u16, sel_h: u16, view_height: u16) -> (r: usize)
    requires
        offset + view_height <= u16::MAX,
        sel_y + sel_h <= u16::MAX,
    ensures
        r == card_offset_spec(offset as int, sel_y as int, sel_h as int, view_height as int),
        sel_h <= view_height ==> r <= sel_y && sel_y + sel_h <= r + view_height,
{
    let y = sel_y as usize;
    let bottom = y + sel_h as usize;
    if y < offset {
        y
    } else if bottom > offset + view_height as usize {
        bottom - view_height as usize
    } else {
        offset
    }
}

} // verus!
