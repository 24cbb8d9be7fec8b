use fount::viewport::{card_row_offset, viewport_scroll, Viewport};

#[test]
fn plain_view_moves_only_to_show_the_cursor() {
    // cursor inside the view: nothing moves
    assert_eq!(viewport_scroll(false, false, 40, 1, 30, 12, 5), Viewport { scroll: 5, pad_top: 0 });
    // cursor above the view: the view starts at its row
    assert_eq!(viewport_scroll(false, false, 40, 1, 30, 3, 5), Viewport { scroll: 3, pad_top: 0 });
    // cursor below the view: it becomes the last row shown
    assert_eq!(viewport_scroll(false, false, 40, 1, 30, 40, 5), Viewport { scroll: 11, pad_top: 0 });
}

#[test]
fn typewriter_views_keep_the_cursor_in_the_middle() {
    // a screen of 40 rows, text from row 1: the middle is text row 19
    assert_eq!(viewport_scroll(false, true, 40, 1, 30, 50, 0), Viewport { scroll: 31, pad_top: 0 });
    assert_eq!(viewport_scroll(false, true, 40, 1, 30, 4, 9), Viewport { scroll: 0, pad_top: 0 });
    // strict mode pads the top near the start of the script
    assert_eq!(viewport_scroll(true, false, 40, 1, 30, 4, 9), Viewport { scroll: 0, pad_top: 15 });
    assert_eq!(viewport_scroll(true, true, 40, 1, 30, 50, 0), Viewport { scroll: 31, pad_top: 0 });
}

#[test]
fn card_board_keeps_the_selected_card_in_view() {
    // card above the view
    assert_eq!(card_row_offset(20, 8, 6, 18), 8);
    // card below the view: it ends at the view's bottom
    assert_eq!(card_row_offset(0, 16, 6, 18), 4);
    // card in view
    assert_eq!(card_row_offset(4, 8, 6, 18), 4);
}
