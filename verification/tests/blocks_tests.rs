use vocal::blocks::{render_loading_bar, render_single_block};

#[test]
fn tip_glyph_widens_by_eighths() {
    assert_eq!(render_single_block(0, 8), "\u{258f}");
    assert_eq!(render_single_block(1, 8), "\u{258e}");
    assert_eq!(render_single_block(2, 8), "\u{258d}");
    assert_eq!(render_single_block(3, 8), "\u{258c}");
    assert_eq!(render_single_block(4, 8), "\u{258b}");
    assert_eq!(render_single_block(5, 8), "\u{258a}");
    assert_eq!(render_single_block(6, 8), "\u{2589}");
    assert_eq!(render_single_block(7, 8), "\u{2588}");
    assert_eq!(render_single_block(8, 8), "\u{2588}");
}

#[test]
fn tip_glyph_rounds_down_within_an_eighth() {
    // 13/16 lies between 6/8 and 7/8.
    assert_eq!(render_single_block(13, 16), "\u{2589}");
    // Anything below one eighth still shows the thinnest sliver.
    assert_eq!(render_single_block(1, 100), "\u{258f}");
}

#[test]
fn loading_bar_half_way() {
    // Progress one half over ten cells: five full blocks, then a tip at
    // the start of its cell.
    let bar = render_loading_bar(5, 0, 10, 10);
    assert_eq!(bar, "\u{2588}\u{2588}\u{2588}\u{2588}\u{2588}\u{258f}");
}

#[test]
fn loading_bar_full_progress_caps_the_run() {
    // At full progress the run still holds at most block_count cells:
    // block_count - 1 full blocks and the tip.
    let bar = render_loading_bar(10, 0, 10, 10);
    assert_eq!(bar.chars().count(), 10);
    assert!(bar.chars().take(9).all(|c| c == '\u{2588}'));
    assert!(bar.ends_with('\u{258f}'));
}

#[test]
fn loading_bar_tip_shows_the_cell_fraction() {
    // Progress 3/8 over two cells: no full cell yet, tip at 6/8 of its
    // cell.
    let bar = render_loading_bar(3, 0, 8, 2);
    assert_eq!(bar, "\u{2589}");
}
