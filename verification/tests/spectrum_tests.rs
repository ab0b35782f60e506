use iterm_player::samples::{drop_front, front_frame, keep_latest};
use iterm_player::spectrum::{
    choose_bar_layout, render_spectrum_text, resample_bins, spectrum_tab_animation, spread_bins,
    vertical_block,
};

#[test]
fn vertical_block_picks_eighths() {
    assert_eq!(vertical_block(-3), ' ');
    assert_eq!(vertical_block(0), ' ');
    assert_eq!(vertical_block(1), '▁');
    assert_eq!(vertical_block(4), '▄');
    assert_eq!(vertical_block(7), '▇');
    assert_eq!(vertical_block(8), '█');
    assert_eq!(vertical_block(100), '█');
}

#[test]
fn bar_layout_fills_the_row() {
    assert_eq!(choose_bar_layout(48, 100), (34, 2));
    let (bars, gap) = choose_bar_layout(48, 100);
    assert_eq!(bars + gap * (bars - 1), 100);
    assert_eq!(choose_bar_layout(5, 5), (5, 0));
    assert_eq!(choose_bar_layout(4, 7), (4, 1));
}

#[test]
fn bar_layout_with_room_for_one_bar() {
    assert_eq!(choose_bar_layout(48, 1), (1, 0));
    assert_eq!(choose_bar_layout(0, 10), (1, 0));
    assert_eq!(choose_bar_layout(1, 10), (1, 0));
}

#[test]
fn resample_averages_windows() {
    assert_eq!(resample_bins(&[10, 20, 30, 40], 2), vec![15, 35]);
    assert_eq!(resample_bins(&[1, 2, 3], 2), vec![1, 2]);
    assert_eq!(resample_bins(&[65535, 65535, 65535], 1), vec![65535]);
}

#[test]
fn resample_pads_or_keeps() {
    assert_eq!(resample_bins(&[], 3), vec![0, 0, 0]);
    assert_eq!(resample_bins(&[1, 2], 5), vec![1, 2]);
    assert_eq!(resample_bins(&[7, 8], 2), vec![7, 8]);
    assert_eq!(resample_bins(&[7, 8], 0), Vec::<u16>::new());
}

#[test]
fn spread_places_bars_evenly() {
    assert_eq!(spread_bins(&[10, 20, 30, 40], 7), vec![10, 0, 20, 0, 30, 0, 40]);
    assert_eq!(spread_bins(&[50], 5), vec![0, 0, 50, 0, 0]);
    assert_eq!(spread_bins(&[], 3), vec![0, 0, 0]);
    assert_eq!(spread_bins(&[1, 2], 0), Vec::<u16>::new());
}

#[test]
fn render_draws_columns_from_the_bottom() {
    assert_eq!(render_spectrum_text(&[100], 1, 2), vec!["█".to_string(), "█".to_string()]);
    assert_eq!(render_spectrum_text(&[50], 1, 2), vec![" ".to_string(), "█".to_string()]);
    assert_eq!(render_spectrum_text(&[30], 1, 1), vec!["▂".to_string()]);
    assert_eq!(
        render_spectrum_text(&[100, 0, 50], 3, 2),
        vec!["█  ".to_string(), "█ █".to_string()]
    );
}

#[test]
fn render_of_empty_area_is_empty() {
    assert!(render_spectrum_text(&[10, 20], 0, 5).is_empty());
    assert!(render_spectrum_text(&[10, 20], 5, 0).is_empty());
}

#[test]
fn tab_animation_samples_six_bars() {
    assert_eq!(spectrum_tab_animation(&[]), "");
    assert_eq!(spectrum_tab_animation(&[0, 50, 100]), "▁▁▁▄▄█");
    assert_eq!(spectrum_tab_animation(&[100; 48]), "██████");
    assert_eq!(spectrum_tab_animation(&[500]), "██████");
}

#[test]
fn sample_queue_keeps_latest_and_drops_front() {
    let mut buf = vec![1, 2, 3, 4, 5];
    keep_latest(&mut buf, 3);
    assert_eq!(buf, vec![3, 4, 5]);
    keep_latest(&mut buf, 10);
    assert_eq!(buf, vec![3, 4, 5]);
    assert_eq!(front_frame(&buf, 2), vec![3, 4]);
    drop_front(&mut buf, 2);
    assert_eq!(buf, vec![5]);
}
