use imgthin::bin_image::BinImage;
use imgthin::common::SubIter;
use imgthin::default::imgthin;
use imgthin::error::InvalidInput;
use imgthin::text::rows_from_text;

const OCTAGON: &str = "\
00000000
00011000
00111100
01111110
01111110
01111110
00111100
00011000
00000000
";

const LETTER_B: &str = "\
0000000000
0110000000
0110000000
0110000000
0110000000
0111111000
0111111100
0110001110
0110000110
0110000110
0110001110
0111111100
0111111000
0000000000
";

const LETTER_B_THINNED: &str = "\
0000000000
0000000000
0100000000
0100000000
0100000000
0111110000
0100001000
0100000100
0100000100
0100000100
0100000100
0111111000
0000000000
0000000000
";

fn thinned(text: &str) -> Vec<Vec<bool>> {
    imgthin(rows_from_text(text)).unwrap()
}

fn foreground(rows: &[Vec<bool>]) -> usize {
    rows.iter().map(|row| row.iter().filter(|p| **p).count()).sum()
}

#[test]
fn default_test_subiter() {
    let img = BinImage::try_from(rows_from_text(OCTAGON)).unwrap();

    assert_eq!(img.sub_iter(SubIter::First, 4, 4), false);
    assert_eq!(img.sub_iter(SubIter::First, 3, 1), true);
    assert_eq!(img.sub_iter(SubIter::Second, 3, 7), true);
    assert_eq!(img.sub_iter(SubIter::Second, 3, 6), false);
}

#[test]
fn default_test_char_b() {
    let img = BinImage::try_from(rows_from_text(LETTER_B)).unwrap();

    let thinned = imgthin(img.get_pixels().to_vec()).unwrap();

    let expect_img = BinImage::try_from(rows_from_text(LETTER_B_THINNED)).unwrap();
    assert_eq!(expect_img.get_pixels(), &thinned);
}

#[test]
fn rule_needs_two_to_six_neighbours() {
    // One neighbour: the end of a line stays.
    let img = BinImage::try_from(rows_from_text("000\n010\n010\n")).unwrap();
    assert_eq!(img.sub_iter(SubIter::First, 1, 1), false);
    assert_eq!(img.sub_iter(SubIter::Second, 1, 1), false);
    // Seven neighbours, the east one missing: one crossing and clear corners,
    // but too many neighbours.
    let img = BinImage::try_from(rows_from_text("111\n110\n111\n")).unwrap();
    assert_eq!(img.get_neighbors(1, 1), (true, true, true, false, true, true, true, true, true));
    assert_eq!(img.sub_iter(SubIter::First, 1, 1), false);
    // Six neighbours, east and south-east missing.
    let img = BinImage::try_from(rows_from_text("111\n110\n110\n")).unwrap();
    assert_eq!(img.sub_iter(SubIter::First, 1, 1), true);
    // Two neighbours, east and south-east.
    let img = BinImage::try_from(rows_from_text("000\n011\n001\n")).unwrap();
    assert_eq!(img.sub_iter(SubIter::First, 1, 1), true);
}

#[test]
fn rule_needs_one_crossing() {
    // North and south: two runs of foreground around the pixel.
    let img = BinImage::try_from(rows_from_text("010\n010\n010\n")).unwrap();
    assert_eq!(img.sub_iter(SubIter::First, 1, 1), false);
    assert_eq!(img.sub_iter(SubIter::Second, 1, 1), false);
}

#[test]
fn corners_tell_the_sub_iterations_apart() {
    // North, east and south are foreground, west is not.
    let img = BinImage::try_from(rows_from_text("011\n011\n011\n")).unwrap();
    assert_eq!(img.sub_iter(SubIter::First, 1, 1), false);
    assert_eq!(img.sub_iter(SubIter::Second, 1, 1), true);
    // North, west and south are foreground, east is not.
    let img = BinImage::try_from(rows_from_text("110\n110\n110\n")).unwrap();
    assert_eq!(img.sub_iter(SubIter::First, 1, 1), true);
    assert_eq!(img.sub_iter(SubIter::Second, 1, 1), false);
}

#[test]
fn rule_does_not_look_at_the_pixel_itself() {
    let filled = BinImage::try_from(rows_from_text("111\n110\n110\n")).unwrap();
    let hollow = BinImage::try_from(rows_from_text("111\n100\n110\n")).unwrap();
    assert_eq!(filled.sub_iter(SubIter::First, 1, 1), true);
    assert_eq!(hollow.sub_iter(SubIter::First, 1, 1), true);
}

#[test]
fn ragged_rows_are_refused() {
    let rows = vec![vec![true; 4], vec![true; 4], vec![true; 3]];
    assert_eq!(imgthin(rows), Err(InvalidInput::Image));
}

#[test]
fn nothing_to_thin() {
    assert_eq!(imgthin(vec![]), Ok(vec![]));
    assert_eq!(imgthin(vec![vec![], vec![]]), Ok(vec![vec![], vec![]]));
    assert_eq!(thinned("000\n000\n"), rows_from_text("000\n000\n"));
}

#[test]
fn small_shapes() {
    assert_eq!(thinned("1"), rows_from_text("1"));
    // All four pixels of the block are marked at once in the first
    // sub-iteration.
    assert_eq!(thinned("11\n11\n"), rows_from_text("00\n00\n"));
    assert_eq!(thinned("111\n111\n111\n"), rows_from_text("000\n010\n000\n"));
    assert_eq!(
        thinned("1111\n1111\n1111\n1111\n"),
        rows_from_text("0000\n0100\n0000\n0000\n")
    );
    assert_eq!(
        thinned("000000\n011110\n011110\n011110\n000000\n"),
        rows_from_text("000000\n000000\n001000\n000000\n000000\n")
    );
}

#[test]
fn lines_are_skeletons_already() {
    for text in [
        "00000\n11111\n00000\n",
        "010\n010\n010\n010\n",
        "00100\n00100\n11111\n00100\n00100\n",
    ] {
        assert_eq!(thinned(text), rows_from_text(text));
    }
}

#[test]
fn marks_are_decided_on_the_grid_before_the_sub_iteration() {
    // Were the pixels of the block deleted one after the other, the last one
    // would have no neighbour left and would stay.
    assert_eq!(foreground(&thinned("11\n11\n")), 0);
}

#[test]
fn shape_is_kept() {
    for text in [LETTER_B, OCTAGON, "1", "11111\n", "1\n1\n1\n"] {
        let rows = rows_from_text(text);
        let out = imgthin(rows.clone()).unwrap();
        assert_eq!(out.len(), rows.len());
        for (a, b) in out.iter().zip(rows.iter()) {
            assert_eq!(a.len(), b.len());
        }
    }
}

#[test]
fn no_pixel_is_added() {
    for text in [LETTER_B, OCTAGON] {
        let rows = rows_from_text(text);
        let out = imgthin(rows.clone()).unwrap();
        for (y, row) in out.iter().enumerate() {
            for (x, p) in row.iter().enumerate() {
                assert!(!*p || rows[y][x]);
            }
        }
        assert!(foreground(&out) < foreground(&rows));
    }
}

#[test]
fn thinning_the_letter_again_changes_nothing() {
    let once = thinned(LETTER_B);
    assert_eq!(imgthin(once.clone()), Ok(once));
    let once = thinned(OCTAGON);
    assert_eq!(imgthin(once.clone()), Ok(once));
}

#[test]
fn second_sub_iteration_runs_after_an_idle_first_one() {
    // The first sub-iteration finds nothing to delete here, the second one
    // deletes the pixel at (3, 3).
    let text = "\
1001111
1010101
0011111
0101101
0101111
0010001
1110001
0011111
";
    let expected = "\
1001111
1010101
0011111
0100101
0101111
0010001
1110001
0011111
";
    assert_eq!(thinned(text), rows_from_text(expected));
}

#[test]
fn result_may_still_lose_pixels_to_the_first_sub_iteration() {
    // Thinning stops when the second sub-iteration of a pass deletes nothing.
    // Here the first sub-iteration of a further pass deletes the pixel at (3, 4).
    let text = "\
10111
00100
11011
11111
10111
11110
00101
";
    let once = "\
10111
00100
01010
11110
10110
11110
00001
";
    let twice = "\
10111
00100
01010
11110
10100
11110
00001
";
    assert_eq!(thinned(text), rows_from_text(once));
    assert_eq!(thinned(once), rows_from_text(twice));
    assert_eq!(thinned(twice), rows_from_text(twice));
}
