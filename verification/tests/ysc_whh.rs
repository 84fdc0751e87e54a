use imgthin::bin_image::BinImage;
use imgthin::common::{calculate_ap_and_bp, SubIter};
use imgthin::error::InvalidInput;
use imgthin::text::rows_from_text;
use imgthin::ysc_whh::{bin_to_dec, imgthin, make_table, sub_iter};

const MAPPING_TABLE_1: &str = "\
1110100011110000
1111010101110101
1111111111111111
0111010101110101
1111111111111111
1111111111111111
0111111111111111
0111111101111111
1010101011111010
1111111111111111
1111111111111111
1111111111111111
0010111011111110
1111111111111111
0010111011111110
0010111100101111
";

const MAPPING_TABLE_2: &str = "\
1110110011110100
1111111101110100
1111111111111111
0111111101110100
1010111111111111
0111111101111111
0010111111111111
0111111101110101
1010111011111110
1111111111111110
1111111111111111
1111111111111110
0010111111111111
0111111101111111
0010111111111111
0111111101110101
";

const LETTER_B: &str = "\
0000000000
0110000000
0110000000
0110000000
0110000000
0111111000
0111111100
0110001110
0110000110
0110000110
0110001110
0111111100
0111111000
0000000000
";

const LETTER_B_THINNED: &str = "\
0000000000
0000000000
0100000000
0100000000
0100000000
0111110000
0100001000
0100000100
0100000100
0100000100
0100000100
0011111000
0000000000
0000000000
";

fn ring(code: usize) -> [bool; 8] {
    let mut r = [false; 8];
    for (k, p) in r.iter_mut().enumerate() {
        *p = (code >> k) & 1 == 1;
    }
    r
}

fn table_deletes(mode: SubIter, r: [bool; 8]) -> bool {
    sub_iter(&mode, r[0], r[1], r[2], r[3], r[4], r[5], r[6], r[7])
}

/// The direct rule on a ring, asked of an image that holds the ring around
/// its centre.
fn standard_deletes(mode: SubIter, r: [bool; 8]) -> bool {
    let rows = vec![
        vec![r[7], r[0], r[1]],
        vec![r[6], true, r[2]],
        vec![r[5], r[4], r[3]],
    ];
    BinImage::try_from(rows).unwrap().sub_iter(mode, 1, 1)
}

fn thinned(text: &str) -> Vec<Vec<bool>> {
    imgthin(rows_from_text(text)).unwrap()
}

#[test]
fn ysc_whh_test_subiter() {
    assert_eq!(
        sub_iter(&SubIter::First, true, true, true, true, true, true, true, true),
        false
    );

    assert_eq!(
        sub_iter(&SubIter::First, true, true, false, true, true, true, true, true),
        true
    );

    assert_eq!(
        sub_iter(&SubIter::First, true, false, true, true, false, false, false, false),
        true
    );

    assert_eq!(
        sub_iter(&SubIter::First, true, true, true, true, false, false, false, true),
        true
    );

    assert_eq!(
        sub_iter(&SubIter::First, true, false, true, false, false, false, false, false),
        true
    );

    assert_eq!(
        sub_iter(&SubIter::First, false, false, true, false, true, false, false, false),
        true
    );

    assert_eq!(
        sub_iter(&SubIter::First, false, true, true, true, true, true, false, false),
        true
    );

    assert_eq!(
        sub_iter(&SubIter::Second, false, false, false, false, true, false, true, false),
        true
    );

    assert_eq!(
        sub_iter(&SubIter::Second, false, false, false, true, true, true, true, true),
        true
    );
}

#[test]
fn test_direct_computation_vs_table() {
    let table_2 = make_table(SubIter::Second);

    let j = bin_to_dec([false, true, true, true]);
    let i = bin_to_dec([true, true, false, false]);

    let table_val = table_2.get(i).unwrap().get(j).unwrap();

    assert_eq!(
        sub_iter(&SubIter::First, false, true, true, true, true, true, false, false),
        table_val.to_owned()
    );
}

#[test]
fn test_make_table() {
    let table_1 = make_table(SubIter::First);
    let first_sub = BinImage::try_from(table_1).unwrap();
    let first_sub_expect = BinImage::try_from(rows_from_text(MAPPING_TABLE_1)).unwrap();

    assert_eq!(first_sub.get_pixels(), first_sub_expect.get_pixels());

    let table_2 = make_table(SubIter::Second);
    let second_sub = BinImage::try_from(table_2).unwrap();
    let second_sub_expect = BinImage::try_from(rows_from_text(MAPPING_TABLE_2)).unwrap();

    assert_eq!(second_sub.get_pixels(), second_sub_expect.get_pixels());
}

#[test]
fn test_bin_to_dec() {
    assert_eq!(bin_to_dec([true, false, false, false]), 8);
    assert_eq!(bin_to_dec([true, true, false, false]), 12);
    assert_eq!(bin_to_dec([true, true, true, false]), 14);
}

#[test]
fn ysc_whh_test_char_b() {
    let img = BinImage::try_from(rows_from_text(LETTER_B)).unwrap();

    let thinned = imgthin(img.get_pixels().to_vec()).unwrap();

    let thinned_img = BinImage::try_from(thinned).unwrap();
    println!("{}", thinned_img.to_string());
}

#[test]
fn bin_to_dec_of_every_code() {
    for code in 0..16usize {
        let bin = [code & 8 != 0, code & 4 != 0, code & 2 != 0, code & 1 != 0];
        assert_eq!(bin_to_dec(bin), code);
    }
    assert_eq!(bin_to_dec([false, false, false, true]), 1);
}

#[test]
fn tables_have_16_rows_of_16_entries() {
    for mode in [SubIter::First, SubIter::Second] {
        let table = make_table(mode);
        assert_eq!(table.len(), 16);
        for row in table.iter() {
            assert_eq!(row.len(), 16);
        }
    }
}

#[test]
fn table_holds_what_a_pixel_keeps() {
    // The column's code holds p2 to p5 and the row's code p6 to p9, p2 and
    // p6 with the weight 1.
    for mode in [SubIter::First, SubIter::Second] {
        let table = make_table(mode);
        for code in 0..256usize {
            let r = ring(code);
            let j = bin_to_dec([r[3], r[2], r[1], r[0]]);
            let i = bin_to_dec([r[7], r[6], r[5], r[4]]);
            assert_eq!(j, code % 16);
            assert_eq!(i, code / 16);
            assert_eq!(table[i][j], !table_deletes(mode, r));
        }
    }
}

#[test]
fn rules_agree_on_one_crossing_and_less_than_seven_neighbours() {
    for mode in [SubIter::First, SubIter::Second] {
        for code in 0..256usize {
            let r = ring(code);
            let (a_p, b_p) = calculate_ap_and_bp(r[0], r[1], r[2], r[3], r[4], r[5], r[6], r[7]);
            if a_p == 1 && b_p < 7 {
                assert_eq!(table_deletes(mode, r), standard_deletes(mode, r));
            }
            if standard_deletes(mode, r) {
                assert!(table_deletes(mode, r));
            }
        }
    }
}

#[test]
fn rules_differ_on_these_rings() {
    // Bit k of a code, counted from the least significant one, is the
    // neighbour number k + 2. On each of these rings only the rule of the table
    // engine deletes: the first two of each list have seven foreground
    // neighbours and one crossing, the others have two crossings.
    let first = [239, 251, 5, 13, 20, 22, 52, 54, 133, 141];
    let second = [191, 254, 65, 67, 80, 88, 97, 99, 208, 216];
    for (mode, differing) in [(SubIter::First, first), (SubIter::Second, second)] {
        for code in 0..256usize {
            let r = ring(code);
            if differing.contains(&code) {
                assert!(table_deletes(mode, r));
                assert!(!standard_deletes(mode, r));
            } else {
                assert_eq!(table_deletes(mode, r), standard_deletes(mode, r));
            }
        }
        for code in &differing[..2] {
            let r = ring(*code);
            assert_eq!(calculate_ap_and_bp(r[0], r[1], r[2], r[3], r[4], r[5], r[6], r[7]), (1, 7));
        }
        for code in &differing[2..] {
            let r = ring(*code);
            assert_eq!(calculate_ap_and_bp(r[0], r[1], r[2], r[3], r[4], r[5], r[6], r[7]).0, 2);
        }
    }
}

#[test]
fn two_crossings_with_a_clear_far_side() {
    // North and east are foreground, south, south-west and west are not, and
    // the pixel north-east between them is missing: two crossings.
    assert_eq!(
        sub_iter(&SubIter::First, true, false, true, false, false, false, false, false),
        true
    );
    // The same with the west neighbour set: three crossings.
    assert_eq!(
        sub_iter(&SubIter::First, true, false, true, false, false, false, true, false),
        false
    );
    // North and west for the second sub-iteration.
    assert_eq!(
        sub_iter(&SubIter::Second, true, false, false, false, false, false, true, false),
        true
    );
    assert_eq!(
        sub_iter(&SubIter::First, true, false, false, false, false, false, true, false),
        false
    );
}

#[test]
fn letter_b_with_the_table_engine() {
    assert_eq!(thinned(LETTER_B), rows_from_text(LETTER_B_THINNED));
}

#[test]
fn table_engine_refuses_ragged_rows() {
    let rows = vec![vec![true; 4], vec![true; 4], vec![true; 3]];
    assert_eq!(imgthin(rows), Err(InvalidInput::Image));
}

#[test]
fn table_engine_on_small_shapes() {
    assert_eq!(imgthin(vec![]), Ok(vec![]));
    assert_eq!(thinned("1"), rows_from_text("1"));
    assert_eq!(thinned("11\n11\n"), rows_from_text("00\n00\n"));
    // The centre has seven neighbours left after the first pass and goes too.
    assert_eq!(thinned("111\n111\n111\n"), rows_from_text("000\n000\n000\n"));
    assert_eq!(
        thinned("000000\n011110\n011110\n011110\n000000\n"),
        rows_from_text("000000\n000000\n001000\n000000\n000000\n")
    );
    for text in ["00000\n11111\n00000\n", "010\n010\n010\n010\n"] {
        assert_eq!(thinned(text), rows_from_text(text));
    }
}

#[test]
fn table_engine_keeps_the_shape_and_adds_no_pixel() {
    let rows = rows_from_text(LETTER_B);
    let out = imgthin(rows.clone()).unwrap();
    assert_eq!(out.len(), rows.len());
    for (y, row) in out.iter().enumerate() {
        assert_eq!(row.len(), rows[y].len());
        for (x, p) in row.iter().enumerate() {
            assert!(!*p || rows[y][x]);
        }
    }
}

#[test]
fn table_engine_stops_after_the_first_idle_pass() {
    // The first pass deletes the pixel at (0, 0), the second pass, of the
    // second sub-iteration, deletes nothing, and the engine stops. A pass of
    // the first sub-iteration would then delete the pixel at (1, 0).
    let once = thinned("1111\n0100\n1000\n");
    assert_eq!(once, rows_from_text("0111\n0100\n1000\n"));
    let twice = imgthin(once).unwrap();
    assert_eq!(twice, rows_from_text("0011\n0100\n1000\n"));
    assert_eq!(imgthin(twice.clone()), Ok(twice));
}

#[test]
fn table_engine_is_idle_on_the_thinned_letter() {
    let once = thinned(LETTER_B);
    assert_eq!(imgthin(once.clone()), Ok(once));
}
