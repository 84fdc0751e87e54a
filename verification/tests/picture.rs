use imgthin::bin_image::BinImage;
use imgthin::text::rows_from_text;

fn picture(text: &str) -> String {
    BinImage::try_from(rows_from_text(text)).unwrap().to_string()
}

#[test]
fn picture_of_a_small_image() {
    assert_eq!(picture("101\n010\n"), " |0|1|2|\n0|X|_|X|\n1|_|X|_|\n");
}

#[test]
fn picture_of_a_single_pixel_has_no_numbers() {
    // The largest column number and the largest row number are 0, which has
    // no digit.
    assert_eq!(picture("1"), "|X|\n");
    assert_eq!(picture("0"), "|_|\n");
}

#[test]
fn picture_of_one_row() {
    assert_eq!(picture("10"), "|0|1|\n|X|_|\n");
}

#[test]
fn picture_of_one_column() {
    assert_eq!(picture("1\n0\n1\n"), "0|X|\n1|_|\n2|X|\n");
}

#[test]
fn picture_with_two_places_for_the_columns() {
    let img = BinImage::new(12, 2, true);
    let expected = [
        " | | | | | | | | | | |1|1|",
        " |0|1|2|3|4|5|6|7|8|9|0|1|",
        "0|X|X|X|X|X|X|X|X|X|X|X|X|",
        "1|X|X|X|X|X|X|X|X|X|X|X|X|",
        "",
    ];
    assert_eq!(img.to_string(), expected.join("\n"));
}

#[test]
fn picture_with_two_places_for_the_rows() {
    let img = BinImage::new(2, 11, false);
    let expected = [
        "  |0|1|",
        " 0|_|_|",
        " 1|_|_|",
        " 2|_|_|",
        " 3|_|_|",
        " 4|_|_|",
        " 5|_|_|",
        " 6|_|_|",
        " 7|_|_|",
        " 8|_|_|",
        " 9|_|_|",
        "10|_|_|",
        "",
    ];
    assert_eq!(img.to_string(), expected.join("\n"));
}

#[test]
fn picture_with_three_places() {
    let text = BinImage::new(101, 1, false).to_string();
    let lines: Vec<&str> = text.lines().collect();
    assert_eq!(lines.len(), 4);
    // Hundreds, tens and units of the column numbers 99 and 100.
    assert!(lines[0].ends_with("| |1|"));
    assert!(lines[1].ends_with("|9|0|"));
    assert!(lines[2].ends_with("|9|0|"));
    assert!(lines[0].starts_with("| | |"));
    assert!(lines[1].starts_with("| | | | | | | | | | |1|1|"));
    assert!(lines[2].starts_with("|0|1|2|3|4|5|6|7|8|9|0|1|"));
    assert_eq!(lines[3].len(), 203);
}

#[test]
fn picture_of_an_image_without_pixels() {
    assert_eq!(BinImage::new(0, 0, true).to_string(), "");
    assert_eq!(BinImage::new(3, 0, true).to_string(), "");
    assert_eq!(BinImage::new(0, 2, true).to_string(), "0|\n1|\n");
}
