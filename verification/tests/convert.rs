use seq2xbin::convert::{
    column_count, convert, parse_palette, screen_header, screen_height, DEFAULT_COLUMNS,
    FONT_HEIGHT,
};
use seq2xbin::seq::Seq2XBinError;
use seq2xbin::xbin_header::{XBinColor, XBinHeader};

const PALETTE: [&str; 16] = [
    "000000", "FFFFFF", "880000", "AAFFEE", "CC44CC", "00CC55", "0000AA", "EEEE77", "DD8855",
    "664400", "FF7777", "333333", "777777", "AAFF66", "0088FF", "BBBBBB",
];

fn palette() -> Vec<XBinColor> {
    parse_palette(&PALETTE).unwrap()
}

fn font() -> Vec<u8> {
    (0..2048u32).map(|i| (i % 251) as u8).collect()
}

#[test]
fn zero_columns_are_refused() {
    assert_eq!(
        convert(&[0x41], None, Some(0), palette(), font()),
        Err(Seq2XBinError::InvalidColumnValue)
    );
    assert_eq!(
        convert(&[], Some(3), Some(0), Vec::new(), Vec::new()),
        Err(Seq2XBinError::InvalidColumnValue)
    );
    assert_eq!(column_count(Some(0)), Err(Seq2XBinError::InvalidColumnValue));
}

#[test]
fn error_is_told_in_words() {
    assert_eq!(
        Seq2XBinError::InvalidColumnValue.message(),
        "Invalid Column Value"
    );
}

#[test]
fn columns_default_to_forty() {
    assert_eq!(column_count(None), Ok(40));
    assert_eq!(DEFAULT_COLUMNS, 40);
    assert_eq!(column_count(Some(1)), Ok(1));
    assert_eq!(column_count(Some(80)), Ok(80));
    assert_eq!(column_count(Some(65535)), Ok(65535));
}

#[test]
fn height_counts_whole_rows_only() {
    assert_eq!(screen_height(83, 40), 2);
    assert_eq!(screen_height(80, 40), 2);
    assert_eq!(screen_height(79, 40), 1);
    assert_eq!(screen_height(2, 40), 0);
    assert_eq!(screen_height(0, 40), 0);
    assert_eq!(screen_height(1000, 1), 1000);
    assert_eq!(screen_height(65535, 1), 65535);
}

#[test]
fn height_keeps_its_low_sixteen_bits() {
    assert_eq!(screen_height(65536, 1), 0);
    assert_eq!(screen_height(70000, 1), 4464);
    assert_eq!(screen_height(131073 * 2, 2), 1);
}

#[test]
fn eighty_three_cells_on_forty_columns() {
    let input = vec![0x41u8; 83];
    let bytes = convert(&input, None, Some(40), palette(), font()).unwrap();
    assert_eq!(bytes[5..7], [40, 0]);
    assert_eq!(bytes[7..9], [2, 0]);
    assert_eq!(bytes.len(), 11 + 48 + 2048 + 166);
    let cells = &bytes[11 + 48 + 2048..];
    assert_eq!(cells.len(), 166);
    for cell in cells.chunks(2) {
        assert_eq!(cell, [0x01, 0x6e]);
    }
}

#[test]
fn blue_letters_on_the_default_screen() {
    let bytes = convert(&[0x1f, 0x41, 0x93, 0x42], None, None, palette(), font()).unwrap();
    assert_eq!(bytes[0..5], [b'X', b'B', b'I', b'N', 0x1a]);
    assert_eq!(bytes[5..7], [40, 0]);
    assert_eq!(bytes[7..9], [0, 0]);
    assert_eq!(bytes[9], 8);
    assert_eq!(bytes[10], 1 + 2 + 8);
    assert_eq!(bytes[11..14], [0, 0, 0]);
    assert_eq!(bytes[11 + 6 * 3..11 + 7 * 3], [0, 0, 42]);
    assert_eq!(bytes[11 + 48..11 + 48 + 2048], font()[..]);
    assert_eq!(bytes[11 + 48 + 2048..], [0x01, 0x66, 0x02, 0x66]);
}

#[test]
fn background_and_columns_as_asked() {
    let bytes = convert(&[0x41, 0x42, 0x43], Some(0), Some(1), Vec::new(), Vec::new()).unwrap();
    assert_eq!(
        bytes,
        vec![0x58, 0x42, 0x49, 0x4e, 0x1a, 1, 0, 3, 0, 8, 11, 0x01, 0x0e, 0x02, 0x0e, 0x03, 0x0e]
    );
}

#[test]
fn conversion_takes_no_notice_of_clear_screens() {
    let with = [0x93, 0x1c, 0x41, 0x93, 0x12, 0x42, 0x93];
    let without = [0x1c, 0x41, 0x12, 0x42];
    assert_eq!(
        convert(&with, Some(2), Some(2), palette(), font()),
        convert(&without, Some(2), Some(2), palette(), font())
    );
}

#[test]
fn empty_stream_converts_to_header_palette_and_font() {
    let bytes = convert(&[], None, None, palette(), vec![1, 2, 3]).unwrap();
    assert_eq!(bytes.len(), 11 + 48 + 3);
    assert_eq!(bytes[7..9], [0, 0]);
}

#[test]
fn header_of_a_screen() {
    assert_eq!(
        screen_header(40, 83, vec![XBinColor { r: 1, g: 2, b: 3 }], vec![4, 5]),
        XBinHeader {
            width: 40,
            height: 2,
            font_height: 8,
            palette: Some(vec![XBinColor { r: 1, g: 2, b: 3 }]),
            font: Some(vec![4, 5]),
            compressed: false,
            non_blink: true,
        }
    );
    assert_eq!(FONT_HEIGHT, 8);
}

#[test]
fn palette_is_read_line_by_line() {
    let colors = palette();
    assert_eq!(colors.len(), 16);
    assert_eq!(colors[0], XBinColor { r: 0, g: 0, b: 0 });
    assert_eq!(colors[1], XBinColor { r: 63, g: 63, b: 63 });
    assert_eq!(colors[6], XBinColor { r: 0, g: 0, b: 42 });
    assert_eq!(colors[15], XBinColor { r: 46, g: 46, b: 46 });
    assert_eq!(parse_palette(&[]), Some(Vec::new()));
}

#[test]
fn one_bad_line_spoils_the_palette() {
    assert_eq!(parse_palette(&["000000", "red", "FFFFFF"]), None);
    assert_eq!(parse_palette(&["000000", "FFFFFF", ""]), None);
    assert_eq!(parse_palette(&["00000G"]), None);
}
