use seq2xbin::seq::{C64Color, IntoSeqIterator, SeqElement, SeqIterator};

fn decode(bytes: &[u8]) -> Vec<SeqElement> {
    bytes.into_seq_iter().collect()
}

#[test]
fn letter_without_reverse_is_plain_glyph() {
    assert_eq!(decode(&[0x41]), vec![SeqElement::Character(0x01)]);
}

#[test]
fn letter_after_reverse_on_has_high_bit() {
    assert_eq!(
        decode(&[0x12, 0x41]),
        vec![SeqElement::Reverse(true), SeqElement::Character(0x81)]
    );
}

#[test]
fn last_byte_is_glyph_5e() {
    assert_eq!(decode(&[0xff]), vec![SeqElement::Character(0x5e)]);
}

#[test]
fn last_byte_in_reverse_is_glyph_de() {
    assert_eq!(
        decode(&[0x12, 0xff]),
        vec![SeqElement::Reverse(true), SeqElement::Character(0xde)]
    );
}

#[test]
fn clear_screen_code_is_decoded() {
    assert_eq!(decode(&[0x93]), vec![SeqElement::ClearScreen]);
}

#[test]
fn every_colour_code_selects_its_colour() {
    let table = [
        (0x90, C64Color::Black),
        (0x05, C64Color::White),
        (0x1c, C64Color::Red),
        (0x9f, C64Color::Cyan),
        (0x9c, C64Color::Purple),
        (0x1e, C64Color::Green),
        (0x1f, C64Color::Blue),
        (0x9e, C64Color::Yellow),
        (0x81, C64Color::Orange),
        (0x95, C64Color::Brown),
        (0x96, C64Color::Pink),
        (0x97, C64Color::DarkGray),
        (0x98, C64Color::MidGray),
        (0x99, C64Color::LightGreen),
        (0x9a, C64Color::LightBlue),
        (0x9b, C64Color::LightGray),
    ];
    for (byte, color) in table {
        assert_eq!(decode(&[byte]), vec![SeqElement::Color(color)]);
        assert_eq!(
            decode(&[0x12, byte]),
            vec![SeqElement::Reverse(true), SeqElement::Color(color)]
        );
    }
}

#[test]
fn reverse_codes_report_the_new_state() {
    assert_eq!(
        decode(&[0x12, 0x92, 0x92, 0x12]),
        vec![
            SeqElement::Reverse(true),
            SeqElement::Reverse(false),
            SeqElement::Reverse(false),
            SeqElement::Reverse(true),
        ]
    );
}

#[test]
fn screen_codes_at_the_edges_of_each_range() {
    let table: [(u8, u8); 14] = [
        (0x00, 0x00),
        (0x20, 0x20),
        (0x3f, 0x3f),
        (0x40, 0x00),
        (0x5f, 0x1f),
        (0x60, 0x60),
        (0x7f, 0x7f),
        (0x80, 0x40),
        (0xa0, 0x60),
        (0xbf, 0x7f),
        (0xc0, 0x40),
        (0xfe, 0x7e),
        (0xff, 0x5e),
        (0x94, 0x54),
    ];
    for (byte, code) in table {
        assert_eq!(decode(&[byte]), vec![SeqElement::Character(code)]);
        assert_eq!(
            decode(&[0x12, byte]),
            vec![SeqElement::Reverse(true), SeqElement::Character(code + 0x80)]
        );
    }
}

#[test]
fn one_element_for_every_byte() {
    let all: Vec<u8> = (0..=255).collect();
    assert_eq!(decode(&all).len(), 256);
    assert_eq!(decode(&[]).len(), 0);
    let mixed = [0x12, 0x93, 0x41, 0x1f, 0x92, 0xff, 0x00];
    assert_eq!(decode(&mixed).len(), mixed.len());
}

#[test]
fn nineteen_control_codes_are_no_glyphs() {
    let all: Vec<u8> = (0..=255).collect();
    let glyphs = decode(&all)
        .iter()
        .filter(|element| matches!(element, SeqElement::Character(_)))
        .count();
    assert_eq!(glyphs, 256 - 19);
}

#[test]
fn clear_screen_leaves_reverse_as_it_is() {
    assert_eq!(
        decode(&[0x12, 0x93, 0x41]),
        vec![
            SeqElement::Reverse(true),
            SeqElement::ClearScreen,
            SeqElement::Character(0x81),
        ]
    );
    assert_eq!(
        decode(&[0x93, 0x41]),
        vec![SeqElement::ClearScreen, SeqElement::Character(0x01)]
    );
}

#[test]
fn colour_code_leaves_reverse_as_it_is() {
    assert_eq!(
        decode(&[0x12, 0x1f, 0x41]),
        vec![
            SeqElement::Reverse(true),
            SeqElement::Color(C64Color::Blue),
            SeqElement::Character(0x81),
        ]
    );
}

#[test]
fn reverse_on_twice_is_reverse_on_once() {
    let once = decode(&[0x12, 0x41, 0x42]);
    let twice = decode(&[0x12, 0x12, 0x41, 0x42]);
    assert_eq!(once[1..], twice[2..]);
    assert_eq!(twice[1], SeqElement::Reverse(true));
}

#[test]
fn reverse_on_then_off_restores_the_glyphs() {
    assert_eq!(
        decode(&[0x41, 0x12, 0x92, 0x41]),
        vec![
            SeqElement::Character(0x01),
            SeqElement::Reverse(true),
            SeqElement::Reverse(false),
            SeqElement::Character(0x01),
        ]
    );
}

#[test]
fn next_hands_out_elements_one_by_one() {
    let bytes = vec![0x1f, 0x41, 0x93, 0x42];
    let mut decoder: SeqIterator = (&bytes).into_seq_iter();
    assert_eq!(decoder.next(), Some(SeqElement::Color(C64Color::Blue)));
    assert_eq!(decoder.next(), Some(SeqElement::Character(0x01)));
    assert_eq!(decoder.next(), Some(SeqElement::ClearScreen));
    assert_eq!(decoder.next(), Some(SeqElement::Character(0x02)));
    assert_eq!(decoder.next(), None);
    assert_eq!(decoder.next(), None);
}

#[test]
fn collect_takes_up_where_next_left_off() {
    let bytes = [0x12, 0x41, 0x42];
    let mut decoder = bytes.as_slice().into_seq_iter();
    assert_eq!(decoder.next(), Some(SeqElement::Reverse(true)));
    assert_eq!(
        decoder.collect(),
        vec![SeqElement::Character(0x81), SeqElement::Character(0x82)]
    );
}

#[test]
fn empty_stream_has_no_element() {
    let bytes: Vec<u8> = Vec::new();
    let mut decoder = (&bytes).into_seq_iter();
    assert_eq!(decoder.next(), None);
}

#[test]
fn colours_are_numbered_in_palette_order() {
    let colors = [
        C64Color::Black,
        C64Color::White,
        C64Color::Red,
        C64Color::Cyan,
        C64Color::Purple,
        C64Color::Green,
        C64Color::Blue,
        C64Color::Yellow,
        C64Color::Orange,
        C64Color::Brown,
        C64Color::Pink,
        C64Color::DarkGray,
        C64Color::MidGray,
        C64Color::LightGreen,
        C64Color::LightBlue,
        C64Color::LightGray,
    ];
    for (index, color) in colors.into_iter().enumerate() {
        assert_eq!(u8::from(color), index as u8);
    }
}
