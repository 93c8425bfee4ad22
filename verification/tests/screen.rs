use seq2xbin::screen::compose;
use seq2xbin::seq::IntoSeqIterator;

fn screen(bytes: &[u8], background: u8) -> Vec<u8> {
    compose(bytes.into_seq_iter(), background)
}

#[test]
fn first_glyph_is_light_blue() {
    assert_eq!(screen(&[0x41], 6), vec![0x01, 0x6e]);
}

#[test]
fn colour_code_sets_the_foreground_of_later_glyphs() {
    assert_eq!(
        screen(&[0x41, 0x1c, 0x42, 0x43, 0x05, 0x44], 0),
        vec![0x01, 0x0e, 0x02, 0x02, 0x03, 0x02, 0x04, 0x01]
    );
}

#[test]
fn blue_on_blue_with_a_clear_screen_between() {
    assert_eq!(
        screen(&[0x1f, 0x41, 0x93, 0x42], 6),
        vec![0x01, 0x66, 0x02, 0x66]
    );
}

#[test]
fn clear_screen_keeps_colour_and_cells() {
    assert_eq!(
        screen(&[0x1c, 0x41, 0x93, 0x42], 0),
        vec![0x01, 0x02, 0x02, 0x02]
    );
}

#[test]
fn stream_without_clear_screens_gives_the_same_screen() {
    let with = [0x93, 0x12, 0x41, 0x93, 0x93, 0x1c, 0x42, 0x92, 0x93, 0x43, 0x93];
    let without: Vec<u8> = with.iter().copied().filter(|byte| *byte != 0x93).collect();
    assert_eq!(without.len(), with.len() - 5);
    assert_eq!(screen(&with, 6), screen(&without, 6));
    assert_eq!(
        screen(&with, 6),
        vec![0x81, 0x6e, 0x82, 0x62, 0x03, 0x62]
    );
}

#[test]
fn reverse_sets_the_high_bit_of_the_glyph_only() {
    assert_eq!(
        screen(&[0x12, 0x41, 0x92, 0x41], 1),
        vec![0x81, 0x1e, 0x01, 0x1e]
    );
}

#[test]
fn reverse_on_twice_gives_the_screen_of_once() {
    assert_eq!(
        screen(&[0x41, 0x12, 0x12, 0x42], 6),
        screen(&[0x41, 0x12, 0x42], 6)
    );
}

#[test]
fn reverse_on_and_off_gives_the_screen_without_them() {
    assert_eq!(
        screen(&[0x41, 0x12, 0x92, 0x42], 6),
        screen(&[0x41, 0x42], 6)
    );
}

#[test]
fn two_bytes_for_every_byte_that_is_no_control_code() {
    let all: Vec<u8> = (0..=255).collect();
    assert_eq!(screen(&all, 6).len(), 2 * (256 - 19));
    assert_eq!(screen(&[0x93, 0x12, 0x92, 0x1f], 6).len(), 0);
    assert_eq!(screen(&[], 6).len(), 0);
    assert_eq!(screen(&[0x41, 0x93, 0x42, 0x1c, 0x43], 6).len(), 6);
}

#[test]
fn background_above_fifteen_loses_its_high_bits() {
    assert_eq!(screen(&[0x41], 0x1f), vec![0x01, 0xfe]);
    assert_eq!(screen(&[0x41], 0x10), vec![0x01, 0x0e]);
    assert_eq!(screen(&[0x41], 0xff), vec![0x01, 0xfe]);
}

#[test]
fn every_background_fills_the_high_nibble() {
    for background in 0..16u8 {
        assert_eq!(
            screen(&[0x90, 0x41], background),
            vec![0x01, background * 16]
        );
    }
}

#[test]
fn compose_takes_up_where_the_decoder_stands() {
    let bytes = [0x12, 0x41, 0x42];
    let mut decoder = bytes.as_slice().into_seq_iter();
    decoder.next();
    decoder.next();
    assert_eq!(compose(decoder, 6), vec![0x82, 0x6e]);
}
