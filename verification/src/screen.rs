//! The screen compositor: folds decoded elements into the cells of a screen.
//!
//! A cell is two bytes, the screen code of a glyph and its attribute. The
//! compositor keeps the current foreground colour, which starts as light
//! blue, and a background colour that is fixed for the whole screen.

use vstd::prelude::*;
use crate::seq::seq_iterator::{
    decode, decode_byte, decode_from, glyph_count, lemma_decode_byte, lemma_decode_concat,
    lemma_decode_push, reverse_after, C64Color, SeqElement, SeqIterator, CLEAR_SCREEN,
    REVERSE_OFF, REVERSE_ON,
};

verus! {

/// The attribute byte of a cell: the foreground colour in the low nibble,
/// the background in the high nibble. A background above 15 loses the bits
/// that the shift pushes out of the byte.
pub open spec fn attribute(color: C64Color, background: u8) -> u8 {
    color.index() | (background << 4)
}

/// The foreground colour after `elements` were composed, starting with the
/// colour `start`: the last colour element among them decides, if there is
/// one.
pub open spec fn color_after(elements: Seq<SeqElement>, start: C64Color) -> C64Color
    decreases elements.len(),
{
    if elements.len() == 0 {
        start
    } else {
        match elements.last() {
            SeqElement::Color(color) => color,
            _ => color_after(elements.drop_last(), start),
        }
    }
}

/// The cells that `elements` add to a screen whose foreground colour is
/// `start`: two bytes for every character element, in the colour that the
/// elements before it have left. Clear-screen and reverse elements add
/// nothing and change nothing.
pub open spec fn cells_from(elements: Seq<SeqElement>, start: C64Color, background: u8) -> Seq<u8>
    decreases elements.len(),
{
    if elements.len() == 0 {
        Seq::empty()
    } else {
        let before = elements.drop_last();
        match elements.last() {
            SeqElement::Character(code) => cells_from(before, start, background).push(code).push(
                attribute(color_after(before, start), background),
            ),
            _ => cells_from(before, start, background),
        }
    }
}

/// The cells of a whole screen. The foreground colour starts as light blue.
pub open spec fn cells(elements: Seq<SeqElement>, background: u8) -> Seq<u8> {
    cells_from(elements, C64Color::LightBlue, background)
}

/// The number of character elements among `elements`.
pub open spec fn character_count(elements: Seq<SeqElement>) -> nat {
    elements.filter(|element: SeqElement| element is Character).len()
}

/// The stream without its clear-screen codes.
pub open spec fn without_clear_screen(bytes: Seq<u8>) -> Seq<u8> {
    bytes.filter(|byte: u8| byte != CLEAR_SCREEN)
}

/// Composes what `decoder` still has to decode into the cells of a screen
/// with the given background colour: two bytes for every glyph, none for a
/// control code.
pub fn compose<'a>(decoder: SeqIterator<'a>, background: u8) -> (screen: Vec<u8>)
    ensures
        screen@ == cells(decode_from(decoder.remaining(), decoder.is_reverse()), background),
        screen@.len() == 2 * glyph_count(decoder.remaining()),
{
    let mut elements = decoder;
    let ghost stream = elements.remaining();
    let ghost start = elements.is_reverse();
    let ghost mut done: int = 0;
    let mut screen: Vec<u8> = Vec::new();
    let high_nibble: u8 = background << 4;
    let mut color: u8 = u8::from(C64Color::LightBlue);
    assert(stream.take(0) == Seq::<u8>::empty());
    assert(decode_from(Seq::<u8>::empty(), start) == Seq::<SeqElement>::empty());
    loop
        invariant
            0 <= done <= stream.len(),
            high_nibble == background << 4,
            elements.remaining() == stream.skip(done),
            elements.is_reverse() == reverse_after(stream.take(done), start),
            color == color_after(
                decode_from(stream.take(done), start),
                C64Color::LightBlue,
            ).index(),
            screen@ == cells(decode_from(stream.take(done), start), background),
        ensures
            done == stream.len(),
            screen@ == cells(decode_from(stream.take(done), start), background),
        decreases stream.len() - done,
    {
        match elements.next() {
            None => {
                break ;
            },
            Some(element) => {
                proof {
                    let before = stream.take(done);
                    let byte = stream[done];
                    assert(stream.skip(done)[0] == byte);
                    assert(stream.take(done + 1) == before.push(byte));
                    assert(stream.skip(done).skip(1) == stream.skip(done + 1));
                    lemma_decode_push(before, byte, start);
                    let decoded = decode_from(before, start);
                    assert(decoded.push(element).drop_last() == decoded);
                    assert(before.push(byte).drop_last() == before);
                    done = done + 1;
                }
                match element {
                    SeqElement::ClearScreen => {},
                    SeqElement::Color(value) => {
                        color = u8::from(value);
                    },
                    SeqElement::Reverse(_) => {},
                    SeqElement::Character(value) => {
                        screen.push(value);
                        screen.push(color | high_nibble);
                    },
                }
            },
        }
    }
    proof {
        assert(stream.take(done) == stream);
        lemma_two_bytes_per_glyph(stream, start, C64Color::LightBlue, background);
    }
    screen
}

// What holds of the compositor, and of the decoder and the compositor in a
// row, for every stream.

/// With a background in `0..=15` the attribute is the foreground plus
/// sixteen times the background, and each nibble gives its colour back.
pub proof fn lemma_attribute_nibbles(color: C64Color, background: u8)
    requires
        background <= 15,
    ensures
        attribute(color, background) == color.index() + 16 * background,
        attribute(color, background) & 0x0f == color.index(),
        attribute(color, background) >> 4 == background,
{
    let index = color.index();
    assert(index <= 15 && background <= 15 ==> (index | (background << 4)) == index + 16
        * background && (index | (background << 4)) & 0x0f == index && (index | (background << 4))
        >> 4 == background) by (bit_vector);
}

/// The colour after two runs of elements is the colour after the second,
/// started with the colour that the first has left.
pub proof fn lemma_color_after_concat(
    first: Seq<SeqElement>,
    second: Seq<SeqElement>,
    start: C64Color,
)
    ensures
        color_after(first + second, start) == color_after(second, color_after(first, start)),
    decreases second.len(),
{
    if second.len() == 0 {
        assert(first + second == first);
    } else {
        lemma_color_after_concat(first, second.drop_last(), start);
        assert((first + second).drop_last() == first + second.drop_last());
    }
}

/// A screen can be composed in two parts: the cells of the second part
/// follow those of the first, in the colour that the first has left.
pub proof fn lemma_cells_concat(
    first: Seq<SeqElement>,
    second: Seq<SeqElement>,
    start: C64Color,
    background: u8,
)
    ensures
        cells_from(first + second, start, background) == cells_from(first, start, background)
            + cells_from(second, color_after(first, start), background),
    decreases second.len(),
{
    let head = cells_from(first, start, background);
    let middle = color_after(first, start);
    if second.len() == 0 {
        assert(first + second == first);
        assert(head + Seq::<u8>::empty() == head);
    } else {
        let shorter = second.drop_last();
        lemma_cells_concat(first, shorter, start, background);
        lemma_color_after_concat(first, shorter, start);
        assert((first + second).drop_last() == first + shorter);
        let tail = cells_from(shorter, middle, background);
        match second.last() {
            SeqElement::Character(code) => {
                let shade = attribute(color_after(shorter, middle), background);
                assert((head + tail).push(code).push(shade) == head + tail.push(code).push(shade));
            },
            _ => {},
        }
    }
}

/// A screen holds two bytes for every character element.
pub proof fn lemma_cells_len(elements: Seq<SeqElement>, start: C64Color, background: u8)
    ensures
        cells_from(elements, start, background).len() == 2 * character_count(elements),
    decreases elements.len(),
{
    reveal(Seq::filter);
    if elements.len() > 0 {
        lemma_cells_len(elements.drop_last(), start, background);
    }
}

/// The character elements of a decoded stream are as many as the bytes of
/// the stream that are no control codes.
pub proof fn lemma_character_count(bytes: Seq<u8>, start: bool)
    ensures
        character_count(decode_from(bytes, start)) == glyph_count(bytes),
    decreases bytes.len(),
{
    reveal(Seq::filter);
    if bytes.len() > 0 {
        let shorter = bytes.drop_last();
        lemma_character_count(shorter, start);
        assert(bytes == shorter.push(bytes.last()));
        lemma_decode_push(shorter, bytes.last(), start);
        lemma_decode_byte(bytes.last(), reverse_after(shorter, start));
        let decoded = decode_from(shorter, start);
        let element = decode_byte(bytes.last(), reverse_after(shorter, start));
        assert(decoded.push(element).drop_last() == decoded);
    } else {
        assert(decode_from(bytes, start) == Seq::<SeqElement>::empty());
    }
}

/// The cells of a stream take two bytes for every byte of the stream that
/// is no control code, whatever the state and the colours it starts with.
pub proof fn lemma_two_bytes_per_glyph(
    bytes: Seq<u8>,
    start_reverse: bool,
    start_color: C64Color,
    background: u8,
)
    ensures
        cells_from(decode_from(bytes, start_reverse), start_color, background).len() == 2
            * glyph_count(bytes),
        cells(decode(bytes), background).len() == 2 * glyph_count(bytes),
        cells(decode(bytes), background).len() % 2 == 0,
{
    lemma_cells_len(decode_from(bytes, start_reverse), start_color, background);
    lemma_character_count(bytes, start_reverse);
    lemma_cells_len(decode(bytes), C64Color::LightBlue, background);
    lemma_character_count(bytes, false);
}

/// A clear-screen code changes neither the reverse state nor the colour
/// nor the cells: the stream without its clear-screen codes leaves the same
/// state and composes to the same screen.
pub proof fn lemma_clear_screen_is_ignored(
    bytes: Seq<u8>,
    start_reverse: bool,
    start_color: C64Color,
    background: u8,
)
    ensures
        reverse_after(without_clear_screen(bytes), start_reverse) == reverse_after(
            bytes,
            start_reverse,
        ),
        color_after(decode_from(without_clear_screen(bytes), start_reverse), start_color)
            == color_after(decode_from(bytes, start_reverse), start_color),
        cells_from(decode_from(without_clear_screen(bytes), start_reverse), start_color, background)
            == cells_from(decode_from(bytes, start_reverse), start_color, background),
    decreases bytes.len(),
{
    reveal(Seq::filter);
    if bytes.len() == 0 {
        assert(without_clear_screen(bytes) == bytes);
    } else {
        let shorter = bytes.drop_last();
        let last = bytes.last();
        let kept = without_clear_screen(shorter);
        lemma_clear_screen_is_ignored(shorter, start_reverse, start_color, background);
        assert(bytes == shorter.push(last));
        lemma_decode_push(shorter, last, start_reverse);
        let decoded = decode_from(shorter, start_reverse);
        let element = decode_byte(last, reverse_after(shorter, start_reverse));
        assert(decoded.push(element).drop_last() == decoded);
        if last != CLEAR_SCREEN {
            assert(without_clear_screen(bytes) == kept.push(last));
            assert(kept.push(last).drop_last() == kept);
            lemma_decode_push(kept, last, start_reverse);
            let decoded_kept = decode_from(kept, start_reverse);
            assert(decoded_kept.push(element).drop_last() == decoded_kept);
        }
    }
}

/// A stream can be converted in two parts: the second part is decoded in
/// the state, and composed in the colour, that the first has left. So a
/// stream may be decoded and composed as its bytes arrive.
pub proof fn lemma_screen_concat(
    first: Seq<u8>,
    second: Seq<u8>,
    start_reverse: bool,
    start_color: C64Color,
    background: u8,
)
    ensures
        color_after(decode_from(first + second, start_reverse), start_color) == color_after(
            decode_from(second, reverse_after(first, start_reverse)),
            color_after(decode_from(first, start_reverse), start_color),
        ),
        cells_from(decode_from(first + second, start_reverse), start_color, background)
            == cells_from(decode_from(first, start_reverse), start_color, background) + cells_from(
            decode_from(second, reverse_after(first, start_reverse)),
            color_after(decode_from(first, start_reverse), start_color),
            background,
        ),
{
    let head = decode_from(first, start_reverse);
    let tail = decode_from(second, reverse_after(first, start_reverse));
    lemma_decode_concat(first, second, start_reverse);
    lemma_color_after_concat(head, tail, start_color);
    lemma_cells_concat(head, tail, start_color, background);
}

/// The clear-screen code in any place of a stream: the screen is the one
/// of the stream without that byte.
pub proof fn lemma_clear_screen_byte(before: Seq<u8>, after: Seq<u8>, background: u8)
    ensures
        cells(decode(before + seq![CLEAR_SCREEN] + after), background) == cells(
            decode(before + after),
            background,
        ),
{
    let cleared = before.push(CLEAR_SCREEN);
    assert(before + seq![CLEAR_SCREEN] == cleared);
    assert(cleared.drop_last() == before);
    lemma_decode_push(before, CLEAR_SCREEN, false);
    assert(decode(cleared).drop_last() == decode(before));
    lemma_screen_concat(cleared, after, false, C64Color::LightBlue, background);
    lemma_screen_concat(before, after, false, C64Color::LightBlue, background);
}

/// Reverse video that is switched on twice in a row is switched on once:
/// the decoder is left in the same state, and the screen is the same.
pub proof fn lemma_reverse_on_twice(before: Seq<u8>, after: Seq<u8>, background: u8)
    ensures
        reverse_after(before + seq![REVERSE_ON, REVERSE_ON], false) == reverse_after(
            before + seq![REVERSE_ON],
            false,
        ),
        cells(decode(before + seq![REVERSE_ON, REVERSE_ON] + after), background) == cells(
            decode(before + seq![REVERSE_ON] + after),
            background,
        ),
{
    let once = before.push(REVERSE_ON);
    let twice = once.push(REVERSE_ON);
    assert(before + seq![REVERSE_ON] == once);
    assert(before + seq![REVERSE_ON, REVERSE_ON] == twice);
    assert(once.drop_last() == before);
    assert(twice.drop_last() == once);
    lemma_decode_push(once, REVERSE_ON, false);
    assert(decode(twice).drop_last() == decode(once));
    lemma_screen_concat(twice, after, false, C64Color::LightBlue, background);
    lemma_screen_concat(once, after, false, C64Color::LightBlue, background);
}

/// Reverse video that is switched on and off again at once leaves the
/// glyphs as they were: where it was off before, the decoder is left in
/// the same state and the screen is that of the stream without the two
/// codes. Where it was on before, it is off after them.
pub proof fn lemma_reverse_on_off(before: Seq<u8>, after: Seq<u8>, background: u8)
    ensures
        !reverse_after(before + seq![REVERSE_ON, REVERSE_OFF], false),
        !reverse_after(before, false) ==> cells(
            decode(before + seq![REVERSE_ON, REVERSE_OFF] + after),
            background,
        ) == cells(decode(before + after), background),
{
    let on = before.push(REVERSE_ON);
    let off = on.push(REVERSE_OFF);
    assert(before + seq![REVERSE_ON, REVERSE_OFF] == off);
    assert(on.drop_last() == before);
    assert(off.drop_last() == on);
    lemma_decode_push(before, REVERSE_ON, false);
    lemma_decode_push(on, REVERSE_OFF, false);
    assert(decode(on).drop_last() == decode(before));
    assert(decode(off).drop_last() == decode(on));
    let light_blue = C64Color::LightBlue;
    assert(color_after(decode(on), light_blue) == color_after(decode(before), light_blue));
    assert(color_after(decode(off), light_blue) == color_after(decode(on), light_blue));
    assert(cells(decode(on), background) == cells(decode(before), background));
    assert(cells(decode(off), background) == cells(decode(on), background));
    lemma_screen_concat(off, after, false, C64Color::LightBlue, background);
    lemma_screen_concat(before, after, false, C64Color::LightBlue, background);
}

} // verus!
