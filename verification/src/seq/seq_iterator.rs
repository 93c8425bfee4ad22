//! The stream decoder: one element for every byte of a SEQ stream.

use vstd::prelude::*;
use vstd::std_specs::convert::FromSpecImpl;

verus! {

/// The sixteen colours of the Commodore 64, in palette order.
#[derive(Clone, Copy, Debug, PartialEq, Eq, Structural)]
pub enum C64Color {
    Black,
    White,
    Red,
    Cyan,
    Purple,
    Green,
    Blue,
    Yellow,
    Orange,
    Brown,
    Pink,
    DarkGray,
    MidGray,
    LightGreen,
    LightBlue,
    LightGray,
}

impl C64Color {
    /// The place of the colour in the palette, `0..=15`.
    pub open spec fn index(self) -> u8 {
        match self {
            C64Color::Black => 0,
            C64Color::White => 1,
            C64Color::Red => 2,
            C64Color::Cyan => 3,
            C64Color::Purple => 4,
            C64Color::Green => 5,
            C64Color::Blue => 6,
            C64Color::Yellow => 7,
            C64Color::Orange => 8,
            C64Color::Brown => 9,
            C64Color::Pink => 10,
            C64Color::DarkGray => 11,
            C64Color::MidGray => 12,
            C64Color::LightGreen => 13,
            C64Color::LightBlue => 14,
            C64Color::LightGray => 15,
        }
    }
}

impl From<C64Color> for u8 {
    fn from(value: C64Color) -> (index: u8) {
        match value {
            C64Color::Black => 0,
            C64Color::White => 1,
            C64Color::Red => 2,
            C64Color::Cyan => 3,
            C64Color::Purple => 4,
            C64Color::Green => 5,
            C64Color::Blue => 6,
            C64Color::Yellow => 7,
            C64Color::Orange => 8,
            C64Color::Brown => 9,
            C64Color::Pink => 10,
            C64Color::DarkGray => 11,
            C64Color::MidGray => 12,
            C64Color::LightGreen => 13,
            C64Color::LightBlue => 14,
            C64Color::LightGray => 15,
        }
    }
}

impl FromSpecImpl<C64Color> for u8 {
    open spec fn obeys_from_spec() -> bool {
        true
    }

    open spec fn from_spec(value: C64Color) -> u8 {
        value.index()
    }
}

/// One decoded element of a SEQ stream.
#[derive(Clone, Copy, Debug, PartialEq, Eq, Structural)]
pub enum SeqElement {
    /// The clear-screen control code.
    ClearScreen,
    /// A control code that selects the foreground colour.
    Color(C64Color),
    /// A control code that switches reverse video on or off.
    Reverse(bool),
    /// A display byte, as the screen code of its glyph.
    Character(u8),
}

/// The colour that a control byte selects; `None` for every byte that is
/// not one of the sixteen colour codes.
pub open spec fn color_code(byte: u8) -> Option<C64Color> {
    match byte {
        0x90 => Some(C64Color::Black),
        0x05 => Some(C64Color::White),
        0x1c => Some(C64Color::Red),
        0x9f => Some(C64Color::Cyan),
        0x9c => Some(C64Color::Purple),
        0x1e => Some(C64Color::Green),
        0x1f => Some(C64Color::Blue),
        0x9e => Some(C64Color::Yellow),
        0x81 => Some(C64Color::Orange),
        0x95 => Some(C64Color::Brown),
        0x96 => Some(C64Color::Pink),
        0x97 => Some(C64Color::DarkGray),
        0x98 => Some(C64Color::MidGray),
        0x99 => Some(C64Color::LightGreen),
        0x9a => Some(C64Color::LightBlue),
        0x9b => Some(C64Color::LightGray),
        _ => None,
    }
}

/// The clear-screen control code.
pub const CLEAR_SCREEN: u8 = 0x93;

/// The control code that switches reverse video on.
pub const REVERSE_ON: u8 = 0x12;

/// The control code that switches reverse video off.
pub const REVERSE_OFF: u8 = 0x92;

/// Whether a byte is a control code: clear-screen, one of the two reverse
/// codes, or one of the sixteen colour codes. Every other byte stands for a
/// glyph.
pub open spec fn is_control(byte: u8) -> bool {
    byte == CLEAR_SCREEN || byte == REVERSE_ON || byte == REVERSE_OFF || color_code(byte) is Some
}

/// The screen code of a display byte, before reverse video is applied.
pub open spec fn screen_code(byte: u8) -> u8 {
    if 0x40 <= byte <= 0x5f || 0x80 <= byte <= 0xbf {
        (byte - 0x40) as u8
    } else if 0xc0 <= byte <= 0xfe {
        (byte - 0x80) as u8
    } else if byte == 0xff {
        0x5e
    } else {
        byte
    }
}

/// The element that a byte decodes to while reverse video is `reverse`.
pub open spec fn decode_byte(byte: u8, reverse: bool) -> SeqElement {
    if byte == CLEAR_SCREEN {
        SeqElement::ClearScreen
    } else if byte == REVERSE_ON {
        SeqElement::Reverse(true)
    } else if byte == REVERSE_OFF {
        SeqElement::Reverse(false)
    } else if let Some(color) = color_code(byte) {
        SeqElement::Color(color)
    } else if reverse {
        SeqElement::Character((screen_code(byte) + 0x80) as u8)
    } else {
        SeqElement::Character(screen_code(byte))
    }
}

/// The reverse-video state after a byte was decoded in state `reverse`.
pub open spec fn reverse_after_byte(byte: u8, reverse: bool) -> bool {
    if byte == REVERSE_ON {
        true
    } else if byte == REVERSE_OFF {
        false
    } else {
        reverse
    }
}

/// The reverse-video state after all of `bytes` were decoded, starting in
/// state `start`: the last reverse code among them decides, if there is one.
pub open spec fn reverse_after(bytes: Seq<u8>, start: bool) -> bool
    decreases bytes.len(),
{
    if bytes.len() == 0 {
        start
    } else {
        reverse_after_byte(bytes.last(), reverse_after(bytes.drop_last(), start))
    }
}

/// The elements of a stream whose decoding starts in state `start`: one for
/// each byte, decoded in the state that the bytes before it have left.
pub open spec fn decode_from(bytes: Seq<u8>, start: bool) -> Seq<SeqElement> {
    Seq::new(bytes.len(), |i: int| decode_byte(bytes[i], reverse_after(bytes.take(i), start)))
}

/// The elements of a whole stream. Reverse video is off at its start.
pub open spec fn decode(bytes: Seq<u8>) -> Seq<SeqElement> {
    decode_from(bytes, false)
}

/// The number of bytes of a stream that stand for a glyph.
pub open spec fn glyph_count(bytes: Seq<u8>) -> nat {
    bytes.filter(|byte: u8| !is_control(byte)).len()
}

/// Decodes one byte in state `reverse`.
fn decode_one(byte: u8, reverse: bool) -> (element: SeqElement)
    ensures
        element == decode_byte(byte, reverse),
{
    match byte {
        0x93 => SeqElement::ClearScreen,
        0x90 => SeqElement::Color(C64Color::Black),
        0x05 => SeqElement::Color(C64Color::White),
        0x1c => SeqElement::Color(C64Color::Red),
        0x9f => SeqElement::Color(C64Color::Cyan),
        0x9c => SeqElement::Color(C64Color::Purple),
        0x1e => SeqElement::Color(C64Color::Green),
        0x1f => SeqElement::Color(C64Color::Blue),
        0x9e => SeqElement::Color(C64Color::Yellow),
        0x81 => SeqElement::Color(C64Color::Orange),
        0x95 => SeqElement::Color(C64Color::Brown),
        0x96 => SeqElement::Color(C64Color::Pink),
        0x97 => SeqElement::Color(C64Color::DarkGray),
        0x98 => SeqElement::Color(C64Color::MidGray),
        0x99 => SeqElement::Color(C64Color::LightGreen),
        0x9a => SeqElement::Color(C64Color::LightBlue),
        0x9b => SeqElement::Color(C64Color::LightGray),
        0x12 => SeqElement::Reverse(true),
        0x92 => SeqElement::Reverse(false),
        byte => {
            let code: u8 = match byte {
                0x40..=0x5f | 0x80..=0xbf => byte - 0x40,
                0xc0..=0xfe => byte - 0x80,
                0xff => 0x5e,
                _ => byte,
            };
            if reverse {
                SeqElement::Character(code + 0x80)
            } else {
                SeqElement::Character(code)
            }
        },
    }
}

/// A decoder over a SEQ stream. It remembers whether reverse video is on
/// and hands out one element for every byte of the stream.
pub struct SeqIterator<'a> {
    bytes: &'a [u8],
    position: usize,
    reverse: bool,
}

/// A source of bytes that can be decoded as a SEQ stream.
pub trait IntoSeqIterator<'a>: Sized {
    /// The bytes of the stream.
    spec fn stream(self) -> Seq<u8>;

    /// Starts decoding at the first byte, with reverse video off.
    fn into_seq_iter(self) -> (iter: SeqIterator<'a>)
        ensures
            iter.remaining() == self.stream(),
            !iter.is_reverse(),
    ;
}

impl<'a> IntoSeqIterator<'a> for &'a [u8] {
    open spec fn stream(self) -> Seq<u8> {
        self@
    }

    fn into_seq_iter(self) -> (iter: SeqIterator<'a>) {
        SeqIterator { bytes: self, position: 0, reverse: false }
    }
}

impl<'a> IntoSeqIterator<'a> for &'a Vec<u8> {
    open spec fn stream(self) -> Seq<u8> {
        self@
    }

    fn into_seq_iter(self) -> (iter: SeqIterator<'a>) {
        SeqIterator { bytes: self.as_slice(), position: 0, reverse: false }
    }
}

impl<'a> SeqIterator<'a> {
    #[verifier::type_invariant]
    spec fn in_bounds(self) -> bool {
        self.position <= self.bytes@.len()
    }

    /// The bytes that are still to be decoded.
    pub closed spec fn remaining(self) -> Seq<u8> {
        self.bytes@.skip(self.position as int)
    }

    /// Whether reverse video is on for the next byte.
    pub closed spec fn is_reverse(self) -> bool {
        self.reverse
    }

    /// Decodes the next byte of the stream, or returns `None` at its end.
    ///
    /// A reverse code sets the state for the bytes after it; every other
    /// byte, clear-screen included, leaves the state as it is.
    pub fn next(&mut self) -> (element: Option<SeqElement>)
        ensures
            old(self).remaining().len() == 0 ==> element is None && *final(self) == *old(self),
            old(self).remaining().len() > 0 ==> {
                let byte = old(self).remaining()[0];
                &&& element == Some(decode_byte(byte, old(self).is_reverse()))
                &&& final(self).remaining() == old(self).remaining().skip(1)
                &&& final(self).is_reverse() == reverse_after_byte(byte, old(self).is_reverse())
            },
    {
        proof {
            use_type_invariant(&*self);
        }
        if self.position < self.bytes.len() {
            let byte = self.bytes[self.position];
            let element = decode_one(byte, self.reverse);
            self.position = self.position + 1;
            if byte == REVERSE_ON {
                self.reverse = true;
            } else if byte == REVERSE_OFF {
                self.reverse = false;
            }
            Some(element)
        } else {
            None
        }
    }

    /// Decodes what is left of the stream, one element for every byte.
    pub fn collect(self) -> (elements: Vec<SeqElement>)
        ensures
            elements@ == decode_from(self.remaining(), self.is_reverse()),
            elements@.len() == self.remaining().len(),
    {
        let mut decoder = self;
        let ghost stream = decoder.remaining();
        let ghost start = decoder.is_reverse();
        let ghost mut done: int = 0;
        let mut elements: Vec<SeqElement> = Vec::new();
        assert(stream.take(0) == Seq::<u8>::empty());
        loop
            invariant
                0 <= done <= stream.len(),
                decoder.remaining() == stream.skip(done),
                decoder.is_reverse() == reverse_after(stream.take(done), start),
                elements@ == decode_from(stream.take(done), start),
            ensures
                done == stream.len(),
                elements@ == decode_from(stream.take(done), start),
            decreases stream.len() - done,
        {
            match decoder.next() {
                None => {
                    break ;
                },
                Some(element) => {
                    proof {
                        let before = stream.take(done);
                        let byte = stream[done];
                        assert(stream.skip(done)[0] == byte);
                        assert(stream.take(done + 1) == before.push(byte));
                        assert(stream.skip(done).skip(1) == stream.skip(done + 1));
                        assert(before.push(byte).drop_last() == before);
                        lemma_decode_push(before, byte, start);
                        done = done + 1;
                    }
                    elements.push(element);
                },
            }
        }
        assert(stream.take(done) == stream);
        elements
    }
}

// What holds of the decoder, for every byte and every stream.

/// What holds of every byte: a control code decodes to the element that
/// its table entry names, whatever the state; every other byte decodes to a
/// character whose code is below `0x80` with reverse video off and has
/// `0x80` added, which sets the high bit, with reverse video on.
pub proof fn lemma_decode_byte(byte: u8, reverse: bool)
    ensures
        !is_control(byte) ==> screen_code(byte) < 0x80,
        is_control(byte) <==> !(decode_byte(byte, reverse) is Character),
        is_control(byte) ==> decode_byte(byte, reverse) == decode_byte(byte, !reverse),
        !is_control(byte) ==> decode_byte(byte, false) == SeqElement::Character(screen_code(byte)),
        !is_control(byte) ==> decode_byte(byte, true) == SeqElement::Character(
            screen_code(byte) | 0x80,
        ),
{
    let code = screen_code(byte);
    assert(code < 0x80 ==> (code + 0x80) as u8 == code | 0x80) by (bit_vector);
}

/// The last byte of the table, `0xff`, is the glyph `0x5e` in either
/// state, but for the `0x80` that reverse video adds.
pub proof fn lemma_decode_last_byte(reverse: bool)
    ensures
        decode_byte(0xff, false) == SeqElement::Character(0x5e),
        decode_byte(0xff, true) == SeqElement::Character(0xde),
        decode_byte(0xff, reverse) == SeqElement::Character(
            if reverse {
                0xde
            } else {
                0x5e
            },
        ),
{
}

/// Every byte decodes to one element.
pub proof fn lemma_decode_len(bytes: Seq<u8>, start: bool)
    ensures
        decode_from(bytes, start).len() == bytes.len(),
        decode(bytes).len() == bytes.len(),
{
}

/// Decoding a stream that is one byte longer adds one element, decoded in
/// the state that the stream before it has left.
pub proof fn lemma_decode_push(bytes: Seq<u8>, byte: u8, start: bool)
    ensures
        decode_from(bytes.push(byte), start) == decode_from(bytes, start).push(
            decode_byte(byte, reverse_after(bytes, start)),
        ),
{
    let longer = bytes.push(byte);
    assert(longer.take(bytes.len() as int) == bytes);
    assert forall|i: int| 0 <= i < bytes.len() implies #[trigger] longer.take(i) == bytes.take(
        i,
    ) by {}
    assert(decode_from(longer, start) =~= decode_from(bytes, start).push(
        decode_byte(byte, reverse_after(bytes, start)),
    ));
}

/// The state after two streams in a row is the state after the second,
/// started in the state that the first has left.
pub proof fn lemma_reverse_after_concat(first: Seq<u8>, second: Seq<u8>, start: bool)
    ensures
        reverse_after(first + second, start) == reverse_after(
            second,
            reverse_after(first, start),
        ),
    decreases second.len(),
{
    if second.len() == 0 {
        assert(first + second == first);
    } else {
        lemma_reverse_after_concat(first, second.drop_last(), start);
        assert((first + second).drop_last() == first + second.drop_last());
    }
}

/// A stream can be decoded in two parts: the second part is decoded in the
/// state that the first has left.
pub proof fn lemma_decode_concat(first: Seq<u8>, second: Seq<u8>, start: bool)
    ensures
        decode_from(first + second, start) == decode_from(first, start) + decode_from(
            second,
            reverse_after(first, start),
        ),
    decreases second.len(),
{
    if second.len() == 0 {
        assert(first + second == first);
        assert(decode_from(first, start) + Seq::<SeqElement>::empty() == decode_from(
            first,
            start,
        ));
    } else {
        let shorter = second.drop_last();
        let middle = reverse_after(first, start);
        lemma_decode_concat(first, shorter, start);
        lemma_reverse_after_concat(first, shorter, start);
        assert(first + second == (first + shorter).push(second.last()));
        assert(second == shorter.push(second.last()));
        lemma_decode_push(first + shorter, second.last(), start);
        lemma_decode_push(shorter, second.last(), middle);
        assert(decode_from(first, start) + decode_from(shorter, middle).push(
            decode_byte(second.last(), reverse_after(shorter, middle)),
        ) == (decode_from(first, start) + decode_from(shorter, middle)).push(
            decode_byte(second.last(), reverse_after(shorter, middle)),
        ));
    }
}

/// One byte between two parts of a stream: its element stands between
/// the elements of the parts, and the part after it is decoded in the state
/// that the byte has left.
pub proof fn lemma_decode_around(before: Seq<u8>, byte: u8, after: Seq<u8>, start: bool)
    ensures
        decode_from(before + seq![byte] + after, start) == decode_from(before, start) + seq![
            decode_byte(byte, reverse_after(before, start)),
        ] + decode_from(after, reverse_after_byte(byte, reverse_after(before, start))),
        reverse_after(before + seq![byte], start) == reverse_after_byte(
            byte,
            reverse_after(before, start),
        ),
{
    let longer = before.push(byte);
    assert(before + seq![byte] == longer);
    assert(longer.drop_last() == before);
    lemma_decode_push(before, byte, start);
    lemma_decode_concat(longer, after, start);
    assert(decode_from(before, start).push(decode_byte(byte, reverse_after(before, start)))
        == decode_from(before, start) + seq![decode_byte(byte, reverse_after(before, start))]);
}

/// A clear-screen code in any place of a stream decodes to an element of
/// its own, leaves the state as it is and changes no element after it.
pub proof fn lemma_decode_clear_screen(before: Seq<u8>, after: Seq<u8>)
    ensures
        reverse_after(before + seq![CLEAR_SCREEN], false) == reverse_after(before, false),
        decode(before + seq![CLEAR_SCREEN] + after) == decode(before) + seq![
            SeqElement::ClearScreen,
        ] + decode_from(after, reverse_after(before, false)),
        decode(before + after) == decode(before) + decode_from(after, reverse_after(before, false)),
{
    lemma_decode_around(before, CLEAR_SCREEN, after, false);
    lemma_decode_concat(before, after, false);
}

/// Reverse video that is switched on twice in a row is switched on once:
/// the second code decodes to an element of its own and changes neither
/// the state nor any element after it.
pub proof fn lemma_decode_reverse_on_twice(before: Seq<u8>, after: Seq<u8>)
    ensures
        reverse_after(before + seq![REVERSE_ON, REVERSE_ON], false) == reverse_after(
            before + seq![REVERSE_ON],
            false,
        ),
        decode(before + seq![REVERSE_ON] + after) == decode(before) + seq![
            SeqElement::Reverse(true),
        ] + decode_from(after, true),
        decode(before + seq![REVERSE_ON, REVERSE_ON] + after) == decode(before) + seq![
            SeqElement::Reverse(true),
            SeqElement::Reverse(true),
        ] + decode_from(after, true),
{
    let once = before + seq![REVERSE_ON];
    let on = seq![SeqElement::Reverse(true)];
    assert(before + seq![REVERSE_ON, REVERSE_ON] == once + seq![REVERSE_ON]);
    assert(once + Seq::<u8>::empty() == once);
    assert(decode_from(Seq::<u8>::empty(), true) == Seq::<SeqElement>::empty());
    assert(decode(before) + on + Seq::<SeqElement>::empty() == decode(before) + on);
    assert(decode(before) + on + on == decode(before) + seq![
        SeqElement::Reverse(true),
        SeqElement::Reverse(true),
    ]);
    lemma_decode_around(before, REVERSE_ON, after, false);
    lemma_decode_around(before, REVERSE_ON, Seq::empty(), false);
    lemma_decode_around(once, REVERSE_ON, after, false);
}

/// Reverse video that is switched on and off again leaves the glyphs after
/// it as they are with reverse video off: every byte after the two codes
/// decodes as in a stream that has no reverse code before it.
pub proof fn lemma_decode_reverse_on_off(before: Seq<u8>, after: Seq<u8>)
    ensures
        !reverse_after(before + seq![REVERSE_ON, REVERSE_OFF], false),
        decode(before + seq![REVERSE_ON, REVERSE_OFF] + after) == decode(before) + seq![
            SeqElement::Reverse(true),
            SeqElement::Reverse(false),
        ] + decode_from(after, false),
        !reverse_after(before, false) ==> decode(before + after) == decode(before) + decode_from(
            after,
            false,
        ),
{
    let once = before + seq![REVERSE_ON];
    let on = seq![SeqElement::Reverse(true)];
    let off = seq![SeqElement::Reverse(false)];
    assert(before + seq![REVERSE_ON, REVERSE_OFF] == once + seq![REVERSE_OFF]);
    assert(once + Seq::<u8>::empty() == once);
    assert(decode_from(Seq::<u8>::empty(), true) == Seq::<SeqElement>::empty());
    assert(decode(before) + on + Seq::<SeqElement>::empty() == decode(before) + on);
    assert(decode(before) + on + off == decode(before) + seq![
        SeqElement::Reverse(true),
        SeqElement::Reverse(false),
    ]);
    lemma_decode_around(before, REVERSE_ON, Seq::empty(), false);
    lemma_decode_around(once, REVERSE_OFF, after, false);
    lemma_decode_concat(before, after, false);
}

} // verus!
