//! The XBIN container header, with its optional palette and font blocks.
//!
//! All integers of the header are little-endian:
//!
//! | offset | bytes | field                                      |
//! |--------|-------|--------------------------------------------|
//! | 0      | 5     | the magic, `XBIN` and `0x1a`               |
//! | 5      | 2     | width in cells                             |
//! | 7      | 2     | height in cells                            |
//! | 9      | 1     | height of a font glyph in rows             |
//! | 10     | 1     | flags                                      |
//! | 11     | 3 each| the palette, if its flag is set            |
//! | then   | any   | the font, if its flag is set               |

use vstd::prelude::*;

verus! {

/// One palette entry: red, green and blue, each meant to be in `0..=63`.
#[derive(Clone, Copy, Debug, PartialEq, Eq, Structural)]
pub struct XBinColor {
    pub r: u8,
    pub g: u8,
    pub b: u8,
}

/// An XBIN header together with the palette and the font that follow it.
#[derive(Debug, PartialEq, Eq)]
pub struct XBinHeader {
    /// The number of columns of the screen.
    pub width: u16,
    /// The number of rows of the screen.
    pub height: u16,
    /// The number of pixel rows of a glyph of the font.
    pub font_height: u8,
    /// The palette, sixteen entries where it is there.
    pub palette: Option<Vec<XBinColor>>,
    /// The bitmap of the font, written out as it is.
    pub font: Option<Vec<u8>>,
    /// Whether the cells after the header are compressed.
    pub compressed: bool,
    /// Whether the high bit of an attribute is colour rather than blink.
    pub non_blink: bool,
}

/// The flag bit of a header that is followed by a palette.
pub const FLAG_PALETTE: u8 = 1;

/// The flag bit of a header that is followed by a font.
pub const FLAG_FONT: u8 = 2;

/// The flag bit of compressed cells.
pub const FLAG_COMPRESSED: u8 = 4;

/// The flag bit of non-blink attributes.
pub const FLAG_NON_BLINK: u8 = 8;

/// The five bytes that every XBIN file starts with: `XBIN`, then `0x1a`.
pub open spec fn magic() -> Seq<u8> {
    seq![0x58u8, 0x42u8, 0x49u8, 0x4eu8, 0x1au8]
}

/// The two bytes of a 16-bit number, the low byte first.
pub open spec fn le_bytes(value: u16) -> Seq<u8> {
    seq![(value % 256) as u8, (value / 256) as u8]
}

/// The bytes of a palette block: red, green and blue of each entry, in the
/// order of the entries.
pub open spec fn palette_bytes(palette: Seq<XBinColor>) -> Seq<u8> {
    Seq::new(
        3 * palette.len(),
        |i: int|
            if i % 3 == 0 {
                palette[i / 3].r
            } else if i % 3 == 1 {
                palette[i / 3].g
            } else {
                palette[i / 3].b
            },
    )
}

/// The value of a hexadecimal digit, in either case.
pub open spec fn hex_digit(c: char) -> Option<nat> {
    if '0' <= c <= '9' {
        Some((c as nat - '0' as nat) as nat)
    } else if 'a' <= c <= 'f' {
        Some((c as nat - 'a' as nat + 10) as nat)
    } else if 'A' <= c <= 'F' {
        Some((c as nat - 'A' as nat + 10) as nat)
    } else {
        None
    }
}

/// The number that `digits` write in base sixteen, the last digit counting
/// least. `None` if there is no digit, or a character that is none.
pub open spec fn hex_number(digits: Seq<char>) -> Option<nat>
    decreases digits.len(),
{
    if digits.len() == 0 {
        None
    } else {
        match hex_digit(digits.last()) {
            None => None,
            Some(digit) => if digits.len() == 1 {
                Some(digit)
            } else {
                match hex_number(digits.drop_last()) {
                    None => None,
                    Some(number) => Some(16 * number + digit),
                }
            },
        }
    }
}

/// The byte that `text` writes in base sixteen: an optional `+`, then one
/// or more hexadecimal digits whose number is at most 255.
pub open spec fn hex_byte(text: Seq<char>) -> Option<u8> {
    let digits = if text.len() > 0 && text[0] == '+' {
        text.skip(1)
    } else {
        text
    };
    match hex_number(digits) {
        Some(number) => if number <= 255 {
            Some(number as u8)
        } else {
            None
        },
        None => None,
    }
}

/// Parses a byte in base sixteen by a call of `u8::from_str_radix` with
/// radix 16, and turns its error into `None`. The call is not verified:
/// the contract is taken from the documentation of the standard library.
/// The text is an optional `+` sign followed by digits only, which are
/// `0-9`, `a-f` and `A-F`; a text without a digit, any other character,
/// white space included, and a number above `u8::MAX` are errors.
#[verifier::external_body]
fn parse_hex_byte(text: &str) -> (byte: Option<u8>)
    ensures
        byte == hex_byte(text@),
{
    u8::from_str_radix(text, 16).ok()
}

impl XBinColor {
    /// The palette entry of a 24-bit colour: every 8-bit channel divided by
    /// four, rounding down.
    pub open spec fn spec_from_24bits(r: u8, g: u8, b: u8) -> XBinColor {
        XBinColor { r: r / 4, g: g / 4, b: b / 4 }
    }

    /// The palette entry that six characters `RRGGBB` write, each pair a
    /// byte in base sixteen. `None` for every other text. A pair is two
    /// digits, or a `+` and one digit.
    pub open spec fn spec_from_hex(text: Seq<char>) -> Option<XBinColor> {
        if text.len() == 6 {
            match (
                hex_byte(text.subrange(0, 2)),
                hex_byte(text.subrange(2, 4)),
                hex_byte(text.subrange(4, 6)),
            ) {
                (Some(r), Some(g), Some(b)) => Some(Self::spec_from_24bits(r, g, b)),
                _ => None,
            }
        } else {
            None
        }
    }

    /// The three bytes of the entry in a palette block.
    pub open spec fn spec_bytes(self) -> Seq<u8> {
        seq![self.r, self.g, self.b]
    }

    /// Reduces a 24-bit colour to the 6 bits per channel of the palette.
    pub fn from_24bits(r: u8, g: u8, b: u8) -> (color: XBinColor)
        ensures
            color == Self::spec_from_24bits(r, g, b),
            color.r <= 63 && color.g <= 63 && color.b <= 63,
    {
        XBinColor { r: r / 4, g: g / 4, b: b / 4 }
    }

    /// Reads a 24-bit colour written as `RRGGBB` in base sixteen and
    /// reduces it to a palette entry. A text of another length, or with a
    /// pair that is no byte in base sixteen, is `None`.
    pub fn from_hex(string: &str) -> (color: Option<XBinColor>)
        ensures
            color == Self::spec_from_hex(string@),
            color matches Some(entry) ==> entry.r <= 63 && entry.g <= 63 && entry.b <= 63,
    {
        broadcast use vstd::string::group_string_axioms;

        if !string.is_ascii() {
            proof {
                let text = string@;
                if Self::spec_from_hex(text) is Some {
                    lemma_hex_byte_ascii(text.subrange(0, 2));
                    lemma_hex_byte_ascii(text.subrange(2, 4));
                    lemma_hex_byte_ascii(text.subrange(4, 6));
                    assert forall|i: int| 0 <= i < text.len() implies '\0' <= #[trigger] text[i]
                        <= '\u{7f}' by {
                        if i < 2 {
                            assert(text[i] == text.subrange(0, 2)[i]);
                        } else if i < 4 {
                            assert(text[i] == text.subrange(2, 4)[i - 2]);
                        } else {
                            assert(text[i] == text.subrange(4, 6)[i - 4]);
                        }
                    }
                }
            }
            None
        } else if string.as_bytes().len() != 6 {
            None
        } else {
            let red = parse_hex_byte(string.substring_ascii(0, 2))?;
            let green = parse_hex_byte(string.substring_ascii(2, 4))?;
            let blue = parse_hex_byte(string.substring_ascii(4, 6))?;
            Some(XBinColor::from_24bits(red, green, blue))
        }
    }

    /// The entry as it stands in a palette block.
    pub fn as_bytes(&self) -> (bytes: Vec<u8>)
        ensures
            bytes@ == self.spec_bytes(),
    {
        vec![self.r, self.g, self.b]
    }
}

impl XBinHeader {
    /// The flag byte: one bit for each block that is present and for each
    /// option that is set.
    pub open spec fn flags(&self) -> u8 {
        (if self.palette is Some {
            FLAG_PALETTE
        } else {
            0u8
        }) | (if self.font is Some {
            FLAG_FONT
        } else {
            0u8
        }) | (if self.compressed {
            FLAG_COMPRESSED
        } else {
            0u8
        }) | (if self.non_blink {
            FLAG_NON_BLINK
        } else {
            0u8
        })
    }

    /// The eleven bytes of the fixed part of the header.
    pub open spec fn fixed_bytes(&self) -> Seq<u8> {
        magic() + le_bytes(self.width) + le_bytes(self.height) + seq![
            self.font_height,
            self.flags(),
        ]
    }

    /// The bytes of the palette block, none where there is no palette.
    pub open spec fn palette_block(&self) -> Seq<u8> {
        match self.palette {
            Some(palette) => palette_bytes(palette@),
            None => Seq::empty(),
        }
    }

    /// The bytes of the font block, none where there is no font.
    pub open spec fn font_block(&self) -> Seq<u8> {
        match self.font {
            Some(font) => font@,
            None => Seq::empty(),
        }
    }

    /// The header as it stands in a file: the fixed part, the palette, the
    /// font.
    pub open spec fn spec_bytes(&self) -> Seq<u8> {
        self.fixed_bytes() + self.palette_block() + self.font_block()
    }

    /// Lays the header out as the bytes of a file, up to the first cell.
    pub fn as_bytes(&self) -> (bytes: Vec<u8>)
        ensures
            bytes@ == self.spec_bytes(),
            bytes@.len() == 11 + self.palette_block().len() + self.font_block().len(),
    {
        let palette_flag: u8 = if self.palette.is_some() {
            FLAG_PALETTE
        } else {
            0
        };
        let font_flag: u8 = if self.font.is_some() {
            FLAG_FONT
        } else {
            0
        };
        let compressed_flag: u8 = if self.compressed {
            FLAG_COMPRESSED
        } else {
            0
        };
        let non_blink_flag: u8 = if self.non_blink {
            FLAG_NON_BLINK
        } else {
            0
        };
        let flags: u8 = palette_flag | font_flag | compressed_flag | non_blink_flag;
        let mut bytes: Vec<u8> = vec![0x58, 0x42, 0x49, 0x4e, 0x1a];
        bytes.push((self.width % 256) as u8);
        bytes.push((self.width / 256) as u8);
        bytes.push((self.height % 256) as u8);
        bytes.push((self.height / 256) as u8);
        bytes.push(self.font_height);
        bytes.push(flags);
        assert(bytes@ =~= self.fixed_bytes());
        if let Some(palette) = &self.palette {
            let mut i: usize = 0;
            while i < palette.len()
                invariant
                    i <= palette.len(),
                    bytes@ == self.fixed_bytes() + palette_bytes(palette@.take(i as int)),
                decreases palette.len() - i,
            {
                let mut entry = palette[i].as_bytes();
                bytes.append(&mut entry);
                i = i + 1;
            }
        }
        if let Some(font) = &self.font {
            bytes.extend_from_slice(font.as_slice());
        }
        bytes
    }
}

// What holds of the layout, for every header, and of colours in base
// sixteen.

/// Two hexadecimal digits write the byte that is sixteen times the first
/// plus the second.
pub proof fn lemma_hex_byte_of_two_digits(high: char, low: char)
    requires
        hex_digit(high) is Some,
        hex_digit(low) is Some,
    ensures
        hex_byte(seq![high, low]) == Some(
            (16 * hex_digit(high).unwrap() + hex_digit(low).unwrap()) as u8,
        ),
        16 * hex_digit(high).unwrap() + hex_digit(low).unwrap() <= 255,
{
    let pair = seq![high, low];
    assert(pair.drop_last() =~= seq![high]);
    reveal_with_fuel(hex_number, 2);
}

/// Six hexadecimal digits write the colour whose channels are the bytes of
/// the three pairs, each divided by four.
pub proof fn lemma_from_hex_of_six_digits(text: Seq<char>)
    requires
        text.len() == 6,
        forall|i: int| 0 <= i < 6 ==> hex_digit(#[trigger] text[i]) is Some,
    ensures
        XBinColor::spec_from_hex(text) == Some(
            XBinColor {
                r: ((16 * hex_digit(text[0]).unwrap() + hex_digit(text[1]).unwrap()) / 4) as u8,
                g: ((16 * hex_digit(text[2]).unwrap() + hex_digit(text[3]).unwrap()) / 4) as u8,
                b: ((16 * hex_digit(text[4]).unwrap() + hex_digit(text[5]).unwrap()) / 4) as u8,
            },
        ),
{
    assert(text.subrange(0, 2) =~= seq![text[0], text[1]]);
    assert(text.subrange(2, 4) =~= seq![text[2], text[3]]);
    assert(text.subrange(4, 6) =~= seq![text[4], text[5]]);
    lemma_hex_byte_of_two_digits(text[0], text[1]);
    lemma_hex_byte_of_two_digits(text[2], text[3]);
    lemma_hex_byte_of_two_digits(text[4], text[5]);
}


/// A palette block takes three bytes for each entry: 48 bytes for the
/// sixteen entries of a full palette.
pub proof fn lemma_palette_bytes_len(palette: Seq<XBinColor>)
    ensures
        palette_bytes(palette).len() == 3 * palette.len(),
        palette.len() == 16 ==> palette_bytes(palette).len() == 48,
        forall|i: int|
            0 <= i < palette.len() ==> #[trigger] palette_bytes(palette).subrange(3 * i, 3 * i + 3)
                == palette[i].spec_bytes(),
{
    assert forall|i: int| 0 <= i < palette.len() implies #[trigger] palette_bytes(palette).subrange(
        3 * i,
        3 * i + 3,
    ) == palette[i].spec_bytes() by {
        assert(palette_bytes(palette).subrange(3 * i, 3 * i + 3) =~= palette[i].spec_bytes());
    }
}

/// The two bytes of a number give the number back, the second byte
/// counting 256 times.
pub proof fn lemma_le_bytes(value: u16)
    ensures
        le_bytes(value).len() == 2,
        value == le_bytes(value)[0] + 256 * le_bytes(value)[1],
{
}

/// Where the fields of a header stand in its bytes.
pub proof fn lemma_header_layout(header: XBinHeader)
    ensures
        header.fixed_bytes().len() == 11,
        header.spec_bytes().len() == 11 + header.palette_block().len()
            + header.font_block().len(),
        header.palette matches Some(palette) ==> header.palette_block().len() == 3
            * palette@.len(),
        header.spec_bytes().subrange(0, 5) == magic(),
        header.spec_bytes().subrange(5, 7) == le_bytes(header.width),
        header.spec_bytes().subrange(7, 9) == le_bytes(header.height),
        header.spec_bytes()[9] == header.font_height,
        header.spec_bytes()[10] == header.flags(),
        header.spec_bytes().subrange(11, 11 + header.palette_block().len() as int)
            == header.palette_block(),
        header.spec_bytes().subrange(
            11 + header.palette_block().len() as int,
            header.spec_bytes().len() as int,
        ) == header.font_block(),
{
    let bytes = header.spec_bytes();
    assert(bytes.subrange(0, 5) =~= magic());
    assert(bytes.subrange(5, 7) =~= le_bytes(header.width));
    assert(bytes.subrange(7, 9) =~= le_bytes(header.height));
    let font_start = 11 + header.palette_block().len() as int;
    assert(bytes.subrange(11, font_start) =~= header.palette_block());
    assert(bytes.subrange(font_start, bytes.len() as int) =~= header.font_block());
}

/// Each flag has a bit of its own, so the flag byte is the sum of the
/// flags that are set, and each bit says whether its flag is.
pub proof fn lemma_flags(header: XBinHeader)
    ensures
        header.flags() == (if header.palette is Some {
            1int
        } else {
            0int
        }) + (if header.font is Some {
            2int
        } else {
            0int
        }) + (if header.compressed {
            4int
        } else {
            0int
        }) + (if header.non_blink {
            8int
        } else {
            0int
        }),
        header.flags() & FLAG_PALETTE != 0 <==> header.palette is Some,
        header.flags() & FLAG_FONT != 0 <==> header.font is Some,
        header.flags() & FLAG_COMPRESSED != 0 <==> header.compressed,
        header.flags() & FLAG_NON_BLINK != 0 <==> header.non_blink,
{
    let p: u8 = if header.palette is Some {
        1
    } else {
        0
    };
    let f: u8 = if header.font is Some {
        2
    } else {
        0
    };
    let c: u8 = if header.compressed {
        4
    } else {
        0
    };
    let n: u8 = if header.non_blink {
        8
    } else {
        0
    };
    assert((p == 0 || p == 1) && (f == 0 || f == 2) && (c == 0 || c == 4) && (n == 0 || n == 8)
        ==> (p | f | c | n) == p + f + c + n && ((p | f | c | n) & 1 != 0 <==> p == 1) && ((p | f
        | c | n) & 2 != 0 <==> f == 2) && ((p | f | c | n) & 4 != 0 <==> c == 4) && ((p | f | c
        | n) & 8 != 0 <==> n == 8)) by (bit_vector);
}

// What the proof of `from_hex` needs of texts in base sixteen.

/// A text that writes a number in base sixteen holds hexadecimal digits
/// only.
proof fn lemma_hex_number_digits(digits: Seq<char>)
    requires
        hex_number(digits) is Some,
    ensures
        forall|i: int| 0 <= i < digits.len() ==> hex_digit(#[trigger] digits[i]) is Some,
    decreases digits.len(),
{
    if digits.len() > 1 {
        lemma_hex_number_digits(digits.drop_last());
        assert forall|i: int| 0 <= i < digits.len() implies hex_digit(
            #[trigger] digits[i],
        ) is Some by {
            if i < digits.len() - 1 {
                assert(digits[i] == digits.drop_last()[i]);
            }
        }
    }
}

/// A text that writes a byte in base sixteen is ASCII.
proof fn lemma_hex_byte_ascii(text: Seq<char>)
    requires
        hex_byte(text) is Some,
    ensures
        vstd::utf8::is_ascii_chars(text),
{
    if text.len() > 0 && text[0] == '+' {
        lemma_hex_number_digits(text.skip(1));
        assert forall|i: int| 0 <= i < text.len() implies '\0' <= #[trigger] text[i]
            <= '\u{7f}' by {
            if i > 0 {
                assert(text[i] == text.skip(1)[i - 1]);
            }
        }
    } else {
        lemma_hex_number_digits(text);
    }
}

} // verus!
