//! The conversion of a SEQ stream into the bytes of an XBIN file.

use vstd::prelude::*;
use crate::screen::{
    cells, compose, lemma_clear_screen_is_ignored, lemma_two_bytes_per_glyph,
    without_clear_screen,
};
use crate::seq::seq2xb_error::Seq2XBinError;
use crate::seq::seq_iterator::{decode, glyph_count, C64Color, IntoSeqIterator};
use crate::xbin_header::{lemma_header_layout, XBinColor, XBinHeader};

verus! {

/// The width of a screen where none is asked for.
pub const DEFAULT_COLUMNS: u16 = 40;

/// The height of a glyph of the fonts that a converted screen is shown in.
pub const FONT_HEIGHT: u8 = 8;

/// The width that a request for `columns` columns stands for: the default
/// where nothing is asked, and an error where zero is.
pub open spec fn spec_column_count(columns: Option<u16>) -> Result<u16, Seq2XBinError> {
    match columns {
        Some(width) => if width == 0 {
            Err(Seq2XBinError::InvalidColumnValue)
        } else {
            Ok(width)
        },
        None => Ok(DEFAULT_COLUMNS),
    }
}

/// The background colour that a request for `background` stands for: blue
/// where nothing is asked. The value is not held to `0..=15`.
pub open spec fn spec_background(background: Option<u8>) -> u8 {
    match background {
        Some(color) => color,
        None => C64Color::Blue.index(),
    }
}

/// The number of whole rows that `cell_count` cells fill on a screen
/// `width` columns wide, as the 16 bits of a header hold it. Cells that do
/// not fill a row are not counted.
pub open spec fn spec_screen_height(cell_count: nat, width: u16) -> u16 {
    ((cell_count / width as nat) % 0x1_0000) as u16
}

/// The header of a converted screen: its palette and font are present, its
/// cells are not compressed, and its attributes do not blink.
pub open spec fn spec_screen_header(
    width: u16,
    cell_count: nat,
    palette: Vec<XBinColor>,
    font: Vec<u8>,
) -> XBinHeader {
    XBinHeader {
        width,
        height: spec_screen_height(cell_count, width),
        font_height: FONT_HEIGHT,
        palette: Some(palette),
        font: Some(font),
        compressed: false,
        non_blink: true,
    }
}

/// The bytes of the XBIN file for a screen: the header, then every cell of
/// the screen, also those of a last row that is not full.
pub open spec fn spec_container(
    width: u16,
    palette: Vec<XBinColor>,
    font: Vec<u8>,
    screen: Seq<u8>,
) -> Seq<u8> {
    spec_screen_header(width, screen.len() / 2, palette, font).spec_bytes() + screen
}

/// What a conversion gives: the bytes of the XBIN file, or the error of a
/// request for zero columns.
pub open spec fn spec_convert(
    input: Seq<u8>,
    background: Option<u8>,
    columns: Option<u16>,
    palette: Vec<XBinColor>,
    font: Vec<u8>,
) -> Result<Seq<u8>, Seq2XBinError> {
    match spec_column_count(columns) {
        Err(error) => Err(error),
        Ok(width) => Ok(
            spec_container(
                width,
                palette,
                font,
                cells(decode(input), spec_background(background)),
            ),
        ),
    }
}

/// Reads a palette, one colour in base sixteen per line. A line that is
/// no colour spoils the whole palette.
pub fn parse_palette(lines: &[&str]) -> (palette: Option<Vec<XBinColor>>)
    ensures
        palette is Some <==> forall|i: int|
            0 <= i < lines@.len() ==> XBinColor::spec_from_hex(#[trigger] lines@[i]@) is Some,
        palette matches Some(colors) ==> colors@.len() == lines@.len() && forall|i: int|
            0 <= i < lines@.len() ==> XBinColor::spec_from_hex(#[trigger] lines@[i]@) == Some(
                colors@[i],
            ),
{
    let mut colors: Vec<XBinColor> = Vec::new();
    let mut i: usize = 0;
    while i < lines.len()
        invariant
            i <= lines@.len(),
            colors@.len() == i,
            forall|j: int|
                0 <= j < i ==> XBinColor::spec_from_hex(#[trigger] lines@[j]@) == Some(colors@[j]),
        decreases lines@.len() - i,
    {
        match XBinColor::from_hex(lines[i]) {
            Some(color) => {
                colors.push(color);
            },
            None => {
                return None;
            },
        }
        i = i + 1;
    }
    Some(colors)
}

/// Checks the number of columns that was asked for.
pub fn column_count(columns: Option<u16>) -> (width: Result<u16, Seq2XBinError>)
    ensures
        width == spec_column_count(columns),
        width is Err <==> columns == Some(0u16),
{
    match columns {
        Some(0) => Err(Seq2XBinError::InvalidColumnValue),
        Some(width) => Ok(width),
        None => Ok(DEFAULT_COLUMNS),
    }
}

/// Counts the whole rows that `cell_count` cells fill on a screen `width`
/// columns wide, which must not be zero. A number of rows above `u16::MAX`
/// keeps its low 16 bits.
pub fn screen_height(cell_count: usize, width: u16) -> (height: u16)
    requires
        width != 0,
    ensures
        height == spec_screen_height(cell_count as nat, width),
        cell_count / (width as usize) <= u16::MAX ==> height == cell_count / (width as usize),
{
    let rows: usize = cell_count / (width as usize);
    (rows % 0x1_0000) as u16
}

/// Builds the header of a converted screen of `cell_count` cells in rows
/// of `width` columns, which must not be zero.
pub fn screen_header(
    width: u16,
    cell_count: usize,
    palette: Vec<XBinColor>,
    font: Vec<u8>,
) -> (header: XBinHeader)
    requires
        width != 0,
    ensures
        header == spec_screen_header(width, cell_count as nat, palette, font),
{
    XBinHeader {
        width,
        height: screen_height(cell_count, width),
        font_height: FONT_HEIGHT,
        palette: Some(palette),
        font: Some(font),
        compressed: false,
        non_blink: true,
    }
}

/// Converts a SEQ stream into the bytes of an XBIN file that holds the
/// given palette and font.
///
/// The screen is 40 columns wide and blue where nothing else is asked for.
/// The conversion is refused, before anything else is done, where zero
/// columns are asked for; otherwise it succeeds. The background is taken
/// as it is given: of a value above 15 only the low four bits count.
pub fn convert(
    input: &[u8],
    background: Option<u8>,
    columns: Option<u16>,
    palette: Vec<XBinColor>,
    font: Vec<u8>,
) -> (output: Result<Vec<u8>, Seq2XBinError>)
    ensures
        output is Err <==> columns == Some(0u16),
        match spec_convert(input@, background, columns, palette, font) {
            Err(error) => output == Err::<Vec<u8>, Seq2XBinError>(error),
            Ok(expected) => output matches Ok(bytes) && bytes@ == expected,
        },
        output matches Ok(bytes) ==> bytes@.len() == 11 + 3 * palette@.len() + font@.len() + 2
            * glyph_count(input@),
{
    let width = match column_count(columns) {
        Ok(width) => width,
        Err(error) => {
            return Err(error);
        },
    };
    let fill = background.unwrap_or(u8::from(C64Color::Blue));
    let mut screen = compose(input.into_seq_iter(), fill);
    let header = screen_header(width, screen.len() / 2, palette, font);
    let mut bytes = header.as_bytes();
    bytes.append(&mut screen);
    proof {
        lemma_convert_layout(input@, background, columns, palette, font);
    }
    Ok(bytes)
}

// What holds of every conversion.

/// A conversion takes no notice of clear-screen codes: the stream without
/// them converts to the same bytes, or to the same error.
pub proof fn lemma_convert_ignores_clear_screen(
    input: Seq<u8>,
    background: Option<u8>,
    columns: Option<u16>,
    palette: Vec<XBinColor>,
    font: Vec<u8>,
)
    ensures
        spec_convert(without_clear_screen(input), background, columns, palette, font)
            == spec_convert(input, background, columns, palette, font),
{
    lemma_clear_screen_is_ignored(
        input,
        false,
        C64Color::LightBlue,
        spec_background(background),
    );
}

/// What a converted file holds: the header of eleven bytes, three bytes
/// for each palette entry, the font, and at its end two bytes for every
/// byte of the stream that is no control code. The height in the header is
/// the number of rows that these cells fill: the cells of a last row that
/// is not full are in the file, but not in the height.
pub proof fn lemma_convert_layout(
    input: Seq<u8>,
    background: Option<u8>,
    columns: Option<u16>,
    palette: Vec<XBinColor>,
    font: Vec<u8>,
)
    requires
        columns != Some(0u16),
    ensures
        spec_convert(input, background, columns, palette, font) matches Ok(bytes) && {
            &&& bytes.len() == 11 + 3 * palette@.len() + font@.len() + 2 * glyph_count(input)
            &&& bytes.subrange(7, 9) == crate::xbin_header::le_bytes(
                spec_screen_height(glyph_count(input), spec_column_count(columns).unwrap()),
            )
            &&& bytes.subrange(bytes.len() - 2 * glyph_count(input), bytes.len() as int) == cells(
                decode(input),
                spec_background(background),
            )
        },
{
    let width = spec_column_count(columns).unwrap();
    let screen = cells(decode(input), spec_background(background));
    let header = spec_screen_header(width, screen.len() / 2, palette, font);
    lemma_two_bytes_per_glyph(input, false, C64Color::LightBlue, spec_background(background));
    lemma_header_layout(header);
    let bytes = header.spec_bytes() + screen;
    assert(bytes.subrange(7, 9) == header.spec_bytes().subrange(7, 9));
    assert(bytes.subrange(bytes.len() - 2 * glyph_count(input), bytes.len() as int) == screen);
}

} // verus!
