use vstd::prelude::*;
use crate::error::{Error, ErrorV};
use crate::style::Color;

verus! {

/// The fixed colour table: the sixteen colours of the Solarized palette.
///
/// The eight neutral "base" colours map to `Some(None)`, meaning "inherit the
/// terminal's default foreground", so output stays legible on light and dark
/// backgrounds alike. The eight accent colours map to their terminal colour.
/// Any triple outside the table yields `None`: an unrecognized colour, which
/// the mapper treats as fatal.
pub open spec fn palette_spec(r: u8, g: u8, b: u8) -> Option<Option<Color>> {
    if (r == 0x00 && g == 0x2b && b == 0x36) || (r == 0x07 && g == 0x36 && b == 0x42) || (r
        == 0x58 && g == 0x6e && b == 0x75) || (r == 0x65 && g == 0x7b && b == 0x83) || (r == 0x83
        && g == 0x94 && b == 0x96) || (r == 0x93 && g == 0xa1 && b == 0xa1) || (r == 0xee && g
        == 0xe8 && b == 0xd5) || (r == 0xfd && g == 0xf6 && b == 0xe3) {
        Some(None)
    } else if r == 0xb5 && g == 0x89 && b == 0x00 {
        Some(Some(Color::Yellow))
    } else if r == 0xcb && g == 0x4b && b == 0x16 {
        Some(Some(Color::BrightRed))
    } else if r == 0xdc && g == 0x32 && b == 0x2f {
        Some(Some(Color::Red))
    } else if r == 0xd3 && g == 0x36 && b == 0x82 {
        Some(Some(Color::Purple))
    } else if r == 0x6c && g == 0x71 && b == 0xc4 {
        Some(Some(Color::BrightPurple))
    } else if r == 0x26 && g == 0x8b && b == 0xd2 {
        Some(Some(Color::Blue))
    } else if r == 0x2a && g == 0xa1 && b == 0x98 {
        Some(Some(Color::Cyan))
    } else if r == 0x85 && g == 0x99 && b == 0x00 {
        Some(Some(Color::Green))
    } else {
        None
    }
}

/// Maps a 24-bit colour triple to a terminal colour through the fixed table:
/// `Ok(None)` inherits the terminal default, `Ok(Some(c))` selects colour `c`,
/// and a triple outside the table is fatal and returns the palette error
/// carrying the triple, never a silently approximated colour.
pub fn map_color(r: u8, g: u8, b: u8) -> (res: Result<Option<Color>, Error>)
    ensures
        match palette_spec(r, g, b) {
            Some(c) => res == Ok::<Option<Color>, Error>(c),
            None => res matches Err(e) && e@ == ErrorV::Palette(r, g, b),
        },
{
    if (r == 0x00 && g == 0x2b && b == 0x36) || (r == 0x07 && g == 0x36 && b == 0x42) || (r
        == 0x58 && g == 0x6e && b == 0x75) || (r == 0x65 && g == 0x7b && b == 0x83) || (r == 0x83
        && g == 0x94 && b == 0x96) || (r == 0x93 && g == 0xa1 && b == 0xa1) || (r == 0xee && g
        == 0xe8 && b == 0xd5) || (r == 0xfd && g == 0xf6 && b == 0xe3) {
        Ok(None)
    } else if r == 0xb5 && g == 0x89 && b == 0x00 {
        Ok(Some(Color::Yellow))
    } else if r == 0xcb && g == 0x4b && b == 0x16 {
        Ok(Some(Color::BrightRed))
    } else if r == 0xdc && g == 0x32 && b == 0x2f {
        Ok(Some(Color::Red))
    } else if r == 0xd3 && g == 0x36 && b == 0x82 {
        Ok(Some(Color::Purple))
    } else if r == 0x6c && g == 0x71 && b == 0xc4 {
        Ok(Some(Color::BrightPurple))
    } else if r == 0x26 && g == 0x8b && b == 0xd2 {
        Ok(Some(Color::Blue))
    } else if r == 0x2a && g == 0xa1 && b == 0x98 {
        Ok(Some(Color::Cyan))
    } else if r == 0x85 && g == 0x99 && b == 0x00 {
        Ok(Some(Color::Green))
    } else {
        Err(Error::Palette(r, g, b))
    }
}

} // verus!
