//! Color selection: the 16 base colors, the 256-color palette, direct colors, and the
//! graphic-rendition (SGR) sequence that sets the current attributes.
use vstd::prelude::*;

use super::model::{ansi_256_spec, extended_color_spec, sgr_from, TerminalModel};
use super::types::CellAttributes;
use super::TerminalBuffer;
use crate::cells::Color;

verus! {

/// Base color `index` (below 8), from the bright half when `bright`.
pub fn ansi_16_color(index: u8, bright: bool) -> (c: Color)
    requires
        index < 8,
    ensures
        c == (Color::Ansi { index, bright }),
{
    Color::Ansi { index, bright }
}

/// Color `index` of the 256-color palette: 16 base colors, a 6x6x6 cube, 24 grays.
pub fn ansi_256_color(index: u8) -> (c: Color)
    ensures
        c == ansi_256_spec(index),
{
    if index < 8 {
        ansi_16_color(index, false)
    } else if index < 16 {
        ansi_16_color(index - 8, true)
    } else if index < 232 {
        let cube = index - 16;
        Color::Cube { red_level: cube / 36, green_level: (cube % 36) / 6, blue_level: cube % 6 }
    } else {
        Color::Gray { level: index - 232 }
    }
}

/// Reads an extended color (`5;n` or `2;r;g;b`) at the start of the parameters, with the
/// number of parameters it takes.
pub fn parse_extended_color(params: &[Option<usize>]) -> (r: Option<(Color, usize)>)
    ensures
        r == extended_color_spec(params@),
{
    if params.len() == 0 {
        return None;
    }
    match params[0] {
        None => None,
        Some(kind) => {
            if kind == 5 {
                if params.len() > 1 {
                    match params[1] {
                        Some(index) => Some((ansi_256_color((index % 256) as u8), 2)),
                        None => None,
                    }
                } else {
                    None
                }
            } else if kind == 2 {
                if params.len() > 3 {
                    match (params[1], params[2], params[3]) {
                        (Some(red), Some(green), Some(blue)) => Some(
                            (Color::Rgb { red, green, blue }, 4),
                        ),
                        _ => None,
                    }
                } else {
                    None
                }
            } else {
                None
            }
        },
    }
}

/// Applies the graphic-rendition parameters to `attr`.
pub fn apply_graphics_rendition(start: CellAttributes, params: &[Option<usize>]) -> (out:
    CellAttributes)
    ensures
        out == sgr_from(start, params@, 0),
{
    let mut attr = start;
    let mut index: usize = 0;
    while index < params.len()
        invariant
            index <= params@.len(),
            sgr_from(attr, params@, index as int) == sgr_from(start, params@, 0),
        decreases params@.len() - index,
    {
        let param = match params[index] {
            Some(p) => p,
            None => 0,
        };
        let ghost before = attr;
        let ghost at = index;
        if param == 0 {
            attr = CellAttributes::initial_attributes();
        } else if 30 <= param && param <= 37 {
            attr.fg = ansi_16_color((param - 30) as u8, false);
        } else if 40 <= param && param <= 47 {
            attr.bg = ansi_16_color((param - 40) as u8, false);
        } else if 90 <= param && param <= 97 {
            attr.fg = ansi_16_color((param - 90) as u8, true);
        } else if 100 <= param && param <= 107 {
            attr.bg = ansi_16_color((param - 100) as u8, true);
        } else if param == 39 {
            attr.fg = Color::DefaultFg;
        } else if param == 49 {
            attr.bg = Color::DefaultBg;
        } else if param == 38 || param == 48 {
            let rest = vstd::slice::slice_subrange(params, index + 1, params.len());
            match parse_extended_color(rest) {
                Some((color, consumed)) => {
                    if param == 38 {
                        attr.fg = color;
                    } else {
                        attr.bg = color;
                    }
                    index = index + consumed;
                },
                None => {},
            }
        }
        index = index + 1;
        assert(sgr_from(before, params@, at as int) == sgr_from(attr, params@, index as int));
    }
    attr
}

impl TerminalBuffer {
    /// Runs a graphic-rendition sequence; no parameters means a reset.
    pub(crate) fn set_graphics_rendition(&mut self, params: &[Option<usize>])
        requires
            old(self).wf(),
        ensures
            final(self)@ == old(self)@.set_graphics_rendition(params@),
            final(self).wf(),
    {
        if params.len() == 0 {
            let reset: Vec<Option<usize>> = vec![Some(0)];
            assert(reset@ =~= seq![Some(0usize)]);
            self.current_attr = apply_graphics_rendition(self.current_attr, reset.as_slice());
        } else {
            self.current_attr = apply_graphics_rendition(self.current_attr, params);
        }
        assert(self@ =~= old(self)@.set_graphics_rendition(params@));
    }
}

} // verus!
