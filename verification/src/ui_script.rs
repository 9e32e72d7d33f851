//! What UI scripts hand to the controller: colors, text alignment, the
//! draw commands they record, and the checks made on their requests.
use vstd::prelude::*;

use crate::osc::FloatBits;
use crate::osc::TRACK_COUNT;
use crate::text::str_eq;

verus! {

/// An RGBA color with 8-bit channels, not premultiplied.
#[derive(Debug, Clone, Copy, PartialEq, Eq, Structural)]
pub struct Color {
    pub r: u8,
    pub g: u8,
    pub b: u8,
    pub a: u8,
}

impl Color {
    /// The color that a script's color table describes: its `r`, `g` and `b`
    /// fields, and its `a` field or, where it has none, full opacity.
    pub fn from_channels(r: u8, g: u8, b: u8, a: Option<u8>) -> (c: Color)
        ensures
            c == (Color {
                r,
                g,
                b,
                a: match a {
                    Some(v) => v,
                    None => 255,
                },
            }),
    {
        let alpha = match a {
            Some(v) => v,
            None => 255,
        };
        Color { r, g, b, a: alpha }
    }
}

/// Horizontal anchoring of text.
#[derive(Debug, Clone, Copy, PartialEq, Eq, Structural)]
pub enum HorizontalAlign {
    Left,
    Center,
    Right,
}

/// Vertical anchoring of text.
#[derive(Debug, Clone, Copy, PartialEq, Eq, Structural)]
pub enum VerticalAlign {
    Top,
    Center,
    Bottom,
}

/// The horizontal alignment that a script names: `left`, `center` or
/// `right`.
pub open spec fn horizontal_align_named(name: Seq<char>) -> Option<HorizontalAlign> {
    if name == "left"@ {
        Some(HorizontalAlign::Left)
    } else if name == "center"@ {
        Some(HorizontalAlign::Center)
    } else if name == "right"@ {
        Some(HorizontalAlign::Right)
    } else {
        None
    }
}

/// The vertical alignment that a script names: `top`, `center` or
/// `bottom`.
pub open spec fn vertical_align_named(name: Seq<char>) -> Option<VerticalAlign> {
    if name == "top"@ {
        Some(VerticalAlign::Top)
    } else if name == "center"@ {
        Some(VerticalAlign::Center)
    } else if name == "bottom"@ {
        Some(VerticalAlign::Bottom)
    } else {
        None
    }
}

impl HorizontalAlign {
    /// The alignment named `name`, if any.
    pub fn from_name(name: &str) -> (r: Option<HorizontalAlign>)
        ensures
            r == horizontal_align_named(name@),
    {
        if str_eq(name, "left") {
            Some(HorizontalAlign::Left)
        } else if str_eq(name, "center") {
            Some(HorizontalAlign::Center)
        } else if str_eq(name, "right") {
            Some(HorizontalAlign::Right)
        } else {
            None
        }
    }
}

impl VerticalAlign {
    /// The alignment named `name`, if any.
    pub fn from_name(name: &str) -> (r: Option<VerticalAlign>)
        ensures
            r == vertical_align_named(name@),
    {
        if str_eq(name, "top") {
            Some(VerticalAlign::Top)
        } else if str_eq(name, "center") {
            Some(VerticalAlign::Center)
        } else if str_eq(name, "bottom") {
            Some(VerticalAlign::Bottom)
        } else {
            None
        }
    }
}

/// One drawing step recorded by a script. Coordinates and sizes are floats,
/// held by their bit patterns.
#[derive(Debug, Clone, PartialEq)]
pub enum DrawCommand {
    DrawOutlinedRect { x: FloatBits, y: FloatBits, width: FloatBits, height: FloatBits, color: Color },
    DrawFilledRect { x: FloatBits, y: FloatBits, width: FloatBits, height: FloatBits, color: Color },
    SetFont { font_name: String, size: FloatBits },
    SetTextColor { color: Color },
    SetTextAlign { h_align: HorizontalAlign, v_align: VerticalAlign },
    DrawText { text: String, x: FloatBits, y: FloatBits },
    DrawCircle { x: FloatBits, y: FloatBits, radius: FloatBits, color: Color },
}

/// The drawing operations that a script can call.
pub trait LuaGraphicsContext {
    fn draw_outlined_rect(
        &mut self,
        x: FloatBits,
        y: FloatBits,
        width: FloatBits,
        height: FloatBits,
        color: Color,
    );

    fn draw_filled_rect(
        &mut self,
        x: FloatBits,
        y: FloatBits,
        width: FloatBits,
        height: FloatBits,
        color: Color,
    );

    fn set_font(&mut self, font_name: &str, size: FloatBits);

    fn set_text_color(&mut self, color: Color);

    fn set_text_align(&mut self, h_align: HorizontalAlign, v_align: VerticalAlign);

    fn draw_text(&mut self, text: &str, x: FloatBits, y: FloatBits);

    fn draw_circle(&mut self, x: FloatBits, y: FloatBits, radius: FloatBits, color: Color);
}

/// The commands that a script records while it draws one frame, in the
/// order of its calls.
#[derive(Debug, Clone)]
pub struct LuaGraphics {
    pub commands: Vec<DrawCommand>,
}

impl LuaGraphics {
    /// A recorder with no commands.
    pub fn new() -> (g: LuaGraphics)
        ensures
            g.commands@.len() == 0,
    {
        LuaGraphics { commands: Vec::new() }
    }
}

impl LuaGraphicsContext for LuaGraphics {
    /// Records an outlined rectangle after the earlier commands.
    fn draw_outlined_rect(
        &mut self,
        x: FloatBits,
        y: FloatBits,
        width: FloatBits,
        height: FloatBits,
        color: Color,
    )
        ensures
            final(self).commands@ == old(self).commands@.push(
                DrawCommand::DrawOutlinedRect { x, y, width, height, color },
            ),
    {
        self.commands.push(DrawCommand::DrawOutlinedRect { x, y, width, height, color });
    }

    /// Records a filled rectangle after the earlier commands.
    fn draw_filled_rect(
        &mut self,
        x: FloatBits,
        y: FloatBits,
        width: FloatBits,
        height: FloatBits,
        color: Color,
    )
        ensures
            final(self).commands@ == old(self).commands@.push(
                DrawCommand::DrawFilledRect { x, y, width, height, color },
            ),
    {
        self.commands.push(DrawCommand::DrawFilledRect { x, y, width, height, color });
    }

    /// Records a change of font after the earlier commands.
    fn set_font(&mut self, font_name: &str, size: FloatBits)
        ensures
            final(self).commands@.len() == old(self).commands@.len() + 1,
            final(self).commands@.drop_last() == old(self).commands@,
            final(self).commands@.last() matches DrawCommand::SetFont { font_name: f, size: s }
                && f@ == font_name@ && s == size,
    {
        self.commands.push(DrawCommand::SetFont { font_name: font_name.to_owned(), size });
        assert(self.commands@.drop_last() =~= old(self).commands@);
    }

    /// Records a change of text color after the earlier commands.
    fn set_text_color(&mut self, color: Color)
        ensures
            final(self).commands@ == old(self).commands@.push(DrawCommand::SetTextColor { color }),
    {
        self.commands.push(DrawCommand::SetTextColor { color });
    }

    /// Records a change of text alignment after the earlier commands.
    fn set_text_align(&mut self, h_align: HorizontalAlign, v_align: VerticalAlign)
        ensures
            final(self).commands@ == old(self).commands@.push(
                DrawCommand::SetTextAlign { h_align, v_align },
            ),
    {
        self.commands.push(DrawCommand::SetTextAlign { h_align, v_align });
    }

    /// Records a text after the earlier commands.
    fn draw_text(&mut self, text: &str, x: FloatBits, y: FloatBits)
        ensures
            final(self).commands@.len() == old(self).commands@.len() + 1,
            final(self).commands@.drop_last() == old(self).commands@,
            final(self).commands@.last() matches DrawCommand::DrawText { text: t, x: tx, y: ty }
                && t@ == text@ && tx == x && ty == y,
    {
        self.commands.push(DrawCommand::DrawText { text: text.to_owned(), x, y });
        assert(self.commands@.drop_last() =~= old(self).commands@);
    }

    /// Records a filled circle after the earlier commands.
    fn draw_circle(&mut self, x: FloatBits, y: FloatBits, radius: FloatBits, color: Color)
        ensures
            final(self).commands@ == old(self).commands@.push(
                DrawCommand::DrawCircle { x, y, radius, color },
            ),
    {
        self.commands.push(DrawCommand::DrawCircle { x, y, radius, color });
    }
}

/// Whether a script may address track `track_index`: tracks count from 1
/// to the number of mirrored tracks.
pub fn is_valid_track_index(track_index: usize) -> (r: bool)
    ensures
        r == (1 <= track_index <= TRACK_COUNT),
{
    track_index != 0 && track_index <= TRACK_COUNT
}

/// The bit pattern of the float that stands for a flag in a track control:
/// `1.0` for set, `0.0` for clear.
pub fn flag_control_value(flag: bool) -> (r: FloatBits)
    ensures
        r == (if flag {
            0x3f80_0000u32
        } else {
            0u32
        }),
{
    if flag {
        0x3f80_0000
    } else {
        0
    }
}

} // verus!
