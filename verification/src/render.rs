//! The shapes that a frame's draw commands stand for: drawing commands
//! become shapes, and style commands set the style of the texts after them.
use vstd::prelude::*;

use crate::osc::FloatBits;
use crate::ui_script::Color;
use crate::ui_script::DrawCommand;
use crate::ui_script::HorizontalAlign;
use crate::ui_script::VerticalAlign;

verus! {

/// The style that a text is drawn with.
#[derive(Debug, Clone, Copy, PartialEq, Eq, Structural)]
pub struct TextStyle {
    pub font_size: FloatBits,
    pub color: Color,
    pub h_align: HorizontalAlign,
    pub v_align: VerticalAlign,
}

/// The style of texts before any style command: size `16.0`, opaque white,
/// anchored at the left top.
pub open spec fn default_text_style() -> TextStyle {
    TextStyle {
        font_size: 0x4180_0000u32,
        color: Color { r: 255, g: 255, b: 255, a: 255 },
        h_align: HorizontalAlign::Left,
        v_align: VerticalAlign::Top,
    }
}

/// Computes `default_text_style`.
pub fn initial_text_style() -> (r: TextStyle)
    ensures
        r == default_text_style(),
{
    TextStyle {
        font_size: 0x4180_0000,
        color: Color { r: 255, g: 255, b: 255, a: 255 },
        h_align: HorizontalAlign::Left,
        v_align: VerticalAlign::Top,
    }
}

/// The text style after a command: `SetFont` sets the size (the font's
/// name is not used), `SetTextColor` the color, `SetTextAlign` the
/// alignment; other commands keep the style.
pub open spec fn style_after(st: TextStyle, c: DrawCommand) -> TextStyle {
    match c {
        DrawCommand::SetFont { size, .. } => TextStyle { font_size: size, ..st },
        DrawCommand::SetTextColor { color } => TextStyle { color, ..st },
        DrawCommand::SetTextAlign { h_align, v_align } => TextStyle { h_align, v_align, ..st },
        _ => st,
    }
}

/// A shape to paint. Coordinates and sizes are floats, held by their bit
/// patterns.
#[derive(Debug, Clone, PartialEq)]
pub enum PaintShape {
    FilledRect { x: FloatBits, y: FloatBits, width: FloatBits, height: FloatBits, color: Color },
    OutlinedRect { x: FloatBits, y: FloatBits, width: FloatBits, height: FloatBits, color: Color },
    Circle { x: FloatBits, y: FloatBits, radius: FloatBits, color: Color },
    Text { text: String, x: FloatBits, y: FloatBits, style: TextStyle },
}

/// The mathematical value of a `PaintShape`.
pub enum PaintShapeView {
    FilledRect { x: FloatBits, y: FloatBits, width: FloatBits, height: FloatBits, color: Color },
    OutlinedRect { x: FloatBits, y: FloatBits, width: FloatBits, height: FloatBits, color: Color },
    Circle { x: FloatBits, y: FloatBits, radius: FloatBits, color: Color },
    Text { text: Seq<char>, x: FloatBits, y: FloatBits, style: TextStyle },
}

impl View for PaintShape {
    type V = PaintShapeView;

    open spec fn view(&self) -> PaintShapeView {
        match self {
            PaintShape::FilledRect { x, y, width, height, color } => PaintShapeView::FilledRect {
                x: *x,
                y: *y,
                width: *width,
                height: *height,
                color: *color,
            },
            PaintShape::OutlinedRect { x, y, width, height, color } => PaintShapeView::OutlinedRect {
                x: *x,
                y: *y,
                width: *width,
                height: *height,
                color: *color,
            },
            PaintShape::Circle { x, y, radius, color } => PaintShapeView::Circle {
                x: *x,
                y: *y,
                radius: *radius,
                color: *color,
            },
            PaintShape::Text { text, x, y, style } => PaintShapeView::Text {
                text: text@,
                x: *x,
                y: *y,
                style: *style,
            },
        }
    }
}

/// The values of a list of shapes.
pub open spec fn shapes_view(shapes: Seq<PaintShape>) -> Seq<PaintShapeView> {
    shapes.map_values(|s: PaintShape| s@)
}

/// The shapes that one command paints while the text style is `st`: none
/// for a style command, one for every other command.
pub open spec fn shapes_of(c: DrawCommand, st: TextStyle) -> Seq<PaintShapeView> {
    match c {
        DrawCommand::DrawFilledRect { x, y, width, height, color } => seq![
            PaintShapeView::FilledRect { x, y, width, height, color },
        ],
        DrawCommand::DrawOutlinedRect { x, y, width, height, color } => seq![
            PaintShapeView::OutlinedRect { x, y, width, height, color },
        ],
        DrawCommand::DrawCircle { x, y, radius, color } => seq![
            PaintShapeView::Circle { x, y, radius, color },
        ],
        DrawCommand::DrawText { text, x, y } => seq![
            PaintShapeView::Text { text: text@, x, y, style: st },
        ],
        _ => Seq::empty(),
    }
}

/// The shapes that a list of commands paints, in order, starting with the
/// text style `st`.
pub open spec fn shapes_from(cmds: Seq<DrawCommand>, st: TextStyle) -> Seq<PaintShapeView>
    decreases cmds.len(),
{
    if cmds.len() == 0 {
        Seq::empty()
    } else {
        shapes_of(cmds[0], st) + shapes_from(cmds.drop_first(), style_after(st, cmds[0]))
    }
}

/// The text style after a list of commands, starting with `st`.
pub open spec fn style_after_all(cmds: Seq<DrawCommand>, st: TextStyle) -> TextStyle
    decreases cmds.len(),
{
    if cmds.len() == 0 {
        st
    } else {
        style_after_all(cmds.drop_first(), style_after(st, cmds[0]))
    }
}

fn next_style(st: TextStyle, c: &DrawCommand) -> (r: TextStyle)
    ensures
        r == style_after(st, *c),
{
    match c {
        DrawCommand::SetFont { size, .. } => TextStyle { font_size: *size, ..st },
        DrawCommand::SetTextColor { color } => TextStyle { color: *color, ..st },
        DrawCommand::SetTextAlign { h_align, v_align } => TextStyle {
            h_align: *h_align,
            v_align: *v_align,
            ..st
        },
        _ => st,
    }
}

/// The shapes that a frame's commands paint, in order: each drawing command
/// gives one shape, and each text is painted with the style set by the
/// latest style commands before it (see `shapes_from`).
pub fn resolve_shapes(commands: &[DrawCommand]) -> (r: Vec<PaintShape>)
    ensures
        shapes_view(r@) == shapes_from(commands@, default_text_style()),
{
    let n = commands.len();
    let mut out: Vec<PaintShape> = Vec::new();
    let mut style = initial_text_style();
    let mut i: usize = 0;
    assert(commands@.skip(0) =~= commands@);
    while i < n
        invariant
            n == commands@.len(),
            i <= n,
            shapes_view(out@) + shapes_from(commands@.skip(i as int), style) == shapes_from(
                commands@,
                default_text_style(),
            ),
        decreases n - i,
    {
        let c = &commands[i];
        let ghost rest = commands@.skip(i as int);
        let ghost before = shapes_view(out@);
        let ghost st = style;
        assert(rest[0] == *c);
        assert(rest.drop_first() =~= commands@.skip(i + 1));
        match c {
            DrawCommand::DrawFilledRect { x, y, width, height, color } => {
                out.push(
                    PaintShape::FilledRect {
                        x: *x,
                        y: *y,
                        width: *width,
                        height: *height,
                        color: *color,
                    },
                );
            },
            DrawCommand::DrawOutlinedRect { x, y, width, height, color } => {
                out.push(
                    PaintShape::OutlinedRect {
                        x: *x,
                        y: *y,
                        width: *width,
                        height: *height,
                        color: *color,
                    },
                );
            },
            DrawCommand::DrawCircle { x, y, radius, color } => {
                out.push(PaintShape::Circle { x: *x, y: *y, radius: *radius, color: *color });
            },
            DrawCommand::DrawText { text, x, y } => {
                out.push(PaintShape::Text { text: text.clone(), x: *x, y: *y, style });
            },
            _ => {},
        }
        assert(shapes_view(out@) =~= before + shapes_of(*c, st));
        style = next_style(style, c);
        assert(before + (shapes_of(*c, st) + shapes_from(commands@.skip(i + 1), style)) =~= (before
            + shapes_of(*c, st)) + shapes_from(commands@.skip(i + 1), style));
        i += 1;
    }
    assert(shapes_from(commands@.skip(n as int), style) =~= Seq::<PaintShapeView>::empty());
    assert(shapes_view(out@) + Seq::<PaintShapeView>::empty() =~= shapes_view(out@));
    out
}

/// Painting the commands `a` followed by `b` paints what `a` paints, then
/// what `b` paints with the style that `a` leaves.
pub proof fn lemma_shapes_concat(a: Seq<DrawCommand>, b: Seq<DrawCommand>, st: TextStyle)
    ensures
        shapes_from(a + b, st) == shapes_from(a, st) + shapes_from(b, style_after_all(a, st)),
    decreases a.len(),
{
    if a.len() == 0 {
        assert(a + b =~= b);
        assert(Seq::<PaintShapeView>::empty() + shapes_from(b, st) =~= shapes_from(b, st));
    } else {
        assert((a + b)[0] == a[0]);
        assert((a + b).drop_first() =~= a.drop_first() + b);
        lemma_shapes_concat(a.drop_first(), b, style_after(st, a[0]));
        assert(shapes_of(a[0], st) + (shapes_from(a.drop_first(), style_after(st, a[0]))
            + shapes_from(b, style_after_all(a, st))) =~= (shapes_of(a[0], st) + shapes_from(
            a.drop_first(),
            style_after(st, a[0]),
        )) + shapes_from(b, style_after_all(a, st)));
    }
}

/// A text is painted with the style that the latest style commands before
/// it set: its font size, color and alignment are those left by all the
/// commands recorded before it.
pub proof fn lemma_text_takes_latest_style(
    a: Seq<DrawCommand>,
    text: String,
    x: FloatBits,
    y: FloatBits,
    st: TextStyle,
)
    ensures
        shapes_from(a.push(DrawCommand::DrawText { text, x, y }), st) == shapes_from(a, st)
            + seq![PaintShapeView::Text { text: text@, x, y, style: style_after_all(a, st) }],
{
    let c = DrawCommand::DrawText { text, x, y };
    assert(a.push(c) =~= a + seq![c]);
    lemma_shapes_concat(a, seq![c], st);
    assert(seq![c].drop_first() =~= Seq::<DrawCommand>::empty());
    assert(shapes_from(Seq::<DrawCommand>::empty(), style_after(style_after_all(a, st), c))
        =~= Seq::<PaintShapeView>::empty());
    assert(shapes_from(seq![c], style_after_all(a, st)) =~= seq![
        PaintShapeView::Text { text: text@, x, y, style: style_after_all(a, st) },
    ]);
}

/// The size set by the last `SetFont` among `cmds`, or `d` where there is
/// none.
pub open spec fn last_font_size(cmds: Seq<DrawCommand>, d: FloatBits) -> FloatBits
    decreases cmds.len(),
{
    if cmds.len() == 0 {
        d
    } else if cmds.last() is SetFont {
        cmds.last()->SetFont_size
    } else {
        last_font_size(cmds.drop_last(), d)
    }
}

/// The color set by the last `SetTextColor` among `cmds`, or `d` where there
/// is none.
pub open spec fn last_text_color(cmds: Seq<DrawCommand>, d: Color) -> Color
    decreases cmds.len(),
{
    if cmds.len() == 0 {
        d
    } else if cmds.last() is SetTextColor {
        cmds.last()->SetTextColor_color
    } else {
        last_text_color(cmds.drop_last(), d)
    }
}

/// The alignment set by the last `SetTextAlign` among `cmds`, or `d` where
/// there is none.
pub open spec fn last_text_align(cmds: Seq<DrawCommand>, d: (HorizontalAlign, VerticalAlign)) -> (
    HorizontalAlign,
    VerticalAlign,
)
    decreases cmds.len(),
{
    if cmds.len() == 0 {
        d
    } else if cmds.last() is SetTextAlign {
        (cmds.last()->SetTextAlign_h_align, cmds.last()->SetTextAlign_v_align)
    } else {
        last_text_align(cmds.drop_last(), d)
    }
}

proof fn lemma_style_after_push(a: Seq<DrawCommand>, c: DrawCommand, st: TextStyle)
    ensures
        style_after_all(a.push(c), st) == style_after(style_after_all(a, st), c),
    decreases a.len(),
{
    if a.len() == 0 {
        assert(a.push(c)[0] == c);
        assert(a.push(c).drop_first() =~= Seq::<DrawCommand>::empty());
        assert(style_after_all(Seq::<DrawCommand>::empty(), style_after(st, c)) == style_after(st, c));
        assert(style_after_all(a, st) == st);
    } else {
        assert(a.push(c)[0] == a[0]);
        assert(a.push(c).drop_first() =~= a.drop_first().push(c));
        lemma_style_after_push(a.drop_first(), c, style_after(st, a[0]));
    }
}

/// After a list of commands, the text style has the size of the last
/// `SetFont`, the color of the last `SetTextColor` and the alignment of the
/// last `SetTextAlign`, each taken from `st` where no such command was
/// recorded: a style command changes its own fields and no other.
pub proof fn lemma_style_is_latest_of_each_kind(cmds: Seq<DrawCommand>, st: TextStyle)
    ensures
        style_after_all(cmds, st) == (TextStyle {
            font_size: last_font_size(cmds, st.font_size),
            color: last_text_color(cmds, st.color),
            h_align: last_text_align(cmds, (st.h_align, st.v_align)).0,
            v_align: last_text_align(cmds, (st.h_align, st.v_align)).1,
        }),
    decreases cmds.len(),
{
    if cmds.len() > 0 {
        let a = cmds.drop_last();
        assert(a.push(cmds.last()) =~= cmds);
        lemma_style_after_push(a, cmds.last(), st);
        lemma_style_is_latest_of_each_kind(a, st);
    }
}

/// In a frame, a text recorded after the commands `a` is painted, after
/// what `a` paints, with the size of the last `SetFont` in `a` (`16.0`
/// where there is none), the color of the last `SetTextColor` (opaque white
/// where there is none) and the alignment of the last `SetTextAlign` (left
/// and top where there is none).
pub proof fn lemma_text_style_in_frame(a: Seq<DrawCommand>, text: String, x: FloatBits, y: FloatBits)
    ensures
        shapes_from(a.push(DrawCommand::DrawText { text, x, y }), default_text_style()) == shapes_from(
            a,
            default_text_style(),
        ) + seq![
            PaintShapeView::Text {
                text: text@,
                x,
                y,
                style: TextStyle {
                    font_size: last_font_size(a, 0x4180_0000u32),
                    color: last_text_color(a, Color { r: 255, g: 255, b: 255, a: 255 }),
                    h_align: last_text_align(a, (HorizontalAlign::Left, VerticalAlign::Top)).0,
                    v_align: last_text_align(a, (HorizontalAlign::Left, VerticalAlign::Top)).1,
                },
            },
        ],
{
    lemma_text_takes_latest_style(a, text, x, y, default_text_style());
    lemma_style_is_latest_of_each_kind(a, default_text_style());
}

proof fn lemma_shapes_push(a: Seq<DrawCommand>, c: DrawCommand, st: TextStyle)
    ensures
        shapes_from(a.push(c), st) == shapes_from(a, st) + shapes_of(c, style_after_all(a, st)),
{
    assert(a.push(c) =~= a + seq![c]);
    lemma_shapes_concat(a, seq![c], st);
    assert(seq![c].drop_first() =~= Seq::<DrawCommand>::empty());
    assert(shapes_from(Seq::<DrawCommand>::empty(), style_after(style_after_all(a, st), c))
        =~= Seq::<PaintShapeView>::empty());
    assert(shapes_from(seq![c], style_after_all(a, st)) =~= shapes_of(c, style_after_all(a, st)));
}

/// Each drawing command recorded after the commands `a` adds one shape
/// after what `a` paints: a filled rectangle, an outlined rectangle or a
/// circle with the command's own position, size and color, or a text with
/// its own characters and position. A style command adds no shape.
pub proof fn lemma_each_command_paints_its_shape(a: Seq<DrawCommand>, c: DrawCommand, st: TextStyle)
    ensures
        c matches DrawCommand::DrawFilledRect { x, y, width, height, color } ==> shapes_from(
            a.push(c),
            st,
        ) == shapes_from(a, st) + seq![
            PaintShapeView::FilledRect { x, y, width, height, color },
        ],
        c matches DrawCommand::DrawOutlinedRect { x, y, width, height, color } ==> shapes_from(
            a.push(c),
            st,
        ) == shapes_from(a, st) + seq![
            PaintShapeView::OutlinedRect { x, y, width, height, color },
        ],
        c matches DrawCommand::DrawCircle { x, y, radius, color } ==> shapes_from(a.push(c), st)
            == shapes_from(a, st) + seq![PaintShapeView::Circle { x, y, radius, color }],
        c matches DrawCommand::DrawText { text, x, y } ==> shapes_from(a.push(c), st)
            == shapes_from(a, st) + seq![
            PaintShapeView::Text { text: text@, x, y, style: style_after_all(a, st) },
        ],
        (c is SetFont || c is SetTextColor || c is SetTextAlign) ==> shapes_from(a.push(c), st)
            == shapes_from(a, st),
{
    lemma_shapes_push(a, c, st);
    assert(shapes_from(a, st) + Seq::<PaintShapeView>::empty() =~= shapes_from(a, st));
}

} // verus!
