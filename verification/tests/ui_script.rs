use oscar::input::key_action;
use oscar::input::mouse_button_slot;
use oscar::input::should_resize;
use oscar::input::Key;
use oscar::input::KeyAction;
use oscar::input::MouseButton;
use oscar::input::MouseButtons;
use oscar::render::resolve_shapes;
use oscar::render::PaintShape;
use oscar::render::TextStyle;
use oscar::ui_script::flag_control_value;
use oscar::ui_script::is_valid_track_index;
use oscar::ui_script::Color;
use oscar::ui_script::DrawCommand;
use oscar::ui_script::HorizontalAlign;
use oscar::ui_script::LuaGraphics;
use oscar::ui_script::LuaGraphicsContext;
use oscar::ui_script::VerticalAlign;

fn bits(v: f32) -> u32 {
    v.to_bits()
}

const RED: Color = Color { r: 255, g: 0, b: 0, a: 255 };
const WHITE: Color = Color { r: 255, g: 255, b: 255, a: 255 };

#[test]
fn color_alpha_defaults_to_opaque() {
    assert_eq!(Color::from_channels(1, 2, 3, None), Color { r: 1, g: 2, b: 3, a: 255 });
    assert_eq!(Color::from_channels(1, 2, 3, Some(7)), Color { r: 1, g: 2, b: 3, a: 7 });
}

#[test]
fn alignment_names() {
    assert_eq!(HorizontalAlign::from_name("left"), Some(HorizontalAlign::Left));
    assert_eq!(HorizontalAlign::from_name("center"), Some(HorizontalAlign::Center));
    assert_eq!(HorizontalAlign::from_name("right"), Some(HorizontalAlign::Right));
    assert_eq!(HorizontalAlign::from_name("top"), None);
    assert_eq!(HorizontalAlign::from_name("Left"), None);
    assert_eq!(VerticalAlign::from_name("top"), Some(VerticalAlign::Top));
    assert_eq!(VerticalAlign::from_name("center"), Some(VerticalAlign::Center));
    assert_eq!(VerticalAlign::from_name("bottom"), Some(VerticalAlign::Bottom));
    assert_eq!(VerticalAlign::from_name("middle"), None);
}

#[test]
fn graphics_records_calls_in_order() {
    let mut g = LuaGraphics::new();
    assert!(g.commands.is_empty());
    g.draw_filled_rect(bits(1.0), bits(2.0), bits(3.0), bits(4.0), RED);
    g.set_font("mono", bits(12.0));
    g.draw_text("hi", bits(5.0), bits(6.0));
    g.set_text_color(WHITE);
    g.set_text_align(HorizontalAlign::Center, VerticalAlign::Bottom);
    g.draw_outlined_rect(0, 0, bits(1.0), bits(1.0), WHITE);
    g.draw_circle(bits(9.0), bits(9.0), bits(2.0), RED);
    assert_eq!(
        g.commands,
        vec![
            DrawCommand::DrawFilledRect { x: bits(1.0), y: bits(2.0), width: bits(3.0), height: bits(4.0), color: RED },
            DrawCommand::SetFont { font_name: "mono".to_string(), size: bits(12.0) },
            DrawCommand::DrawText { text: "hi".to_string(), x: bits(5.0), y: bits(6.0) },
            DrawCommand::SetTextColor { color: WHITE },
            DrawCommand::SetTextAlign { h_align: HorizontalAlign::Center, v_align: VerticalAlign::Bottom },
            DrawCommand::DrawOutlinedRect { x: 0, y: 0, width: bits(1.0), height: bits(1.0), color: WHITE },
            DrawCommand::DrawCircle { x: bits(9.0), y: bits(9.0), radius: bits(2.0), color: RED },
        ]
    );
}

#[test]
fn texts_take_the_latest_style() {
    let cmds = vec![
        DrawCommand::DrawText { text: "a".to_string(), x: 0, y: 0 },
        DrawCommand::SetFont { font_name: "ignored".to_string(), size: bits(20.0) },
        DrawCommand::SetTextColor { color: RED },
        DrawCommand::DrawCircle { x: 1, y: 2, radius: 3, color: RED },
        DrawCommand::SetTextAlign { h_align: HorizontalAlign::Right, v_align: VerticalAlign::Center },
        DrawCommand::DrawText { text: "b".to_string(), x: 4, y: 5 },
        DrawCommand::SetFont { font_name: "x".to_string(), size: bits(8.0) },
        DrawCommand::DrawText { text: "c".to_string(), x: 6, y: 7 },
    ];
    let default_style = TextStyle {
        font_size: bits(16.0),
        color: WHITE,
        h_align: HorizontalAlign::Left,
        v_align: VerticalAlign::Top,
    };
    let second = TextStyle {
        font_size: bits(20.0),
        color: RED,
        h_align: HorizontalAlign::Right,
        v_align: VerticalAlign::Center,
    };
    let third = TextStyle { font_size: bits(8.0), ..second };
    assert_eq!(
        resolve_shapes(&cmds),
        vec![
            PaintShape::Text { text: "a".to_string(), x: 0, y: 0, style: default_style },
            PaintShape::Circle { x: 1, y: 2, radius: 3, color: RED },
            PaintShape::Text { text: "b".to_string(), x: 4, y: 5, style: second },
            PaintShape::Text { text: "c".to_string(), x: 6, y: 7, style: third },
        ]
    );
}

#[test]
fn rects_become_shapes() {
    let cmds = vec![
        DrawCommand::DrawOutlinedRect { x: 1, y: 2, width: 3, height: 4, color: RED },
        DrawCommand::DrawFilledRect { x: 5, y: 6, width: 7, height: 8, color: WHITE },
    ];
    assert_eq!(
        resolve_shapes(&cmds),
        vec![
            PaintShape::OutlinedRect { x: 1, y: 2, width: 3, height: 4, color: RED },
            PaintShape::FilledRect { x: 5, y: 6, width: 7, height: 8, color: WHITE },
        ]
    );
    assert!(resolve_shapes(&[]).is_empty());
}

#[test]
fn track_indices_and_flag_values() {
    assert!(!is_valid_track_index(0));
    assert!(is_valid_track_index(1));
    assert!(is_valid_track_index(8));
    assert!(!is_valid_track_index(9));
    assert_eq!(flag_control_value(true), bits(1.0));
    assert_eq!(flag_control_value(false), bits(0.0));
}

#[test]
fn mouse_slots_and_presses() {
    assert_eq!(mouse_button_slot(MouseButton::Left), Some(0));
    assert_eq!(mouse_button_slot(MouseButton::Right), Some(1));
    assert_eq!(mouse_button_slot(MouseButton::Middle), Some(2));
    assert_eq!(mouse_button_slot(MouseButton::Other(4)), Some(4));
    assert_eq!(mouse_button_slot(MouseButton::Other(5)), None);
    assert_eq!(mouse_button_slot(MouseButton::Back), None);
    assert_eq!(mouse_button_slot(MouseButton::Forward), None);
    let mut b = MouseButtons::new();
    b.record(1, true);
    assert!(b.down[1] && b.pressed[1]);
    b.record(1, false);
    assert!(!b.down[1] && b.pressed[1]);
    b.clear_pressed();
    assert_eq!(b.pressed, [false; 5]);
}

#[test]
fn keys_and_resizes() {
    assert_eq!(key_action(Key::Escape, true), KeyAction::Exit);
    assert_eq!(key_action(Key::R, true), KeyAction::ReloadScript);
    assert_eq!(key_action(Key::R, false), KeyAction::Ignore);
    assert_eq!(key_action(Key::Other, true), KeyAction::Ignore);
    assert!(should_resize(1, 1));
    assert!(!should_resize(0, 10));
    assert!(!should_resize(10, 0));
}
