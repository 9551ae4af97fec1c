use render_core::button::ButtonEvent;
use render_core::button::ButtonState;
use render_core::cx::Cx;
use render_core::style::Color;
use render_core::text::Wrapping;

#[test]
fn style_values_are_stored_and_found() {
    let mut cx = Cx::default();
    let red = Color { r: 255, g: 0, b: 0, a: 255 };
    cx.set_color("accent", red);
    cx.set_font("body", "mono");
    cx.set_size("pad", 14);
    assert!(cx.color("accent") == red);
    assert_eq!(cx.font("body"), "mono");
    assert_eq!(cx.size("pad"), 14);
}

#[test]
fn setting_a_key_again_replaces_its_value() {
    let mut cx = Cx::default();
    cx.set_size("pad", 14);
    cx.set_size("pad", 20);
    assert_eq!(cx.size("pad"), 20);
    assert_eq!(cx.style_values.len(), 1);
}

#[test]
fn keys_do_not_disturb_each_other() {
    let mut cx = Cx::default();
    cx.set_size("a", 1);
    cx.set_size("b", 2);
    cx.set_size("a", 3);
    assert_eq!(cx.size("a"), 3);
    assert_eq!(cx.size("b"), 2);
}

#[test]
fn widget_vocabulary_is_plain_data() {
    assert!(ButtonState::Default != ButtonState::Down);
    assert!(ButtonEvent::Idle != ButtonEvent::Clicked);
    assert!(Wrapping::Word == Wrapping::Word);
    assert!(Wrapping::Char != Wrapping::Whole);
}
