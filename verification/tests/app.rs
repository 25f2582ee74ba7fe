use draw::app::{App, AppState, KeyCode, KeyEvent, KeyKind, KeyModifiers};
use draw::canvas::Canvas;
use draw::drawable::Rect;
use draw::error::Error;
use draw::mapping::{
    BackendColor, BackendModifiers, CharacterMapping, ColorMapping, ModifiersMapping, StyleMapping,
};
use draw::character::Character;
use draw::style::{Color, Modifiers, Style};

fn no_modifiers() -> KeyModifiers {
    KeyModifiers { shift: false, control: false, alt: false }
}

fn control_only() -> KeyModifiers {
    KeyModifiers { shift: false, control: true, alt: false }
}

#[test]
fn test_app_starts_in_progress() {
    let app = App::new(Canvas::new(4, 3));
    assert_eq!(app.state(), AppState::InProgress);
}

#[test]
fn test_app_escape_ends_session() {
    let mut app = App::new(Canvas::new(4, 3));
    app.handle_key(&KeyEvent {
        kind: KeyKind::Press,
        code: KeyCode::Escape,
        modifiers: no_modifiers(),
    });
    assert_eq!(app.state(), AppState::End);
}

#[test]
fn test_app_control_c_ends_session() {
    let mut app = App::new(Canvas::new(4, 3));
    app.handle_key(&KeyEvent {
        kind: KeyKind::Press,
        code: KeyCode::Char('c'),
        modifiers: control_only(),
    });
    assert_eq!(app.state(), AppState::End);
}

#[test]
fn test_app_ignores_other_keys() {
    let mut app = App::new(Canvas::new(4, 3));
    app.handle_key(&KeyEvent {
        kind: KeyKind::Press,
        code: KeyCode::Char('c'),
        modifiers: no_modifiers(),
    });
    app.handle_key(&KeyEvent {
        kind: KeyKind::Press,
        code: KeyCode::Escape,
        modifiers: control_only(),
    });
    app.handle_key(&KeyEvent {
        kind: KeyKind::Other,
        code: KeyCode::Escape,
        modifiers: no_modifiers(),
    });
    assert_eq!(app.state(), AppState::InProgress);
}

#[test]
fn test_app_input_failure_ends_session() {
    let mut app = App::new(Canvas::new(4, 3));
    app.input_failure();
    assert_eq!(app.state(), AppState::End);
}

#[test]
fn test_app_check_size() {
    let app = App::new(Canvas::new(10, 5));
    assert!(app.check_size(Rect { x: 0, y: 0, width: 10, height: 5 }));
    assert!(app.check_size(Rect { x: 3, y: 9, width: 11, height: 6 }));
    assert!(!app.check_size(Rect { x: 0, y: 0, width: 9, height: 5 }));
    assert!(!app.check_size(Rect { x: 0, y: 0, width: 10, height: 4 }));
}

#[test]
fn test_color_mapping_intensity_inversion() {
    assert_eq!(ColorMapping::from(&Color::Red).into(), BackendColor::LightRed);
    assert_eq!(ColorMapping::from(&Color::DarkRed).into(), BackendColor::Red);
    assert_eq!(ColorMapping::from(&Color::LightGray).into(), BackendColor::Gray);
    assert_eq!(ColorMapping::from(&Color::Unset).into(), BackendColor::Reset);
    assert_eq!(
        ColorMapping::from(&Color::Indexed { i: 42 }).into(),
        BackendColor::Indexed { i: 42 }
    );
    assert_eq!(
        ColorMapping::from(&Color::Rgb { r: 1, g: 2, b: 3 }).into(),
        BackendColor::Rgb { r: 1, g: 2, b: 3 }
    );
}

#[test]
fn test_modifiers_mapping() {
    assert_eq!(
        ModifiersMapping::from(&Modifiers::new(true, false, true)).into(),
        BackendModifiers { bold: true, italic: false, reversed: true }
    );
}

#[test]
fn test_style_and_character_mapping() {
    let style = Style::new(Color::Green, Color::DarkBlue, Modifiers::new(false, true, false));
    let mapped = StyleMapping::from(&style).into();
    assert_eq!(mapped.fg, BackendColor::LightGreen);
    assert_eq!(mapped.bg, BackendColor::Blue);
    assert!(mapped.modifiers.italic);

    let span = CharacterMapping::from(&Character::new('x', style)).into();
    assert_eq!(span.glyph, 'x');
    assert_eq!(span.style, mapped);
}

#[test]
fn test_error_descriptions() {
    assert!(!Error::NonRectangularBuffer.describe().is_empty());
    assert!(!Error::MalformedSerializedData.describe().is_empty());
    assert!(!Error::InputSourceFailure.describe().is_empty());
    assert!(!Error::InsufficientSpace.describe().is_empty());
}
