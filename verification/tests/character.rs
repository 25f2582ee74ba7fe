use draw::character::{BlendMode, Character};
use draw::style::{Color, Modifiers, Style};

#[test]
fn test_character_new() {
    assert_eq!(
        Character::new('a', Style::new(Color::Green, Color::Yellow, Modifiers::new(true, false, false))),
        Character {
            character: 'a',
            style: Style::new(Color::Green, Color::Yellow, Modifiers::new(true, false, false)),
        }
    );
}

#[test]
fn test_character_default() {
    assert_eq!(
        Character::default(),
        Character { character: ' ', style: Style::default() }
    )
}

#[test]
fn test_character_blend_overwrite() {
    let mut c1 = Character::new('a', Style::new(Color::Yellow, Color::Black, Modifiers::new(false, true, false)));
    let c2 = Character::new('b', Style::new(Color::Green, Color::White, Modifiers::new(true, false, false)));

    c1.blend(&c2, BlendMode::Overwrite);

    assert_eq!(c1, c2);
}

#[test]
fn test_character_blend_only_character() {
    let mut c1 = Character::new('a', Style::new(Color::Yellow, Color::Black, Modifiers::new(false, true, false)));
    let c2 = Character::new('b', Style::new(Color::Green, Color::White, Modifiers::new(true, false, false)));

    c1.blend(&c2, BlendMode::OnlyCharacter);

    assert_eq!(
        c1,
        Character::new('b', Style::new(Color::Yellow, Color::Black, Modifiers::new(false, true, false)))
    );
}

#[test]
fn test_character_blend_only_style() {
    let mut c1 = Character::new('a', Style::new(Color::Yellow, Color::Black, Modifiers::new(false, true, false)));
    let c2 = Character::new('b', Style::new(Color::Green, Color::White, Modifiers::new(true, false, false)));

    c1.blend(&c2, BlendMode::OnlyStyle);

    assert_eq!(
        c1,
        Character::new('a', Style::new(Color::Green, Color::White, Modifiers::new(true, false, false)))
    );
}
