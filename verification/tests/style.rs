use draw::copy_over::CopyFrom;
use draw::style::{Color, Modifiers, Style};

#[test]
fn test_modifiers_new() {
    assert_eq!(
        Modifiers::new(false, false, false),
        Modifiers { bold: false, italic: false, reverse: false }
    );
    assert_eq!(
        Modifiers::new(true, false, false),
        Modifiers { bold: true, italic: false, reverse: false }
    );
    assert_eq!(
        Modifiers::new(false, true, false),
        Modifiers { bold: false, italic: true, reverse: false }
    );
    assert_eq!(
        Modifiers::new(false, false, true),
        Modifiers { bold: false, italic: false, reverse: true }
    );
    assert_eq!(
        Modifiers::new(true, true, true),
        Modifiers { bold: true, italic: true, reverse: true }
    );
}

#[test]
fn test_modifiers_default() {
    assert_eq!(
        Modifiers::default(),
        Modifiers { bold: false, italic: false, reverse: false }
    );
}

#[test]
fn test_modifiers_add() {
    assert_eq!(
        Modifiers::new(true, false, true).combine(Modifiers::new(false, true, true)),
        Modifiers { bold: true, italic: true, reverse: true }
    );
}

#[test]
fn test_modifiers_copy_from() {
    let mut m1 = Modifiers::new(true, false, true);
    let m2 = Modifiers::new(false, true, true);

    m1.copy_from(&m2);

    assert_eq!(m1, m2);
}

#[test]
fn test_style_new() {
    assert_eq!(
        Style::new(Color::Red, Color::Blue, Modifiers::new(true, false, false)),
        Style { fg: Color::Red, bg: Color::Blue, modifiers: Modifiers::new(true, false, false) }
    );
}

#[test]
fn test_style_default() {
    assert_eq!(
        Style::default(),
        Style { fg: Color::Unset, bg: Color::Unset, modifiers: Modifiers::default() }
    );
}

#[test]
fn test_style_add() {
    assert_eq!(
        Style::new(Color::Red, Color::Blue, Modifiers::new(true, false, true))
            .combine(Style::new(Color::Green, Color::Yellow, Modifiers::new(false, false, true))),
        Style { fg: Color::Green, bg: Color::Yellow, modifiers: Modifiers::new(true, false, true) }
    );
}

#[test]
fn test_style_copy_from() {
    let mut s1 = Style::new(Color::Cyan, Color::Yellow, Modifiers::new(true, false, true));
    let s2 = Style::new(Color::Blue, Color::Green, Modifiers::new(false, true, false));

    s1.copy_from(&s2);

    assert_eq!(s1, s2);
}

#[test]
fn test_style_combine_overrides_colors_accumulates_emphasis() {
    let base = Style::new(Color::Red, Color::Black, Modifiers::new(true, false, false));
    let overlay = Style::new(Color::Unset, Color::White, Modifiers::new(false, true, false));
    let combined = base.combine(overlay);
    assert_eq!(combined.fg, Color::Unset);
    assert_eq!(combined.bg, Color::White);
    assert_eq!(combined.modifiers, Modifiers::new(true, true, false));
}
