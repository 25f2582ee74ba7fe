use draw::canvas::Canvas;
use draw::character::{BlendMode, Character};
use draw::error::Error;
use draw::style::{Color, Modifiers, Style};

#[test]
fn test_new_with_buffer() {
    let buffer = vec![
        vec![
            Character::new('H', Style::new(Color::DarkBlue, Color::DarkRed, Modifiers::new(true, true, false))),
            Character::new('e', Style::new(Color::Red, Color::DarkBlue, Modifiers::new(false, true, false))),
            Character::new('l', Style::new(Color::DarkBlue, Color::Green, Modifiers::new(false, false, true))),
            Character::new('l', Style::new(Color::Red, Color::White, Modifiers::new(false, false, false))),
            Character::new('o', Style::new(Color::Magenta, Color::Magenta, Modifiers::new(true, false, false))),
            Character::new(' ', Style::new(Color::Green, Color::DarkMagenta, Modifiers::new(false, true, true))),
            Character::new(' ', Style::new(Color::Green, Color::Green, Modifiers::new(false, false, true))),
            Character::new(' ', Style::new(Color::DarkMagenta, Color::Green, Modifiers::new(false, true, true))),
        ],
        vec![
            Character::new('w', Style::new(Color::DarkMagenta, Color::DarkGreen, Modifiers::new(false, false, true))),
            Character::new('o', Style::new(Color::DarkGray, Color::DarkGray, Modifiers::new(false, true, false))),
            Character::new('r', Style::new(Color::Black, Color::DarkGray, Modifiers::new(true, true, false))),
            Character::new('l', Style::new(Color::Red, Color::DarkGray, Modifiers::new(true, true, true))),
            Character::new('d', Style::new(Color::DarkRed, Color::DarkGreen, Modifiers::new(true, true, false))),
            Character::new('!', Style::new(Color::DarkCyan, Color::DarkBlue, Modifiers::new(true, true, false))),
            Character::new('!', Style::new(Color::DarkGreen, Color::Cyan, Modifiers::new(true, true, false))),
            Character::new('!', Style::new(Color::Cyan, Color::Red, Modifiers::new(true, true, true))),
        ],
    ];
    assert_eq!(
        Canvas::new_with_buffer(buffer.clone()).unwrap().buffer(),
        &buffer
    );
}

#[test]
fn test_new_with_buffer_rejects_non_rectangular() {
    let buffer = vec![
        vec![
            Character::new('H', Style::default()),
            Character::new('e', Style::default()),
            Character::new('l', Style::default()),
            Character::new('l', Style::default()),
            Character::new('o', Style::default()),
        ],
        vec![
            Character::new('w', Style::default()),
            Character::new('o', Style::default()),
            Character::new('r', Style::default()),
            Character::new('l', Style::default()),
            Character::new('d', Style::default()),
            Character::new('!', Style::default()),
            Character::new('!', Style::default()),
            Character::new('!', Style::default()),
        ],
    ];
    assert_eq!(
        Canvas::new_with_buffer(buffer).err(),
        Some(Error::NonRectangularBuffer)
    );
}

#[test]
fn test_canvas_new_filled() {
    let c = Character::new('#', Style::new(Color::DarkCyan, Color::Red, Modifiers::new(true, true, false)));
    assert_eq!(
        Canvas::new_filled(3, 2, c).buffer(),
        &vec![vec![c, c, c], vec![c, c, c]]
    )
}

#[test]
fn test_canvas_new() {
    assert_eq!(
        Canvas::new(3, 2).buffer(),
        &vec![
            vec![Character::default(), Character::default(), Character::default()],
            vec![Character::default(), Character::default(), Character::default()],
        ]
    )
}

#[test]
fn test_canvas_width() {
    assert_eq!(Canvas::new(3, 2).width(), 3)
}

#[test]
fn test_canvas_height() {
    assert_eq!(Canvas::new(3, 2).height(), 2)
}

#[test]
fn test_canvas_draw_overflow() {
    let fill = Character::new('_', Style::new(Color::Red, Color::Black, Modifiers::new(false, false, false)));
    let brush = Character::new('#', Style::new(Color::DarkCyan, Color::Red, Modifiers::new(true, true, false)));
    let mut c = Canvas::new_filled(3, 2, fill);

    c.draw_character((10, 10), &brush, BlendMode::Overwrite);

    assert_eq!(
        c.buffer(),
        &vec![vec![fill, fill, fill], vec![fill, fill, fill]]
    )
}

#[test]
fn test_canvas_draw_overwrite() {
    let fill = Character::new('_', Style::new(Color::Red, Color::Black, Modifiers::new(false, false, false)));
    let brush = Character::new('#', Style::new(Color::DarkCyan, Color::Red, Modifiers::new(true, true, false)));
    let mut c = Canvas::new_filled(3, 2, fill);

    c.draw_character((2, 1), &brush, BlendMode::Overwrite);

    assert_eq!(
        c.buffer(),
        &vec![vec![fill, fill, fill], vec![fill, fill, brush]]
    )
}

#[test]
fn test_canvas_draw_only_character() {
    let fill = Character::new('_', Style::new(Color::Red, Color::Black, Modifiers::new(false, false, false)));
    let brush = Character::new('#', Style::new(Color::DarkCyan, Color::Red, Modifiers::new(true, true, false)));
    let mut c = Canvas::new_filled(3, 2, fill);

    c.draw_character((0, 0), &brush, BlendMode::OnlyCharacter);

    assert_eq!(
        c.buffer(),
        &vec![
            vec![Character::new(brush.character(), *fill.style()), fill, fill],
            vec![fill, fill, fill],
        ]
    )
}

#[test]
fn test_canvas_draw_only_style() {
    let fill = Character::new('_', Style::new(Color::Red, Color::Black, Modifiers::new(false, false, false)));
    let brush = Character::new('#', Style::new(Color::DarkCyan, Color::Red, Modifiers::new(true, true, false)));
    let mut c = Canvas::new_filled(3, 2, fill);

    c.draw_character((1, 1), &brush, BlendMode::OnlyStyle);

    assert_eq!(
        c.buffer(),
        &vec![
            vec![fill, fill, fill],
            vec![fill, Character::new(fill.character(), *brush.style()), fill],
        ]
    )
}

#[test]
fn test_canvas_resize_bigger() {
    let fill = Character::new('_', Style::new(Color::Red, Color::Black, Modifiers::new(false, false, false)));
    let default = Character::default();
    let mut c = Canvas::new_filled(3, 2, fill);

    c.resize(5, 3);

    assert_eq!(
        c.buffer(),
        &vec![
            vec![fill, fill, fill, default, default],
            vec![fill, fill, fill, default, default],
            vec![default, default, default, default, default],
        ]
    )
}

#[test]
fn test_canvas_resize_smaller() {
    let fill = Character::new('_', Style::new(Color::Red, Color::Black, Modifiers::new(false, false, false)));
    let mut c = Canvas::new_filled(3, 2, fill);

    c.resize(2, 1);

    assert_eq!(c.buffer(), &vec![vec![fill, fill]])
}

#[test]
fn test_canvas_grow_then_shrink_restores_region() {
    let fill = Character::new('x', Style::new(Color::Blue, Color::Yellow, Modifiers::new(false, true, false)));
    let mut c = Canvas::new_filled(3, 2, fill);
    let original = c.buffer().clone();

    c.resize(10, 9);
    assert_eq!(c.buffer()[5][7], Character::default());
    c.resize(3, 2);

    assert_eq!(c.buffer(), &original);
}

#[test]
fn test_canvas_load_replaces_buffer() {
    let fill = Character::new('z', Style::default());
    let mut c = Canvas::new(4, 4);
    c.load(vec![vec![fill, fill]]);
    assert_eq!(c.buffer(), &vec![vec![fill, fill]]);
    assert_eq!(c.width(), 2);
    assert_eq!(c.height(), 1);
}

#[test]
fn test_canvas_empty_dimensions_are_legal() {
    let c = Canvas::new(0, 3);
    assert_eq!(c.height(), 3);
    assert_eq!(c.width(), 0);
    let c2 = Canvas::new(5, 0);
    assert_eq!(c2.height(), 0);
}

#[test]
fn test_canvas_draw_out_of_bounds_any_mode() {
    let fill = Character::new('_', Style::new(Color::Red, Color::Black, Modifiers::new(false, false, false)));
    let brush = Character::new('#', Style::new(Color::DarkCyan, Color::Red, Modifiers::new(true, true, false)));
    let mut c = Canvas::new_filled(3, 2, fill);
    let before = c.buffer().clone();

    c.draw_character((3, 0), &brush, BlendMode::Overwrite);
    c.draw_character((0, 2), &brush, BlendMode::OnlyCharacter);
    c.draw_character((7, 9), &brush, BlendMode::OnlyStyle);

    assert_eq!(c.buffer(), &before);
}
