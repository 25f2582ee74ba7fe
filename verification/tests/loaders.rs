use draw::character::Character;
use draw::error::Error;
use draw::loader::{Exporter, Importer};
use draw::loader_bin::LoaderBin;
use draw::loader_txt::LoaderTxt;
use draw::style::{Color, Modifiers, Style};

#[test]
fn test_loader_bin_import_export_reversible() {
    let data = vec![
        vec![
            Character::new('H', Style::new(Color::DarkBlue, Color::DarkRed, Modifiers::new(true, true, false))),
            Character::new('e', Style::new(Color::Red, Color::DarkBlue, Modifiers::new(false, true, false))),
            Character::new('l', Style::new(Color::DarkBlue, Color::Green, Modifiers::new(false, false, true))),
            Character::new('l', Style::new(Color::Red, Color::White, Modifiers::new(false, false, false))),
            Character::new('o', Style::new(Color::Magenta, Color::Magenta, Modifiers::new(true, false, false))),
            Character::new(' ', Style::new(Color::Green, Color::DarkMagenta, Modifiers::new(false, true, true))),
            Character::new(' ', Style::new(Color::Green, Color::Green, Modifiers::new(false, false, true))),
            Character::new(' ', Style::new(Color::DarkMagenta, Color::Green, Modifiers::new(false, true, true))),
        ],
        vec![
            Character::new('w', Style::new(Color::DarkMagenta, Color::DarkGreen, Modifiers::new(false, false, true))),
            Character::new('o', Style::new(Color::DarkGray, Color::DarkGray, Modifiers::new(false, true, false))),
            Character::new('r', Style::new(Color::Black, Color::DarkGray, Modifiers::new(true, true, false))),
            Character::new('l', Style::new(Color::Red, Color::DarkGray, Modifiers::new(true, true, true))),
            Character::new('d', Style::new(Color::DarkRed, Color::DarkGreen, Modifiers::new(true, true, false))),
            Character::new('!', Style::new(Color::DarkCyan, Color::DarkBlue, Modifiers::new(true, true, false))),
            Character::new('!', Style::new(Color::DarkGreen, Color::Cyan, Modifiers::new(true, true, false))),
            Character::new('!', Style::new(Color::Cyan, Color::Red, Modifiers::new(true, true, true))),
        ],
    ];

    let exported = LoaderBin::export(&data);
    let imported = LoaderBin::import(&exported);

    assert_eq!(data, imported)
}

#[test]
fn test_loader_bin_round_trip_full_variant_space() {
    // One cell per color constructor, paired front and back, plus every
    // modifier combination, and a non-ASCII glyph.
    let colors = vec![
        Color::Unset,
        Color::Black,
        Color::Red,
        Color::Green,
        Color::Yellow,
        Color::Blue,
        Color::Magenta,
        Color::Cyan,
        Color::LightGray,
        Color::DarkGray,
        Color::DarkRed,
        Color::DarkGreen,
        Color::DarkYellow,
        Color::DarkBlue,
        Color::DarkMagenta,
        Color::DarkCyan,
        Color::White,
        Color::Indexed { i: 0 },
        Color::Indexed { i: 255 },
        Color::Rgb { r: 1, g: 2, b: 3 },
    ];
    let mut row = Vec::new();
    for (k, fg) in colors.iter().enumerate() {
        let bg = colors[(k + 7) % colors.len()];
        let m = Modifiers::new(k % 2 == 0, k % 3 == 0, k % 5 == 0);
        row.push(Character::new('\u{00e9}', Style::new(*fg, bg, m)));
    }
    let grid = vec![row.clone(), row];
    let exported = LoaderBin::export(&grid);
    assert_eq!(LoaderBin::try_import(&exported).unwrap(), grid);
}

#[test]
fn test_loader_bin_rejects_malformed_data() {
    // Too short for a header.
    assert_eq!(LoaderBin::try_import(&[1, 2, 3]).err(), Some(Error::MalformedSerializedData));
    // One row announced but no row data.
    let bytes = vec![1, 0, 0, 0, 0, 0, 0, 0];
    assert_eq!(LoaderBin::try_import(&bytes).err(), Some(Error::MalformedSerializedData));
    // Trailing garbage after a valid empty grid.
    let mut empty = LoaderBin::export(&vec![]);
    assert_eq!(LoaderBin::try_import(&empty).unwrap(), Vec::<Vec<Character>>::new());
    empty.push(0);
    assert_eq!(LoaderBin::try_import(&empty).err(), Some(Error::MalformedSerializedData));
}

#[test]
fn test_loader_bin_rejects_invalid_cell() {
    let grid = vec![vec![Character::default()]];
    let mut bytes = LoaderBin::export(&grid);
    let n = bytes.len();
    // The last byte is the modifier byte; only the three low bits may be set.
    bytes[n - 1] = 0xff;
    assert_eq!(LoaderBin::try_import(&bytes).err(), Some(Error::MalformedSerializedData));
}

#[test]
fn test_loader_txt_import() {
    assert_eq!(
        LoaderTxt::import("Hello\nworld!!!"),
        vec![
            vec![
                Character::new('H', Style::default()),
                Character::new('e', Style::default()),
                Character::new('l', Style::default()),
                Character::new('l', Style::default()),
                Character::new('o', Style::default()),
                Character::new(' ', Style::default()),
                Character::new(' ', Style::default()),
                Character::new(' ', Style::default()),
            ],
            vec![
                Character::new('w', Style::default()),
                Character::new('o', Style::default()),
                Character::new('r', Style::default()),
                Character::new('l', Style::default()),
                Character::new('d', Style::default()),
                Character::new('!', Style::default()),
                Character::new('!', Style::default()),
                Character::new('!', Style::default()),
            ]
        ]
    )
}

#[test]
fn test_loader_txt_export() {
    assert_eq!(
        LoaderTxt::export(&vec![
            vec![
                Character::new('H', Style::new(Color::Red, Color::Black, Modifiers::new(true, false, false))),
                Character::new('e', Style::default()),
                Character::new('l', Style::default()),
                Character::new('l', Style::default()),
                Character::new('o', Style::default()),
                Character::new(' ', Style::default()),
                Character::new(' ', Style::default()),
                Character::new(' ', Style::default()),
            ],
            vec![
                Character::new('w', Style::new(Color::DarkCyan, Color::Red, Modifiers::new(false, true, false))),
                Character::new('o', Style::default()),
                Character::new('r', Style::default()),
                Character::new('l', Style::default()),
                Character::new('d', Style::default()),
                Character::new('!', Style::default()),
                Character::new('!', Style::default()),
                Character::new('!', Style::default()),
            ]
        ]),
        "Hello   \nworld!!!"
    );
}

#[test]
fn test_loader_txt_import_pads_short_lines() {
    let rows = LoaderTxt::import("Hi\nyo!");
    assert_eq!(
        rows,
        vec![
            vec![
                Character::new('H', Style::default()),
                Character::new('i', Style::default()),
                Character::new(' ', Style::default()),
            ],
            vec![
                Character::new('y', Style::default()),
                Character::new('o', Style::default()),
                Character::new('!', Style::default()),
            ],
        ]
    );
    assert_eq!(LoaderTxt::export(&rows), "Hi \nyo!");
}
