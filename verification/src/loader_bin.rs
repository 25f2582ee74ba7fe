//! Binary import and export of cell grids. The format is
//! length-prefixed and fixed-width: a row count (8 bytes, little endian),
//! then per row a cell count (8 bytes) followed by 13 bytes per cell —
//! the glyph's scalar value (4 bytes), the foreground and background
//! colors (4 bytes each: a tag and three payload bytes), and one
//! modifier-flag byte. Decoding accepts exactly the encodings and is a
//! proven inverse of encoding.

use vstd::prelude::*;

use vstd::bytes::{
    lemma_auto_spec_u32_to_from_le_bytes, lemma_auto_spec_u64_to_from_le_bytes,
    spec_u32_from_le_bytes, spec_u32_to_le_bytes, spec_u64_from_le_bytes, spec_u64_to_le_bytes,
    u32_from_le_bytes, u64_from_le_bytes, u64_to_le_bytes,
};
use vstd::slice::slice_subrange;
use vstd::utf8::{char_is_scalar, char_u32_cast, is_scalar};

use crate::canvas::grid_view;
use crate::character::Character;
use crate::error::Error;
use crate::loader::{Exporter, Importer};
use crate::style::{Color, Modifiers, Style};

verus! {

/// Reads and writes grids in the library's binary format; the round trip
/// is lossless for every grid.
pub struct LoaderBin {}

/// The one-byte encoding of the modifier flags.
pub open spec fn modifiers_byte(m: Modifiers) -> u8 {
    ((if m.bold {
        1int
    } else {
        0int
    }) + (if m.italic {
        2int
    } else {
        0int
    }) + (if m.reverse {
        4int
    } else {
        0int
    })) as u8
}

/// The flags a modifier byte denotes; bytes above the three flag bits are
/// rejected.
pub open spec fn spec_decode_modifiers(b: u8) -> Option<Modifiers> {
    if b < 8 {
        Some(Modifiers { bold: b % 2 == 1, italic: (b / 2) % 2 == 1, reverse: (b / 4) % 2 == 1 })
    } else {
        None
    }
}

/// The four-byte encoding of a color: a tag byte and three payload bytes.
pub open spec fn color_bytes(c: Color) -> Seq<u8> {
    match c {
        Color::Unset => seq![0u8, 0u8, 0u8, 0u8],
        Color::Black => seq![1u8, 0u8, 0u8, 0u8],
        Color::Red => seq![2u8, 0u8, 0u8, 0u8],
        Color::Green => seq![3u8, 0u8, 0u8, 0u8],
        Color::Yellow => seq![4u8, 0u8, 0u8, 0u8],
        Color::Blue => seq![5u8, 0u8, 0u8, 0u8],
        Color::Magenta => seq![6u8, 0u8, 0u8, 0u8],
        Color::Cyan => seq![7u8, 0u8, 0u8, 0u8],
        Color::LightGray => seq![8u8, 0u8, 0u8, 0u8],
        Color::DarkGray => seq![9u8, 0u8, 0u8, 0u8],
        Color::DarkRed => seq![10u8, 0u8, 0u8, 0u8],
        Color::DarkGreen => seq![11u8, 0u8, 0u8, 0u8],
        Color::DarkYellow => seq![12u8, 0u8, 0u8, 0u8],
        Color::DarkBlue => seq![13u8, 0u8, 0u8, 0u8],
        Color::DarkMagenta => seq![14u8, 0u8, 0u8, 0u8],
        Color::DarkCyan => seq![15u8, 0u8, 0u8, 0u8],
        Color::White => seq![16u8, 0u8, 0u8, 0u8],
        Color::Indexed { i } => seq![17u8, i, 0u8, 0u8],
        Color::Rgb { r, g, b } => seq![18u8, r, g, b],
    }
}

/// The named color a tag in `0 ..= 16` denotes.
pub open spec fn named_color(tag: u8) -> Color
    recommends
        tag <= 16,
{
    if tag == 0 {
        Color::Unset
    } else if tag == 1 {
        Color::Black
    } else if tag == 2 {
        Color::Red
    } else if tag == 3 {
        Color::Green
    } else if tag == 4 {
        Color::Yellow
    } else if tag == 5 {
        Color::Blue
    } else if tag == 6 {
        Color::Magenta
    } else if tag == 7 {
        Color::Cyan
    } else if tag == 8 {
        Color::LightGray
    } else if tag == 9 {
        Color::DarkGray
    } else if tag == 10 {
        Color::DarkRed
    } else if tag == 11 {
        Color::DarkGreen
    } else if tag == 12 {
        Color::DarkYellow
    } else if tag == 13 {
        Color::DarkBlue
    } else if tag == 14 {
        Color::DarkMagenta
    } else if tag == 15 {
        Color::DarkCyan
    } else {
        Color::White
    }
}

/// The color four bytes denote: named colors demand zero payload, an
/// indexed color a zero tail, so that every color has exactly one
/// encoding.
pub open spec fn spec_decode_color(b: Seq<u8>) -> Option<Color>
    recommends
        b.len() == 4,
{
    let tag = b[0];
    if tag <= 16 {
        if b[1] == 0 && b[2] == 0 && b[3] == 0 {
            Some(named_color(tag))
        } else {
            None
        }
    } else if tag == 17 {
        if b[2] == 0 && b[3] == 0 {
            Some(Color::Indexed { i: b[1] })
        } else {
            None
        }
    } else if tag == 18 {
        Some(Color::Rgb { r: b[1], g: b[2], b: b[3] })
    } else {
        None
    }
}

/// The 13-byte encoding of one cell.
pub open spec fn cell_bytes(c: Character) -> Seq<u8> {
    spec_u32_to_le_bytes(c.character as u32) + color_bytes(c.style.fg) + color_bytes(c.style.bg)
        + seq![modifiers_byte(c.style.modifiers)]
}

/// The cell a 13-byte record denotes: the glyph must be a Unicode scalar
/// value and both colors and the modifier byte must decode.
pub open spec fn spec_decode_cell(b: Seq<u8>) -> Option<Character>
    recommends
        b.len() == 13,
{
    let u = spec_u32_from_le_bytes(b.subrange(0, 4));
    if !is_scalar(u) {
        None
    } else {
        match (spec_decode_color(b.subrange(4, 8)), spec_decode_color(b.subrange(8, 12)),
        spec_decode_modifiers(b[12])) {
            (Some(fg), Some(bg), Some(m)) => Some(
                Character { character: u as char, style: Style { fg, bg, modifiers: m } },
            ),
            _ => None,
        }
    }
}

/// The concatenated encodings of a row's cells.
pub open spec fn cells_bytes(row: Seq<Character>) -> Seq<u8>
    decreases row.len(),
{
    if row.len() == 0 {
        Seq::empty()
    } else {
        cell_bytes(row[0]) + cells_bytes(row.drop_first())
    }
}

/// The encoding of one row: its cell count, then its cells.
pub open spec fn row_bytes(row: Seq<Character>) -> Seq<u8> {
    spec_u64_to_le_bytes(row.len() as u64) + cells_bytes(row)
}

/// The concatenated encodings of a grid's rows.
pub open spec fn rows_bytes(g: Seq<Seq<Character>>) -> Seq<u8>
    decreases g.len(),
{
    if g.len() == 0 {
        Seq::empty()
    } else {
        row_bytes(g[0]) + rows_bytes(g.drop_first())
    }
}

/// The binary encoding of a grid: its row count, then its rows.
pub open spec fn encode_grid(g: Seq<Seq<Character>>) -> Seq<u8> {
    spec_u64_to_le_bytes(g.len() as u64) + rows_bytes(g)
}

/// Consume `n` cell records from the front of `b`; the decoded cells and
/// the remaining bytes, or `None` if any record is short or invalid.
pub open spec fn dec_cells(b: Seq<u8>, n: nat) -> Option<(Seq<Character>, Seq<u8>)>
    decreases n,
{
    if n == 0 {
        Some((Seq::empty(), b))
    } else if b.len() < 13 {
        None
    } else {
        match spec_decode_cell(b.take(13)) {
            Option::None => None,
            Option::Some(c) => match dec_cells(b.skip(13), (n - 1) as nat) {
                Option::None => None,
                Option::Some((cs, rest)) => Some((seq![c] + cs, rest)),
            },
        }
    }
}

/// Consume one row (cell count, then that many cells) from the front of
/// `b`.
pub open spec fn dec_row(b: Seq<u8>) -> Option<(Seq<Character>, Seq<u8>)> {
    if b.len() < 8 {
        None
    } else {
        dec_cells(b.skip(8), spec_u64_from_le_bytes(b.take(8)) as nat)
    }
}

/// Consume `n` rows from the front of `b`.
pub open spec fn dec_rows(b: Seq<u8>, n: nat) -> Option<(Seq<Seq<Character>>, Seq<u8>)>
    decreases n,
{
    if n == 0 {
        Some((Seq::empty(), b))
    } else {
        match dec_row(b) {
            Option::None => None,
            Option::Some((row, rest)) => match dec_rows(rest, (n - 1) as nat) {
                Option::None => None,
                Option::Some((rows, rest2)) => Some((seq![row] + rows, rest2)),
            },
        }
    }
}

/// The grid a byte string denotes, if the whole string is exactly one
/// encoded grid.
pub open spec fn decode_grid(b: Seq<u8>) -> Option<Seq<Seq<Character>>> {
    if b.len() < 8 {
        None
    } else {
        match dec_rows(b.skip(8), spec_u64_from_le_bytes(b.take(8)) as nat) {
            Option::None => None,
            Option::Some((g, rest)) => if rest.len() == 0 {
                Some(g)
            } else {
                None
            },
        }
    }
}

proof fn lemma_dec_modifiers(m: Modifiers)
    ensures
        spec_decode_modifiers(modifiers_byte(m)) == Some(m),
{
}

proof fn lemma_dec_color(c: Color)
    ensures
        color_bytes(c).len() == 4,
        spec_decode_color(color_bytes(c)) == Some(c),
{
}

proof fn lemma_dec_cell(c: Character, rest: Seq<u8>)
    ensures
        cell_bytes(c).len() == 13,
        (cell_bytes(c) + rest).take(13) == cell_bytes(c),
        (cell_bytes(c) + rest).skip(13) == rest,
        spec_decode_cell(cell_bytes(c)) == Some(c),
{
    lemma_auto_spec_u32_to_from_le_bytes();
    lemma_dec_color(c.style.fg);
    lemma_dec_color(c.style.bg);
    lemma_dec_modifiers(c.style.modifiers);
    char_is_scalar(c.character);
    char_u32_cast(c.character, c.character as u32);
    let cb = cell_bytes(c);
    assert(cb.len() == 13);
    assert((cb + rest).take(13) =~= cb);
    assert((cb + rest).skip(13) =~= rest);
    assert(cb.subrange(0, 4) =~= spec_u32_to_le_bytes(c.character as u32));
    assert(cb.subrange(4, 8) =~= color_bytes(c.style.fg));
    assert(cb.subrange(8, 12) =~= color_bytes(c.style.bg));
    assert(cb[12] == modifiers_byte(c.style.modifiers));
}

proof fn lemma_dec_cells(row: Seq<Character>, rest: Seq<u8>)
    ensures
        dec_cells(cells_bytes(row) + rest, row.len()) == Some((row, rest)),
    decreases row.len(),
{
    if row.len() == 0 {
        assert(cells_bytes(row) + rest =~= rest);
    } else {
        let c = row[0];
        let tail = cells_bytes(row.drop_first()) + rest;
        lemma_dec_cell(c, tail);
        assert(cells_bytes(row) + rest =~= cell_bytes(c) + tail);
        lemma_dec_cells(row.drop_first(), rest);
        assert(seq![c] + row.drop_first() =~= row);
    }
}

proof fn lemma_dec_row(row: Seq<Character>, rest: Seq<u8>)
    requires
        row.len() < 0x1_0000_0000_0000_0000,
    ensures
        dec_row(row_bytes(row) + rest) == Some((row, rest)),
{
    lemma_auto_spec_u64_to_from_le_bytes();
    let b = row_bytes(row) + rest;
    assert(b.take(8) =~= spec_u64_to_le_bytes(row.len() as u64));
    assert(b.skip(8) =~= cells_bytes(row) + rest);
    lemma_dec_cells(row, rest);
}

proof fn lemma_dec_rows(g: Seq<Seq<Character>>, rest: Seq<u8>)
    requires
        forall|i: int|
            0 <= i < g.len() ==> (#[trigger] g[i].len()) < 0x1_0000_0000_0000_0000,
    ensures
        dec_rows(rows_bytes(g) + rest, g.len()) == Some((g, rest)),
    decreases g.len(),
{
    if g.len() == 0 {
        assert(rows_bytes(g) + rest =~= rest);
    } else {
        let row = g[0];
        let tail = rows_bytes(g.drop_first()) + rest;
        lemma_dec_row(row, tail);
        assert(rows_bytes(g) + rest =~= row_bytes(row) + tail);
        lemma_dec_rows(g.drop_first(), rest);
        assert(seq![row] + g.drop_first() =~= g);
    }
}

/// Decoding an encoded grid yields exactly that grid: the binary codec
/// round-trips losslessly for every grid whose dimensions fit the
/// format's 64-bit length fields.
pub proof fn lemma_bin_round_trip(g: Seq<Seq<Character>>)
    requires
        g.len() < 0x1_0000_0000_0000_0000,
        forall|i: int|
            0 <= i < g.len() ==> (#[trigger] g[i].len()) < 0x1_0000_0000_0000_0000,
    ensures
        decode_grid(encode_grid(g)) == Some(g),
{
    lemma_auto_spec_u64_to_from_le_bytes();
    let b = encode_grid(g);
    assert(b.take(8) =~= spec_u64_to_le_bytes(g.len() as u64));
    assert(b.skip(8) =~= rows_bytes(g) + Seq::<u8>::empty());
    lemma_dec_rows(g, Seq::<u8>::empty());
}

/// Appending one more cell extends the encoding on the right.
proof fn lemma_cells_bytes_snoc(row: Seq<Character>, c: Character)
    ensures
        cells_bytes(row.push(c)) == cells_bytes(row) + cell_bytes(c),
    decreases row.len(),
{
    let snoc = row.push(c);
    assert(snoc.len() == row.len() + 1);
    assert(cells_bytes(snoc) == cell_bytes(snoc[0]) + cells_bytes(snoc.drop_first()));
    if row.len() == 0 {
        assert(snoc[0] == c);
        assert(snoc.drop_first() =~= Seq::<Character>::empty());
        assert(cells_bytes(Seq::<Character>::empty()) == Seq::<u8>::empty());
        assert(cells_bytes(row) == Seq::<u8>::empty());
        assert(cell_bytes(c) + Seq::<u8>::empty() =~= Seq::<u8>::empty() + cell_bytes(c));
    } else {
        assert(snoc[0] == row[0]);
        assert(snoc.drop_first() =~= row.drop_first().push(c));
        lemma_cells_bytes_snoc(row.drop_first(), c);
        assert(cells_bytes(row) == cell_bytes(row[0]) + cells_bytes(row.drop_first()));
        assert(cell_bytes(row[0]) + (cells_bytes(row.drop_first()) + cell_bytes(c)) =~= (cell_bytes(
            row[0],
        ) + cells_bytes(row.drop_first())) + cell_bytes(c));
    }
}

/// Appending one more row extends the encoding on the right.
proof fn lemma_rows_bytes_snoc(g: Seq<Seq<Character>>, row: Seq<Character>)
    ensures
        rows_bytes(g.push(row)) == rows_bytes(g) + row_bytes(row),
    decreases g.len(),
{
    let snoc = g.push(row);
    assert(snoc.len() == g.len() + 1);
    assert(rows_bytes(snoc) == row_bytes(snoc[0]) + rows_bytes(snoc.drop_first()));
    if g.len() == 0 {
        assert(snoc[0] == row);
        assert(snoc.drop_first() =~= Seq::<Seq<Character>>::empty());
        assert(rows_bytes(Seq::<Seq<Character>>::empty()) == Seq::<u8>::empty());
        assert(rows_bytes(g) == Seq::<u8>::empty());
        assert(row_bytes(row) + Seq::<u8>::empty() =~= Seq::<u8>::empty() + row_bytes(row));
    } else {
        assert(snoc[0] == g[0]);
        assert(snoc.drop_first() =~= g.drop_first().push(row));
        lemma_rows_bytes_snoc(g.drop_first(), row);
        assert(rows_bytes(g) == row_bytes(g[0]) + rows_bytes(g.drop_first()));
        assert(row_bytes(g[0]) + (rows_bytes(g.drop_first()) + row_bytes(row)) =~= (row_bytes(g[0])
            + rows_bytes(g.drop_first())) + row_bytes(row));
    }
}

/// Converts a scalar value back to a character. Relies on
/// `char::from_u32`: it returns `Some` exactly for Unicode scalar values,
/// and the returned character has that scalar value.
#[verifier::external_body]
fn char_from_u32(u: u32) -> (r: Option<char>)
    ensures
        r == (if is_scalar(u) {
            Some(u as char)
        } else {
            Option::<char>::None
        }),
{
    char::from_u32(u)
}

fn modifiers_to_byte(m: &Modifiers) -> (r: u8)
    ensures
        r == modifiers_byte(*m),
{
    let mut b: u8 = 0;
    if m.bold {
        b += 1;
    }
    if m.italic {
        b += 2;
    }
    if m.reverse {
        b += 4;
    }
    b
}

fn color_to_bytes(c: &Color, out: &mut Vec<u8>)
    ensures
        final(out)@ == old(out)@ + color_bytes(*c),
{
    let (t, p0, p1, p2): (u8, u8, u8, u8) = match c {
        Color::Unset => (0, 0, 0, 0),
        Color::Black => (1, 0, 0, 0),
        Color::Red => (2, 0, 0, 0),
        Color::Green => (3, 0, 0, 0),
        Color::Yellow => (4, 0, 0, 0),
        Color::Blue => (5, 0, 0, 0),
        Color::Magenta => (6, 0, 0, 0),
        Color::Cyan => (7, 0, 0, 0),
        Color::LightGray => (8, 0, 0, 0),
        Color::DarkGray => (9, 0, 0, 0),
        Color::DarkRed => (10, 0, 0, 0),
        Color::DarkGreen => (11, 0, 0, 0),
        Color::DarkYellow => (12, 0, 0, 0),
        Color::DarkBlue => (13, 0, 0, 0),
        Color::DarkMagenta => (14, 0, 0, 0),
        Color::DarkCyan => (15, 0, 0, 0),
        Color::White => (16, 0, 0, 0),
        Color::Indexed { i } => (17, *i, 0, 0),
        Color::Rgb { r, g, b } => (18, *r, *g, *b),
    };
    out.push(t);
    out.push(p0);
    out.push(p1);
    out.push(p2);
    proof {
        assert(out@ =~= old(out)@ + color_bytes(*c));
    }
}

fn color_from_bytes(t: u8, p0: u8, p1: u8, p2: u8) -> (r: Option<Color>)
    ensures
        r == spec_decode_color(seq![t, p0, p1, p2]),
{
    if t <= 16 {
        if p0 == 0 && p1 == 0 && p2 == 0 {
            let c = if t == 0 {
                Color::Unset
            } else if t == 1 {
                Color::Black
            } else if t == 2 {
                Color::Red
            } else if t == 3 {
                Color::Green
            } else if t == 4 {
                Color::Yellow
            } else if t == 5 {
                Color::Blue
            } else if t == 6 {
                Color::Magenta
            } else if t == 7 {
                Color::Cyan
            } else if t == 8 {
                Color::LightGray
            } else if t == 9 {
                Color::DarkGray
            } else if t == 10 {
                Color::DarkRed
            } else if t == 11 {
                Color::DarkGreen
            } else if t == 12 {
                Color::DarkYellow
            } else if t == 13 {
                Color::DarkBlue
            } else if t == 14 {
                Color::DarkMagenta
            } else if t == 15 {
                Color::DarkCyan
            } else {
                Color::White
            };
            Some(c)
        } else {
            None
        }
    } else if t == 17 {
        if p1 == 0 && p2 == 0 {
            Some(Color::Indexed { i: p0 })
        } else {
            None
        }
    } else if t == 18 {
        Some(Color::Rgb { r: p0, g: p1, b: p2 })
    } else {
        None
    }
}

/// Decode the 13-byte cell record at `pos`.
fn read_cell(data: &[u8], pos: usize) -> (r: Result<Character, Error>)
    requires
        pos <= data@.len(),
        data@.len() - pos >= 13,
    ensures
        r matches Ok(c) ==> spec_decode_cell(data@.skip(pos as int).take(13)) == Some(c),
        r is Err ==> spec_decode_cell(data@.skip(pos as int).take(13)) is None && r
            == Result::<Character, Error>::Err(Error::MalformedSerializedData),
{
    let ghost chunk = data@.skip(pos as int).take(13);
    let dlen = data.len();
    proof {
        assert(dlen == data@.len());
    }
    let glyph_bytes = slice_subrange(data, pos, pos + 4);
    let u = u32_from_le_bytes(glyph_bytes);
    proof {
        assert(chunk.subrange(0, 4) =~= glyph_bytes@);
    }
    let ch = match char_from_u32(u) {
        Option::Some(c) => c,
        Option::None => {
            return Err(Error::MalformedSerializedData);
        },
    };
    proof {
        assert(chunk.subrange(4, 8) =~= seq![
            data@[pos + 4],
            data@[pos + 5],
            data@[pos + 6],
            data@[pos + 7],
        ]);
        assert(chunk.subrange(8, 12) =~= seq![
            data@[pos + 8],
            data@[pos + 9],
            data@[pos + 10],
            data@[pos + 11],
        ]);
        assert(chunk[12] == data@[pos + 12]);
    }
    let fg = match color_from_bytes(data[pos + 4], data[pos + 5], data[pos + 6], data[pos + 7]) {
        Option::Some(c) => c,
        Option::None => {
            return Err(Error::MalformedSerializedData);
        },
    };
    let bg = match color_from_bytes(data[pos + 8], data[pos + 9], data[pos + 10], data[pos + 11]) {
        Option::Some(c) => c,
        Option::None => {
            return Err(Error::MalformedSerializedData);
        },
    };
    let mb = data[pos + 12];
    if mb >= 8 {
        return Err(Error::MalformedSerializedData);
    }
    let modifiers = Modifiers::new(mb % 2 == 1, (mb / 2) % 2 == 1, (mb / 4) % 2 == 1);
    Ok(Character::new(ch, Style::new(fg, bg, modifiers)))
}

/// Decode the row (cell count, then cells) starting at `pos`; on success
/// also the position just past it.
fn read_row(data: &[u8], pos: usize) -> (r: Result<(Vec<Character>, usize), Error>)
    requires
        pos <= data@.len(),
    ensures
        r matches Ok((row, p2)) ==> pos <= p2 <= data@.len() && dec_row(data@.skip(pos as int))
            == Some((row@, data@.skip(p2 as int))),
        r is Err ==> dec_row(data@.skip(pos as int)) is None && r == Result::<
            (Vec<Character>, usize),
            Error,
        >::Err(Error::MalformedSerializedData),
{
    if data.len() - pos < 8 {
        return Err(Error::MalformedSerializedData);
    }
    let header = slice_subrange(data, pos, pos + 8);
    let m = u64_from_le_bytes(header);
    proof {
        assert(data@.skip(pos as int).take(8) =~= header@);
    }
    let ghost cells_start = pos + 8;
    let mut pos2 = pos + 8;
    let mut row: Vec<Character> = Vec::new();
    let mut j: u64 = 0;
    proof {
        assert(data@.skip(pos as int).skip(8) =~= data@.skip(pos2 as int));
        assert(dec_row(data@.skip(pos as int)) == dec_cells(
            data@.skip(cells_start as int),
            m as nat,
        ));
    }
    while j < m
        invariant
            pos <= data@.len(),
            cells_start == pos + 8,
            cells_start <= pos2 <= data@.len(),
            j <= m,
            row@.len() == j,
            dec_row(data@.skip(pos as int)) == dec_cells(
                data@.skip(cells_start as int),
                m as nat,
            ),
            dec_cells(data@.skip(cells_start as int), m as nat) == (match dec_cells(
                data@.skip(pos2 as int),
                (m - j) as nat,
            ) {
                Option::None => Option::<(Seq<Character>, Seq<u8>)>::None,
                Option::Some((cs, rest)) => Option::Some((row@ + cs, rest)),
            }),
        decreases m - j,
    {
        if data.len() - pos2 < 13 {
            return Err(Error::MalformedSerializedData);
        }
        let cell = match read_cell(data, pos2) {
            Result::Ok(c) => c,
            Result::Err(e) => {
                return Err(e);
            },
        };
        proof {
            assert(data@.skip(pos2 as int).skip(13) =~= data@.skip(pos2 + 13));
            let stepped = dec_cells(data@.skip(pos2 + 13), (m - j - 1) as nat);
            assert(stepped matches Some(p) ==> row@.push(cell) + p.0 =~= row@ + (seq![cell]
                + p.0));
        }
        row.push(cell);
        pos2 += 13;
        j += 1;
    }
    proof {
        assert(row@ + Seq::<Character>::empty() =~= row@);
    }
    Ok((row, pos2))
}

impl LoaderBin {
    /// Decode a whole grid. Returns [`Error::MalformedSerializedData`]
    /// exactly on the inputs that are not the encoding of any grid.
    pub fn try_import(data: &[u8]) -> (r: Result<Vec<Vec<Character>>, Error>)
        ensures
            r matches Ok(v) ==> decode_grid(data@) == Some(grid_view(v@)),
            r is Ok <==> decode_grid(data@) is Some,
            r is Err ==> r == Result::<Vec<Vec<Character>>, Error>::Err(
                Error::MalformedSerializedData,
            ),
    {
        if data.len() < 8 {
            return Err(Error::MalformedSerializedData);
        }
        let header = slice_subrange(data, 0, 8);
        let n = u64_from_le_bytes(header);
        proof {
            assert(data@.take(8) =~= header@);
        }
        let mut rows: Vec<Vec<Character>> = Vec::new();
        let mut pos: usize = 8;
        let mut k: u64 = 0;
        while k < n
            invariant
                8 <= pos <= data@.len(),
                k <= n,
                rows@.len() == k,
                n == spec_u64_from_le_bytes(data@.take(8)),
                dec_rows(data@.skip(8), n as nat) == (match dec_rows(
                    data@.skip(pos as int),
                    (n - k) as nat,
                ) {
                    Option::None => Option::<(Seq<Seq<Character>>, Seq<u8>)>::None,
                    Option::Some((g2, rest)) => Option::Some((grid_view(rows@) + g2, rest)),
                }),
            decreases n - k,
        {
            let (row, pos2) = match read_row(data, pos) {
                Result::Ok(p) => p,
                Result::Err(e) => {
                    return Err(e);
                },
            };
            proof {
                let stepped = dec_rows(data@.skip(pos2 as int), (n - k - 1) as nat);
                assert(stepped matches Some(p) ==> grid_view(rows@.push(row)) + p.0 =~= grid_view(
                    rows@,
                ) + (seq![row@] + p.0));
            }
            rows.push(row);
            pos = pos2;
            k += 1;
        }
        if pos != data.len() {
            proof {
                assert(data@.skip(pos as int).len() > 0);
            }
            return Err(Error::MalformedSerializedData);
        }
        proof {
            assert(grid_view(rows@) + Seq::<Seq<Character>>::empty() =~= grid_view(rows@));
            assert(data@.skip(pos as int).len() == 0);
        }
        Ok(rows)
    }
}

impl<'a> Importer<&'a [u8]> for LoaderBin {
    /// Only exact encodings are admitted; [`LoaderBin::try_import`]
    /// reports every other input as an error instead.
    open spec fn import_req(data: Seq<u8>) -> bool {
        decode_grid(data) is Some
    }

    open spec fn import_spec(data: Seq<u8>) -> Seq<Seq<Character>> {
        decode_grid(data)->Some_0
    }

    fn import(data: &'a [u8]) -> (r: Vec<Vec<Character>>) {
        match LoaderBin::try_import(data) {
            Result::Ok(v) => v,
            Result::Err(_) => {
                proof {
                    assert(false);
                }
                vstd::pervasive::unreached()
            },
        }
    }
}

impl Exporter<Vec<u8>> for LoaderBin {
    open spec fn export_spec(data: Seq<Seq<Character>>) -> Seq<u8> {
        encode_grid(data)
    }

    fn export(data: &Vec<Vec<Character>>) -> (r: Vec<u8>) {
        let ghost g = grid_view(data@);
        let mut out: Vec<u8> = Vec::new();
        let mut header = u64_to_le_bytes(data.len() as u64);
        out.append(&mut header);
        let mut y: usize = 0;
        proof {
            assert(g.take(0) =~= Seq::<Seq<Character>>::empty());
            assert(out@ =~= spec_u64_to_le_bytes(g.len() as u64) + rows_bytes(g.take(0)));
        }
        while y < data.len()
            invariant
                y <= data@.len(),
                g == grid_view(data@),
                out@ == spec_u64_to_le_bytes(g.len() as u64) + rows_bytes(g.take(y as int)),
            decreases data@.len() - y,
        {
            let ghost out_head = out@;
            let ghost row_spec = g[y as int];
            let row_n = data[y].len();
            let mut row_header = u64_to_le_bytes(row_n as u64);
            out.append(&mut row_header);
            let mut x: usize = 0;
            proof {
                assert(row_spec.take(0) =~= Seq::<Character>::empty());
                assert(out@ =~= out_head + spec_u64_to_le_bytes(row_spec.len() as u64)
                    + cells_bytes(row_spec.take(0)));
            }
            while x < row_n
                invariant
                    x <= row_n,
                    y < data@.len(),
                    g == grid_view(data@),
                    row_spec == g[y as int],
                    row_n == data@[y as int]@.len(),
                    out@ == out_head + spec_u64_to_le_bytes(row_spec.len() as u64) + cells_bytes(
                        row_spec.take(x as int),
                    ),
                decreases row_n - x,
            {
                let cell = data[y][x];
                let mut glyph = vstd::bytes::u32_to_le_bytes(cell.character() as u32);
                out.append(&mut glyph);
                color_to_bytes(&cell.style.fg, &mut out);
                color_to_bytes(&cell.style.bg, &mut out);
                out.push(modifiers_to_byte(&cell.style.modifiers));
                proof {
                    lemma_cells_bytes_snoc(row_spec.take(x as int), cell);
                    assert(row_spec.take(x + 1) =~= row_spec.take(x as int).push(cell));
                    assert(out@ =~= out_head + spec_u64_to_le_bytes(row_spec.len() as u64)
                        + cells_bytes(row_spec.take(x + 1)));
                }
                x += 1;
            }
            proof {
                assert(row_spec.take(row_n as int) =~= row_spec);
                lemma_rows_bytes_snoc(g.take(y as int), row_spec);
                assert(g.take(y + 1) =~= g.take(y as int).push(row_spec));
                assert(out@ =~= spec_u64_to_le_bytes(g.len() as u64) + rows_bytes(g.take(y + 1)));
            }
            y += 1;
        }
        proof {
            assert(g.take(g.len() as int) =~= g);
        }
        out
    }
}

} // verus!
