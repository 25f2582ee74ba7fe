//! Plain-text import and export of cell grids. Text carries glyphs only:
//! importing gives every cell the default style, exporting drops styles.

use vstd::prelude::*;

use crate::canvas::grid_view;
use crate::character::Character;
use crate::loader::{Exporter, Importer};
use crate::style::Style;

verus! {

/// Reads grids from plain text (rows are newline-separated, short rows are
/// padded) and writes them back as the rows' glyphs joined by newlines.
pub struct LoaderTxt {}

/// The number of characters before the first newline (all of `s` if it has
/// none).
pub open spec fn line_len(s: Seq<char>) -> nat
    decreases s.len(),
{
    if s.len() == 0 {
        0
    } else if s[0] == '\n' {
        0
    } else {
        1 + line_len(s.drop_first())
    }
}

/// The lines of a text: the segments between newline characters. A final
/// segment after the last newline is kept only if it is non-empty, so a
/// trailing newline adds no line.
pub open spec fn split_lines(s: Seq<char>) -> Seq<Seq<char>>
    decreases s.len(),
{
    if s.len() == 0 {
        Seq::empty()
    } else {
        let l = line_len(s);
        if l >= s.len() {
            seq![s]
        } else {
            seq![s.take(l as int)] + split_lines(s.skip(l + 1int))
        }
    }
}

/// The length of the longest line (zero if there are none).
pub open spec fn max_line_len(ls: Seq<Seq<char>>) -> nat
    decreases ls.len(),
{
    if ls.len() == 0 {
        0
    } else {
        let m = max_line_len(ls.drop_last());
        if ls.last().len() > m {
            ls.last().len()
        } else {
            m
        }
    }
}

/// The grid a text denotes: one row per line, every row padded with
/// default cells to the longest line's length, every glyph carrying the
/// default style.
pub open spec fn txt_import_spec(s: Seq<char>) -> Seq<Seq<Character>> {
    let lines = split_lines(s);
    let w = max_line_len(lines);
    Seq::new(
        lines.len(),
        |i: int|
            Seq::new(
                w,
                |j: int|
                    if j < lines[i].len() {
                        Character::new_spec(lines[i][j], Style::default_spec())
                    } else {
                        Character::default_spec()
                    },
            ),
    )
}

/// The glyphs of one row.
pub open spec fn row_glyphs(row: Seq<Character>) -> Seq<char> {
    Seq::new(row.len(), |i: int| row[i].character)
}

/// The text a grid denotes: each row's glyphs, rows joined by a single
/// newline, no trailing newline.
pub open spec fn txt_export_spec(g: Seq<Seq<Character>>) -> Seq<char>
    decreases g.len(),
{
    if g.len() == 0 {
        Seq::empty()
    } else if g.len() == 1 {
        row_glyphs(g[0])
    } else {
        txt_export_spec(g.drop_last()) + seq!['\n'] + row_glyphs(g.last())
    }
}

/// The contents of a vector of line buffers.
pub open spec fn lines_view(b: Seq<Vec<char>>) -> Seq<Seq<char>> {
    Seq::new(b.len(), |i: int| b[i]@)
}

proof fn lemma_line_len_nl(a: Seq<char>, b: Seq<char>)
    requires
        forall|k: int| 0 <= k < a.len() ==> a[k] != '\n',
    ensures
        line_len(a + seq!['\n'] + b) == a.len(),
    decreases a.len(),
{
    let s = a + seq!['\n'] + b;
    if a.len() == 0 {
        assert(s[0] == '\n');
    } else {
        assert(s[0] == a[0]);
        assert(s.drop_first() =~= a.drop_first() + seq!['\n'] + b);
        lemma_line_len_nl(a.drop_first(), b);
    }
}

proof fn lemma_line_len_no_nl(a: Seq<char>)
    requires
        forall|k: int| 0 <= k < a.len() ==> a[k] != '\n',
    ensures
        line_len(a) == a.len(),
    decreases a.len(),
{
    if a.len() > 0 {
        lemma_line_len_no_nl(a.drop_first());
    }
}

/// Splitting a text that starts with a newline-free segment `a` followed by
/// a newline yields `a` and then the lines of the rest.
proof fn lemma_split_lines_nl(a: Seq<char>, b: Seq<char>)
    requires
        forall|k: int| 0 <= k < a.len() ==> a[k] != '\n',
    ensures
        split_lines(a + seq!['\n'] + b) == seq![a] + split_lines(b),
{
    let s = a + seq!['\n'] + b;
    lemma_line_len_nl(a, b);
    assert(s.len() == a.len() + 1 + b.len());
    assert(s.take(a.len() as int) =~= a);
    assert(s.skip(a.len() + 1int) =~= b);
    assert(split_lines(s) == seq![a] + split_lines(b));
}

/// A non-empty newline-free text is a single line.
proof fn lemma_split_lines_no_nl(a: Seq<char>)
    requires
        forall|k: int| 0 <= k < a.len() ==> a[k] != '\n',
        a.len() > 0,
    ensures
        split_lines(a) == seq![a],
{
    lemma_line_len_no_nl(a);
}

fn max_width(lines: &Vec<Vec<char>>) -> (w: usize)
    ensures
        w == max_line_len(lines_view(lines@)),
{
    let ghost lv = lines_view(lines@);
    let mut w: usize = 0;
    let mut k: usize = 0;
    while k < lines.len()
        invariant
            k <= lines.len(),
            lv == lines_view(lines@),
            w == max_line_len(lv.take(k as int)),
        decreases lines.len() - k,
    {
        proof {
            assert(lv.take(k + 1).drop_last() =~= lv.take(k as int));
            assert(lv.take(k + 1).last() == lines@[k as int]@);
        }
        if lines[k].len() > w {
            w = lines[k].len();
        }
        k += 1;
    }
    proof {
        assert(lv.take(lines@.len() as int) =~= lv);
    }
    w
}

/// Appends one character. Relies on `String::push`, which appends exactly
/// that character.
#[verifier::external_body]
fn push_char(s: &mut String, c: char)
    ensures
        final(s)@ == old(s)@.push(c),
{
    s.push(c);
}

impl<'a> Importer<&'a str> for LoaderTxt {
    /// Every text can be imported.
    open spec fn import_req(data: Seq<char>) -> bool {
        true
    }

    open spec fn import_spec(data: Seq<char>) -> Seq<Seq<Character>> {
        txt_import_spec(data)
    }

    fn import(data: &'a str) -> (r: Vec<Vec<Character>>) {
        let n = data.unicode_len();
        let mut lines: Vec<Vec<char>> = Vec::new();
        let mut cur: Vec<char> = Vec::new();
        let mut i: usize = 0;
        proof {
            assert(cur@ + data@.skip(i as int) =~= data@);
            assert(lines_view(lines@) + split_lines(data@) =~= split_lines(data@));
        }
        while i < n
            invariant
                n == data@.len(),
                i <= n,
                forall|k: int| 0 <= k < cur@.len() ==> cur@[k] != '\n',
                split_lines(data@) == lines_view(lines@) + split_lines(cur@ + data@.skip(i as int)),
            decreases n - i,
        {
            let c = data.get_char(i);
            if c == '\n' {
                proof {
                    assert(cur@ + data@.skip(i as int) =~= cur@ + seq!['\n'] + data@.skip(
                        i + 1,
                    ));
                    lemma_split_lines_nl(cur@, data@.skip(i + 1));
                }
                let finished = cur;
                cur = Vec::new();
                lines.push(finished);
                proof {
                    assert(lines_view(lines@) =~= lines_view(lines@.drop_last()) + seq![
                        finished@,
                    ]);
                    assert(cur@ + data@.skip(i + 1) =~= data@.skip(i + 1));
                    assert(lines_view(lines@) + split_lines(data@.skip(i + 1)) =~= (lines_view(
                        lines@.drop_last(),
                    ) + seq![finished@]) + split_lines(data@.skip(i + 1)));
                    assert((lines_view(lines@.drop_last()) + seq![finished@]) + split_lines(
                        data@.skip(i + 1),
                    ) =~= lines_view(lines@.drop_last()) + (seq![finished@] + split_lines(
                        data@.skip(i + 1),
                    )));
                }
            } else {
                proof {
                    assert(cur@ + data@.skip(i as int) =~= cur@.push(c) + data@.skip(i + 1));
                }
                cur.push(c);
            }
            i += 1;
        }
        proof {
            assert(cur@ + data@.skip(n as int) =~= cur@);
        }
        if cur.len() > 0 {
            proof {
                lemma_split_lines_no_nl(cur@);
            }
            let finished = cur;
            lines.push(finished);
            proof {
                assert(lines_view(lines@) =~= lines_view(lines@.drop_last()) + seq![finished@]);
            }
        } else {
            proof {
                assert(split_lines(cur@) =~= Seq::<Seq<char>>::empty());
                assert(lines_view(lines@) + Seq::<Seq<char>>::empty() =~= lines_view(lines@));
            }
        }
        let ghost lv = lines_view(lines@);
        proof {
            assert(lv == split_lines(data@));
        }
        let w = max_width(&lines);
        let ghost spec_grid = txt_import_spec(data@);
        let mut out: Vec<Vec<Character>> = Vec::new();
        let mut y: usize = 0;
        while y < lines.len()
            invariant
                y <= lines.len(),
                lv == lines_view(lines@),
                lv == split_lines(data@),
                w == max_line_len(lv),
                spec_grid == txt_import_spec(data@),
                out@.len() == y,
                forall|i2: int| 0 <= i2 < y ==> (#[trigger] out@[i2]@) == spec_grid[i2],
            decreases lines.len() - y,
        {
            let line_n = lines[y].len();
            let mut row: Vec<Character> = Vec::new();
            let mut x: usize = 0;
            while x < w
                invariant
                    x <= w,
                    y < lines@.len(),
                    lv == lines_view(lines@),
                    lv == split_lines(data@),
                    w == max_line_len(lv),
                    spec_grid == txt_import_spec(data@),
                    line_n == lines@[y as int]@.len(),
                    row@.len() == x,
                    forall|j: int| 0 <= j < x ==> (#[trigger] row@[j]) == spec_grid[y as int][j],
                decreases w - x,
            {
                let cell = if x < line_n {
                    Character::new(lines[y][x], Style::default())
                } else {
                    Character::default()
                };
                row.push(cell);
                x += 1;
            }
            proof {
                assert(row@ =~= spec_grid[y as int]);
            }
            out.push(row);
            y += 1;
        }
        proof {
            assert(grid_view(out@) =~= txt_import_spec(data@));
        }
        out
    }
}

impl Exporter<String> for LoaderTxt {
    open spec fn export_spec(data: Seq<Seq<Character>>) -> Seq<char> {
        txt_export_spec(data)
    }

    fn export(data: &Vec<Vec<Character>>) -> (r: String) {
        let ghost g = grid_view(data@);
        let mut s = String::new();
        let mut y: usize = 0;
        while y < data.len()
            invariant
                y <= data.len(),
                g == grid_view(data@),
                s@ == txt_export_spec(g.take(y as int)),
            decreases data.len() - y,
        {
            if y > 0 {
                push_char(&mut s, '\n');
            }
            let row_n = data[y].len();
            let ghost s_head = s@;
            let mut x: usize = 0;
            while x < row_n
                invariant
                    x <= row_n,
                    y < data@.len(),
                    g == grid_view(data@),
                    row_n == data@[y as int]@.len(),
                    s@ == s_head + row_glyphs(g[y as int].take(x as int)),
                decreases row_n - x,
            {
                let c = data[y][x].character();
                proof {
                    assert(row_glyphs(g[y as int].take(x + 1)) =~= row_glyphs(
                        g[y as int].take(x as int),
                    ).push(data@[y as int]@[x as int].character));
                }
                push_char(&mut s, c);
                x += 1;
            }
            proof {
                assert(g[y as int].take(row_n as int) =~= g[y as int]);
                assert(g.take(y + 1).drop_last() =~= g.take(y as int));
                assert(g.take(y + 1).last() == g[y as int]);
                if y == 0 {
                    assert(s@ =~= txt_export_spec(g.take(y + 1)));
                } else {
                    assert(s@ =~= txt_export_spec(g.take(y as int)) + seq!['\n'] + row_glyphs(
                        g[y as int],
                    ));
                    assert(s@ =~= txt_export_spec(g.take(y + 1)));
                }
            }
            y += 1;
        }
        proof {
            assert(g.take(data@.len() as int) =~= g);
        }
        s
    }
}

} // verus!
