//! The layout allocator: partitions a parent rectangle among an ordered
//! sequence of children along one axis, honoring fixed size preferences,
//! splitting the leftover space among flexible children (earlier flexible
//! children absorb the division remainder), separating children by a fixed
//! margin and stretching every child to the full cross-axis extent.

use vstd::prelude::*;

use crate::drawable::{size_in_direction, Direction, Rect, Size, WidgetSized};
use crate::error::Error;
use crate::size_error::SizeError;
use crate::spacer::Spacer;
use crate::status_bar::{CursorBar, ModeBar};
use crate::widget_canvas::sat_u16;

verus! {

broadcast use vstd::std_specs::vec::axiom_vec_index_decreases, vstd::seq::axiom_seq_index_decreases;

/// The closed set of visual elements a layout can arrange. Composite
/// layouts nest through the `Layout` variant.
#[derive(Debug)]
pub enum Widget {
    Canvas(crate::widget_canvas::Canvas),
    Spacer(Spacer),
    ModeBar(ModeBar),
    CursorBar(CursorBar),
    SizeError(SizeError),
    Layout(Layout),
}

/// An ordered sequence of children arranged along one axis with a fixed
/// margin between neighbors.
#[derive(Debug)]
pub struct Layout {
    pub children: Vec<Widget>,
    pub direction: Direction,
    pub margin: u16,
}

/// The other axis.
pub open spec fn cross_direction(d: Direction) -> Direction {
    match d {
        Direction::Horizontal => Direction::Vertical,
        Direction::Vertical => Direction::Horizontal,
    }
}

/// The sum of the preferred sizes.
pub open spec fn sum_sizes(ps: Seq<Size>) -> int
    decreases ps.len(),
{
    if ps.len() == 0 {
        0
    } else {
        ps[0].size + sum_sizes(ps.drop_first())
    }
}

/// The largest preferred size (zero when there are none).
pub open spec fn max_sizes(ps: Seq<Size>) -> int
    decreases ps.len(),
{
    if ps.len() == 0 {
        0
    } else {
        let m = max_sizes(ps.drop_first());
        if ps[0].size > m {
            ps[0].size as int
        } else {
            m
        }
    }
}

/// Whether any preference is flexible.
pub open spec fn any_flexible(ps: Seq<Size>) -> bool {
    exists|i: int| 0 <= i < ps.len() && ps[i].flexible
}

/// How many preferences are flexible.
pub open spec fn count_flex(ps: Seq<Size>) -> int
    decreases ps.len(),
{
    if ps.len() == 0 {
        0
    } else {
        (if ps[0].flexible {
            1int
        } else {
            0int
        }) + count_flex(ps.drop_first())
    }
}

/// The sum of the non-flexible preferred sizes.
pub open spec fn fixed_total(ps: Seq<Size>) -> int
    decreases ps.len(),
{
    if ps.len() == 0 {
        0
    } else {
        (if ps[0].flexible {
            0int
        } else {
            ps[0].size as int
        }) + fixed_total(ps.drop_first())
    }
}

/// The space the margins between `n` children take.
pub open spec fn margin_total(n: nat, margin: u16) -> int {
    if n == 0 {
        0
    } else {
        (n - 1) * margin
    }
}

/// The preferred size pair one widget reports, along both axes.
pub open spec fn widget_size(w: Widget) -> (Size, Size)
    decreases w,
{
    match w {
        Widget::Canvas(c) => c.spec_size_preferred(),
        Widget::Spacer(s) => s.spec_size_preferred(),
        Widget::ModeBar(m) => m.spec_size_preferred(),
        Widget::CursorBar(c) => c.spec_size_preferred(),
        Widget::SizeError(e) => e.spec_size_preferred(),
        Widget::Layout(l) => layout_size_of(pairs_of(l.children@), l.direction, l.margin),
    }
}

/// The preferred size pairs of a sequence of widgets, in order.
pub open spec fn pairs_of(cs: Seq<Widget>) -> Seq<(Size, Size)>
    decreases cs,
{
    if cs.len() == 0 {
        Seq::empty()
    } else {
        seq![widget_size(cs[0])] + pairs_of(cs.drop_first())
    }
}

/// `pairs_of` maps each widget to its size pair, position by position.
pub proof fn lemma_pairs_of(cs: Seq<Widget>)
    ensures
        pairs_of(cs).len() == cs.len(),
        forall|i: int| 0 <= i < cs.len() ==> (#[trigger] pairs_of(cs)[i]) == widget_size(cs[i]),
    decreases cs.len(),
{
    if cs.len() > 0 {
        lemma_pairs_of(cs.drop_first());
        assert(forall|i: int|
            1 <= i < cs.len() ==> pairs_of(cs)[i] == pairs_of(cs.drop_first())[i - 1]);
        assert(forall|i: int|
            1 <= i < cs.len() ==> cs.drop_first()[i - 1] == cs[i]);
    }
}

/// The per-axis preferences of a sequence of size pairs.
pub open spec fn axis_of(pairs: Seq<(Size, Size)>, d: Direction) -> Seq<Size> {
    Seq::new(pairs.len(), |i: int| size_in_direction(pairs[i], d))
}

/// The aggregate preferred size of a layout over its children's pairs: on
/// the allocation axis the children's sum plus the margins, flexible iff
/// any child is; on the cross axis the children's maximum, flexible iff
/// any child is.
pub open spec fn layout_size_of(pairs: Seq<(Size, Size)>, d: Direction, margin: u16) -> (
    Size,
    Size,
) {
    let along = axis_of(pairs, d);
    let across = axis_of(pairs, cross_direction(d));
    let main = Size {
        size: sat_u16(sum_sizes(along) + margin_total(pairs.len(), margin)),
        flexible: any_flexible(along),
    };
    let cross = Size { size: sat_u16(max_sizes(across)), flexible: any_flexible(across) };
    match d {
        Direction::Horizontal => (main, cross),
        Direction::Vertical => (cross, main),
    }
}

/// The size each child is allocated, in order: a non-flexible child gets
/// its preferred size; a flexible child gets the remaining flexible space
/// divided by the number of flexible children still to come, rounded up,
/// and that share is subtracted before the next child is served. Earlier
/// flexible children therefore absorb the division remainder, and shares
/// never increase from left to right.
pub open spec fn alloc_sizes(ps: Seq<Size>, rem: int, cnt: int) -> Seq<int>
    decreases ps.len(),
{
    if ps.len() == 0 {
        Seq::empty()
    } else if ps[0].flexible {
        let share = (rem + cnt - 1) / cnt;
        seq![share] + alloc_sizes(ps.drop_first(), rem - share, cnt - 1)
    } else {
        seq![ps[0].size as int] + alloc_sizes(ps.drop_first(), rem, cnt)
    }
}

/// The rectangles the allocated sizes produce: each child starts where the
/// previous one ended plus the margin, and spans the parent's full
/// cross-axis extent.
pub open spec fn place_rects(
    sizes: Seq<int>,
    area: Rect,
    d: Direction,
    margin: u16,
    pos: int,
) -> Seq<Rect>
    decreases sizes.len(),
{
    if sizes.len() == 0 {
        Seq::empty()
    } else {
        let r = match d {
            Direction::Horizontal => Rect {
                x: pos as u16,
                y: area.y,
                width: sizes[0] as u16,
                height: area.height,
            },
            Direction::Vertical => Rect {
                x: area.x,
                y: pos as u16,
                width: area.width,
                height: sizes[0] as u16,
            },
        };
        seq![r] + place_rects(sizes.drop_first(), area, d, margin, pos + sizes[0] + margin)
    }
}

/// The sum of a sequence of integers.
pub open spec fn sum_ints(s: Seq<int>) -> int
    decreases s.len(),
{
    if s.len() == 0 {
        0
    } else {
        s[0] + sum_ints(s.drop_first())
    }
}


proof fn lemma_count_flex_nonneg(ps: Seq<Size>)
    ensures
        count_flex(ps) >= 0,
    decreases ps.len(),
{
    if ps.len() > 0 {
        lemma_count_flex_nonneg(ps.drop_first());
    }
}

/// The properties of the sequential share division: it serves every child,
/// never hands out a negative size, gives non-flexible children exactly
/// their preference, and with at least one flexible child consumes the
/// flexible space exactly.
proof fn lemma_alloc_props(ps: Seq<Size>, rem: int, cnt: int)
    requires
        cnt == count_flex(ps),
        rem >= 0,
    ensures
        alloc_sizes(ps, rem, cnt).len() == ps.len(),
        forall|k: int| 0 <= k < ps.len() ==> (#[trigger] alloc_sizes(ps, rem, cnt)[k]) >= 0,
        forall|k: int|
            0 <= k < ps.len() && !ps[k].flexible ==> (#[trigger] alloc_sizes(ps, rem, cnt)[k])
                == ps[k].size,
        sum_ints(alloc_sizes(ps, rem, cnt)) == fixed_total(ps) + (if cnt > 0 {
            rem
        } else {
            0int
        }),
    decreases ps.len(),
{
    if ps.len() == 0 {
    } else if ps[0].flexible {
        lemma_count_flex_nonneg(ps.drop_first());
        assert(cnt >= 1);
        let share = (rem + cnt - 1) / cnt;
        assert(0 <= share <= rem) by (nonlinear_arith)
            requires
                rem >= 0,
                cnt >= 1,
                share == (rem + cnt - 1) / cnt,
        ;
        lemma_alloc_props(ps.drop_first(), rem - share, cnt - 1);
        let tail = alloc_sizes(ps.drop_first(), rem - share, cnt - 1);
        let whole = alloc_sizes(ps, rem, cnt);
        assert(whole =~= seq![share] + tail);
        assert(whole.drop_first() =~= tail);
        assert(sum_ints(whole) == share + sum_ints(tail));
        assert(forall|k: int| 0 <= k < tail.len() ==> whole[k + 1] == tail[k]);
        if cnt - 1 > 0 {
            assert(sum_ints(whole) == fixed_total(ps) + rem);
        } else {
            assert(share == rem) by (nonlinear_arith)
                requires
                    cnt == 1,
                    rem >= 0,
                    share == (rem + cnt - 1) / cnt,
            ;
        }
    } else {
        lemma_alloc_props(ps.drop_first(), rem, cnt);
        let tail = alloc_sizes(ps.drop_first(), rem, cnt);
        let whole = alloc_sizes(ps, rem, cnt);
        assert(whole.drop_first() =~= tail);
        assert(forall|k: int| 0 <= k < tail.len() ==> whole[k + 1] == tail[k]);
    }
}


proof fn lemma_sum_nonneg(s: Seq<int>)
    requires
        forall|k: int| 0 <= k < s.len() ==> s[k] >= 0,
    ensures
        sum_ints(s) >= 0,
    decreases s.len(),
{
    if s.len() > 0 {
        assert(forall|k: int|
            0 <= k < s.drop_first().len() ==> (#[trigger] s.drop_first()[k]) == s[k + 1]);
        lemma_sum_nonneg(s.drop_first());
    }
}

impl Layout {
    /// The preferred size pairs of the children, in order.
    pub open spec fn child_size_pairs(&self) -> Seq<(Size, Size)> {
        pairs_of(self.children@)
    }

    /// The preferences along the allocation axis.
    pub open spec fn spec_axis_sizes(&self) -> Seq<Size> {
        axis_of(self.child_size_pairs(), self.direction)
    }

    /// Whether the parent rectangle can seat the children's fixed sizes
    /// and the margins.
    pub open spec fn spec_fits(&self, area: Rect) -> bool {
        fixed_total(self.spec_axis_sizes()) + margin_total(self.children@.len(), self.margin)
            <= area.spec_extent(self.direction)
    }

    /// The flexible space the parent offers beyond fixed sizes and
    /// margins.
    pub open spec fn spec_flexible_space(&self, area: Rect) -> int {
        area.spec_extent(self.direction) - fixed_total(self.spec_axis_sizes()) - margin_total(
            self.children@.len(),
            self.margin,
        )
    }

    /// The sizes the children are allocated along the axis.
    pub open spec fn spec_alloc_sizes(&self, area: Rect) -> Seq<int> {
        alloc_sizes(
            self.spec_axis_sizes(),
            self.spec_flexible_space(area),
            count_flex(self.spec_axis_sizes()),
        )
    }

    /// The rectangle each child receives.
    pub open spec fn spec_rects(&self, area: Rect) -> Seq<Rect> {
        place_rects(
            self.spec_alloc_sizes(area),
            area,
            self.direction,
            self.margin,
            area.spec_origin(self.direction) as int,
        )
    }

    pub fn new(children: Vec<Widget>, direction: Direction, margin: u16) -> (r: Self)
        ensures
            r.children == children,
            r.direction == direction,
            r.margin == margin,
    {
        Self { children, direction, margin }
    }

    /// How many children are flexible along an axis.
    pub fn count_flexible_children(&self, direction: &Direction) -> (r: usize)
        ensures
            r == count_flex(axis_of(self.child_size_pairs(), *direction)),
    {
        let ghost ps = axis_of(self.child_size_pairs(), *direction);
        let mut count: usize = 0;
        let mut i: usize = 0;
        proof {
            lemma_pairs_of(self.children@);
            assert(ps.skip(0) =~= ps);
        }
        while i < self.children.len()
            invariant
                i <= self.children@.len(),
                count <= i,
                ps == axis_of(self.child_size_pairs(), *direction),
                count_flex(ps) == count + count_flex(ps.skip(i as int)),
            decreases self.children@.len() - i,
        {
            proof {
                lemma_pairs_of(self.children@);
                assert(ps.skip(i as int)[0] == ps[i as int]);
                assert(ps.skip(i as int).drop_first() =~= ps.skip(i + 1));
            }
            let s = self.children[i].size_preferred_in_direction(direction);
            if s.flexible {
                count += 1;
            }
            i += 1;
        }
        proof {
            lemma_pairs_of(self.children@);
            assert(ps.skip(self.children@.len() as int) =~= Seq::<Size>::empty());
        }
        count
    }

    /// How many margins separate the children (one fewer than the
    /// children, none for an empty layout).
    pub fn count_margins(&self) -> (r: usize)
        ensures
            r == (if self.children@.len() == 0 {
                0int
            } else {
                self.children@.len() - 1
            }),
    {
        if self.children.len() == 0 {
            0
        } else {
            self.children.len() - 1
        }
    }

    /// Partition `area` among the children along the layout's axis: each
    /// non-flexible child gets exactly its preferred size, the flexible
    /// children split the leftover space (earlier ones absorbing the
    /// remainder), a margin separates neighbors and no margin follows the
    /// last child, and every child spans the full cross-axis extent. An
    /// area whose extent cannot seat the fixed sizes and margins is
    /// reported as [`Error::InsufficientSpace`].
    pub fn align_children(&self, area: Rect) -> (r: Result<Vec<Rect>, Error>)
        requires
            area.wf(),
        ensures
            r is Ok <==> self.spec_fits(area),
            r matches Ok(v) ==> v@ == self.spec_rects(area),
            r is Err ==> r == Result::<Vec<Rect>, Error>::Err(Error::InsufficientSpace),
    {
        let ghost ps = self.spec_axis_sizes();
        proof {
            lemma_pairs_of(self.children@);
        }
        let n = self.children.len();
        let d = self.direction;
        let extent: u16 = match d {
            Direction::Horizontal => area.width,
            Direction::Vertical => area.height,
        };
        let origin: u16 = match d {
            Direction::Horizontal => area.x,
            Direction::Vertical => area.y,
        };

        // Total of the fixed preferences, in a width that cannot overflow.
        let mut fixed: u128 = 0;
        let mut i: usize = 0;
        proof {
            assert(ps.skip(0) =~= ps);
        }
        while i < n
            invariant
                n == self.children@.len(),
                i <= n,
                d == self.direction,
                ps == self.spec_axis_sizes(),
                fixed <= i * 0xffff,
                fixed_total(ps) == fixed + fixed_total(ps.skip(i as int)),
            decreases n - i,
        {
            proof {
                lemma_pairs_of(self.children@);
                assert(ps.skip(i as int)[0] == ps[i as int]);
                assert(ps.skip(i as int).drop_first() =~= ps.skip(i + 1));
            }
            let s = self.children[i].size_preferred_in_direction(&d);
            if !s.flexible {
                fixed = fixed + s.size as u128;
            }
            i += 1;
        }
        proof {
            lemma_pairs_of(self.children@);
            assert(ps.skip(n as int) =~= Seq::<Size>::empty());
        }

        let margins: u128 = if n == 0 {
            0
        } else {
            proof {
                assert(0 <= (n - 1) * (self.margin as int) < 0x1_0000_0000_0000_0000_0000)
                    by (nonlinear_arith)
                    requires
                        1 <= n,
                        n - 1 < 0x1_0000_0000_0000_0000,
                        0 <= self.margin < 0x1_0000,
                ;
            }
            (n - 1) as u128 * self.margin as u128
        };
        proof {
            assert(margins == margin_total(self.children@.len() as nat, self.margin));
            assert(fixed <= n * 0xffff);
        }
        if fixed + margins > extent as u128 {
            return Err(Error::InsufficientSpace);
        }

        // Everything fits: the fixed total and the margins are at most the
        // extent, so all further arithmetic stays within u16.
        proof {
            assert(fixed_total(Seq::<Size>::empty()) == 0);
            assert(fixed == fixed_total(ps));
        }
        let mut rem: u16 = extent - fixed as u16 - margins as u16;
        let mut cnt: usize = self.count_flexible_children(&d);
        let ghost all_sizes = self.spec_alloc_sizes(area);
        proof {
            lemma_pairs_of(self.children@);
            lemma_alloc_props(ps, self.spec_flexible_space(area), count_flex(ps));
            lemma_count_flex_nonneg(ps);
            assert(ps.skip(0) =~= ps);
            assert(all_sizes.skip(0) =~= all_sizes);
        }
        let mut out: Vec<Rect> = Vec::new();
        let mut pos: u16 = origin;
        let mut k: usize = 0;
        while k < n
            invariant
                n == self.children@.len(),
                k <= n,
                d == self.direction,
                extent == area.spec_extent(d),
                origin == area.spec_origin(d),
                origin + extent <= u16::MAX,
                ps == self.spec_axis_sizes(),
                all_sizes == self.spec_alloc_sizes(area),
                all_sizes.len() == n,
                forall|j: int| 0 <= j < n ==> (#[trigger] all_sizes[j]) >= 0,
                cnt == count_flex(ps.skip(k as int)),
                alloc_sizes(ps.skip(k as int), rem as int, cnt as int) == all_sizes.skip(k as int),
                out@.len() == k,
                k == n || pos + sum_ints(all_sizes.skip(k as int)) + (n - 1 - k) * self.margin
                    <= origin + extent,
                place_rects(all_sizes, area, d, self.margin, origin as int) == out@ + place_rects(
                    all_sizes.skip(k as int),
                    area,
                    d,
                    self.margin,
                    pos as int,
                ),
            decreases n - k,
        {
            proof {
                lemma_pairs_of(self.children@);
                assert(ps.skip(k as int)[0] == ps[k as int]);
                assert(ps.skip(k as int).drop_first() =~= ps.skip(k + 1));
                assert(all_sizes.skip(k as int)[0] == all_sizes[k as int]);
                assert(all_sizes.skip(k as int).drop_first() =~= all_sizes.skip(k + 1));
                lemma_count_flex_nonneg(ps.skip(k + 1));
                lemma_sum_nonneg(all_sizes.skip(k + 1));
                assert(sum_ints(all_sizes.skip(k as int)) == all_sizes[k as int] + sum_ints(
                    all_sizes.skip(k + 1),
                ));
            }
            let s = self.children[k].size_preferred_in_direction(&d);
            let size_k: u16;
            if s.flexible {
                proof {
                    assert(cnt >= 1);
                    assert((0int + cnt - 1) / (cnt as int) == 0 && (rem as int + cnt - 1) / (
                    cnt as int) == (if rem == 0 {
                        0int
                    } else {
                        (rem - 1) as int / (cnt as int) + 1
                    }) && 0 <= (rem as int + cnt - 1) / (cnt as int) <= rem as int)
                        by (nonlinear_arith)
                        requires
                            rem >= 0,
                            cnt >= 1,
                    ;
                }
                let share: usize = if rem == 0 {
                    0
                } else {
                    ((rem - 1) as usize) / cnt + 1
                };
                size_k = share as u16;
                rem = rem - size_k;
                cnt = cnt - 1;
            } else {
                size_k = s.size;
            }
            proof {
                assert(size_k as int == all_sizes[k as int]);
            }
            let rect = match d {
                Direction::Horizontal => Rect {
                    x: pos,
                    y: area.y,
                    width: size_k,
                    height: area.height,
                },
                Direction::Vertical => Rect {
                    x: area.x,
                    y: pos,
                    width: area.width,
                    height: size_k,
                },
            };
            proof {
                let placed = place_rects(all_sizes.skip(k as int), area, d, self.margin, pos as int);
                assert(placed[0] == rect);
                assert(placed.drop_first() =~= place_rects(
                    all_sizes.skip(k + 1),
                    area,
                    d,
                    self.margin,
                    pos as int + all_sizes[k as int] + self.margin,
                ));
                assert(out@.push(rect) + placed.drop_first() =~= out@ + placed);
            }
            out.push(rect);
            if k + 1 < n {
                proof {
                    assert((n - 1 - k) * self.margin == self.margin + (n - 2 - k) * self.margin)
                        by (nonlinear_arith)
                        requires
                            n - 1 - k >= 1,
                    ;
                    assert(self.margin + (n - 2 - k) * self.margin >= self.margin)
                        by (nonlinear_arith)
                        requires
                            n - 2 - k >= 0,
                            self.margin >= 0,
                    ;
                }
                pos = pos + size_k + self.margin;
            }
            k += 1;
            proof {
                if k == n {
                    assert(all_sizes.skip(k as int) =~= Seq::<int>::empty());
                }
            }
        }
        proof {
            lemma_pairs_of(self.children@);
            assert(all_sizes.skip(n as int) =~= Seq::<int>::empty());
            assert(place_rects(Seq::<int>::empty(), area, d, self.margin, pos as int)
                =~= Seq::<Rect>::empty());
            assert(out@ + Seq::<Rect>::empty() =~= out@);
        }
        Ok(out)
    }
}


proof fn lemma_sum_sizes_push(s: Seq<Size>, x: Size)
    ensures
        sum_sizes(s.push(x)) == sum_sizes(s) + x.size,
    decreases s.len(),
{
    let snoc = s.push(x);
    assert(sum_sizes(snoc) == snoc[0].size + sum_sizes(snoc.drop_first()));
    if s.len() == 0 {
        assert(snoc.drop_first() =~= Seq::<Size>::empty());
        assert(snoc[0] == x);
    } else {
        assert(snoc[0] == s[0]);
        assert(snoc.drop_first() =~= s.drop_first().push(x));
        lemma_sum_sizes_push(s.drop_first(), x);
    }
}

proof fn lemma_max_sizes_push(s: Seq<Size>, x: Size)
    ensures
        max_sizes(s.push(x)) == (if x.size > max_sizes(s) {
            x.size as int
        } else {
            max_sizes(s)
        }),
    decreases s.len(),
{
    let snoc = s.push(x);
    assert(max_sizes(snoc) == (if snoc[0].size > max_sizes(snoc.drop_first()) {
        snoc[0].size as int
    } else {
        max_sizes(snoc.drop_first())
    }));
    if s.len() == 0 {
        assert(snoc.drop_first() =~= Seq::<Size>::empty());
        assert(snoc[0] == x);
    } else {
        assert(snoc[0] == s[0]);
        assert(snoc.drop_first() =~= s.drop_first().push(x));
        lemma_max_sizes_push(s.drop_first(), x);
    }
}

proof fn lemma_sum_sizes_nonneg(s: Seq<Size>)
    ensures
        sum_sizes(s) >= 0,
    decreases s.len(),
{
    if s.len() > 0 {
        lemma_sum_sizes_nonneg(s.drop_first());
    }
}

proof fn lemma_max_sizes_bound(s: Seq<Size>)
    ensures
        0 <= max_sizes(s) <= 0xffff,
    decreases s.len(),
{
    if s.len() > 0 {
        lemma_max_sizes_bound(s.drop_first());
    }
}

proof fn lemma_any_flexible_push(s: Seq<Size>, x: Size)
    ensures
        any_flexible(s.push(x)) == (any_flexible(s) || x.flexible),
{
    let snoc = s.push(x);
    if any_flexible(s) {
        let j = choose|j: int| 0 <= j < s.len() && s[j].flexible;
        assert(snoc[j].flexible);
    }
    if x.flexible {
        assert(snoc[s.len() as int].flexible);
    }
    if any_flexible(snoc) && !x.flexible {
        let j = choose|j: int| 0 <= j < snoc.len() && snoc[j].flexible;
        assert(0 <= j < s.len());
        assert(s[j].flexible);
    }
}

proof fn lemma_sat_add(x: int, y: int)
    requires
        x >= 0,
        y >= 0,
    ensures
        sat_u16(x + y) == sat_u16(sat_u16(x) as int + sat_u16(y) as int),
{
}

impl Widget {
    /// The widget's preferred size, computed recursively over the tree.
    pub fn compute_size(&self) -> (r: (Size, Size))
        ensures
            r == widget_size(*self),
        decreases *self,
    {
        match self {
            Widget::Canvas(c) => c.size_preferred(),
            Widget::Spacer(s) => s.size_preferred(),
            Widget::ModeBar(m) => m.size_preferred(),
            Widget::CursorBar(c) => c.size_preferred(),
            Widget::SizeError(e) => e.size_preferred(),
            Widget::Layout(l) => l.compute_size(),
        }
    }
}

impl Layout {
    /// The layout's aggregate preferred size: the children's sum plus the
    /// margins along the allocation axis (clamped to the coordinate
    /// space), the children's maximum on the cross axis, flexible on an
    /// axis iff some child is.
    pub fn compute_size(&self) -> (r: (Size, Size))
        ensures
            r == layout_size_of(self.child_size_pairs(), self.direction, self.margin),
        decreases *self,
    {
        let ghost pairs = self.child_size_pairs();
        let d = self.direction;
        let ghost along = axis_of(pairs, d);
        let ghost across = axis_of(pairs, cross_direction(d));
        let n = self.children.len();
        let mut main_sum: u16 = 0;
        let mut cross_max: u16 = 0;
        let mut main_flex = false;
        let mut cross_flex = false;
        let mut i: usize = 0;
        proof {
            lemma_pairs_of(self.children@);
            assert(along.take(0) =~= Seq::<Size>::empty());
            assert(across.take(0) =~= Seq::<Size>::empty());
        }
        while i < n
            invariant
                n == self.children@.len(),
                i <= n,
                pairs == self.child_size_pairs(),
                d == self.direction,
                along == axis_of(pairs, d),
                across == axis_of(pairs, cross_direction(d)),
                main_sum == sat_u16(sum_sizes(along.take(i as int))),
                cross_max == max_sizes(across.take(i as int)),
                main_flex == any_flexible(along.take(i as int)),
                cross_flex == any_flexible(across.take(i as int)),
            decreases n - i,
        {
            let pair = self.children[i].compute_size();
            let (a, c) = match d {
                Direction::Horizontal => (pair.0, pair.1),
                Direction::Vertical => (pair.1, pair.0),
            };
            proof {
                lemma_pairs_of(self.children@);
                assert(pairs[i as int] == widget_size(self.children@[i as int]));
                assert(along[i as int] == a);
                assert(across[i as int] == c);
                assert(along.take(i + 1) =~= along.take(i as int).push(a));
                assert(across.take(i + 1) =~= across.take(i as int).push(c));
                lemma_sum_sizes_push(along.take(i as int), a);
                lemma_max_sizes_push(across.take(i as int), c);
                lemma_any_flexible_push(along.take(i as int), a);
                lemma_any_flexible_push(across.take(i as int), c);
                lemma_sum_sizes_nonneg(along.take(i as int));
                lemma_max_sizes_bound(across.take(i as int));
                lemma_sat_add(sum_sizes(along.take(i as int)), a.size as int);
            }
            let t: u32 = main_sum as u32 + a.size as u32;
            main_sum = if t > 0xffff {
                0xffff
            } else {
                t as u16
            };
            if c.size > cross_max {
                cross_max = c.size;
            }
            main_flex = main_flex || a.flexible;
            cross_flex = cross_flex || c.flexible;
            i += 1;
        }
        proof {
            lemma_pairs_of(self.children@);
            assert(along.take(n as int) =~= along);
            assert(across.take(n as int) =~= across);
            lemma_sum_sizes_nonneg(along);
            lemma_max_sizes_bound(across);
        }
        let margins_wide: u128 = if n == 0 {
            0
        } else {
            proof {
                assert(0 <= (n - 1) * (self.margin as int) < 0x1_0000_0000_0000_0000_0000)
                    by (nonlinear_arith)
                    requires
                        1 <= n,
                        n - 1 < 0x1_0000_0000_0000_0000,
                        self.margin < 0x1_0000,
                ;
            }
            (n - 1) as u128 * self.margin as u128
        };
        let msat: u16 = if margins_wide > 0xffff {
            0xffff
        } else {
            margins_wide as u16
        };
        proof {
            assert(margin_total(self.children@.len() as nat, self.margin) == margins_wide as int);
            assert(msat == sat_u16(margin_total(self.children@.len() as nat, self.margin)));
            lemma_sat_add(sum_sizes(along), margin_total(self.children@.len() as nat, self.margin));
        }
        let t2: u32 = main_sum as u32 + msat as u32;
        let main_size: u16 = if t2 > 0xffff {
            0xffff
        } else {
            t2 as u16
        };
        let main = Size { size: main_size, flexible: main_flex };
        let cross = Size { size: cross_max, flexible: cross_flex };
        match d {
            Direction::Horizontal => (main, cross),
            Direction::Vertical => (cross, main),
        }
    }
}

impl WidgetSized for Widget {
    open spec fn spec_size_preferred(&self) -> (Size, Size) {
        widget_size(*self)
    }

    fn size_preferred(&self) -> (r: (Size, Size)) {
        self.compute_size()
    }
}

impl WidgetSized for Layout {
    open spec fn spec_size_preferred(&self) -> (Size, Size) {
        layout_size_of(self.child_size_pairs(), self.direction, self.margin)
    }

    fn size_preferred(&self) -> (r: (Size, Size)) {
        self.compute_size()
    }
}


/// After the first flexible child takes its rounded-up share of `rem`
/// split over `cnt` children, the rounded-up share of what is left,
/// split over one child fewer, cannot be larger.
proof fn lemma_ceil_share_step(rem: int, cnt: int)
    requires
        rem >= 0,
        cnt >= 2,
    ensures
        (rem - (rem + cnt - 1) / cnt + cnt - 2) / (cnt - 1) <= (rem + cnt - 1) / cnt,
{
    let q = (rem + cnt - 1) / cnt;
    let a = rem - q + cnt - 2;
    vstd::arithmetic::div_mod::lemma_fundamental_div_mod(rem + cnt - 1, cnt);
    vstd::arithmetic::div_mod::lemma_mod_division_less_than_divisor(rem + cnt - 1, cnt);
    assert(rem <= q * cnt);
    assert(q * cnt - q == q * (cnt - 1)) by (nonlinear_arith);
    assert(a <= q * (cnt - 1) + (cnt - 2));
    vstd::arithmetic::div_mod::lemma_div_is_ordered(a, q * (cnt - 1) + (cnt - 2), cnt - 1);
    vstd::arithmetic::div_mod::lemma_div_multiples_vanish_fancy(q, cnt - 2, cnt - 1);
    assert((cnt - 1) * q == q * (cnt - 1)) by (nonlinear_arith);
}

/// No flexible child's allocation exceeds the first share, the flexible
/// space divided by the flexible count, rounded up.
proof fn lemma_alloc_flexible_bounded(ps: Seq<Size>, rem: int, cnt: int, j: int)
    requires
        cnt == count_flex(ps),
        rem >= 0,
        0 <= j < ps.len(),
        ps[j].flexible,
    ensures
        cnt >= 1,
        alloc_sizes(ps, rem, cnt)[j] <= (rem + cnt - 1) / cnt,
    decreases ps.len(),
{
    lemma_count_flex_nonneg(ps.drop_first());
    lemma_alloc_props(ps, rem, cnt);
    let whole = alloc_sizes(ps, rem, cnt);
    if ps[0].flexible {
        let q = (rem + cnt - 1) / cnt;
        assert(0 <= q <= rem) by (nonlinear_arith)
            requires
                rem >= 0,
                cnt >= 1,
                q == (rem + cnt - 1) / cnt,
        ;
        if j == 0 {
            assert(whole[0] == q);
        } else {
            let tail = alloc_sizes(ps.drop_first(), rem - q, cnt - 1);
            lemma_alloc_props(ps.drop_first(), rem - q, cnt - 1);
            assert(whole == seq![q] + tail);
            assert(whole[j] == tail[j - 1]);
            assert(ps.drop_first()[j - 1] == ps[j]);
            lemma_alloc_flexible_bounded(ps.drop_first(), rem - q, cnt - 1, j - 1);
            lemma_ceil_share_step(rem, cnt);
        }
    } else {
        let tail = alloc_sizes(ps.drop_first(), rem, cnt);
        lemma_alloc_props(ps.drop_first(), rem, cnt);
        assert(whole == seq![ps[0].size as int] + tail);
        assert(whole[j] == tail[j - 1]);
        assert(ps.drop_first()[j - 1] == ps[j]);
        lemma_alloc_flexible_bounded(ps.drop_first(), rem, cnt, j - 1);
    }
}

/// The canonical tie-break of the allocator, proved: among the flexible
/// children the allocated sizes never increase from left to right, so an
/// earlier flexible child may receive one unit more than a later one when
/// the space does not divide evenly, never less.
pub proof fn lemma_flexible_shares_non_increasing(
    ps: Seq<Size>,
    rem: int,
    cnt: int,
    i: int,
    j: int,
)
    requires
        cnt == count_flex(ps),
        rem >= 0,
        0 <= i <= j < ps.len(),
        ps[i].flexible,
        ps[j].flexible,
    ensures
        alloc_sizes(ps, rem, cnt)[i] >= alloc_sizes(ps, rem, cnt)[j],
    decreases ps.len(),
{
    lemma_count_flex_nonneg(ps.drop_first());
    lemma_alloc_props(ps, rem, cnt);
    let whole = alloc_sizes(ps, rem, cnt);
    if i == j {
    } else if i == 0 {
        let q = (rem + cnt - 1) / cnt;
        assert(0 <= q <= rem) by (nonlinear_arith)
            requires
                rem >= 0,
                cnt >= 1,
                q == (rem + cnt - 1) / cnt,
        ;
        assert(whole[0] == q);
        let tail = alloc_sizes(ps.drop_first(), rem - q, cnt - 1);
        lemma_alloc_props(ps.drop_first(), rem - q, cnt - 1);
        assert(whole == seq![q] + tail);
        assert(whole[j] == tail[j - 1]);
        assert(ps.drop_first()[j - 1] == ps[j]);
        lemma_alloc_flexible_bounded(ps.drop_first(), rem - q, cnt - 1, j - 1);
        lemma_ceil_share_step(rem, cnt);
    } else if ps[0].flexible {
        let q = (rem + cnt - 1) / cnt;
        assert(0 <= q <= rem) by (nonlinear_arith)
            requires
                rem >= 0,
                cnt >= 1,
                q == (rem + cnt - 1) / cnt,
        ;
        let tail = alloc_sizes(ps.drop_first(), rem - q, cnt - 1);
        lemma_alloc_props(ps.drop_first(), rem - q, cnt - 1);
        assert(whole == seq![q] + tail);
        assert(whole[i] == tail[i - 1]);
        assert(whole[j] == tail[j - 1]);
        assert(ps.drop_first()[i - 1] == ps[i]);
        assert(ps.drop_first()[j - 1] == ps[j]);
        lemma_flexible_shares_non_increasing(ps.drop_first(), rem - q, cnt - 1, i - 1, j - 1);
    } else {
        let tail = alloc_sizes(ps.drop_first(), rem, cnt);
        lemma_alloc_props(ps.drop_first(), rem, cnt);
        assert(whole == seq![ps[0].size as int] + tail);
        assert(whole[i] == tail[i - 1]);
        assert(whole[j] == tail[j - 1]);
        assert(ps.drop_first()[i - 1] == ps[i]);
        assert(ps.drop_first()[j - 1] == ps[j]);
        lemma_flexible_shares_non_increasing(ps.drop_first(), rem, cnt, i - 1, j - 1);
    }
}

/// With at least one flexible child and enough room, the allocator
/// consumes the parent's extent exactly: the allocated sizes plus the
/// margins sum to the extent, with no leftover lost to integer division.
pub proof fn lemma_flexible_space_exactly_consumed(l: Layout, area: Rect)
    requires
        l.spec_fits(area),
        count_flex(l.spec_axis_sizes()) > 0,
    ensures
        sum_ints(l.spec_alloc_sizes(area)) + margin_total(l.children@.len(), l.margin)
            == area.spec_extent(l.direction),
{
    lemma_alloc_props(l.spec_axis_sizes(), l.spec_flexible_space(area), count_flex(
        l.spec_axis_sizes(),
    ));
}

/// Without flexible children the allocator hands out exactly the fixed
/// sizes: the rectangles cover the fixed total plus the margins, never
/// more than the extent.
pub proof fn lemma_fixed_children_consumption(l: Layout, area: Rect)
    requires
        l.spec_fits(area),
        count_flex(l.spec_axis_sizes()) == 0,
    ensures
        sum_ints(l.spec_alloc_sizes(area)) + margin_total(l.children@.len(), l.margin)
            <= area.spec_extent(l.direction),
        sum_ints(l.spec_alloc_sizes(area)) == fixed_total(l.spec_axis_sizes()),
{
    lemma_alloc_props(l.spec_axis_sizes(), l.spec_flexible_space(area), 0);
}

} // verus!
