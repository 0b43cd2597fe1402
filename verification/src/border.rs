//! Cross-page group demarcation.  While a group is active every border the
//! layout engine draws is recorded (rectangle, page, group id); after all
//! pages are drawn, each page touched by a group receives one additional
//! bounding rectangle: the tightest rectangle enclosing all of that group's
//! recorded borders on that page, inflated by exactly six layout units on
//! every side, in a colour chosen from a fixed five-entry palette by the
//! group id modulo five.  Coordinates are in thousandths of a layout unit,
//! so the margin is 6000 everywhere below.

use vstd::prelude::*;

verus! {

/// One border recorded while a group was active: which group and page it
/// belongs to, and its rectangle in thousandths of a layout unit.
#[derive(Clone, Copy, PartialEq, Eq, Structural)]
pub struct GroupBorder {
    pub group: usize,
    pub page: usize,
    pub x: i64,
    pub y: i64,
    pub w: i64,
    pub h: i64,
}

/// The five-entry demarcation palette.
#[derive(Clone, Copy, Debug, PartialEq, Eq, Structural)]
pub enum PaletteColor {
    Red,
    Green,
    Yellow,
    Magenta,
    Black,
}

/// The palette entry of a group: its id modulo five.
pub open spec fn palette(group: int) -> PaletteColor {
    if group % 5 == 0 {
        PaletteColor::Red
    } else if group % 5 == 1 {
        PaletteColor::Green
    } else if group % 5 == 2 {
        PaletteColor::Yellow
    } else if group % 5 == 3 {
        PaletteColor::Magenta
    } else {
        PaletteColor::Black
    }
}

/// One bounding rectangle to draw: a group's tightest enclosure on one
/// page, already inflated by the six-unit margin.
#[derive(Clone, Copy, PartialEq, Eq, Structural)]
pub struct BoundingRect {
    pub group: usize,
    pub page: usize,
    pub x: i64,
    pub y: i64,
    pub w: i64,
    pub h: i64,
    pub color: PaletteColor,
}

/// Whether a recorded border belongs to a bounding rectangle's group and
/// page.
pub open spec fn belongs(b: GroupBorder, r: BoundingRect) -> bool {
    b.group == r.group && b.page == r.page
}

/// Whether two recorded borders share a group and page.
pub open spec fn belongs_gp(b: GroupBorder, c: GroupBorder) -> bool {
    b.group == c.group && b.page == c.page
}

/// Coordinates small enough that enclosing and inflating cannot overflow.
pub open spec fn coords_bounded(b: GroupBorder) -> bool {
    &&& -1000000000000000 <= b.x <= 1000000000000000
    &&& -1000000000000000 <= b.y <= 1000000000000000
    &&& 0 <= b.w <= 1000000000000000
    &&& 0 <= b.h <= 1000000000000000
}

/// `r` is a lawful bounding rectangle for its group and page over the
/// recorded borders: every matching border lies within it with a margin of
/// at least six units on every side, on each side some matching border
/// meets the margin exactly (the enclosure is tight), and its colour is the
/// group's palette entry.
#[verifier::opaque]
pub open spec fn rect_ok(borders: Seq<GroupBorder>, r: BoundingRect) -> bool {
    &&& forall|bi: int|
        0 <= bi < borders.len() && belongs(#[trigger] borders[bi], r) ==> r.x + 6000
            <= borders[bi].x && borders[bi].x + borders[bi].w <= r.x + r.w - 6000 && r.y + 6000
            <= borders[bi].y && borders[bi].y + borders[bi].h <= r.y + r.h - 6000
    &&& exists|bi: int|
        0 <= bi < borders.len() && belongs(#[trigger] borders[bi], r) && borders[bi].x == r.x
            + 6000
    &&& exists|bi: int|
        0 <= bi < borders.len() && belongs(#[trigger] borders[bi], r) && borders[bi].x
            + borders[bi].w == r.x + r.w - 6000
    &&& exists|bi: int|
        0 <= bi < borders.len() && belongs(#[trigger] borders[bi], r) && borders[bi].y == r.y
            + 6000
    &&& exists|bi: int|
        0 <= bi < borders.len() && belongs(#[trigger] borders[bi], r) && borders[bi].y
            + borders[bi].h == r.y + r.h - 6000
    &&& r.color == palette(r.group as int)
}

/// Whether an earlier border already belongs to the group and page of
/// `borders[probe]`: only the first border of each pair opens a rectangle.
fn seen_before(borders: &Vec<GroupBorder>, probe: usize) -> (r: bool)
    requires
        probe < borders@.len(),
    ensures
        r <==> exists|x: int|
            0 <= x < probe && belongs_gp(#[trigger] borders@[x], borders@[probe as int]),
{
    let b = borders[probe];
    let mut seen = false;
    let mut j: usize = 0;
    while j < probe
        invariant
            j <= probe,
            probe < borders@.len(),
            b == borders@[probe as int],
            seen <==> exists|x: int| 0 <= x < j && belongs_gp(#[trigger] borders@[x], b),
        decreases probe - j,
    {
        if borders[j].group == b.group && borders[j].page == b.page {
            seen = true;
        }
        j += 1;
    }
    seen
}

/// The tight six-unit bounding rectangle of the group and page of
/// `borders[probe]`.
fn enclosure_rect(borders: &Vec<GroupBorder>, probe: usize) -> (r: BoundingRect)
    requires
        probe < borders@.len(),
        forall|i: int| 0 <= i < borders@.len() ==> coords_bounded(#[trigger] borders@[i]),
    ensures
        rect_ok(borders@, r),
        r.group == borders@[probe as int].group,
        r.page == borders@[probe as int].page,
{
    let b = borders[probe];
    let mut min_x = b.x;
    let mut min_y = b.y;
    let mut max_xw = b.x + b.w;
    let mut max_yh = b.y + b.h;
    let mut k: usize = 0;
    while k < borders.len()
        invariant
            k <= borders@.len(),
            probe < borders@.len(),
            b == borders@[probe as int],
            forall|x: int| 0 <= x < borders@.len() ==> coords_bounded(#[trigger] borders@[x]),
            exists|x: int|
                0 <= x < borders@.len() && belongs_gp(#[trigger] borders@[x], b) && borders@[x].x
                    == min_x,
            exists|x: int|
                0 <= x < borders@.len() && belongs_gp(#[trigger] borders@[x], b) && borders@[x].y
                    == min_y,
            exists|x: int|
                0 <= x < borders@.len() && belongs_gp(#[trigger] borders@[x], b) && borders@[x].x
                    + borders@[x].w == max_xw,
            exists|x: int|
                0 <= x < borders@.len() && belongs_gp(#[trigger] borders@[x], b) && borders@[x].y
                    + borders@[x].h == max_yh,
            forall|x: int|
                0 <= x < k && belongs_gp(#[trigger] borders@[x], b) ==> min_x <= borders@[x].x
                    && borders@[x].x + borders@[x].w <= max_xw && min_y <= borders@[x].y
                    && borders@[x].y + borders@[x].h <= max_yh,
            -1000000000000000 <= min_x <= 1000000000000000,
            -1000000000000000 <= min_y <= 1000000000000000,
            -2000000000000000 <= max_xw <= 2000000000000000,
            -2000000000000000 <= max_yh <= 2000000000000000,
        decreases borders@.len() - k,
    {
        let c = borders[k];
        if c.group == b.group && c.page == b.page {
            if c.x < min_x {
                min_x = c.x;
            }
            if c.y < min_y {
                min_y = c.y;
            }
            if c.x + c.w > max_xw {
                max_xw = c.x + c.w;
            }
            if c.y + c.h > max_yh {
                max_yh = c.y + c.h;
            }
        }
        k += 1;
    }
    let color = match b.group % 5 {
        0 => PaletteColor::Red,
        1 => PaletteColor::Green,
        2 => PaletteColor::Yellow,
        3 => PaletteColor::Magenta,
        _ => PaletteColor::Black,
    };
    let r = BoundingRect {
        group: b.group,
        page: b.page,
        x: min_x - 6000,
        y: min_y - 6000,
        w: max_xw - min_x + 12000,
        h: max_yh - min_y + 12000,
        color,
    };
    proof {
        reveal(rect_ok);
        assert forall|bi: int|
            0 <= bi < borders@.len() && belongs(#[trigger] borders@[bi], r) implies r.x + 6000
            <= borders@[bi].x && borders@[bi].x + borders@[bi].w <= r.x + r.w - 6000 && r.y + 6000
            <= borders@[bi].y && borders@[bi].y + borders@[bi].h <= r.y + r.h - 6000 by {
            assert(belongs_gp(borders@[bi], b));
        }
    }
    r
}

/// Some rectangle in `out` bears the group and page of `borders[bi]`.
#[verifier::opaque]
pub open spec fn pair_covered(borders: Seq<GroupBorder>, out: Seq<BoundingRect>, bi: int) -> bool {
    exists|ri: int| 0 <= ri < out.len() && belongs(borders[bi], #[trigger] out[ri])
}

/// Some border among the first `upto` bears the rectangle's group and page.
#[verifier::opaque]
pub open spec fn rect_grounded(borders: Seq<GroupBorder>, upto: int, r: BoundingRect) -> bool {
    exists|bi: int| 0 <= bi < upto && belongs(#[trigger] borders[bi], r)
}

proof fn lemma_grounded_widen(borders: Seq<GroupBorder>, upto1: int, upto2: int, r: BoundingRect)
    requires
        rect_grounded(borders, upto1, r),
        upto1 <= upto2,
    ensures
        rect_grounded(borders, upto2, r),
{
    reveal(rect_grounded);
    let bi = choose|bi: int| 0 <= bi < upto1 && belongs(#[trigger] borders[bi], r);
    assert(0 <= bi < upto2 && belongs(borders[bi], r));
}

/// Computes, for every (group, page) pair with at least one recorded
/// border, exactly one bounding rectangle: the tightest rectangle enclosing
/// all of that pair's borders, inflated by exactly 6000 thousandths (six
/// units) on every side, coloured by the group id modulo five.  Every
/// recorded border lies strictly within its pair's rectangle (the margin is
/// positive), no two rectangles share a pair, and every rectangle belongs
/// to some recorded border.
#[verifier::rlimit(100)]
#[verifier::spinoff_prover]
pub fn group_bounding_rects(borders: &Vec<GroupBorder>) -> (out: Vec<BoundingRect>)
    requires
        forall|i: int| 0 <= i < borders@.len() ==> coords_bounded(#[trigger] borders@[i]),
    ensures
        forall|ri: int| 0 <= ri < out@.len() ==> rect_ok(borders@, #[trigger] out@[ri]),
        forall|bi: int| 0 <= bi < borders@.len() ==> pair_covered(borders@, out@, bi),
        forall|ri: int|
            0 <= ri < out@.len() ==> rect_grounded(
                borders@,
                borders@.len() as int,
                #[trigger] out@[ri],
            ),
        forall|ri: int, rj: int|
            0 <= ri < rj < out@.len() ==> !((#[trigger] out@[ri]).group == (
            #[trigger] out@[rj]).group && out@[ri].page == out@[rj].page),
{
    let mut out: Vec<BoundingRect> = Vec::new();
    let mut i: usize = 0;
    while i < borders.len()
        invariant
            i <= borders@.len(),
            forall|x: int| 0 <= x < borders@.len() ==> coords_bounded(#[trigger] borders@[x]),
            forall|ri: int| 0 <= ri < out@.len() ==> rect_ok(borders@, #[trigger] out@[ri]),
            forall|bi: int| 0 <= bi < i ==> pair_covered(borders@, out@, bi),
            forall|ri: int|
                0 <= ri < out@.len() ==> rect_grounded(borders@, i as int, #[trigger] out@[ri]),
            forall|ri: int, rj: int|
                0 <= ri < rj < out@.len() ==> !((#[trigger] out@[ri]).group == (
                #[trigger] out@[rj]).group && out@[ri].page == out@[rj].page),
        decreases borders@.len() - i,
    {
        let seen = seen_before(borders, i);
        if !seen {
            let rect = enclosure_rect(borders, i);
            let ghost old_out = out@;
            out.push(rect);
            proof {
                let n = out@.len() - 1;
                assert(forall|ri: int| 0 <= ri < old_out.len() ==> out@[ri] == old_out[ri]);
                assert(out@[n] == rect);
                assert(belongs(borders@[i as int], rect));
                assert forall|bi: int| 0 <= bi < i + 1 implies pair_covered(
                    borders@,
                    out@,
                    bi,
                ) by {
                    reveal(pair_covered);
                    if bi < i as int {
                        assert(pair_covered(borders@, old_out, bi));
                        let ri = choose|ri: int|
                            0 <= ri < old_out.len() && belongs(borders@[bi], #[trigger] old_out[ri]);
                        assert(0 <= ri < out@.len() && belongs(borders@[bi], out@[ri]));
                    } else {
                        assert(0 <= n < out@.len() && belongs(borders@[bi], out@[n]));
                    }
                }
                assert forall|ri: int| 0 <= ri < out@.len() implies rect_grounded(
                    borders@,
                    i + 1,
                    #[trigger] out@[ri],
                ) by {
                    reveal(rect_grounded);
                    if ri < n {
                        assert(rect_grounded(borders@, i as int, old_out[ri]));
                        let bx = choose|bx: int|
                            0 <= bx < i && belongs(#[trigger] borders@[bx], old_out[ri]);
                        assert(0 <= bx < i + 1 && belongs(borders@[bx], out@[ri]));
                    } else {
                        assert(belongs(borders@[i as int], out@[ri]));
                    }
                }
                assert forall|ri: int, rj: int| 0 <= ri < rj < out@.len() implies !((
                #[trigger] out@[ri]).group == (#[trigger] out@[rj]).group && out@[ri].page
                    == out@[rj].page) by {
                    if rj == n && out@[ri].group == rect.group && out@[ri].page == rect.page {
                        reveal(rect_grounded);
                        assert(rect_grounded(borders@, i as int, old_out[ri]));
                        let bx = choose|bx: int|
                            0 <= bx < i && belongs(#[trigger] borders@[bx], old_out[ri]);
                        assert(belongs_gp(borders@[bx], borders@[i as int]));
                        assert(false);
                    }
                }
            }
        } else {
            proof {
                assert forall|bi: int| 0 <= bi < i + 1 implies pair_covered(
                    borders@,
                    out@,
                    bi,
                ) by {
                    if bi == i as int {
                        reveal(pair_covered);
                        let x = choose|x: int|
                            0 <= x < i && belongs_gp(#[trigger] borders@[x], borders@[i as int]);
                        assert(pair_covered(borders@, out@, x));
                        let ri = choose|ri: int|
                            0 <= ri < out@.len() && belongs(borders@[x], #[trigger] out@[ri]);
                        assert(0 <= ri < out@.len() && belongs(borders@[bi], out@[ri]));
                    }
                }
                assert forall|ri: int| 0 <= ri < out@.len() implies rect_grounded(
                    borders@,
                    i + 1,
                    #[trigger] out@[ri],
                ) by {
                    lemma_grounded_widen(borders@, i as int, i + 1, out@[ri]);
                }
            }
        }
        i += 1;
    }
    proof {
        assert forall|ri: int| 0 <= ri < out@.len() implies rect_grounded(
            borders@,
            borders@.len() as int,
            #[trigger] out@[ri],
        ) by {
            lemma_grounded_widen(borders@, i as int, borders@.len() as int, out@[ri]);
        }
    }
    out
}

} // verus!
