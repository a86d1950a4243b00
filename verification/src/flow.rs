//! Where the keys of a view stand.
//!
//! Keys butt together left-to-right with no gap; each row's height is the max key
//! height in it; rows stack top-down; and each row is centred within the view's
//! width, which is that of the widest row.

use vstd::prelude::*;

use crate::scalar::{Arithmetic, Rect, Scalar};

verus! {

/// The size of a key.
#[derive(Debug, Clone, Copy)]
pub struct Outline<N> {
    pub width: N,
    pub height: N,
}

/// The widths of a row's keys.
pub open spec fn widths<N>(row: Seq<Outline<N>>) -> Seq<N> {
    Seq::new(row.len(), |j: int| row[j].width)
}

/// The heights of a row's keys.
pub open spec fn heights<N>(row: Seq<Outline<N>>) -> Seq<N> {
    Seq::new(row.len(), |j: int| row[j].height)
}

/// How wide a row is: its keys' widths, added up.
pub open spec fn row_width<N>(m: Arithmetic<N>, row: Seq<Outline<N>>) -> N {
    m.sum(widths(row))
}

/// How tall a row is: as tall as its tallest key.
pub open spec fn row_height<N>(m: Arithmetic<N>, row: Seq<Outline<N>>) -> N {
    m.largest(heights(row))
}

/// The widths of the rows.
pub open spec fn row_widths<N>(m: Arithmetic<N>, rows: Seq<Seq<Outline<N>>>) -> Seq<N> {
    Seq::new(rows.len(), |i: int| row_width(m, rows[i]))
}

/// The heights of the rows.
pub open spec fn row_heights<N>(m: Arithmetic<N>, rows: Seq<Seq<Outline<N>>>) -> Seq<N> {
    Seq::new(rows.len(), |i: int| row_height(m, rows[i]))
}

/// How wide a view is: as wide as its widest row.
pub open spec fn view_width<N>(m: Arithmetic<N>, rows: Seq<Seq<Outline<N>>>) -> N {
    m.largest(row_widths(m, rows))
}

/// Where row `i` begins: half of the room that it leaves in the view.
pub open spec fn row_left<N>(m: Arithmetic<N>, rows: Seq<Seq<Outline<N>>>, i: int) -> N {
    (m.over)((m.minus)(view_width(m, rows), row_width(m, rows[i])), (m.from_u32)(2))
}

/// The top of row `i`: the heights of the rows above it, added up.
pub open spec fn row_top<N>(m: Arithmetic<N>, rows: Seq<Seq<Outline<N>>>, i: int) -> N {
    m.sum(row_heights(m, rows.take(i)))
}

/// The left edge of key `j` of row `i`: the row's beginning and the widths of the
/// keys before it, added up.
pub open spec fn key_left<N>(m: Arithmetic<N>, rows: Seq<Seq<Outline<N>>>, i: int, j: int) -> N {
    widths(rows[i].take(j)).fold_left(row_left(m, rows, i), m.plus)
}

/// Where key `j` of row `i` stands.
pub open spec fn key_rect<N>(
    m: Arithmetic<N>,
    rows: Seq<Seq<Outline<N>>>,
    i: int,
    j: int,
) -> Rect<N> {
    Rect {
        x: key_left(m, rows, i, j),
        y: row_top(m, rows, i),
        width: rows[i][j].width,
        height: rows[i][j].height,
    }
}

/// A list with one more number folds to one more step.
pub proof fn lemma_fold_push<N>(s: Seq<N>, x: N, b: N, f: spec_fn(N, N) -> N)
    ensures
        s.push(x).fold_left(b, f) == f(s.fold_left(b, f), x),
{
    assert(s.push(x).drop_last() =~= s);
}

proof fn lemma_row_step<N>(m: Arithmetic<N>, row: Seq<Outline<N>>, j: int)
    requires
        0 <= j < row.len(),
    ensures
        row_width(m, row.take(j + 1)) == (m.plus)(row_width(m, row.take(j)), row[j].width),
        row_height(m, row.take(j + 1)) == (m.larger)(row_height(m, row.take(j)), row[j].height),
{
    assert(widths(row.take(j + 1)) =~= widths(row.take(j)).push(row[j].width));
    assert(heights(row.take(j + 1)) =~= heights(row.take(j)).push(row[j].height));
    lemma_fold_push(widths(row.take(j)), row[j].width, m.zero(), m.plus);
    lemma_fold_push(heights(row.take(j)), row[j].height, m.zero(), m.larger);
}

/// Keys of a row butt together: each begins where the one before it ends.
pub proof fn lemma_keys_butt_together<N>(
    m: Arithmetic<N>,
    rows: Seq<Seq<Outline<N>>>,
    i: int,
    j: int,
)
    requires
        0 <= i < rows.len(),
        0 <= j,
        j + 1 < rows[i].len(),
    ensures
        key_rect(m, rows, i, j + 1).x == key_rect(m, rows, i, j).right_edge(m),
        key_rect(m, rows, i, j + 1).y == key_rect(m, rows, i, j).y,
{
    lemma_key_left_step(m, rows, i, j);
}

pub(crate) proof fn lemma_key_left_step<N>(m: Arithmetic<N>, rows: Seq<Seq<Outline<N>>>, i: int, j: int)
    requires
        0 <= i < rows.len(),
        0 <= j < rows[i].len(),
    ensures
        key_left(m, rows, i, j + 1) == (m.plus)(key_left(m, rows, i, j), rows[i][j].width),
{
    let row = rows[i];
    assert(widths(row.take(j + 1)) =~= widths(row.take(j)).push(row[j].width));
    lemma_fold_push(widths(row.take(j)), row[j].width, row_left(m, rows, i), m.plus);
}

/// Rows stack: each begins as far below the one above it as that one is tall.
pub proof fn lemma_rows_stack<N>(m: Arithmetic<N>, rows: Seq<Seq<Outline<N>>>, i: int)
    requires
        0 <= i < rows.len(),
    ensures
        row_top(m, rows, i + 1) == (m.plus)(row_top(m, rows, i), row_height(m, rows[i])),
{
    let above = row_heights(m, rows.take(i));
    assert(row_heights(m, rows.take(i + 1)) =~= above.push(row_height(m, rows[i])));
    lemma_fold_push(above, row_height(m, rows[i]), m.zero(), m.plus);
}

/// The first key of a row stands where the row begins, and the first row at the top.
pub proof fn lemma_flow_begins<N>(m: Arithmetic<N>, rows: Seq<Seq<Outline<N>>>, i: int)
    requires
        0 <= i < rows.len(),
        rows[i].len() > 0,
    ensures
        key_rect(m, rows, i, 0).x == row_left(m, rows, i),
        key_rect(m, rows, 0, 0).y == m.zero(),
{
    assert(widths(rows[i].take(0)) =~= Seq::empty());
    assert(row_heights(m, rows.take(0)) =~= Seq::empty());
}

/// Arithmetic on real numbers, where nothing is lost. `rounded` gives the nearest whole
/// number, upwards from halfway, and where a `u32` cannot hold that, the nearest that it can.
pub open spec fn exact() -> Arithmetic<real> {
    Arithmetic {
        from_u32: |n: u32| n as real,
        plus: |a: real, b: real| a + b,
        minus: |a: real, b: real| a - b,
        times: |a: real, b: real| a * b,
        over: |a: real, b: real| a / b,
        larger: |a: real, b: real| if a < b { b } else { a },
        is_positive: |a: real| a > 0real,
        rounded: |a: real| nearest(a),
    }
}

/// The whole number that is nearest to `a`, upwards from halfway; of those that a `u32` can
/// hold.
pub open spec fn nearest(a: real) -> u32 {
    let n = (a + 1real / 2real).floor();
    if n < 0 {
        0
    } else if n > u32::MAX {
        u32::MAX
    } else {
        n as u32
    }
}

/// Whether no key of a row has a negative width.
pub open spec fn widths_are_natural(row: Seq<Outline<real>>) -> bool {
    forall|j: int| 0 <= j < row.len() ==> (#[trigger] row[j]).width >= 0real
}

pub(crate) proof fn lemma_largest_is_largest(s: Seq<real>, k: int)
    ensures
        exact().largest(s) >= 0real,
        0 <= k < s.len() ==> exact().largest(s) >= s[k],
    decreases s.len(),
{
    if s.len() > 0 {
        lemma_largest_is_largest(s.drop_last(), k);
    }
}

pub(crate) proof fn lemma_key_left_is_a_sum(rows: Seq<Seq<Outline<real>>>, i: int, j: int)
    requires
        0 <= i < rows.len(),
        0 <= j <= rows[i].len(),
    ensures
        key_left(exact(), rows, i, j) == row_left(exact(), rows, i) + row_width(
            exact(),
            rows[i].take(j),
        ),
    decreases j,
{
    if j > 0 {
        lemma_key_left_is_a_sum(rows, i, j - 1);
        lemma_key_left_step(exact(), rows, i, j - 1);
        lemma_row_step(exact(), rows[i], j - 1);
    } else {
        assert(widths(rows[i].take(0)) =~= Seq::empty());
    }
}

proof fn lemma_row_width_grows(rows: Seq<Seq<Outline<real>>>, i: int, j: int, l: int)
    requires
        0 <= i < rows.len(),
        widths_are_natural(rows[i]),
        0 <= j <= l <= rows[i].len(),
    ensures
        0real <= row_width(exact(), rows[i].take(j)) <= row_width(exact(), rows[i].take(l)),
    decreases l,
{
    if l > 0 {
        lemma_row_step(exact(), rows[i], l - 1);
        assert(rows[i][l - 1].width >= 0real);
        if j < l {
            lemma_row_width_grows(rows, i, j, l - 1);
        } else {
            lemma_row_width_grows(rows, i, j - 1, l - 1);
        }
    } else {
        assert(widths(rows[i].take(0)) =~= Seq::empty());
    }
}

pub(crate) proof fn lemma_rows_descend(rows: Seq<Seq<Outline<real>>>, i: int, k: int)
    requires
        0 <= i < k <= rows.len(),
    ensures
        row_top(exact(), rows, i) + row_height(exact(), rows[i]) <= row_top(exact(), rows, k),
    decreases k,
{
    lemma_rows_stack(exact(), rows, k - 1);
    if i < k - 1 {
        lemma_rows_descend(rows, i, k - 1);
        lemma_largest_is_largest(heights(rows[k - 1]), 0);
    }
}

/// Two halves of a number make the number, and are as positive as it is.
pub proof fn lemma_halves(a: real)
    ensures
        (exact().over)(a, (exact().from_u32)(2)) + (exact().over)(a, (exact().from_u32)(2)) == a,
        a >= 0real ==> (exact().over)(a, (exact().from_u32)(2)) >= 0real,
{
    let two = 2u32 as real;
    assert(a / two + a / two == a) by (nonlinear_arith)
        requires
            two == 2real,
    ;
}

/// In real numbers, each row is centred in the view and fits it: the room left of it is
/// the room right of it.
pub proof fn lemma_rows_are_centred(rows: Seq<Seq<Outline<real>>>, i: int)
    requires
        0 <= i < rows.len(),
    ensures
        ({
            let left = row_left(exact(), rows, i);
            let right = view_width(exact(), rows) - (left + row_width(exact(), rows[i]));
            0real <= left && left == right
        }),
{
    lemma_largest_is_largest(row_widths(exact(), rows), i);
    assert(row_widths(exact(), rows)[i] == row_width(exact(), rows[i]));
    let room = view_width(exact(), rows) - row_width(exact(), rows[i]);
    lemma_halves(room);
}

/// In real numbers, every key stands within the width of its view.
pub proof fn lemma_keys_fit_the_view(rows: Seq<Seq<Outline<real>>>, i: int, j: int)
    requires
        0 <= i < rows.len(),
        widths_are_natural(rows[i]),
        0 <= j < rows[i].len(),
    ensures
        0real <= key_rect(exact(), rows, i, j).x,
        key_rect(exact(), rows, i, j).right_edge(exact()) <= view_width(exact(), rows),
{
    lemma_rows_are_centred(rows, i);
    lemma_key_left_is_a_sum(rows, i, j);
    lemma_row_width_grows(rows, i, 0, j);
    lemma_row_step(exact(), rows[i], j);
    lemma_row_width_grows(rows, i, j + 1, rows[i].len() as int);
    assert(rows[i].take(rows[i].len() as int) =~= rows[i]);
}

/// In real numbers, no two keys of a view overlap: of two keys in a row one ends
/// before the other begins, and a key ends above the rows below its own.
pub proof fn lemma_keys_do_not_overlap(
    rows: Seq<Seq<Outline<real>>>,
    i: int,
    j: int,
    k: int,
    l: int,
)
    requires
        0 <= i <= k < rows.len(),
        0 <= j < rows[i].len(),
        0 <= l < rows[k].len(),
        i == k ==> j < l && widths_are_natural(rows[i]),
    ensures
        i == k ==> key_rect(exact(), rows, i, j).right_edge(exact()) <= key_rect(
            exact(),
            rows,
            k,
            l,
        ).x,
        i < k ==> key_rect(exact(), rows, i, j).bottom_edge(exact()) <= key_rect(
            exact(),
            rows,
            k,
            l,
        ).y,
{
    if i == k {
        lemma_key_left_step(exact(), rows, i, j);
        lemma_key_left_is_a_sum(rows, i, j + 1);
        lemma_key_left_is_a_sum(rows, i, l);
        lemma_row_width_grows(rows, i, j + 1, l);
    } else {
        lemma_largest_is_largest(heights(rows[i]), j);
        lemma_rows_descend(rows, i, k);
    }
}

/// The sizes of the rows' keys.
pub open spec fn grid<N>(rows: Seq<Vec<Outline<N>>>) -> Seq<Seq<Outline<N>>> {
    rows.map_values(|row: Vec<Outline<N>>| row@)
}

/// The width and the height of a row.
fn row_extent<N: Scalar>(row: &Vec<Outline<N>>) -> (extent: Outline<N>)
    ensures
        forall|m: Arithmetic<N>| #[trigger]
            crate::scalar::computes(m) ==> extent.width == row_width(m, row@) && extent.height
                == row_height(m, row@),
{
    let mut width = N::from_u32(0);
    let mut height = N::from_u32(0);
    let mut j: usize = 0;
    while j < row.len()
        invariant
            j <= row.len(),
            forall|m: Arithmetic<N>| #[trigger]
                crate::scalar::computes(m) ==> width == row_width(m, row@.take(j as int)) && height
                    == row_height(m, row@.take(j as int)),
        decreases row.len() - j,
    {
        width = width.plus(row[j].width);
        height = height.larger(row[j].height);
        proof {
            assert forall|m: Arithmetic<N>| #[trigger] crate::scalar::computes(m) implies width
                == row_width(m, row@.take(j + 1)) && height == row_height(
                m,
                row@.take(j + 1),
            ) by {
                lemma_row_step(m, row@, j as int);
            }
        }
        j += 1;
    }
    assert(row@.take(j as int) =~= row@);
    Outline { width, height }
}

/// Place every key of a view.
pub fn flow<N: Scalar>(rows: &Vec<Vec<Outline<N>>>) -> (placed: Vec<Vec<Rect<N>>>)
    ensures
        placed.len() == rows.len(),
        forall|i: int| 0 <= i < rows.len() ==> #[trigger] placed@[i].len() == rows@[i].len(),
        forall|m: Arithmetic<N>, i: int, j: int|
            crate::scalar::computes(m) && 0 <= i < rows.len() && 0 <= j < rows@[i].len()
                ==> placed@[i]@[j] == #[trigger] key_rect(m, grid(rows@), i, j),
{
    let ghost g = grid(rows@);
    let mut extents: Vec<Outline<N>> = Vec::new();
    let mut view_wide = N::from_u32(0);
    let mut i: usize = 0;
    while i < rows.len()
        invariant
            i <= rows.len(),
            g == grid(rows@),
            extents.len() == i,
            forall|m: Arithmetic<N>, k: int|
                crate::scalar::computes(m) && 0 <= k < i ==> extents@[k].width == #[trigger]
                row_width(m, g[k]) && extents@[k].height == row_height(m, g[k]),
            forall|m: Arithmetic<N>| #[trigger]
                crate::scalar::computes(m) ==> view_wide == view_width(m, g.take(i as int)),
        decreases rows.len() - i,
    {
        let extent = row_extent(&rows[i]);
        view_wide = view_wide.larger(extent.width);
        extents.push(extent);
        proof {
            assert forall|m: Arithmetic<N>| #[trigger] crate::scalar::computes(m) implies view_wide
                == view_width(m, g.take(i + 1)) by {
                let before = row_widths(m, g.take(i as int));
                assert(row_widths(m, g.take(i + 1)) =~= before.push(row_width(m, g[i as int])));
                lemma_fold_push(before, row_width(m, g[i as int]), m.zero(), m.larger);
            }
        }
        i += 1;
    }
    assert(g.take(i as int) =~= g);
    let mut placed: Vec<Vec<Rect<N>>> = Vec::new();
    let mut y = N::from_u32(0);
    i = 0;
    while i < rows.len()
        invariant
            i <= rows.len(),
            g == grid(rows@),
            extents.len() == rows.len(),
            forall|m: Arithmetic<N>, k: int|
                crate::scalar::computes(m) && 0 <= k < rows.len() ==> extents@[k].width
                    == #[trigger] row_width(m, g[k]) && extents@[k].height == row_height(m, g[k]),
            forall|m: Arithmetic<N>| #[trigger]
                crate::scalar::computes(m) ==> view_wide == view_width(m, g),
            forall|m: Arithmetic<N>| #[trigger]
                crate::scalar::computes(m) ==> y == row_top(m, g, i as int),
            placed.len() == i,
            forall|k: int| 0 <= k < i ==> #[trigger] placed@[k].len() == rows@[k].len(),
            forall|m: Arithmetic<N>, k: int, j: int|
                crate::scalar::computes(m) && 0 <= k < i && 0 <= j < rows@[k].len()
                    ==> placed@[k]@[j] == #[trigger] key_rect(m, g, k, j),
        decreases rows.len() - i,
    {
        let row = &rows[i];
        let mut x = view_wide.minus(extents[i].width).over(N::from_u32(2));
        let mut out: Vec<Rect<N>> = Vec::new();
        let mut j: usize = 0;
        assert(g[i as int] == row@);
        assert(widths(row@.take(0)) =~= Seq::empty());
        assert forall|m: Arithmetic<N>| #[trigger] crate::scalar::computes(m) implies x == key_left(
            m,
            g,
            i as int,
            0,
        ) by {
            assert(extents@[i as int].width == row_width(m, g[i as int]));
        }
        while j < row.len()
            invariant
                i < rows.len(),
                g == grid(rows@),
                g[i as int] == row@,
                j <= row.len(),
                out.len() == j,
                forall|m: Arithmetic<N>| #[trigger]
                    crate::scalar::computes(m) ==> y == row_top(m, g, i as int),
                forall|m: Arithmetic<N>| #[trigger]
                    crate::scalar::computes(m) ==> x == key_left(m, g, i as int, j as int),
                forall|m: Arithmetic<N>, k: int|
                    crate::scalar::computes(m) && 0 <= k < j ==> out@[k] == #[trigger] key_rect(
                        m,
                        g,
                        i as int,
                        k,
                    ),
            decreases row.len() - j,
        {
            let size = row[j];
            out.push(Rect { x, y, width: size.width, height: size.height });
            x = x.plus(size.width);
            proof {
                assert forall|m: Arithmetic<N>| #[trigger] crate::scalar::computes(m) implies x
                    == key_left(m, g, i as int, j + 1) by {
                    lemma_key_left_step(m, g, i as int, j as int);
                }
            }
            j += 1;
        }
        placed.push(out);
        y = y.plus(extents[i].height);
        proof {
            assert forall|m: Arithmetic<N>| #[trigger] crate::scalar::computes(m) implies y
                == row_top(m, g, i + 1) by {
                lemma_rows_stack(m, g, i as int);
                assert(extents@[i as int].width == row_width(m, g[i as int]));
            }
        }
        i += 1;
    }
    placed
}

} // verus!
