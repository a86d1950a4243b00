//! How far a view reaches, in real numbers.

use vstd::prelude::*;

use crate::flow::Outline;
use crate::layout::{flat, Layout, SpriteRegion, ViewModel};

verus! {

/// Every place in a flattened list is a place in one of its lists.
pub proof fn lemma_flat_has_origin<A>(lists: Seq<Seq<A>>, p: int)
    requires
        0 <= p < flat(lists).len(),
    ensures
        exists|i: int, j: int|
            0 <= i < lists.len() && 0 <= j < lists[i].len() && flat(lists)[p]
                == #[trigger] lists[i][j],
    decreases lists.len(),
{
    if lists.len() > 0 {
        let front = lists.drop_last();
        let n = flat(front).len();
        if p < n {
            lemma_flat_has_origin(front, p);
            let (i, j) = choose|i: int, j: int|
                0 <= i < front.len() && 0 <= j < front[i].len() && flat(front)[p]
                    == #[trigger] front[i][j];
            assert(lists[i][j] == flat(lists)[p]);
        } else {
            assert(lists[lists.len() - 1][p - n] == flat(lists)[p]);
        }
    }
}

/// Everything in the lists is in the flattened list.
pub proof fn lemma_flat_has_all<A>(lists: Seq<Seq<A>>, i: int, j: int)
    requires
        0 <= i < lists.len(),
        0 <= j < lists[i].len(),
    ensures
        exists|p: int| 0 <= p < flat(lists).len() && #[trigger] flat(lists)[p] == lists[i][j],
    decreases lists.len(),
{
    let front = lists.drop_last();
    let n = flat(front).len();
    if i < front.len() {
        lemma_flat_has_all(front, i, j);
        let p = choose|p: int|
            0 <= p < flat(front).len() && #[trigger] flat(front)[p] == front[i][j];
        assert(flat(lists)[p] == lists[i][j]);
    } else {
        assert(flat(lists)[n + j] == lists[i][j]);
    }
}

pub(crate) proof fn lemma_largest_is_reached(s: Seq<real>)
    ensures
        crate::flow::exact().largest(s) == 0real || exists|k: int|
            0 <= k < s.len() && #[trigger] s[k] == crate::flow::exact().largest(s),
    decreases s.len(),
{
    let m = crate::flow::exact();
    if s.len() > 0 {
        let front = s.drop_last();
        lemma_largest_is_reached(front);
        if m.largest(s) != 0real {
            if m.largest(s) == s.last() {
                assert(s[s.len() - 1] == m.largest(s));
            } else {
                let k = choose|k: int| 0 <= k < front.len() && #[trigger] front[k] == m.largest(front);
                assert(s[k] == m.largest(s));
            }
        }
    }
}

pub(crate) proof fn lemma_largest_is(s: Seq<real>, bound: real)
    requires
        bound >= 0real,
        forall|k: int| 0 <= k < s.len() ==> #[trigger] s[k] <= bound,
        bound == 0real || exists|k: int| 0 <= k < s.len() && #[trigger] s[k] == bound,
    ensures
        crate::flow::exact().largest(s) == bound,
{
    let m = crate::flow::exact();
    lemma_largest_is_reached(s);
    crate::flow::lemma_largest_is_largest(s, 0);
    if bound != 0real {
        let k = choose|k: int| 0 <= k < s.len() && #[trigger] s[k] == bound;
        crate::flow::lemma_largest_is_largest(s, k);
    }
    if m.largest(s) != 0real {
        let k = choose|k: int| 0 <= k < s.len() && #[trigger] s[k] == m.largest(s);
        assert(s[k] <= bound);
    }
}

/// Whether the keys of a view stand where the flow of `sizes` puts them.
pub open spec fn flows(view: ViewModel<real>, sizes: Seq<Seq<Outline<real>>>) -> bool {
    &&& view.rows.len() == sizes.len()
    &&& forall|i: int| 0 <= i < sizes.len() ==> (#[trigger] view.rows[i]).len() == sizes[i].len()
    &&& forall|i: int, j: int|
        0 <= i < sizes.len() && 0 <= j < sizes[i].len() ==> (#[trigger] view.rows[i][j]).rect
            == crate::flow::key_rect(crate::flow::exact(), sizes, i, j)
}

/// The keys of every view that a layout resolves to stand where the flow of their sizes
/// puts them.
pub proof fn lemma_resolved_views_flow(
    layout: Layout<real>,
    icons: Map<Seq<char>, SpriteRegion<real>>,
    name: Seq<char>,
    rows: Seq<Seq<char>>,
)
    ensures
        flows(
            layout.view_of(crate::flow::exact(), icons, name, rows),
            layout.sizes_of(crate::flow::exact(), crate::layout::tokens_of(rows)),
        ),
{
}

/// In real numbers, a view whose keys have no negative widths is as wide as its widest row.
pub proof fn lemma_view_is_as_wide_as_its_widest_row(
    view: ViewModel<real>,
    sizes: Seq<Seq<Outline<real>>>,
)
    requires
        flows(view, sizes),
        forall|i: int|
            0 <= i < sizes.len() ==> crate::flow::widths_are_natural(#[trigger] sizes[i]),
    ensures
        view.extent_x(crate::flow::exact()) == crate::flow::view_width(
            crate::flow::exact(),
            sizes,
        ),
{
    let m = crate::flow::exact();
    let w = crate::flow::view_width(m, sizes);
    let all = view.all_keys();
    let edges = crate::layout::right_edges(m, all);
    let wide = crate::flow::row_widths(m, sizes);
    crate::flow::lemma_largest_is_largest(wide, 0);
    assert forall|p: int| 0 <= p < edges.len() implies #[trigger] edges[p] <= w by {
        lemma_flat_has_origin(view.rows, p);
        let (i, j) = choose|i: int, j: int|
            0 <= i < view.rows.len() && 0 <= j < view.rows[i].len() && all[p]
                == #[trigger] view.rows[i][j];
        crate::flow::lemma_keys_fit_the_view(sizes, i, j);
    }
    lemma_largest_is_reached(wide);
    if w != 0real {
        let i = choose|i: int| 0 <= i < wide.len() && #[trigger] wide[i] == w;
        let row = sizes[i];
        let last = row.len() - 1;
        if row.len() == 0 {
            assert(crate::flow::widths(row) =~= Seq::empty());
            assert(false);
        }
        crate::flow::lemma_key_left_step(m, sizes, i, last);
        crate::flow::lemma_key_left_is_a_sum(sizes, i, last + 1);
        assert(row.take(last + 1) =~= row);
        crate::flow::lemma_rows_are_centred(sizes, i);
        assert(view.rows[i][last].rect.right_edge(m) == w);
        lemma_flat_has_all(view.rows, i, last);
        let p = choose|p: int| 0 <= p < all.len() && #[trigger] all[p] == view.rows[i][last];
        assert(edges[p] == w);
    }
    lemma_largest_is(edges, w);
}

proof fn lemma_row_top_is_reached(view: ViewModel<real>, sizes: Seq<Seq<Outline<real>>>, k: int)
    requires
        flows(view, sizes),
        0 <= k <= sizes.len(),
    ensures
        ({
            let m = crate::flow::exact();
            let top = crate::flow::row_top(m, sizes, k);
            top >= 0real && (top == 0real || exists|i: int, j: int|
                0 <= i < sizes.len() && 0 <= j < sizes[i].len() && (
                #[trigger] view.rows[i][j]).rect.bottom_edge(m) == top)
        }),
    decreases k,
{
    let m = crate::flow::exact();
    if k == 0 {
        assert(crate::flow::row_heights(m, sizes.take(0)) =~= Seq::empty());
    } else {
        lemma_row_top_is_reached(view, sizes, k - 1);
        crate::flow::lemma_rows_stack(m, sizes, k - 1);
        let row = sizes[k - 1];
        let hs = crate::flow::heights(row);
        crate::flow::lemma_largest_is_largest(hs, 0);
        lemma_largest_is_reached(hs);
        if m.largest(hs) != 0real {
            let j = choose|j: int| 0 <= j < hs.len() && #[trigger] hs[j] == m.largest(hs);
            assert(view.rows[k - 1][j].rect.bottom_edge(m) == crate::flow::row_top(m, sizes, k));
        }
    }
}

/// In real numbers, a view is as tall as its rows are together, whatever the sizes of its
/// keys.
pub proof fn lemma_view_is_as_tall_as_its_rows(
    view: ViewModel<real>,
    sizes: Seq<Seq<Outline<real>>>,
)
    requires
        flows(view, sizes),
    ensures
        view.extent_y(crate::flow::exact()) == crate::flow::row_top(
            crate::flow::exact(),
            sizes,
            sizes.len() as int,
        ),
{
    let m = crate::flow::exact();
    let n = sizes.len() as int;
    let h = crate::flow::row_top(m, sizes, n);
    let all = view.all_keys();
    let edges = crate::layout::bottom_edges(m, all);
    lemma_row_top_is_reached(view, sizes, n);
    assert forall|p: int| 0 <= p < edges.len() implies #[trigger] edges[p] <= h by {
        lemma_flat_has_origin(view.rows, p);
        let (i, j) = choose|i: int, j: int|
            0 <= i < view.rows.len() && 0 <= j < view.rows[i].len() && all[p]
                == #[trigger] view.rows[i][j];
        crate::flow::lemma_largest_is_largest(crate::flow::heights(sizes[i]), j);
        assert(crate::flow::heights(sizes[i])[j] == sizes[i][j].height);
        crate::flow::lemma_rows_descend(sizes, i, n);
    }
    if h != 0real {
        let (i, j) = choose|i: int, j: int|
            0 <= i < sizes.len() && 0 <= j < sizes[i].len() && (
            #[trigger] view.rows[i][j]).rect.bottom_edge(m) == h;
        lemma_flat_has_all(view.rows, i, j);
        let p = choose|p: int| 0 <= p < all.len() && #[trigger] all[p] == view.rows[i][j];
        assert(edges[p] == h);
    }
    lemma_largest_is(edges, h);
}

} // verus!
