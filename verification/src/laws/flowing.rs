//! Where the keys of a view stand, in real numbers.

use vstd::prelude::*;

use crate::flow::Outline;
use crate::layout::{Layout, SpriteRegion, ViewModel};

verus! {

/// The lists of a list are put one behind the other: nothing is lost, repeated or moved.
pub proof fn lemma_flat_joins<A>(a: Seq<Seq<A>>, b: Seq<Seq<A>>, list: Seq<A>)
    ensures
        crate::layout::flat(Seq::<Seq<A>>::empty()) == Seq::<A>::empty(),
        crate::layout::flat(seq![list]) == list,
        crate::layout::flat(a + b) == crate::layout::flat(a) + crate::layout::flat(b),
    decreases b.len(),
{
    assert(seq![list].drop_last() =~= Seq::<Seq<A>>::empty());
    assert(crate::layout::flat(seq![list].drop_last()) =~= Seq::<A>::empty());
    assert(crate::layout::flat(seq![list]) =~= list);
    if b.len() == 0 {
        assert(a + b =~= a);
        assert(crate::layout::flat(a) + crate::layout::flat(b) =~= crate::layout::flat(a));
    } else {
        assert((a + b).drop_last() =~= a + b.drop_last());
        lemma_flat_joins(a, b.drop_last(), list);
        assert(crate::layout::flat(a + b) =~= crate::layout::flat(a) + crate::layout::flat(b));
    }
}

/// Whether the keys of a view stand as they are to: with the sizes that are given, butting
/// together in each row; each row below the one above it by the height of its tallest key;
/// and each row in the middle of the width of the widest.
///
/// `tops` are the tops of the rows, and behind them the bottom of the last; `wide` is the
/// width of the widest row.
pub open spec fn stand(
    view: ViewModel<real>,
    sizes: Seq<Seq<Outline<real>>>,
    tops: Seq<real>,
    wide: real,
) -> bool {
    &&& view.rows.len() == sizes.len()
    &&& tops.len() == sizes.len() + 1
    &&& tops[0] == 0real
    &&& forall|i: int|
        0 <= i < sizes.len() ==> row_stands(#[trigger] view.rows[i], sizes[i], tops[i], wide)
    &&& forall|i: int|
        0 <= i < sizes.len() ==> is_tallest(#[trigger] sizes[i], tops[i + 1] - tops[i])
    &&& wide >= 0real
    &&& wide == 0real || exists|i: int|
        0 <= i < sizes.len() && sizes[i].len() > 0 && view.rows[i][0].rect.x == 0real && (
        #[trigger] view.rows[i])[view.rows[i].len() - 1].rect.x + sizes[i].last().width == wide
}

/// Whether a row stands as it is to.
pub open spec fn row_stands(
    row: Seq<crate::layout::KeyModel<real>>,
    sizes: Seq<Outline<real>>,
    top: real,
    wide: real,
) -> bool {
    &&& row.len() == sizes.len()
    &&& forall|j: int|
        0 <= j < row.len() ==> (#[trigger] row[j]).rect.width == sizes[j].width
            && row[j].rect.height == sizes[j].height && row[j].rect.y == top && row[j].touch_area
            == row[j].rect
    &&& forall|j: int, k: int|
        #![trigger row[j], row[k]]
        0 <= j && k == j + 1 && k < row.len() ==> row[k].rect.x == row[j].rect.x
            + sizes[j].width
    &&& row.len() > 0 ==> row[0].rect.x >= 0real && row[0].rect.x == wide - (row[row.len()
        - 1].rect.x + sizes.last().width)
}

/// Whether `tall` is the height of the tallest key of a row, or nothing where none has any.
pub open spec fn is_tallest(sizes: Seq<Outline<real>>, tall: real) -> bool {
    &&& tall >= 0real
    &&& forall|j: int| 0 <= j < sizes.len() ==> (#[trigger] sizes[j]).height <= tall
    &&& tall == 0real || exists|j: int|
        0 <= j < sizes.len() && (#[trigger] sizes[j]).height == tall
}

/// Every view that a layout resolves to has a key for every word of its rows, of the size
/// that the layout gives it, and these stand as they are to.
pub proof fn lemma_resolved_keys_stand(
    layout: Layout<real>,
    icons: Map<Seq<char>, SpriteRegion<real>>,
    name: Seq<char>,
    rows: Seq<Seq<char>>,
    sizes: Seq<Seq<Outline<real>>>,
)
    requires
        sizes.len() == rows.len(),
        forall|i: int|
            0 <= i < rows.len() ==> (#[trigger] sizes[i]).len() == crate::text::words(
                rows[i],
            ).len(),
        forall|i: int, j: int|
            0 <= i < rows.len() && 0 <= j < sizes[i].len() ==> #[trigger] sizes[i][j]
                == crate::layout::outline_of(
                crate::flow::exact(),
                layout.outlines@,
                crate::layout::button_of(layout.buttons@, crate::text::words(rows[i])[j]),
            ),
    ensures
        layout.view_of(crate::flow::exact(), icons, name, rows).name == name,
        exists|tops: Seq<real>, wide: real|
            #[trigger] stand(
                layout.view_of(crate::flow::exact(), icons, name, rows),
                sizes,
                tops,
                wide,
            ),
{
    let m = crate::flow::exact();
    let tokens = crate::layout::tokens_of(rows);
    let view = layout.view_of(m, icons, name, rows);
    let all = layout.sizes_of(m, tokens);
    assert forall|i: int| 0 <= i < all.len() implies #[trigger] all[i] == sizes[i] by {
        assert(all[i] =~= sizes[i]) by {
            assert forall|j: int| 0 <= j < all[i].len() implies all[i][j] == sizes[i][j] by {
                assert(tokens[i] == crate::text::words(rows[i]));
            }
        }
    }
    assert(all =~= sizes);
    let wide = crate::flow::view_width(m, sizes);
    let tops = Seq::new(sizes.len() + 1, |i: int| crate::flow::row_top(m, sizes, i));
    let widths = crate::flow::row_widths(m, sizes);
    assert(crate::flow::row_heights(m, sizes.take(0)) =~= Seq::empty());
    crate::flow::lemma_largest_is_largest(widths, 0);
    assert forall|i: int| 0 <= i < sizes.len() implies row_stands(
        #[trigger] view.rows[i],
        sizes[i],
        tops[i],
        wide,
    ) by {
        lemma_row_stands(view.rows[i], sizes, i);
    }
    assert forall|i: int| 0 <= i < sizes.len() implies is_tallest(
        #[trigger] sizes[i],
        tops[i + 1] - tops[i],
    ) by {
        let heights = crate::flow::heights(sizes[i]);
        crate::flow::lemma_rows_stack(m, sizes, i);
        assert forall|j: int| 0 <= j < sizes[i].len() implies (#[trigger] sizes[i][j]).height
            <= m.largest(heights) by {
            crate::flow::lemma_largest_is_largest(heights, j);
            assert(heights[j] == sizes[i][j].height);
        }
        crate::flow::lemma_largest_is_largest(heights, 0);
        crate::extent::lemma_largest_is_reached(heights);
        if m.largest(heights) != 0real {
            let j = choose|j: int|
                0 <= j < heights.len() && #[trigger] heights[j] == m.largest(heights);
            assert(sizes[i][j].height == m.largest(heights));
        }
    }
    if wide != 0real {
        crate::extent::lemma_largest_is_reached(widths);
        let i = choose|i: int| 0 <= i < widths.len() && #[trigger] widths[i] == wide;
        if sizes[i].len() == 0 {
            assert(crate::flow::widths(sizes[i]) =~= Seq::empty());
            assert(false);
        }
        crate::flow::lemma_rows_are_centred(sizes, i);
        crate::flow::lemma_flow_begins(m, sizes, i);
        lemma_row_ends(sizes, i);
        assert(view.rows[i][view.rows[i].len() - 1].rect.x + sizes[i].last().width == wide);
    }
    assert(stand(view, sizes, tops, wide));
}

proof fn lemma_row_ends(sizes: Seq<Seq<Outline<real>>>, i: int)
    requires
        0 <= i < sizes.len(),
        sizes[i].len() > 0,
    ensures
        ({
            let m = crate::flow::exact();
            let last = sizes[i].len() - 1;
            crate::flow::key_left(m, sizes, i, last) + sizes[i].last().width
                == crate::flow::row_left(m, sizes, i) + crate::flow::row_width(m, sizes[i])
        }),
{
    let m = crate::flow::exact();
    let last = sizes[i].len() - 1;
    crate::flow::lemma_key_left_step(m, sizes, i, last);
    crate::flow::lemma_key_left_is_a_sum(sizes, i, last + 1);
    assert(sizes[i].take(last + 1) =~= sizes[i]);
}

proof fn lemma_row_stands(
    row: Seq<crate::layout::KeyModel<real>>,
    sizes: Seq<Seq<Outline<real>>>,
    i: int,
)
    requires
        0 <= i < sizes.len(),
        row.len() == sizes[i].len(),
        forall|j: int|
            0 <= j < row.len() ==> (#[trigger] row[j]).rect == crate::flow::key_rect(
                crate::flow::exact(),
                sizes,
                i,
                j,
            ) && row[j].touch_area == row[j].rect,
    ensures
        row_stands(
            row,
            sizes[i],
            crate::flow::row_top(crate::flow::exact(), sizes, i),
            crate::flow::view_width(crate::flow::exact(), sizes),
        ),
{
    let m = crate::flow::exact();
    assert forall|j: int, k: int|
        #![trigger row[j], row[k]]
        0 <= j && k == j + 1 && k < row.len() implies row[k].rect.x == row[j].rect.x
        + sizes[i][j].width by {
        crate::flow::lemma_key_left_step(m, sizes, i, j);
    }
    if row.len() > 0 {
        crate::flow::lemma_rows_are_centred(sizes, i);
        crate::flow::lemma_flow_begins(m, sizes, i);
        lemma_row_ends(sizes, i);
    }
}

} // verus!
