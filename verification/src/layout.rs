//! Monitor layout normalization.
//!
//! Converts a set of monitor rectangles (arbitrary integer positions and
//! sizes, possibly negative and overlapping) into rectangles in a square,
//! normalized preview space, preserving relative position and aspect
//! ratio.
//!
//! The original monitor coordinates are integers, so every normalized
//! coordinate is an exact fraction over a common denominator: twice the
//! larger extent of the union bounding box. [`PreviewRect`] keeps the
//! numerators and that denominator instead of rounding to floating point;
//! consumers divide when they draw.

use vstd::prelude::*;

use crate::model::Monitor;

verus! {

/// A normalized monitor rectangle in preview space.
///
/// The corner coordinates are the fractions `x0 / denom`, `y0 / denom`,
/// `x1 / denom` and `y1 / denom` of the square preview space, so each
/// numerator of a well-formed rect lies in `0 ..= denom`.
#[derive(Clone, Copy, Debug, PartialEq, Eq, Structural)]
pub struct PreviewRect {
    pub x0: i64,
    pub y0: i64,
    pub x1: i64,
    pub y1: i64,
    pub denom: i64,
}

/// The x coordinates of the monitors' left edges.
pub open spec fn xs_low(ms: Seq<Monitor>) -> Seq<int> {
    ms.map(|i: int, m: Monitor| m.spec_position().x as int)
}

/// The x coordinates of the monitors' right edges.
pub open spec fn xs_high(ms: Seq<Monitor>) -> Seq<int> {
    ms.map(|i: int, m: Monitor| m.spec_position().x + m.spec_size().x)
}

/// The y coordinates of the monitors' top edges.
pub open spec fn ys_low(ms: Seq<Monitor>) -> Seq<int> {
    ms.map(|i: int, m: Monitor| m.spec_position().y as int)
}

/// The y coordinates of the monitors' bottom edges.
pub open spec fn ys_high(ms: Seq<Monitor>) -> Seq<int> {
    ms.map(|i: int, m: Monitor| m.spec_position().y + m.spec_size().y)
}

/// Left edge of the union bounding box.
pub open spec fn layout_left(ms: Seq<Monitor>) -> int {
    xs_low(ms).min()
}

/// Top edge of the union bounding box.
pub open spec fn layout_top(ms: Seq<Monitor>) -> int {
    ys_low(ms).min()
}

/// Right edge of the union bounding box.
pub open spec fn layout_right(ms: Seq<Monitor>) -> int {
    xs_high(ms).max()
}

/// Bottom edge of the union bounding box.
pub open spec fn layout_bottom(ms: Seq<Monitor>) -> int {
    ys_high(ms).max()
}

/// The larger extent of the bounding box: the side of the square
/// normalization space.
pub open spec fn layout_divider(ms: Seq<Monitor>) -> int {
    vstd::math::max(
        layout_right(ms) - layout_left(ms),
        layout_bottom(ms) - layout_top(ms),
    )
}

/// Whether `r` is the normalized rect of monitor `m` within the layout of
/// the monitor list `ms`.
///
/// With `divider` the larger bounding-box extent, the normalized
/// coordinates of the specification are
/// `(p - (left, top) + (divider - extent) / 2) / divider` for the top-left
/// corner and `size / divider` more for the bottom-right one. All
/// numerators here are doubled and put over `denom == 2 * divider`, which
/// keeps the halved centering offset exact.
pub open spec fn matches_layout(r: PreviewRect, ms: Seq<Monitor>, m: Monitor) -> bool {
    let off_x = layout_divider(ms) - (layout_right(ms) - layout_left(ms));
    let off_y = layout_divider(ms) - (layout_bottom(ms) - layout_top(ms));
    &&& r.denom == 2 * layout_divider(ms)
    &&& r.x0 == 2 * (m.spec_position().x - layout_left(ms)) + off_x
    &&& r.y0 == 2 * (m.spec_position().y - layout_top(ms)) + off_y
    &&& r.x1 == r.x0 + 2 * m.spec_size().x
    &&& r.y1 == r.y0 + 2 * m.spec_size().y
}

/// Computes the normalized preview rect of every monitor in `monitors`.
///
/// An empty monitor list yields an empty result; no division or
/// bounding-box computation is attempted. The computation is a pure
/// function of the list and is re-run in full on every monitor-set
/// change.
pub fn normalize_monitors(monitors: &Vec<Monitor>) -> (rects: Vec<PreviewRect>)
    requires
        forall|i: int| 0 <= i < monitors@.len() ==> (#[trigger] monitors@[i]).wf(),
    ensures
        rects@.len() == monitors@.len(),
        forall|i: int|
            0 <= i < monitors@.len() ==> matches_layout(
                #[trigger] rects@[i],
                monitors@,
                monitors@[i],
            ),
{
    let ghost ms = monitors@;
    let n = monitors.len();
    if n == 0 {
        return Vec::new();
    }

    // Union bounding box over all monitors, in 64-bit arithmetic: the
    // right and bottom edges of a monitor may exceed the 32-bit range.
    let first = &monitors[0];
    let mut left: i64 = first.position().x as i64;
    let mut top: i64 = first.position().y as i64;
    let mut right: i64 = first.position().x as i64 + first.size().x as i64;
    let mut bottom: i64 = first.position().y as i64 + first.size().y as i64;

    proof {
        assert(xs_low(ms)[0] == ms[0].spec_position().x as int);
        assert(ys_low(ms)[0] == ms[0].spec_position().y as int);
        assert(xs_high(ms)[0] == ms[0].spec_position().x + ms[0].spec_size().x);
        assert(ys_high(ms)[0] == ms[0].spec_position().y + ms[0].spec_size().y);
    }
    let mut i: usize = 1;
    while i < n
        invariant
            1 <= i <= n,
            n == ms.len(),
            monitors@ == ms,
            forall|j: int| 0 <= j < ms.len() ==> (#[trigger] ms[j]).wf(),
            i32::MIN <= left <= i32::MAX,
            i32::MIN <= top <= i32::MAX,
            right <= i32::MAX as i64 + i32::MAX as i64,
            bottom <= i32::MAX as i64 + i32::MAX as i64,
            forall|j: int| 0 <= j < i ==> left <= xs_low(ms)[j],
            forall|j: int| 0 <= j < i ==> top <= ys_low(ms)[j],
            forall|j: int| 0 <= j < i ==> xs_high(ms)[j] <= right,
            forall|j: int| 0 <= j < i ==> ys_high(ms)[j] <= bottom,
            exists|j: int| 0 <= j < i && left == xs_low(ms)[j],
            exists|j: int| 0 <= j < i && top == ys_low(ms)[j],
            exists|j: int| 0 <= j < i && right == xs_high(ms)[j],
            exists|j: int| 0 <= j < i && bottom == ys_high(ms)[j],
        decreases n - i,
    {
        let m = &monitors[i];
        proof {
            assert(xs_low(ms)[i as int] == m.spec_position().x as int);
            assert(ys_low(ms)[i as int] == m.spec_position().y as int);
            assert(xs_high(ms)[i as int] == m.spec_position().x + m.spec_size().x);
            assert(ys_high(ms)[i as int] == m.spec_position().y + m.spec_size().y);
        }
        let x0 = m.position().x as i64;
        let y0 = m.position().y as i64;
        let x1 = m.position().x as i64 + m.size().x as i64;
        let y1 = m.position().y as i64 + m.size().y as i64;
        if x0 < left {
            left = x0;
        }
        if y0 < top {
            top = y0;
        }
        if x1 > right {
            right = x1;
        }
        if y1 > bottom {
            bottom = y1;
        }
        i += 1;
    }

    proof {
        // The running extrema are exactly the spec-level extrema.
        xs_low(ms).min_ensures();
        ys_low(ms).min_ensures();
        xs_high(ms).max_ensures();
        ys_high(ms).max_ensures();
        assert(xs_low(ms).contains(xs_low(ms).min()));
        assert(ys_low(ms).contains(ys_low(ms).min()));
        assert(xs_high(ms).contains(xs_high(ms).max()));
        assert(ys_high(ms).contains(ys_high(ms).max()));
        assert(left == layout_left(ms));
        assert(top == layout_top(ms));
        assert(right == layout_right(ms));
        assert(bottom == layout_bottom(ms));
    }

    let width = right - left;
    let height = bottom - top;
    let divider = if width >= height {
        width
    } else {
        height
    };
    let off_x = divider - width;
    let off_y = divider - height;

    let mut rects: Vec<PreviewRect> = Vec::new();
    let mut k: usize = 0;
    while k < n
        invariant
            0 <= k <= n,
            n == ms.len(),
            monitors@ == ms,
            forall|j: int| 0 <= j < ms.len() ==> (#[trigger] ms[j]).wf(),
            left == layout_left(ms),
            top == layout_top(ms),
            right == layout_right(ms),
            bottom == layout_bottom(ms),
            i32::MIN <= left <= i32::MAX,
            i32::MIN <= top <= i32::MAX,
            right <= i32::MAX as i64 + i32::MAX as i64,
            bottom <= i32::MAX as i64 + i32::MAX as i64,
            width == right - left,
            height == bottom - top,
            divider == layout_divider(ms),
            off_x == divider - width,
            off_y == divider - height,
            rects@.len() == k,
            forall|j: int| 0 <= j < k ==> matches_layout(#[trigger] rects@[j], ms, ms[j]),
        decreases n - k,
    {
        let m = &monitors[k];
        proof {
            xs_low(ms).min_ensures();
            ys_low(ms).min_ensures();
            xs_high(ms).max_ensures();
            ys_high(ms).max_ensures();
            assert(xs_low(ms)[k as int] == m.spec_position().x as int);
            assert(xs_high(ms)[k as int] == m.spec_position().x + m.spec_size().x);
            assert(ys_low(ms)[k as int] == m.spec_position().y as int);
            assert(ys_high(ms)[k as int] == m.spec_position().y + m.spec_size().y);
        }
        let x0 = 2 * (m.position().x as i64 - left) + off_x;
        let y0 = 2 * (m.position().y as i64 - top) + off_y;
        let x1 = x0 + 2 * (m.size().x as i64);
        let y1 = y0 + 2 * (m.size().y as i64);
        rects.push(PreviewRect { x0, y0, x1, y1, denom: 2 * divider });
        k += 1;
    }
    rects
}

/// Law: normalization is a pure function of the monitor list. Any two
/// rect lists that both match the layout of the same monitor list are
/// identical, so normalizing the same input twice yields identical
/// output.
pub proof fn lemma_normalization_idempotent(
    ms: Seq<Monitor>,
    r1: Seq<PreviewRect>,
    r2: Seq<PreviewRect>,
)
    requires
        r1.len() == ms.len(),
        r2.len() == ms.len(),
        forall|i: int| 0 <= i < ms.len() ==> matches_layout(#[trigger] r1[i], ms, ms[i]),
        forall|i: int| 0 <= i < ms.len() ==> matches_layout(#[trigger] r2[i], ms, ms[i]),
    ensures
        r1 == r2,
{
    assert forall|i: int| 0 <= i < ms.len() implies r1[i] == r2[i] by {
        assert(matches_layout(r1[i], ms, ms[i]));
        assert(matches_layout(r2[i], ms, ms[i]));
    }
    assert(r1 =~= r2);
}

/// Law: every normalized rect lies within the unit square, with positive
/// extent on both axes; and the layout touches both edges of the preview
/// space on the axis whose extent is the divider.
pub proof fn lemma_normalization_containment(ms: Seq<Monitor>, rects: Seq<PreviewRect>)
    requires
        0 < ms.len(),
        forall|i: int| 0 <= i < ms.len() ==> (#[trigger] ms[i]).wf(),
        rects.len() == ms.len(),
        forall|i: int| 0 <= i < ms.len() ==> matches_layout(#[trigger] rects[i], ms, ms[i]),
    ensures
        forall|i: int|
            0 <= i < ms.len() ==> {
                let r = #[trigger] rects[i];
                0 <= r.x0 < r.x1 <= r.denom && 0 <= r.y0 < r.y1 <= r.denom
            },
        layout_divider(ms) == layout_right(ms) - layout_left(ms) ==> (exists|i: int|
            0 <= i < ms.len() && (#[trigger] rects[i]).x0 == 0) && (exists|i: int|
            0 <= i < ms.len() && (#[trigger] rects[i]).x1 == rects[i].denom),
        layout_divider(ms) == layout_bottom(ms) - layout_top(ms) ==> (exists|i: int|
            0 <= i < ms.len() && (#[trigger] rects[i]).y0 == 0) && (exists|i: int|
            0 <= i < ms.len() && (#[trigger] rects[i]).y1 == rects[i].denom),
{
    let left = layout_left(ms);
    let top = layout_top(ms);
    let right = layout_right(ms);
    let bottom = layout_bottom(ms);
    let d = layout_divider(ms);
    xs_low(ms).min_ensures();
    ys_low(ms).min_ensures();
    xs_high(ms).max_ensures();
    ys_high(ms).max_ensures();
    assert forall|i: int| 0 <= i < ms.len() implies {
        let r = #[trigger] rects[i];
        0 <= r.x0 < r.x1 <= r.denom && 0 <= r.y0 < r.y1 <= r.denom
    } by {
        assert(matches_layout(rects[i], ms, ms[i]));
        assert(xs_low(ms)[i] == ms[i].spec_position().x as int);
        assert(xs_high(ms)[i] == ms[i].spec_position().x + ms[i].spec_size().x);
        assert(ys_low(ms)[i] == ms[i].spec_position().y as int);
        assert(ys_high(ms)[i] == ms[i].spec_position().y + ms[i].spec_size().y);
    }
    // Edge touching: the monitor attaining the bounding-box minimum sits
    // on the 0 edge, the one attaining the maximum on the 1 edge, when
    // the offset on that axis is zero.
    if d == right - left {
        assert(xs_low(ms).contains(xs_low(ms).min()));
        let jl = choose|j: int| 0 <= j < xs_low(ms).len() && xs_low(ms)[j] == xs_low(ms).min();
        assert(matches_layout(rects[jl], ms, ms[jl]));
        assert(xs_low(ms)[jl] == ms[jl].spec_position().x as int);
        assert(rects[jl].x0 == 0);
        assert(xs_high(ms).contains(xs_high(ms).max()));
        let jr = choose|j: int| 0 <= j < xs_high(ms).len() && xs_high(ms)[j] == xs_high(ms).max();
        assert(matches_layout(rects[jr], ms, ms[jr]));
        assert(xs_high(ms)[jr] == ms[jr].spec_position().x + ms[jr].spec_size().x);
        assert(rects[jr].x1 == rects[jr].denom);
    }
    if d == bottom - top {
        assert(ys_low(ms).contains(ys_low(ms).min()));
        let jt = choose|j: int| 0 <= j < ys_low(ms).len() && ys_low(ms)[j] == ys_low(ms).min();
        assert(matches_layout(rects[jt], ms, ms[jt]));
        assert(ys_low(ms)[jt] == ms[jt].spec_position().y as int);
        assert(rects[jt].y0 == 0);
        assert(ys_high(ms).contains(ys_high(ms).max()));
        let jb = choose|j: int| 0 <= j < ys_high(ms).len() && ys_high(ms)[j] == ys_high(ms).max();
        assert(matches_layout(rects[jb], ms, ms[jb]));
        assert(ys_high(ms)[jb] == ms[jb].spec_position().y + ms[jb].spec_size().y);
        assert(rects[jb].y1 == rects[jb].denom);
    }
}

} // verus!
