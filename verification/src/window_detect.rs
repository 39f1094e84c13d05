//! Window detection for "Capture Window" mode: which window lies under the
//! cursor.

use vstd::prelude::*;

verus! {

/// A screen-space rectangle: (x, y, width, height).
pub type WinRect = (i32, i32, i32, i32);

/// The point lies inside the rectangle (left and top edges inclusive).
pub open spec fn rect_contains(r: WinRect, x: int, y: int) -> bool {
    x >= r.0 && x < r.0 + r.2 && y >= r.1 && y < r.1 + r.3
}

/// The first rectangle of `rects[i..]` that contains the point.
pub open spec fn first_containing(rects: Seq<WinRect>, x: int, y: int, i: int) -> Option<WinRect>
    decreases rects.len() - i,
{
    if i < 0 || i >= rects.len() {
        None
    } else if rect_contains(rects[i], x, y) {
        Some(rects[i])
    } else {
        first_containing(rects, x, y, i + 1)
    }
}

/// Find the front-most window rect (the list is in front-to-back Z-order)
/// that contains the given screen-space point.
pub fn window_at_point(rects: &[WinRect], screen_x: i32, screen_y: i32) -> (found: Option<WinRect>)
    ensures
        found == first_containing(rects@, screen_x as int, screen_y as int, 0),
{
    let mut i: usize = 0;
    while i < rects.len()
        invariant
            i <= rects@.len(),
            first_containing(rects@, screen_x as int, screen_y as int, 0)
                == first_containing(rects@, screen_x as int, screen_y as int, i as int),
        decreases rects@.len() - i,
    {
        let (wx, wy, ww, wh) = rects[i];
        let sx = screen_x as i64;
        let sy = screen_y as i64;
        if sx >= wx as i64 && sx < wx as i64 + ww as i64 && sy >= wy as i64 && sy < wy as i64 + wh as i64 {
            return Some(rects[i]);
        }
        i += 1;
    }
    None
}

/// The rectangle of a window from its edges, or `None` for windows of a
/// pixel or less in either direction, which are skipped.
pub fn window_rect_from_bounds(left: i32, top: i32, right: i32, bottom: i32) -> (r: Option<WinRect>)
    requires
        i32::MIN <= right - left <= i32::MAX,
        i32::MIN <= bottom - top <= i32::MAX,
    ensures
        r == if right - left > 1 && bottom - top > 1 {
            Some((left, top, (right - left) as i32, (bottom - top) as i32))
        } else {
            None
        },
{
    let w = right - left;
    let h = bottom - top;
    if w > 1 && h > 1 {
        Some((left, top, w, h))
    } else {
        None
    }
}

/// The window found under a point contains the point, and no window in
/// front of it does.
pub proof fn lemma_found_window_is_front_most(rects: Seq<WinRect>, x: int, y: int, i: int)
    requires
        0 <= i,
    ensures
        first_containing(rects, x, y, i) matches Some(r) ==> rect_contains(r, x, y),
        first_containing(rects, x, y, i) is None ==> forall|j: int| i <= j < rects.len() ==> !rect_contains(#[trigger] rects[j], x, y),
        forall|j: int| i <= j < rects.len() && rect_contains(#[trigger] rects[j], x, y) ==> first_containing(rects, x, y, i) is Some,
    decreases rects.len() - i,
{
    if i < rects.len() && !rect_contains(rects[i], x, y) {
        lemma_found_window_is_front_most(rects, x, y, i + 1);
    }
}

/// `window_at_point` finds the first rectangle `(x, y, w, h)` of the list
/// with `x <= px < x + w` and `y <= py < y + h`, and finds none when no
/// rectangle of the list holds the point that way.
pub proof fn lemma_window_at_point_finds_first_holder(rects: Seq<WinRect>, px: int, py: int)
    ensures
        match first_containing(rects, px, py, 0) {
            Some(r) => exists|k: int| {
                &&& 0 <= k < rects.len()
                &&& #[trigger] rects[k] == r
                &&& r.0 <= px && px < r.0 + r.2
                &&& r.1 <= py && py < r.1 + r.3
                &&& forall|j: int| 0 <= j < k ==> !({
                    let q = #[trigger] rects[j];
                    q.0 <= px && px < q.0 + q.2 && q.1 <= py && py < q.1 + q.3
                })
            },
            None => forall|j: int| 0 <= j < rects.len() ==> !({
                let q = #[trigger] rects[j];
                q.0 <= px && px < q.0 + q.2 && q.1 <= py && py < q.1 + q.3
            }),
        },
{
    lemma_first_holder_from(rects, px, py, 0);
}

/// `lemma_window_at_point_finds_first_holder`, from index `i` on.
proof fn lemma_first_holder_from(rects: Seq<WinRect>, px: int, py: int, i: int)
    requires
        0 <= i,
    ensures
        match first_containing(rects, px, py, i) {
            Some(r) => exists|k: int| {
                &&& i <= k < rects.len()
                &&& #[trigger] rects[k] == r
                &&& r.0 <= px && px < r.0 + r.2
                &&& r.1 <= py && py < r.1 + r.3
                &&& forall|j: int| i <= j < k ==> !({
                    let q = #[trigger] rects[j];
                    q.0 <= px && px < q.0 + q.2 && q.1 <= py && py < q.1 + q.3
                })
            },
            None => forall|j: int| i <= j < rects.len() ==> !({
                let q = #[trigger] rects[j];
                q.0 <= px && px < q.0 + q.2 && q.1 <= py && py < q.1 + q.3
            }),
        },
    decreases rects.len() - i,
{
    if i < rects.len() {
        if rect_contains(rects[i], px, py) {
            assert(rects[i] == rects[i]);
        } else {
            lemma_first_holder_from(rects, px, py, i + 1);
            match first_containing(rects, px, py, i + 1) {
                Some(r) => {
                    let k = choose|k: int| {
                        &&& i + 1 <= k < rects.len()
                        &&& #[trigger] rects[k] == r
                        &&& r.0 <= px && px < r.0 + r.2
                        &&& r.1 <= py && py < r.1 + r.3
                        &&& forall|j: int| i + 1 <= j < k ==> !({
                            let q = #[trigger] rects[j];
                            q.0 <= px && px < q.0 + q.2 && q.1 <= py && py < q.1 + q.3
                        })
                    };
                    assert(rects[k] == r);
                },
                None => {},
            }
        }
    }
}

/// The visible windows in front-to-back order; this platform offers no
/// window enumeration, so the list is empty (window capture then finds no
/// window under the cursor).
pub fn enumerate_window_rects() -> (rects: Vec<WinRect>)
    ensures
        rects@.len() == 0,
{
    Vec::new()
}

} // verus!
