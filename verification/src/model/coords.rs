use vstd::prelude::*;

verus! {

/// Where a global point lands relative to the source rectangle `rect = [x, y, w, h]`
/// (origin at its top-left corner); `None` when it falls outside. The right and
/// bottom edges count as inside.
pub open spec fn spec_map_to_source(rect: [i64; 4], x: i64, y: i64) -> Option<(i64, i64)> {
    let rel_x = x - rect[0];
    let rel_y = y - rect[1];
    if 0 <= rel_x <= rect[2] && 0 <= rel_y <= rect[3] {
        Some((rel_x as i64, rel_y as i64))
    } else {
        None
    }
}

/// A point lands in the source exactly when it lies within the rectangle, edges
/// included, and then at its exact offset from the top-left corner: a point outside
/// (above, below, left or right of it) is never moved onto an edge.
pub proof fn lemma_map_to_source_exact(rect: [i64; 4], x: i64, y: i64)
    ensures
        spec_map_to_source(rect, x, y) is Some
            <==> rect[0] <= x <= rect[0] + rect[2] && rect[1] <= y <= rect[1] + rect[3],
        spec_map_to_source(rect, x, y) matches Some(p) ==> p.0 == x - rect[0] && p.1 == y - rect[1],
        y < rect[1] || x < rect[0] ==> spec_map_to_source(rect, x, y) is None,
{
}

/// Converts a global point to coordinates relative to the source (origin at its
/// top-left corner). `rect` = [x, y, w, h]. `None` when the point falls outside.
pub fn map_to_source(rect: [i64; 4], x: i64, y: i64) -> (res: Option<(i64, i64)>)
    requires
        i64::MIN <= x - rect[0] <= i64::MAX,
        i64::MIN <= y - rect[1] <= i64::MAX,
    ensures
        res == spec_map_to_source(rect, x, y),
        res is Some <==> rect[0] <= x <= rect[0] + rect[2] && rect[1] <= y <= rect[1] + rect[3],
        res matches Some(p) ==> p.0 == x - rect[0] && p.1 == y - rect[1],
{
    let rel_x = x - rect[0];
    let rel_y = y - rect[1];
    if rel_x < 0 || rel_y < 0 || rel_x > rect[2] || rel_y > rect[3] {
        return None;
    }
    Some((rel_x, rel_y))
}

} // verus!
