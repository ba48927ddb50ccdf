use vstd::prelude::*;
use crate::error::{CirnoError, ErrorView};
use crate::project::{Meta, ObjectEnum, ObjectView, Vector2, views};

verus! {

/// Whether a terminal of `columns` by `rows` cells has room for a canvas of
/// the size `bounds` and a border of one cell around it.
pub open spec fn terminal_fits(columns: u16, rows: u16, bounds: Vector2) -> bool {
    bounds.x + 2 <= columns && bounds.y + 2 <= rows
}

/// What is wrong with the first object from the index `i` on that is not in
/// order on a canvas of the size `bounds`.
pub open spec fn first_object_error(objects: Seq<ObjectView>, bounds: Vector2, i: int) -> Option<
    ErrorView,
>
    decreases objects.len() - i,
{
    if i < 0 || i >= objects.len() {
        None
    } else if objects[i].verify_error(bounds) is Some {
        objects[i].verify_error(bounds)
    } else {
        first_object_error(objects, bounds, i + 1)
    }
}

/// Whether both objects expose a region and the two regions overlap.
pub open spec fn regions_overlap(a: ObjectView, b: ObjectView) -> bool {
    match (a.region(), b.region()) {
        (Some(x), Some(y)) => x.overlaps(y),
        _ => false,
    }
}

/// The index of the first object from `j` on that overlaps the object `i`.
pub open spec fn first_partner(objects: Seq<ObjectView>, i: int, j: int) -> Option<int>
    decreases objects.len() - j,
{
    if j < 0 || j >= objects.len() {
        None
    } else if regions_overlap(objects[i], objects[j]) {
        Some(j)
    } else {
        first_partner(objects, i, j + 1)
    }
}

/// The first pair of overlapping objects whose first index is at least `i`:
/// the one with the least first index, and with the least second index
/// behind it.
pub open spec fn first_overlap(objects: Seq<ObjectView>, i: int) -> Option<(int, int)>
    decreases objects.len() - i,
{
    if i < 0 || i >= objects.len() {
        None
    } else {
        match first_partner(objects, i, i + 1) {
            Some(j) => Some((i, j)),
            None => first_overlap(objects, i + 1),
        }
    }
}

/// The first partner is behind `j`, overlaps, and nothing between does.
pub proof fn lemma_first_partner(objects: Seq<ObjectView>, i: int, j: int)
    requires
        0 <= j,
    ensures
        match first_partner(objects, i, j) {
            Some(p) => j <= p < objects.len() && regions_overlap(objects[i], objects[p])
                && forall|q: int| j <= q < p ==> !regions_overlap(objects[i], #[trigger] objects[q]),
            None => forall|q: int|
                j <= q < objects.len() ==> !regions_overlap(objects[i], #[trigger] objects[q]),
        },
    decreases objects.len() - j,
{
    if j < objects.len() && !regions_overlap(objects[i], objects[j]) {
        lemma_first_partner(objects, i, j + 1);
    }
}

/// The pair that `first_overlap` gives overlaps, its first index is below
/// its second, and no pair before it in the order of the indices overlaps.
/// Where it gives none, no two objects overlap.
pub proof fn lemma_first_overlap(objects: Seq<ObjectView>, i: int)
    requires
        0 <= i,
    ensures
        match first_overlap(objects, i) {
            Some((a, b)) => {
                &&& i <= a < b < objects.len()
                &&& regions_overlap(objects[a], objects[b])
                &&& forall|p: int, q: int|
                    i <= p < q < objects.len() && (p < a || (p == a && q < b))
                        ==> !regions_overlap(#[trigger] objects[p], #[trigger] objects[q])
            },
            None => forall|p: int, q: int|
                i <= p < q < objects.len() ==> !regions_overlap(
                    #[trigger] objects[p],
                    #[trigger] objects[q],
                ),
        },
    decreases objects.len() - i,
{
    if i < objects.len() {
        lemma_first_partner(objects, i, i + 1);
        if first_partner(objects, i, i + 1) is None {
            lemma_first_overlap(objects, i + 1);
        }
    }
}

/// The first thing that is wrong with a project on a terminal of `columns`
/// by `rows` cells: the bounds of the canvas, then the size of the
/// terminal, then the objects one by one, then the first pair of objects
/// that overlap.
pub open spec fn verification(
    columns: u16,
    rows: u16,
    meta: Meta,
    objects: Seq<ObjectView>,
) -> Option<ErrorView> {
    if ObjectView::Meta(meta).shape_error() is Some {
        ObjectView::Meta(meta).shape_error()
    } else if !terminal_fits(columns, rows, meta.bounds) {
        Some(ErrorView::TerminalTooSmall)
    } else if first_object_error(objects, meta.bounds, 0) is Some {
        first_object_error(objects, meta.bounds, 0)
    } else {
        match first_overlap(objects, 0) {
            Some((i, j)) => Some(ErrorView::OverlappingRegion(i as usize, j as usize)),
            None => None,
        }
    }
}

/// Where `first_object_error` finds nothing from the index `i` on, every
/// object from there on is in order.
pub proof fn lemma_no_object_error(objects: Seq<ObjectView>, bounds: Vector2, i: int)
    requires
        0 <= i,
        first_object_error(objects, bounds, i) is None,
    ensures
        forall|k: int| i <= k < objects.len() ==> (#[trigger] objects[k]).verify_error(bounds) is None,
    decreases objects.len() - i,
{
    if i < objects.len() {
        lemma_no_object_error(objects, bounds, i + 1);
    }
}

/// In a project that passes the validation the bounds of the canvas are
/// both set and the canvas fits the terminal with its border; each of the
/// objects is in order by itself and lies on the canvas; and no two of the
/// objects overlap.
pub proof fn lemma_validated(columns: u16, rows: u16, meta: Meta, objects: Seq<ObjectView>)
    requires
        verification(columns, rows, meta, objects) is None,
    ensures
        meta.bounds.x > 0,
        meta.bounds.y > 0,
        meta.bounds.x + 2 <= columns,
        meta.bounds.y + 2 <= rows,
        forall|k: int|
            0 <= k < objects.len() ==> (#[trigger] objects[k]).shape_error() is None && objects[k].fits(
                meta.bounds,
            ),
        forall|i: int, j: int|
            0 <= i < j < objects.len() ==> !regions_overlap(
                #[trigger] objects[i],
                #[trigger] objects[j],
            ),
{
    lemma_no_object_error(objects, meta.bounds, 0);
    lemma_first_overlap(objects, 0);
    assert forall|k: int| 0 <= k < objects.len() implies (#[trigger] objects[k]).shape_error()
        is None && objects[k].fits(meta.bounds) by {
        assert(objects[k].verify_error(meta.bounds) is None);
    }
}

/// With both bounds set, the validation fails for the size of the terminal
/// exactly when the canvas with its border does not fit it, whatever the
/// objects are.
pub proof fn lemma_terminal_too_small(columns: u16, rows: u16, meta: Meta, objects: Seq<ObjectView>)
    requires
        meta.bounds.x >= 1,
        meta.bounds.y >= 1,
    ensures
        verification(columns, rows, meta, objects) == Some(ErrorView::TerminalTooSmall) <==> (
        meta.bounds.x + 2 > columns || meta.bounds.y + 2 > rows),
{
    if terminal_fits(columns, rows, meta.bounds) {
        if first_object_error(objects, meta.bounds, 0) is Some {
            lemma_object_error_kind(objects, meta.bounds, 0);
        }
    }
}

/// No object by itself is wrong for the size of the terminal.
pub proof fn lemma_object_error_kind(objects: Seq<ObjectView>, bounds: Vector2, i: int)
    requires
        0 <= i,
    ensures
        first_object_error(objects, bounds, i) != Some(ErrorView::TerminalTooSmall),
    decreases objects.len() - i,
{
    if i < objects.len() {
        lemma_object_error_kind(objects, bounds, i + 1);
    }
}

/// Checks every object by itself and its place on the canvas.
pub fn verify_each(objects: &Vec<ObjectEnum>, bounds: Vector2) -> (r: Result<(), CirnoError>)
    ensures
        match first_object_error(views(objects@), bounds, 0) {
            None => r is Ok,
            Some(e) => r is Err && r->Err_0@ == e,
        },
{
    let n = objects.len();
    let mut i: usize = 0;
    while i < n
        invariant
            n == objects@.len(),
            i <= n,
            first_object_error(views(objects@), bounds, 0) == first_object_error(
                views(objects@),
                bounds,
                i as int,
            ),
        decreases n - i,
    {
        proof {
            assert(views(objects@)[i as int] == objects@[i as int]@);
        }
        objects[i].verify(bounds)?;
        i = i + 1;
    }
    Ok(())
}

/// Verify that no objects overlap with each other.
pub fn verify_overlap(objects: &Vec<ObjectEnum>) -> (r: Result<(), CirnoError>)
    ensures
        match first_overlap(views(objects@), 0) {
            None => r is Ok,
            Some((i, j)) => r is Err && r->Err_0@ == ErrorView::OverlappingRegion(
                i as usize,
                j as usize,
            ) && i < j < objects@.len(),
        },
{
    let n = objects.len();
    let ghost all = views(objects@);
    let mut index: usize = 0;
    proof {
        lemma_first_overlap(all, 0);
    }
    while index < n
        invariant
            all == views(objects@),
            n == objects@.len(),
            index <= n,
            first_overlap(all, 0) == first_overlap(all, index as int),
            match first_overlap(all, 0) {
                Some((i, j)) => i < j < n,
                None => true,
            },
        decreases n - index,
    {
        proof {
            assert(all[index as int] == objects@[index as int]@);
        }
        match objects[index].get_region() {
            None => {
                proof {
                    lemma_first_partner(all, index as int, index + 1);
                }
            },
            Some(region) => {
                let mut other_index: usize = index + 1;
                while other_index < n
                    invariant
                        all == views(objects@),
                        n == objects@.len(),
                        index < other_index <= n,
                        all[index as int].region() == Some(*region),
                        first_partner(all, index as int, index + 1) == first_partner(
                            all,
                            index as int,
                            other_index as int,
                        ),
                        first_overlap(all, 0) == first_overlap(all, index as int),
                        match first_overlap(all, 0) {
                            Some((i, j)) => i < j < n,
                            None => true,
                        },
                    decreases n - other_index,
                {
                    proof {
                        assert(all[other_index as int] == objects@[other_index as int]@);
                    }
                    match objects[other_index].get_region() {
                        None => {},
                        Some(other_region) => {
                            if region.overlapping(other_region) {
                                return Err(CirnoError::OverlappingRegion(index, other_index));
                            }
                        },
                    }
                    other_index = other_index + 1;
                }
            },
        }
        index = index + 1;
    }
    Ok(())
}

/// Checks a project against the terminal that is to show it.
pub fn verify_project(columns: u16, rows: u16, meta: &Meta, objects: &Vec<ObjectEnum>) -> (r:
    Result<(), CirnoError>)
    ensures
        match verification(columns, rows, *meta, views(objects@)) {
            None => r is Ok,
            Some(e) => r is Err && r->Err_0@ == e,
        },
{
    meta.verify()?;
    if meta.bounds.x as u32 + 2 > columns as u32 || meta.bounds.y as u32 + 2 > rows as u32 {
        return Err(CirnoError::TerminalTooSmall);
    }
    verify_each(objects, meta.bounds)?;
    verify_overlap(objects)?;
    Ok(())
}

} // verus!
