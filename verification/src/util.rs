//! Removing the placeholders of the service's arrays. Every array of a
//! response starts with an entry that stands for the unused index zero, at
//! every depth of nesting.

use vstd::prelude::*;
use crate::json::{lemma_array_view, trees, well_formed, Json, JsonValue};

verus! {

/// A sequence without its first element; the empty sequence stays empty.
pub open spec fn without_first(items: Seq<Json>) -> Seq<Json> {
    if items.len() == 0 {
        items
    } else {
        items.skip(1)
    }
}

/// A tree with the placeholders removed: an array loses its first element
/// and has the same done to each element that is left; anything else stays
/// as it is.
pub open spec fn trimmed(tree: Json) -> Json
    decreases tree,
{
    match tree {
        Json::Array(items) => Json::Array(
            Seq::new(
                without_first(items).len(),
                |i: int|
                    if 0 <= i < items.len() - 1 {
                        trimmed(items[i + 1])
                    } else {
                        Json::Null
                    },
            ),
        ),
        _ => tree,
    }
}

/// A tree with the placeholder of its outermost array removed, and nothing
/// done below.
pub open spec fn trimmed_once(tree: Json) -> Json {
    match tree {
        Json::Array(items) => Json::Array(without_first(items)),
        _ => tree,
    }
}

/// A tree whose outermost array is kept whole and whose elements are
/// trimmed.
pub open spec fn trimmed_below(tree: Json) -> Json {
    match tree {
        Json::Array(items) => Json::Array(Seq::new(items.len(), |i: int| trimmed(items[i]))),
        _ => tree,
    }
}

/// Trimming leaves anything but an array as it is.
pub proof fn lemma_trim_keeps_scalars(tree: Json)
    requires
        !(tree is Array),
    ensures
        trimmed(tree) == tree,
{
}

/// A trimmed array is one element shorter than the array it was made from,
/// and its element at a position is the trimmed element one position
/// further in that array.
pub proof fn lemma_trim_shifts(tree: Json, i: int)
    requires
        tree is Array,
        0 <= i < tree->Array_0.len() - 1,
    ensures
        trimmed(tree) is Array,
        trimmed(tree)->Array_0.len() == tree->Array_0.len() - 1,
        trimmed(tree)->Array_0[i] == trimmed(tree->Array_0[i + 1]),
{
}

/// Trimming is trimming one level and then trimming one level deeper, in
/// either order.
pub proof fn lemma_trim_by_levels(tree: Json)
    ensures
        trimmed(tree) == trimmed_below(trimmed_once(tree)),
        trimmed(tree) == trimmed_once(trimmed_below(tree)),
{
    match tree {
        Json::Array(items) => {
            assert(trimmed(tree)->Array_0 =~= trimmed_below(trimmed_once(tree))->Array_0);
            assert(trimmed(tree)->Array_0 =~= trimmed_once(trimmed_below(tree))->Array_0);
        },
        _ => {},
    }
}

/// Trimming a tree that has lost the placeholder of its outermost array
/// gives what is left of the trimmed tree when it loses its first element:
/// the two steps can change places.
pub proof fn lemma_trim_after_once(tree: Json)
    ensures
        trimmed(trimmed_once(tree)) == trimmed_once(trimmed(tree)),
{
    match tree {
        Json::Array(items) => {
            assert(trimmed(trimmed_once(tree))->Array_0 =~= trimmed_once(trimmed(tree))->Array_0);
        },
        _ => {},
    }
}

/// An array of values that are no arrays loses its first element and
/// nothing else.
pub proof fn lemma_trim_flat(tree: Json)
    requires
        tree is Array,
        forall|i: int| 0 <= i < tree->Array_0.len() ==> !((#[trigger] tree->Array_0[i]) is Array),
    ensures
        trimmed(tree) == trimmed_once(tree),
{
    reveal_with_fuel(trimmed, 2);
    let items = tree->Array_0;
    assert forall|i: int| 0 <= i < items.len() - 1 implies trimmed(tree)->Array_0[i]
        == without_first(items)[i] by {
        assert(!(items[i + 1] is Array));
    }
    assert(trimmed(tree)->Array_0 =~= trimmed_once(tree)->Array_0);
}

/// The cell of a trimmed timetable at a grade, class, day and period is the
/// cell of the raw timetable one position further in every dimension.
pub proof fn lemma_trim_cell(tree: Json, g: int, c: int, d: int, p: int)
    requires
        tree is Array,
        0 <= g < tree->Array_0.len() - 1,
        tree->Array_0[g + 1] is Array,
        0 <= c < tree->Array_0[g + 1]->Array_0.len() - 1,
        tree->Array_0[g + 1]->Array_0[c + 1] is Array,
        0 <= d < tree->Array_0[g + 1]->Array_0[c + 1]->Array_0.len() - 1,
        tree->Array_0[g + 1]->Array_0[c + 1]->Array_0[d + 1] is Array,
        0 <= p < tree->Array_0[g + 1]->Array_0[c + 1]->Array_0[d + 1]->Array_0.len() - 1,
        !(tree->Array_0[g + 1]->Array_0[c + 1]->Array_0[d + 1]->Array_0[p + 1] is Array),
    ensures
        trimmed(tree)->Array_0[g]->Array_0[c]->Array_0[d]->Array_0[p]
            == tree->Array_0[g + 1]->Array_0[c + 1]->Array_0[d + 1]->Array_0[p + 1],
{
    let grade = tree->Array_0[g + 1];
    let class = grade->Array_0[c + 1];
    let day = class->Array_0[d + 1];
    lemma_trim_shifts(tree, g);
    lemma_trim_shifts(grade, c);
    lemma_trim_shifts(class, d);
    lemma_trim_shifts(day, p);
}

/// Trimming a well-formed tree leaves it well-formed.
pub proof fn lemma_trim_well_formed(tree: Json)
    requires
        well_formed(tree),
    ensures
        well_formed(trimmed(tree)),
    decreases tree,
{
    match tree {
        Json::Array(items) => {
            let out = trimmed(tree)->Array_0;
            assert forall|i: int| 0 <= i < out.len() implies well_formed(#[trigger] out[i]) by {
                assert(well_formed(items[i + 1]));
                lemma_trim_well_formed(items[i + 1]);
            }
        },
        _ => {},
    }
}

/// Removes the placeholders of a value.
pub fn pop_first_element(root: &JsonValue) -> (out: JsonValue)
    ensures
        out@ == trimmed(root@),
    decreases root,
{
    match root {
        JsonValue::Array(items) => {
            proof {
                lemma_array_view(*root);
            }
            let mut kept: Vec<JsonValue> = Vec::new();
            let mut i: usize = 1;
            while i < items.len()
                invariant
                    root is Array,
                    root->Array_0 == *items,
                    1 <= i,
                    i <= items.len() || i == 1,
                    kept@.len() == i - 1,
                    forall|k: int|
                        0 <= k < kept@.len() ==> (#[trigger] kept@[k])@ == trimmed(items@[k + 1]@),
                decreases items.len() - i,
            {
                let item = pop_first_element(&items[i]);
                kept.push(item);
                i = i + 1;
            }
            let out = JsonValue::Array(kept);
            proof {
                lemma_array_view(out);
                assert(trees(kept@) =~= trimmed(root@)->Array_0);
            }
            out
        },
        _ => root.duplicate(),
    }
}

} // verus!
