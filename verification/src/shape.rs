//! Reading the shapes that the service's responses are made of out of JSON
//! values: tables of names, the four levels of the timetable, and the rows of
//! a search result. A value of another shape is read as nothing.

use vstd::prelude::*;
use crate::data::{School, SchoolRow, school_rows};
use crate::json::{
    code_of, json_text, lemma_array_view, lemma_well_formed_item, text_of, trees, well_formed,
    Json, JsonValue,
};
use crate::util::trimmed;

verus! {

/// What the items are read as, where every one of them can be read.
pub open spec fn gather<T>(items: Seq<Json>, read: spec_fn(Json) -> Option<T>) -> Option<Seq<T>> {
    if forall|i: int| 0 <= i < items.len() ==> read(#[trigger] items[i]) is Some {
        Some(Seq::new(items.len(), |i: int| read(items[i])->Some_0))
    } else {
        None
    }
}

/// What an array's items are read as; nothing where the tree is no array
/// or an item cannot be read.
pub open spec fn array_of<T>(tree: Json, read: spec_fn(Json) -> Option<T>) -> Option<Seq<T>> {
    match tree {
        Json::Array(items) => gather(items, read),
        _ => None,
    }
}

/// A table of names: an array of strings.
pub open spec fn names_of(tree: Json) -> Option<Seq<Seq<char>>> {
    array_of(tree, |t: Json| text_of(t))
}

/// The text that an item of the subject table is shown as: a string gives
/// its own text, any other value the JSON text that it is printed as.
pub open spec fn shown(tree: Json) -> Seq<char> {
    match tree {
        Json::Text(text) => text,
        _ => json_text(tree),
    }
}

/// A table of subjects: an array, each item as it is shown.
pub open spec fn subjects_of(tree: Json) -> Option<Seq<Seq<char>>> {
    array_of(tree, |t: Json| Some(shown(t)))
}

/// Whether every item of an array that is no string is well-formed, so
/// that the text it is printed as is known.
pub open spec fn printable(tree: Json) -> bool {
    tree is Array ==> forall|i: int|
        0 <= i < tree->Array_0.len() ==> (#[trigger] tree->Array_0[i]) is Text || well_formed(
            tree->Array_0[i],
        )
}

/// A well-formed tree is printable.
pub proof fn lemma_well_formed_printable(tree: Json)
    requires
        well_formed(tree),
    ensures
        printable(tree),
{
    if tree is Array {
        assert forall|i: int| 0 <= i < tree->Array_0.len() implies (
        #[trigger] tree->Array_0[i]) is Text || well_formed(tree->Array_0[i]) by {
            lemma_well_formed_item(tree, i);
        }
    }
}

/// A table of strings is read as the strings themselves.
pub proof fn lemma_subjects_of_strings(tree: Json)
    requires
        names_of(tree) is Some,
    ensures
        printable(tree),
        subjects_of(tree) == names_of(tree),
{
    let items = tree->Array_0;
    assert forall|i: int| 0 <= i < items.len() implies (#[trigger] items[i]) is Text by {
        assert(text_of(items[i]) is Some);
    }
    assert(subjects_of(tree)->Some_0 =~= names_of(tree)->Some_0);
}

/// The cells of one day: an array of cell numbers.
pub open spec fn day_of(tree: Json) -> Option<Seq<u32>> {
    array_of(tree, |t: Json| code_of(t))
}

/// The days of one class.
pub open spec fn class_of(tree: Json) -> Option<Seq<Seq<u32>>> {
    array_of(tree, |t: Json| day_of(t))
}

/// The classes of one grade.
pub open spec fn grade_of(tree: Json) -> Option<Seq<Seq<Seq<u32>>>> {
    array_of(tree, |t: Json| class_of(t))
}

/// The whole timetable: grades, classes, days and periods.
pub open spec fn cube_of(tree: Json) -> Option<Seq<Seq<Seq<Seq<u32>>>>> {
    array_of(tree, |t: Json| grade_of(t))
}

/// Whether a tree is an array that starts with a placeholder, any value,
/// and whose entries after it all meet `inner`.
pub open spec fn padded(tree: Json, inner: spec_fn(Json) -> bool) -> bool {
    &&& tree is Array
    &&& tree->Array_0.len() >= 1
    &&& forall|i: int| 1 <= i < tree->Array_0.len() ==> inner(#[trigger] tree->Array_0[i])
}

/// A day as the service sends it: a placeholder, then cell numbers.
pub open spec fn padded_day(tree: Json) -> bool {
    padded(tree, |t: Json| code_of(t) is Some)
}

/// A class as the service sends it: a placeholder, then days.
pub open spec fn padded_class(tree: Json) -> bool {
    padded(tree, |t: Json| padded_day(t))
}

/// A grade as the service sends it: a placeholder, then classes.
pub open spec fn padded_grade(tree: Json) -> bool {
    padded(tree, |t: Json| padded_class(t))
}

/// A timetable as the service sends it: a placeholder at the start of
/// every array of its four levels, and cell numbers behind the placeholders
/// of the innermost.
pub open spec fn padded_cube(tree: Json) -> bool {
    padded(tree, |t: Json| padded_grade(t))
}

/// An array that starts with a placeholder and whose other entries can be
/// read once they are trimmed is read, trimmed, as those entries in order:
/// one entry fewer, and none of them the placeholder.
pub proof fn lemma_trimmed_array<T>(tree: Json, read: spec_fn(Json) -> Option<T>)
    requires
        tree is Array,
        tree->Array_0.len() >= 1,
        forall|i: int|
            1 <= i < tree->Array_0.len() ==> read(trimmed(#[trigger] tree->Array_0[i])) is Some,
    ensures
        array_of(trimmed(tree), read) is Some,
        array_of(trimmed(tree), read)->Some_0.len() == tree->Array_0.len() - 1,
        forall|i: int|
            0 <= i < tree->Array_0.len() - 1 ==> #[trigger] array_of(trimmed(tree), read)->Some_0[i]
                == read(trimmed(tree->Array_0[i + 1]))->Some_0,
{
    let items = tree->Array_0;
    let kept = trimmed(tree)->Array_0;
    assert forall|i: int| 0 <= i < kept.len() implies read(#[trigger] kept[i]) is Some by {
        assert(kept[i] == trimmed(items[i + 1]));
    }
}

/// The cells of a day as the service sends it are the numbers behind its
/// placeholder.
pub proof fn lemma_padded_day(tree: Json)
    requires
        padded_day(tree),
    ensures
        day_of(trimmed(tree)) is Some,
        day_of(trimmed(tree))->Some_0.len() == tree->Array_0.len() - 1,
        forall|p: int|
            0 <= p < tree->Array_0.len() - 1 ==> #[trigger] day_of(trimmed(tree))->Some_0[p]
                == code_of(tree->Array_0[p + 1])->Some_0,
{
    let items = tree->Array_0;
    assert forall|i: int| 1 <= i < items.len() implies code_of(trimmed(#[trigger] items[i]))
        is Some && trimmed(items[i]) == items[i] by {
        assert(code_of(items[i]) is Some);
    }
    lemma_trimmed_array(tree, |t: Json| code_of(t));
}

/// The days of a class as the service sends it are the days behind its
/// placeholder.
pub proof fn lemma_padded_class(tree: Json)
    requires
        padded_class(tree),
    ensures
        class_of(trimmed(tree)) is Some,
        class_of(trimmed(tree))->Some_0.len() == tree->Array_0.len() - 1,
        forall|d: int|
            0 <= d < tree->Array_0.len() - 1 ==> #[trigger] class_of(trimmed(tree))->Some_0[d]
                == day_of(trimmed(tree->Array_0[d + 1]))->Some_0,
{
    let items = tree->Array_0;
    assert forall|i: int| 1 <= i < items.len() implies day_of(trimmed(#[trigger] items[i]))
        is Some by {
        assert(padded_day(items[i]));
        lemma_padded_day(items[i]);
    }
    lemma_trimmed_array(tree, |t: Json| day_of(t));
}

/// The classes of a grade as the service sends it are the classes behind
/// its placeholder.
pub proof fn lemma_padded_grade(tree: Json)
    requires
        padded_grade(tree),
    ensures
        grade_of(trimmed(tree)) is Some,
        grade_of(trimmed(tree))->Some_0.len() == tree->Array_0.len() - 1,
        forall|c: int|
            0 <= c < tree->Array_0.len() - 1 ==> #[trigger] grade_of(trimmed(tree))->Some_0[c]
                == class_of(trimmed(tree->Array_0[c + 1]))->Some_0,
{
    let items = tree->Array_0;
    assert forall|i: int| 1 <= i < items.len() implies class_of(trimmed(#[trigger] items[i]))
        is Some by {
        assert(padded_class(items[i]));
        lemma_padded_class(items[i]);
    }
    lemma_trimmed_array(tree, |t: Json| class_of(t));
}

/// The grades of a timetable as the service sends it are the grades behind
/// its placeholder.
pub proof fn lemma_padded_cube(tree: Json)
    requires
        padded_cube(tree),
    ensures
        cube_of(trimmed(tree)) is Some,
        cube_of(trimmed(tree))->Some_0.len() == tree->Array_0.len() - 1,
        forall|g: int|
            0 <= g < tree->Array_0.len() - 1 ==> #[trigger] cube_of(trimmed(tree))->Some_0[g]
                == grade_of(trimmed(tree->Array_0[g + 1]))->Some_0,
{
    let items = tree->Array_0;
    assert forall|i: int| 1 <= i < items.len() implies grade_of(trimmed(#[trigger] items[i]))
        is Some by {
        assert(padded_grade(items[i]));
        lemma_padded_grade(items[i]);
    }
    lemma_trimmed_array(tree, |t: Json| grade_of(t));
}

/// The cell of a raw timetable behind the placeholders of its four levels,
/// at a grade, class, day and period counted from zero.
pub open spec fn raw_cell(tree: Json, g: int, c: int, d: int, p: int) -> Json {
    tree->Array_0[g + 1]->Array_0[c + 1]->Array_0[d + 1]->Array_0[p + 1]
}

/// Whether a grade, class, day and period, counted from zero, name a cell
/// of a raw timetable behind its placeholders.
pub open spec fn in_raw(tree: Json, g: int, c: int, d: int, p: int) -> bool {
    &&& 0 <= g < tree->Array_0.len() - 1
    &&& 0 <= c < tree->Array_0[g + 1]->Array_0.len() - 1
    &&& 0 <= d < tree->Array_0[g + 1]->Array_0[c + 1]->Array_0.len() - 1
    &&& 0 <= p < tree->Array_0[g + 1]->Array_0[c + 1]->Array_0[d + 1]->Array_0.len() - 1
}

/// A timetable as the service sends it is read, once trimmed, as the cells
/// behind its placeholders: every level has one entry fewer than the raw
/// array, and the cell at a position is the raw cell one position further in
/// every dimension. No placeholder is read as a cell.
pub proof fn lemma_padded_cells(tree: Json, g: int, c: int, d: int, p: int)
    requires
        padded_cube(tree),
        in_raw(tree, g, c, d, p),
    ensures
        cube_of(trimmed(tree)) is Some,
        cube_of(trimmed(tree))->Some_0.len() == tree->Array_0.len() - 1,
        cube_of(trimmed(tree))->Some_0[g].len() == tree->Array_0[g + 1]->Array_0.len() - 1,
        cube_of(trimmed(tree))->Some_0[g][c].len() == tree->Array_0[g + 1]->Array_0[c
            + 1]->Array_0.len() - 1,
        cube_of(trimmed(tree))->Some_0[g][c][d].len() == tree->Array_0[g + 1]->Array_0[c
            + 1]->Array_0[d + 1]->Array_0.len() - 1,
        code_of(raw_cell(tree, g, c, d, p)) is Some,
        cube_of(trimmed(tree))->Some_0[g][c][d][p] == code_of(raw_cell(tree, g, c, d, p))->Some_0,
{
    let grade = tree->Array_0[g + 1];
    assert(padded_grade(grade));
    let class = grade->Array_0[c + 1];
    assert(padded_class(class));
    let day = class->Array_0[d + 1];
    assert(padded_day(day));
    assert(code_of(day->Array_0[p + 1]) is Some);
    lemma_padded_cube(tree);
    lemma_padded_grade(grade);
    lemma_padded_class(class);
    lemma_padded_day(day);
    let cube = cube_of(trimmed(tree))->Some_0;
    assert(cube[g] == grade_of(trimmed(grade))->Some_0);
    assert(cube[g][c] == class_of(trimmed(class))->Some_0);
    assert(cube[g][c][d] == day_of(trimmed(day))->Some_0);
}

/// One row of a search result: an array of an id, two texts and an id.
pub open spec fn row_of(tree: Json) -> Option<SchoolRow> {
    match tree {
        Json::Array(items) => if items.len() == 4 && code_of(items[0]) is Some && text_of(
            items[1],
        ) is Some && text_of(items[2]) is Some && code_of(items[3]) is Some {
            Some(
                SchoolRow {
                    id: code_of(items[0])->Some_0 as int,
                    code: text_of(items[1])->Some_0,
                    name: text_of(items[2])->Some_0,
                    internal_id: code_of(items[3])->Some_0 as int,
                },
            )
        } else {
            None
        },
        _ => None,
    }
}

/// The rows of a search result.
pub open spec fn rows_of(tree: Json) -> Option<Seq<SchoolRow>> {
    array_of(tree, |t: Json| row_of(t))
}

/// Reads a table of names.
pub fn read_names(value: &JsonValue) -> (out: Option<Vec<String>>)
    ensures
        out.deep_view() == names_of(value@),
{
    match value {
        JsonValue::Array(items) => {
            proof {
                lemma_array_view(*value);
            }
            let mut names: Vec<String> = Vec::new();
            let mut i: usize = 0;
            while i < items.len()
                invariant
                    i <= items.len(),
                    value@ == Json::Array(trees(items@)),
                    names@.len() == i,
                    forall|k: int|
                        0 <= k < i ==> text_of(#[trigger] trees(items@)[k]) == Some(names@[k]@),
                decreases items.len() - i,
            {
                match items[i].as_text() {
                    Some(name) => {
                        names.push(name);
                    },
                    None => {
                        assert(text_of(trees(items@)[i as int]) is None);
                        return None;
                    },
                }
                i = i + 1;
            }
            assert(names.deep_view() =~= names_of(value@)->Some_0);
            Some(names)
        },
        _ => None,
    }
}

/// Reads a table of subjects: a string as its own text, any other item as
/// the JSON text that it is printed as.
pub fn read_subjects(value: &JsonValue) -> (out: Option<Vec<String>>)
    ensures
        out is Some <==> value@ is Array,
        printable(value@) ==> out.deep_view() == subjects_of(value@),
{
    match value {
        JsonValue::Array(items) => {
            proof {
                lemma_array_view(*value);
            }
            let mut texts: Vec<String> = Vec::new();
            let mut i: usize = 0;
            while i < items.len()
                invariant
                    i <= items.len(),
                    value@ == Json::Array(trees(items@)),
                    texts@.len() == i,
                    printable(value@) ==> forall|k: int|
                        0 <= k < i ==> shown(#[trigger] trees(items@)[k]) == texts@[k]@,
                decreases items.len() - i,
            {
                assert(trees(items@)[i as int] == items@[i as int]@);
                let text = match items[i].as_text() {
                    Some(text) => text,
                    None => items[i].to_text(),
                };
                texts.push(text);
                i = i + 1;
            }
            proof {
                if printable(value@) {
                    assert(texts.deep_view() =~= subjects_of(value@)->Some_0);
                }
            }
            Some(texts)
        },
        _ => None,
    }
}

/// Reads the cells of one day.
pub fn read_day(value: &JsonValue) -> (out: Option<Vec<u32>>)
    ensures
        out.deep_view() == day_of(value@),
{
    match value {
        JsonValue::Array(items) => {
            proof {
                lemma_array_view(*value);
            }
            let mut cells: Vec<u32> = Vec::new();
            let mut i: usize = 0;
            while i < items.len()
                invariant
                    i <= items.len(),
                    value@ == Json::Array(trees(items@)),
                    cells@.len() == i,
                    forall|k: int|
                        0 <= k < i ==> code_of(#[trigger] trees(items@)[k]) == Some(cells@[k]),
                decreases items.len() - i,
            {
                match items[i].as_code() {
                    Some(cell) => {
                        cells.push(cell);
                    },
                    None => {
                        assert(code_of(trees(items@)[i as int]) is None);
                        return None;
                    },
                }
                i = i + 1;
            }
            assert(cells.deep_view() =~= day_of(value@)->Some_0);
            Some(cells)
        },
        _ => None,
    }
}

/// Reads the days of one class.
pub fn read_class(value: &JsonValue) -> (out: Option<Vec<Vec<u32>>>)
    ensures
        out.deep_view() == class_of(value@),
{
    match value {
        JsonValue::Array(items) => {
            proof {
                lemma_array_view(*value);
            }
            let mut days: Vec<Vec<u32>> = Vec::new();
            let mut i: usize = 0;
            while i < items.len()
                invariant
                    i <= items.len(),
                    value@ == Json::Array(trees(items@)),
                    days@.len() == i,
                    forall|k: int|
                        0 <= k < i ==> day_of(#[trigger] trees(items@)[k]) == Some(
                            days@[k].deep_view(),
                        ),
                decreases items.len() - i,
            {
                match read_day(&items[i]) {
                    Some(day) => {
                        days.push(day);
                    },
                    None => {
                        assert(day_of(trees(items@)[i as int]) is None);
                        return None;
                    },
                }
                i = i + 1;
            }
            assert(days.deep_view() =~= class_of(value@)->Some_0);
            Some(days)
        },
        _ => None,
    }
}

/// Reads the classes of one grade.
pub fn read_grade(value: &JsonValue) -> (out: Option<Vec<Vec<Vec<u32>>>>)
    ensures
        out.deep_view() == grade_of(value@),
{
    match value {
        JsonValue::Array(items) => {
            proof {
                lemma_array_view(*value);
            }
            let mut classes: Vec<Vec<Vec<u32>>> = Vec::new();
            let mut i: usize = 0;
            while i < items.len()
                invariant
                    i <= items.len(),
                    value@ == Json::Array(trees(items@)),
                    classes@.len() == i,
                    forall|k: int|
                        0 <= k < i ==> class_of(#[trigger] trees(items@)[k]) == Some(
                            classes@[k].deep_view(),
                        ),
                decreases items.len() - i,
            {
                match read_class(&items[i]) {
                    Some(class) => {
                        classes.push(class);
                    },
                    None => {
                        assert(class_of(trees(items@)[i as int]) is None);
                        return None;
                    },
                }
                i = i + 1;
            }
            assert(classes.deep_view() =~= grade_of(value@)->Some_0);
            Some(classes)
        },
        _ => None,
    }
}

/// Reads a whole timetable.
pub fn read_cube(value: &JsonValue) -> (out: Option<Vec<Vec<Vec<Vec<u32>>>>>)
    ensures
        out.deep_view() == cube_of(value@),
{
    match value {
        JsonValue::Array(items) => {
            proof {
                lemma_array_view(*value);
            }
            let mut grades: Vec<Vec<Vec<Vec<u32>>>> = Vec::new();
            let mut i: usize = 0;
            while i < items.len()
                invariant
                    i <= items.len(),
                    value@ == Json::Array(trees(items@)),
                    grades@.len() == i,
                    forall|k: int|
                        0 <= k < i ==> grade_of(#[trigger] trees(items@)[k]) == Some(
                            grades@[k].deep_view(),
                        ),
                decreases items.len() - i,
            {
                match read_grade(&items[i]) {
                    Some(grade) => {
                        grades.push(grade);
                    },
                    None => {
                        assert(grade_of(trees(items@)[i as int]) is None);
                        return None;
                    },
                }
                i = i + 1;
            }
            assert(grades.deep_view() =~= cube_of(value@)->Some_0);
            Some(grades)
        },
        _ => None,
    }
}

/// Reads one row of a search result.
pub fn read_row(value: &JsonValue) -> (out: Option<School>)
    ensures
        match out {
            Some(school) => row_of(value@) == Some(school@),
            None => row_of(value@) is None,
        },
{
    match value {
        JsonValue::Array(items) => {
            proof {
                lemma_array_view(*value);
            }
            if items.len() != 4 {
                return None;
            }
            let ghost all = trees(items@);
            assert(all[0] == items@[0]@ && all[1] == items@[1]@ && all[2] == items@[2]@ && all[3]
                == items@[3]@);
            let id = match items[0].as_code() {
                Some(id) => id,
                None => {
                    return None;
                },
            };
            let code = match items[1].as_text() {
                Some(code) => code,
                None => {
                    return None;
                },
            };
            let name = match items[2].as_text() {
                Some(name) => name,
                None => {
                    return None;
                },
            };
            let internal_id = match items[3].as_code() {
                Some(internal_id) => internal_id,
                None => {
                    return None;
                },
            };
            Some(School(id, code, name, internal_id))
        },
        _ => None,
    }
}

/// Reads the rows of a search result.
pub fn read_rows(value: &JsonValue) -> (out: Option<Vec<School>>)
    ensures
        match out {
            Some(schools) => rows_of(value@) == Some(school_rows(schools@)),
            None => rows_of(value@) is None,
        },
{
    match value {
        JsonValue::Array(items) => {
            proof {
                lemma_array_view(*value);
            }
            let mut schools: Vec<School> = Vec::new();
            let mut i: usize = 0;
            while i < items.len()
                invariant
                    i <= items.len(),
                    value@ == Json::Array(trees(items@)),
                    schools@.len() == i,
                    forall|k: int|
                        0 <= k < i ==> row_of(#[trigger] trees(items@)[k]) == Some(schools@[k]@),
                decreases items.len() - i,
            {
                match read_row(&items[i]) {
                    Some(school) => {
                        schools.push(school);
                    },
                    None => {
                        assert(row_of(trees(items@)[i as int]) is None);
                        return None;
                    },
                }
                i = i + 1;
            }
            assert(school_rows(schools@) =~= rows_of(value@)->Some_0);
            Some(schools)
        },
        _ => None,
    }
}

} // verus!
