//! Building the timetable of a school from its cells: one grade for each
//! entry of the outermost level, then classes, days and periods, each
//! numbered by its position from zero. Nothing is left out or moved.

use vstd::prelude::*;
use vstd::string::StringExecFns;
use crate::class::{
    Class, ClassView, Day, DayView, Grade, GradeView, Period, PeriodView, SchoolData, SchoolView,
};
use crate::data::RawSchoolData;
use crate::decoder::{decodable, decode, decoded};
use crate::error::ComciganError;

verus! {

/// The most entries that one level of a timetable can have: the numbers of
/// the model are single bytes.
pub const LEVEL_LIMIT: usize = 256;

/// Whether a day has no more periods than can be numbered.
pub open spec fn day_fits(cells: Seq<u32>) -> bool {
    cells.len() <= LEVEL_LIMIT
}

/// Whether a class, and every day of it, has no more entries than can be
/// numbered.
pub open spec fn class_fits(days: Seq<Seq<u32>>) -> bool {
    days.len() <= LEVEL_LIMIT && forall|d: int| 0 <= d < days.len() ==> day_fits(#[trigger] days[d])
}

/// Whether a grade, and everything below it, has no more entries than can
/// be numbered.
pub open spec fn grade_fits(classes: Seq<Seq<Seq<u32>>>) -> bool {
    classes.len() <= LEVEL_LIMIT && forall|c: int|
        0 <= c < classes.len() ==> class_fits(#[trigger] classes[c])
}

/// Whether every level of a timetable has no more entries than can be
/// numbered.
pub open spec fn cube_fits(cube: Seq<Seq<Seq<Seq<u32>>>>) -> bool {
    cube.len() <= LEVEL_LIMIT && forall|g: int| 0 <= g < cube.len() ==> grade_fits(#[trigger] cube[g])
}

/// Whether every cell of a day can be decoded.
pub open spec fn day_decodable(
    cells: Seq<u32>,
    subjects: Seq<Seq<char>>,
    teachers: Seq<Seq<char>>,
) -> bool {
    forall|p: int| 0 <= p < cells.len() ==> decodable(#[trigger] cells[p], subjects, teachers)
}

/// Whether every cell of a class can be decoded.
pub open spec fn class_decodable(
    days: Seq<Seq<u32>>,
    subjects: Seq<Seq<char>>,
    teachers: Seq<Seq<char>>,
) -> bool {
    forall|d: int| 0 <= d < days.len() ==> day_decodable(#[trigger] days[d], subjects, teachers)
}

/// Whether every cell of a grade can be decoded.
pub open spec fn grade_decodable(
    classes: Seq<Seq<Seq<u32>>>,
    subjects: Seq<Seq<char>>,
    teachers: Seq<Seq<char>>,
) -> bool {
    forall|c: int|
        0 <= c < classes.len() ==> class_decodable(#[trigger] classes[c], subjects, teachers)
}

/// Whether every cell of a timetable can be decoded.
pub open spec fn cube_decodable(
    cube: Seq<Seq<Seq<Seq<u32>>>>,
    subjects: Seq<Seq<char>>,
    teachers: Seq<Seq<char>>,
) -> bool {
    forall|g: int| 0 <= g < cube.len() ==> grade_decodable(#[trigger] cube[g], subjects, teachers)
}

/// The period at a position of a day.
pub open spec fn period_view(
    number: int,
    code: u32,
    subjects: Seq<Seq<char>>,
    teachers: Seq<Seq<char>>,
) -> PeriodView {
    let pair = decoded(code, subjects, teachers);
    PeriodView { number, subject: pair.0, teacher: pair.1 }
}

/// The day at a position of a class.
pub open spec fn day_view(
    number: int,
    cells: Seq<u32>,
    subjects: Seq<Seq<char>>,
    teachers: Seq<Seq<char>>,
) -> DayView {
    DayView {
        number,
        periods: Seq::new(cells.len(), |p: int| period_view(p, cells[p], subjects, teachers)),
    }
}

/// The class at a position of a grade.
pub open spec fn class_view(
    number: int,
    days: Seq<Seq<u32>>,
    subjects: Seq<Seq<char>>,
    teachers: Seq<Seq<char>>,
) -> ClassView {
    ClassView {
        number,
        days: Seq::new(days.len(), |d: int| day_view(d, days[d], subjects, teachers)),
    }
}

/// The grade at a position of a school.
pub open spec fn grade_view(
    number: int,
    classes: Seq<Seq<Seq<u32>>>,
    subjects: Seq<Seq<char>>,
    teachers: Seq<Seq<char>>,
) -> GradeView {
    GradeView {
        number,
        classes: Seq::new(classes.len(), |c: int| class_view(c, classes[c], subjects, teachers)),
    }
}

/// The timetable of a school.
pub open spec fn school_view(
    name: Seq<char>,
    cube: Seq<Seq<Seq<Seq<u32>>>>,
    subjects: Seq<Seq<char>>,
    teachers: Seq<Seq<char>>,
) -> SchoolView {
    SchoolView {
        name,
        grades: Seq::new(cube.len(), |g: int| grade_view(g, cube[g], subjects, teachers)),
    }
}

/// What the cells of a school assemble to: its timetable; a malformed
/// payload where a level has more entries than can be numbered; otherwise a
/// decoding fault where a cell points outside a table.
pub open spec fn assembled(
    name: Seq<char>,
    cube: Seq<Seq<Seq<Seq<u32>>>>,
    subjects: Seq<Seq<char>>,
    teachers: Seq<Seq<char>>,
) -> Result<SchoolView, ComciganError> {
    if !cube_fits(cube) {
        Err(ComciganError::MalformedPayload)
    } else if !cube_decodable(cube, subjects, teachers) {
        Err(ComciganError::CodeDecode)
    } else {
        Ok(school_view(name, cube, subjects, teachers))
    }
}

/// An assembled timetable is numbered from zero without gaps at every
/// level, and has one grade for each entry of the outermost level.
pub proof fn lemma_assembled_numbered(
    name: Seq<char>,
    cube: Seq<Seq<Seq<Seq<u32>>>>,
    subjects: Seq<Seq<char>>,
    teachers: Seq<Seq<char>>,
)
    ensures
        school_view(name, cube, subjects, teachers).numbered(),
        school_view(name, cube, subjects, teachers).grades.len() == cube.len(),
{
    let school = school_view(name, cube, subjects, teachers);
    assert forall|g: int| 0 <= g < school.grades.len() implies (#[trigger] school.grades[g]).number
        == g && school.grades[g].numbered() by {
        let grade = school.grades[g];
        assert forall|c: int| 0 <= c < grade.classes.len() implies (
        #[trigger] grade.classes[c]).number == c && grade.classes[c].numbered() by {
            let class = grade.classes[c];
            assert forall|d: int| 0 <= d < class.days.len() implies (#[trigger] class.days[d]).number
                == d && class.days[d].numbered() by {
                let day = class.days[d];
                assert forall|p: int| 0 <= p < day.periods.len() implies (
                #[trigger] day.periods[p]).number == p by {}
            }
        }
    }
}

/// The period of an assembled timetable at a grade, class, day and period
/// carries the period's position and what its cell decodes to.
pub proof fn lemma_assembled_period(
    name: Seq<char>,
    cube: Seq<Seq<Seq<Seq<u32>>>>,
    subjects: Seq<Seq<char>>,
    teachers: Seq<Seq<char>>,
    g: int,
    c: int,
    d: int,
    p: int,
)
    requires
        0 <= g < cube.len(),
        0 <= c < cube[g].len(),
        0 <= d < cube[g][c].len(),
        0 <= p < cube[g][c][d].len(),
    ensures
        school_view(name, cube, subjects, teachers).grades[g].classes[c].days[d].periods[p]
            == period_view(p, cube[g][c][d][p], subjects, teachers),
{
}

fn day_within_limit(cells: &Vec<u32>) -> (ok: bool)
    ensures
        ok == day_fits(cells.deep_view()),
{
    cells.len() <= LEVEL_LIMIT
}

fn class_within_limit(days: &Vec<Vec<u32>>) -> (ok: bool)
    ensures
        ok == class_fits(days.deep_view()),
{
    if days.len() > LEVEL_LIMIT {
        return false;
    }
    let mut d: usize = 0;
    while d < days.len()
        invariant
            d <= days.len(),
            forall|k: int| 0 <= k < d ==> day_fits(#[trigger] days.deep_view()[k]),
        decreases days.len() - d,
    {
        if !day_within_limit(&days[d]) {
            assert(!day_fits(days.deep_view()[d as int]));
            return false;
        }
        d = d + 1;
    }
    true
}

fn grade_within_limit(classes: &Vec<Vec<Vec<u32>>>) -> (ok: bool)
    ensures
        ok == grade_fits(classes.deep_view()),
{
    if classes.len() > LEVEL_LIMIT {
        return false;
    }
    let mut c: usize = 0;
    while c < classes.len()
        invariant
            c <= classes.len(),
            forall|k: int| 0 <= k < c ==> class_fits(#[trigger] classes.deep_view()[k]),
        decreases classes.len() - c,
    {
        if !class_within_limit(&classes[c]) {
            assert(!class_fits(classes.deep_view()[c as int]));
            return false;
        }
        c = c + 1;
    }
    true
}

/// Whether every level of a timetable has no more entries than can be
/// numbered.
pub fn cube_within_limit(cube: &Vec<Vec<Vec<Vec<u32>>>>) -> (ok: bool)
    ensures
        ok == cube_fits(cube.deep_view()),
{
    if cube.len() > LEVEL_LIMIT {
        return false;
    }
    let mut g: usize = 0;
    while g < cube.len()
        invariant
            g <= cube.len(),
            forall|k: int| 0 <= k < g ==> grade_fits(#[trigger] cube.deep_view()[k]),
        decreases cube.len() - g,
    {
        if !grade_within_limit(&cube[g]) {
            assert(!grade_fits(cube.deep_view()[g as int]));
            return false;
        }
        g = g + 1;
    }
    true
}

fn build_day(number: u8, cells: &Vec<u32>, subjects: &Vec<String>, teachers: &Vec<String>) -> (out:
    Result<Day, ComciganError>)
    requires
        day_fits(cells.deep_view()),
    ensures
        match out {
            Ok(day) => day_decodable(cells.deep_view(), subjects.deep_view(), teachers.deep_view())
                && day@ == day_view(
                number as int,
                cells.deep_view(),
                subjects.deep_view(),
                teachers.deep_view(),
            ),
            Err(e) => e == ComciganError::CodeDecode && !day_decodable(
                cells.deep_view(),
                subjects.deep_view(),
                teachers.deep_view(),
            ),
        },
{
    let mut day = Day::new(number);
    let mut p: usize = 0;
    while p < cells.len()
        invariant
            p <= cells.len(),
            cells.len() <= LEVEL_LIMIT,
            day@.number == number as int,
            day@.periods.len() == p,
            forall|k: int|
                0 <= k < p ==> decodable(
                    #[trigger] cells.deep_view()[k],
                    subjects.deep_view(),
                    teachers.deep_view(),
                ),
            forall|k: int|
                0 <= k < p ==> #[trigger] day@.periods[k] == period_view(
                    k,
                    cells.deep_view()[k],
                    subjects.deep_view(),
                    teachers.deep_view(),
                ),
        decreases cells.len() - p,
    {
        assert(cells.deep_view()[p as int] == cells@[p as int]);
        match decode(cells[p], subjects, teachers) {
            Ok(pair) => {
                let period = Period { period_num: p as u8, subject: pair.0, teacher: pair.1 };
                day.add_period(period);
            },
            Err(e) => {
                return Err(e);
            },
        }
        p = p + 1;
    }
    assert(day@.periods =~= day_view(
        number as int,
        cells.deep_view(),
        subjects.deep_view(),
        teachers.deep_view(),
    ).periods);
    Ok(day)
}

fn build_class(
    number: u8,
    days: &Vec<Vec<u32>>,
    subjects: &Vec<String>,
    teachers: &Vec<String>,
) -> (out: Result<Class, ComciganError>)
    requires
        class_fits(days.deep_view()),
    ensures
        match out {
            Ok(class) => class_decodable(
                days.deep_view(),
                subjects.deep_view(),
                teachers.deep_view(),
            ) && class@ == class_view(
                number as int,
                days.deep_view(),
                subjects.deep_view(),
                teachers.deep_view(),
            ),
            Err(e) => e == ComciganError::CodeDecode && !class_decodable(
                days.deep_view(),
                subjects.deep_view(),
                teachers.deep_view(),
            ),
        },
{
    let mut class = Class::new(number);
    let mut d: usize = 0;
    while d < days.len()
        invariant
            d <= days.len(),
            class_fits(days.deep_view()),
            class@.number == number as int,
            class@.days.len() == d,
            forall|k: int|
                0 <= k < d ==> day_decodable(
                    #[trigger] days.deep_view()[k],
                    subjects.deep_view(),
                    teachers.deep_view(),
                ),
            forall|k: int|
                0 <= k < d ==> #[trigger] class@.days[k] == day_view(
                    k,
                    days.deep_view()[k],
                    subjects.deep_view(),
                    teachers.deep_view(),
                ),
        decreases days.len() - d,
    {
        assert(days.deep_view()[d as int] == days@[d as int].deep_view());
        match build_day(d as u8, &days[d], subjects, teachers) {
            Ok(day) => {
                class.add_day(day);
            },
            Err(e) => {
                return Err(e);
            },
        }
        d = d + 1;
    }
    assert(class@.days =~= class_view(
        number as int,
        days.deep_view(),
        subjects.deep_view(),
        teachers.deep_view(),
    ).days);
    Ok(class)
}

fn build_grade(
    number: u8,
    classes: &Vec<Vec<Vec<u32>>>,
    subjects: &Vec<String>,
    teachers: &Vec<String>,
) -> (out: Result<Grade, ComciganError>)
    requires
        grade_fits(classes.deep_view()),
    ensures
        match out {
            Ok(grade) => grade_decodable(
                classes.deep_view(),
                subjects.deep_view(),
                teachers.deep_view(),
            ) && grade@ == grade_view(
                number as int,
                classes.deep_view(),
                subjects.deep_view(),
                teachers.deep_view(),
            ),
            Err(e) => e == ComciganError::CodeDecode && !grade_decodable(
                classes.deep_view(),
                subjects.deep_view(),
                teachers.deep_view(),
            ),
        },
{
    let mut grade = Grade::new(number);
    let mut c: usize = 0;
    while c < classes.len()
        invariant
            c <= classes.len(),
            grade_fits(classes.deep_view()),
            grade@.number == number as int,
            grade@.classes.len() == c,
            forall|k: int|
                0 <= k < c ==> class_decodable(
                    #[trigger] classes.deep_view()[k],
                    subjects.deep_view(),
                    teachers.deep_view(),
                ),
            forall|k: int|
                0 <= k < c ==> #[trigger] grade@.classes[k] == class_view(
                    k,
                    classes.deep_view()[k],
                    subjects.deep_view(),
                    teachers.deep_view(),
                ),
        decreases classes.len() - c,
    {
        assert(classes.deep_view()[c as int] == classes@[c as int].deep_view());
        match build_class(c as u8, &classes[c], subjects, teachers) {
            Ok(class) => {
                grade.add_class(class);
            },
            Err(e) => {
                return Err(e);
            },
        }
        c = c + 1;
    }
    assert(grade@.classes =~= grade_view(
        number as int,
        classes.deep_view(),
        subjects.deep_view(),
        teachers.deep_view(),
    ).classes);
    Ok(grade)
}

/// Builds the timetable of a school from its cells and its two name
/// tables.
pub fn assemble(school_name: &str, data: &RawSchoolData) -> (out: Result<SchoolData, ComciganError>)
    ensures
        match out {
            Ok(school) => assembled(
                school_name@,
                data.timetable.deep_view(),
                data.subjects.deep_view(),
                data.teachers.deep_view(),
            ) == Ok::<SchoolView, ComciganError>(school@),
            Err(e) => assembled(
                school_name@,
                data.timetable.deep_view(),
                data.subjects.deep_view(),
                data.teachers.deep_view(),
            ) == Err::<SchoolView, ComciganError>(e),
        },
        out matches Ok(school) ==> school@.numbered() && school@.grades.len()
            == data.timetable.len(),
{
    proof {
        lemma_assembled_numbered(
            school_name@,
            data.timetable.deep_view(),
            data.subjects.deep_view(),
            data.teachers.deep_view(),
        );
    }
    let cube = &data.timetable;
    if !cube_within_limit(cube) {
        return Err(ComciganError::MalformedPayload);
    }
    let mut school = SchoolData::new(String::from_str(school_name));
    let mut g: usize = 0;
    while g < cube.len()
        invariant
            g <= cube.len(),
            *cube == data.timetable,
            cube_fits(cube.deep_view()),
            school@.name == school_name@,
            school@.grades.len() == g,
            forall|k: int|
                0 <= k < g ==> grade_decodable(
                    #[trigger] cube.deep_view()[k],
                    data.subjects.deep_view(),
                    data.teachers.deep_view(),
                ),
            forall|k: int|
                0 <= k < g ==> #[trigger] school@.grades[k] == grade_view(
                    k,
                    cube.deep_view()[k],
                    data.subjects.deep_view(),
                    data.teachers.deep_view(),
                ),
        decreases cube.len() - g,
    {
        assert(cube.deep_view()[g as int] == cube@[g as int].deep_view());
        match build_grade(g as u8, &cube[g], &data.subjects, &data.teachers) {
            Ok(grade) => {
                school.add_grade(grade);
            },
            Err(e) => {
                assert(!grade_decodable(
                    cube.deep_view()[g as int],
                    data.subjects.deep_view(),
                    data.teachers.deep_view(),
                ));
                return Err(e);
            },
        }
        g = g + 1;
    }
    assert(school@.grades =~= school_view(
        school_name@,
        cube.deep_view(),
        data.subjects.deep_view(),
        data.teachers.deep_view(),
    ).grades);
    Ok(school)
}

} // verus!
