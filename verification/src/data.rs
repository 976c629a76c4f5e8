//! The values that the service's responses are read into.

use vstd::prelude::*;

verus! {

/// One row of a search result: an id, the code of the region or school
/// level, the display name, and the id that the timetable query takes.
#[derive(Debug, PartialEq, Eq)]
pub struct School(pub u32, pub String, pub String, pub u32);

/// What a `School` holds, as mathematical values.
pub struct SchoolRow {
    pub id: int,
    pub code: Seq<char>,
    pub name: Seq<char>,
    pub internal_id: int,
}

impl View for School {
    type V = SchoolRow;

    open spec fn view(&self) -> SchoolRow {
        SchoolRow { id: self.0 as int, code: self.1@, name: self.2@, internal_id: self.3 as int }
    }
}

impl Clone for School {
    fn clone(&self) -> (out: Self)
        ensures
            out@ == self@,
    {
        School(self.0, self.1.clone(), self.2.clone(), self.3)
    }
}

/// The rows of a list of schools.
pub open spec fn school_rows(schools: Seq<School>) -> Seq<SchoolRow> {
    schools.map_values(|s: School| s@)
}

/// The schools that a search matched, in the order of the response.
#[derive(Debug, PartialEq, Eq)]
pub struct SchoolList {
    pub(crate) schools: Vec<School>,
}

impl View for SchoolList {
    type V = Seq<SchoolRow>;

    open(crate) spec fn view(&self) -> Seq<SchoolRow> {
        school_rows(self.schools@)
    }
}

impl SchoolList {
    /// A list of the given schools.
    pub fn new(schools: Vec<School>) -> (out: SchoolList)
        ensures
            out@ == school_rows(schools@),
    {
        SchoolList { schools }
    }

    /// The number of schools that matched.
    pub fn len(&self) -> (n: usize)
        ensures
            n == self@.len(),
    {
        self.schools.len()
    }

    /// The schools, handed out.
    pub fn into_schools(self) -> (out: Vec<School>)
        ensures
            school_rows(out@) == self@,
    {
        self.schools
    }
}

/// A school's timetable as the service sends it, placeholders removed:
/// the cells by grade, class, day and period, and the two name tables that
/// a cell points into.
#[derive(Debug, PartialEq, Eq)]
pub struct RawSchoolData {
    pub timetable: Vec<Vec<Vec<Vec<u32>>>>,
    pub subjects: Vec<String>,
    pub teachers: Vec<String>,
}

/// What a `RawSchoolData` holds, as mathematical values.
pub struct RawTables {
    pub timetable: Seq<Seq<Seq<Seq<u32>>>>,
    pub subjects: Seq<Seq<char>>,
    pub teachers: Seq<Seq<char>>,
}

impl View for RawSchoolData {
    type V = RawTables;

    open spec fn view(&self) -> RawTables {
        RawTables {
            timetable: self.timetable.deep_view(),
            subjects: self.subjects.deep_view(),
            teachers: self.teachers.deep_view(),
        }
    }
}

/// The field names and path pieces of one session with the service. They
/// are read from the bootstrap page and hold for that session only.
#[derive(Debug, PartialEq, Eq)]
pub struct RawSchoolDataKey {
    pub timetable: String,
    pub subjects: String,
    pub teachers: String,
    pub encode_header: String,
    pub url_piece: String,
}

/// What a `RawSchoolDataKey` holds, as mathematical values.
pub struct KeyTexts {
    pub timetable: Seq<char>,
    pub subjects: Seq<char>,
    pub teachers: Seq<char>,
    pub encode_header: Seq<char>,
    pub url_piece: Seq<char>,
}

impl View for RawSchoolDataKey {
    type V = KeyTexts;

    open spec fn view(&self) -> KeyTexts {
        KeyTexts {
            timetable: self.timetable@,
            subjects: self.subjects@,
            teachers: self.teachers@,
            encode_header: self.encode_header@,
            url_piece: self.url_piece@,
        }
    }
}

impl Clone for RawSchoolDataKey {
    fn clone(&self) -> (out: Self)
        ensures
            out@ == self@,
    {
        RawSchoolDataKey {
            timetable: self.timetable.clone(),
            subjects: self.subjects.clone(),
            teachers: self.teachers.clone(),
            encode_header: self.encode_header.clone(),
            url_piece: self.url_piece.clone(),
        }
    }
}

} // verus!
