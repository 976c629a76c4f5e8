//! Fetching a school's timetable: the address of the query, and the way from
//! the text of the response to the timetable: parse, pick the three fields of
//! the session, remove the placeholders, read the shapes, assemble.

use vstd::prelude::*;
use vstd::string::StringExecFns;
use vstd::string::StringSliceAdditionalSpecFns;
use vstd::utf8::encode_utf8;
use crate::assembler::{
    assemble, assembled, class_decodable, cube_decodable, cube_fits, day_decodable,
    grade_decodable, lemma_assembled_numbered, lemma_assembled_period, period_view,
};
use crate::class::{SchoolData, SchoolView};
use crate::codec::{base64_encode, base64_text, fits_encoder};
use crate::data::{KeyTexts, RawSchoolData, RawSchoolDataKey, RawTables, School};
use crate::decoder::decodable;
use crate::error::ComciganError;
use crate::json::{
    code_of, document_of, field_of, lemma_field_well_formed, parse_json, parsed, within_depth,
    Json, JsonValue, DEPTH_LIMIT,
};
use crate::shape::{
    cube_of, in_raw, lemma_padded_cells, lemma_padded_class, lemma_padded_cube, lemma_padded_day,
    lemma_padded_grade, lemma_well_formed_printable, names_of, padded_class, padded_cube,
    padded_day, padded_grade, printable, raw_cell, read_cube, read_names, read_subjects,
    subjects_of,
};
use crate::text::{
    decimal, head_before, head_of, push_decimal, validate_json, without_filler, SERVICE_ROOT,
};
use crate::util::{lemma_trim_well_formed, pop_first_element, trimmed};

verus! {

/// What follows the school's id in the text that the query encodes.
pub const ID_SUFFIX: &'static str = "_0_1";

/// The text that the timetable query encodes: the header of the session,
/// the school's internal id in base ten, and a fixed suffix.
pub open spec fn query_id(header: Seq<char>, internal_id: int) -> Seq<char> {
    header + decimal(internal_id as nat) + ID_SUFFIX@
}

/// The address of a school's timetable: the service's root, the search path
/// of the session up to its question mark, a question mark, and the query
/// text in base64.
pub open spec fn view_address(keys: KeyTexts, internal_id: int) -> Seq<char> {
    SERVICE_ROOT@ + head_of(keys.url_piece, '?') + seq!['?'] + base64_text(
        encode_utf8(query_id(keys.encode_header, internal_id)),
    )
}

/// The text that the timetable query of a school encodes.
pub fn view_id(school: &School, keys: &RawSchoolDataKey) -> (out: String)
    ensures
        out@ == query_id(keys.encode_header@, school.3 as int),
{
    let mut out = keys.encode_header.clone();
    push_decimal(&mut out, school.3);
    out.append(ID_SUFFIX);
    out
}

/// The address of a school's timetable.
pub fn view_request(school: &School, keys: &RawSchoolDataKey) -> (out: String)
    requires
        fits_encoder(encode_utf8(query_id(keys.encode_header@, school.3 as int)).len()),
    ensures
        out@ == view_address(keys@, school.3 as int),
{
    let id = view_id(school, keys);
    let encoded = base64_encode(id.as_str().as_bytes());
    let target = head_before(keys.url_piece.as_str(), '?');
    let mut out = String::from_str(SERVICE_ROOT);
    out.append(target.as_str());
    out.push('?');
    out.append(encoded.as_str());
    assert(out@ =~= view_address(keys@, school.3 as int));
    out
}

/// The three values of a timetable response that a session names.
#[derive(Debug, PartialEq, Eq)]
pub struct RawPayload {
    pub timetable: JsonValue,
    pub subjects: JsonValue,
    pub teachers: JsonValue,
}

/// What a `RawPayload` holds, as mathematical values.
pub struct PayloadView {
    pub timetable: Json,
    pub subjects: Json,
    pub teachers: Json,
}

impl View for RawPayload {
    type V = PayloadView;

    open spec fn view(&self) -> PayloadView {
        PayloadView {
            timetable: self.timetable@,
            subjects: self.subjects@,
            teachers: self.teachers@,
        }
    }
}

/// The three values that a document holds under the names of a session: a
/// malformed payload where the document is no object, a missing field where
/// it lacks one of the three.
pub open spec fn selected(document: Json, keys: KeyTexts) -> Result<PayloadView, ComciganError> {
    if !(document is Object) {
        Err(ComciganError::MalformedPayload)
    } else if field_of(document, keys.teachers) is None || field_of(document, keys.subjects) is None
        || field_of(document, keys.timetable) is None {
        Err(ComciganError::MissingField)
    } else {
        Ok(
            PayloadView {
                timetable: field_of(document, keys.timetable)->Some_0,
                subjects: field_of(document, keys.subjects)->Some_0,
                teachers: field_of(document, keys.teachers)->Some_0,
            },
        )
    }
}

/// The tables of a payload: the teachers as they are, the subjects without
/// their placeholder, the cells without the placeholders of their four
/// levels. A subject that is a string is its own text; one that is another
/// value is shown as the JSON text that it is printed as. A value of another
/// shape is a malformed payload.
pub open spec fn shaped(payload: PayloadView) -> Result<RawTables, ComciganError> {
    let teachers = names_of(payload.teachers);
    let subjects = subjects_of(trimmed(payload.subjects));
    let timetable = cube_of(trimmed(payload.timetable));
    if teachers is Some && subjects is Some && timetable is Some {
        Ok(
            RawTables {
                timetable: timetable->Some_0,
                subjects: subjects->Some_0,
                teachers: teachers->Some_0,
            },
        )
    } else {
        Err(ComciganError::MalformedPayload)
    }
}

/// The timetable that a response gives, from what its text parses to.
pub open spec fn viewed(document: Option<Json>, name: Seq<char>, keys: KeyTexts) -> Result<
    SchoolView,
    ComciganError,
> {
    match parsed(document) {
        Err(e) => Err(e),
        Ok(tree) => match selected(tree, keys) {
            Err(e) => Err(e),
            Ok(payload) => match shaped(payload) {
                Err(e) => Err(e),
                Ok(tables) => assembled(name, tables.timetable, tables.subjects, tables.teachers),
            },
        },
    }
}

/// Whether every cell of a raw timetable behind its placeholders points
/// into the two tables.
pub open spec fn raw_decodable(
    raw: Json,
    subjects: Seq<Seq<char>>,
    teachers: Seq<Seq<char>>,
) -> bool {
    forall|g: int, c: int, d: int, p: int| #[trigger]
        in_raw(raw, g, c, d, p) ==> decodable(
            code_of(raw_cell(raw, g, c, d, p))->Some_0,
            subjects,
            teachers,
        )
}

/// A response whose timetable has a placeholder at the start of every array
/// of its four levels, no level of more than `LEVEL_LIMIT` entries behind the
/// placeholder, and cells that all point into the tables, gives a timetable.
/// Each of its levels has one entry fewer than the raw array, and its period
/// at a grade, class, day and period is what the raw cell one position
/// further in every dimension decodes to. No placeholder becomes a period.
pub proof fn lemma_view_of_padded(
    document: Json,
    name: Seq<char>,
    keys: KeyTexts,
    g: int,
    c: int,
    d: int,
    p: int,
)
    requires
        within_depth(document, DEPTH_LIMIT as nat),
        selected(document, keys) is Ok,
        names_of(selected(document, keys)->Ok_0.teachers) is Some,
        selected(document, keys)->Ok_0.subjects is Array,
        padded_cube(selected(document, keys)->Ok_0.timetable),
        cube_fits(cube_of(trimmed(selected(document, keys)->Ok_0.timetable))->Some_0),
        raw_decodable(
            selected(document, keys)->Ok_0.timetable,
            subjects_of(trimmed(selected(document, keys)->Ok_0.subjects))->Some_0,
            names_of(selected(document, keys)->Ok_0.teachers)->Some_0,
        ),
        in_raw(selected(document, keys)->Ok_0.timetable, g, c, d, p),
    ensures
        viewed(Some(document), name, keys) is Ok,
        ({
            let raw = selected(document, keys)->Ok_0.timetable;
            let school = viewed(Some(document), name, keys)->Ok_0;
            &&& school.numbered()
            &&& school.grades.len() == raw->Array_0.len() - 1
            &&& school.grades[g].classes.len() == raw->Array_0[g + 1]->Array_0.len() - 1
            &&& school.grades[g].classes[c].days.len() == raw->Array_0[g + 1]->Array_0[c
                + 1]->Array_0.len() - 1
            &&& school.grades[g].classes[c].days[d].periods.len() == raw->Array_0[g
                + 1]->Array_0[c + 1]->Array_0[d + 1]->Array_0.len() - 1
            &&& school.grades[g].classes[c].days[d].periods[p] == period_view(
                p,
                code_of(raw_cell(raw, g, c, d, p))->Some_0,
                subjects_of(trimmed(selected(document, keys)->Ok_0.subjects))->Some_0,
                names_of(selected(document, keys)->Ok_0.teachers)->Some_0,
            )
        }),
{
    let payload = selected(document, keys)->Ok_0;
    let raw = payload.timetable;
    let subjects = subjects_of(trimmed(payload.subjects))->Some_0;
    let teachers = names_of(payload.teachers)->Some_0;
    lemma_padded_cells(raw, g, c, d, p);
    let cube = cube_of(trimmed(raw))->Some_0;
    assert(trimmed(payload.subjects) is Array);
    assert(subjects_of(trimmed(payload.subjects)) is Some);
    assert(shaped(payload) is Ok);
    assert forall|g1: int| 0 <= g1 < cube.len() implies grade_decodable(
        #[trigger] cube[g1],
        subjects,
        teachers,
    ) by {
        lemma_padded_cube(raw);
        let grade = raw->Array_0[g1 + 1];
        assert(padded_grade(grade));
        lemma_padded_grade(grade);
        assert forall|c1: int| 0 <= c1 < cube[g1].len() implies class_decodable(
            #[trigger] cube[g1][c1],
            subjects,
            teachers,
        ) by {
            let class = grade->Array_0[c1 + 1];
            assert(padded_class(class));
            lemma_padded_class(class);
            assert forall|d1: int| 0 <= d1 < cube[g1][c1].len() implies day_decodable(
                #[trigger] cube[g1][c1][d1],
                subjects,
                teachers,
            ) by {
                let day = class->Array_0[d1 + 1];
                assert(padded_day(day));
                lemma_padded_day(day);
                assert forall|p1: int| 0 <= p1 < cube[g1][c1][d1].len() implies decodable(
                    #[trigger] cube[g1][c1][d1][p1],
                    subjects,
                    teachers,
                ) by {
                    assert(in_raw(raw, g1, c1, d1, p1));
                    lemma_padded_cells(raw, g1, c1, d1, p1);
                }
            }
        }
    }
    assert(cube_decodable(cube, subjects, teachers));
    lemma_assembled_numbered(name, cube, subjects, teachers);
    lemma_assembled_period(name, cube, subjects, teachers, g, c, d, p);
}

/// Picks the three values of a session out of the document of a response.
pub fn select_fields(document: &JsonValue, keys: &RawSchoolDataKey) -> (out: Result<
    RawPayload,
    ComciganError,
>)
    ensures
        match out {
            Ok(payload) => selected(document@, keys@) == Ok::<PayloadView, ComciganError>(payload@),
            Err(e) => selected(document@, keys@) == Err::<PayloadView, ComciganError>(e),
        },
{
    match document {
        JsonValue::Object(_) => {},
        _ => {
            return Err(ComciganError::MalformedPayload);
        },
    }
    let teachers = match document.get(keys.teachers.as_str()) {
        Some(value) => value.duplicate(),
        None => {
            return Err(ComciganError::MissingField);
        },
    };
    let subjects = match document.get(keys.subjects.as_str()) {
        Some(value) => value.duplicate(),
        None => {
            return Err(ComciganError::MissingField);
        },
    };
    let timetable = match document.get(keys.timetable.as_str()) {
        Some(value) => value.duplicate(),
        None => {
            return Err(ComciganError::MissingField);
        },
    };
    Ok(RawPayload { timetable, subjects, teachers })
}

/// Reads the tables of a payload. The contract is exact where every subject
/// that is no string is well-formed, as every parsed value is.
pub fn raw_school_data(payload: &RawPayload) -> (out: Result<RawSchoolData, ComciganError>)
    ensures
        out is Ok <==> shaped(payload@) is Ok,
        out matches Err(e) ==> e == ComciganError::MalformedPayload,
        out matches Ok(data) ==> data@.teachers == shaped(payload@)->Ok_0.teachers
            && data@.timetable == shaped(payload@)->Ok_0.timetable,
        out matches Ok(data) ==> printable(trimmed(payload.subjects@)) ==> data@ == shaped(
            payload@,
        )->Ok_0,
{
    let teachers = match read_names(&payload.teachers) {
        Some(teachers) => teachers,
        None => {
            return Err(ComciganError::MalformedPayload);
        },
    };
    let bare_subjects = pop_first_element(&payload.subjects);
    let subjects = match read_subjects(&bare_subjects) {
        Some(subjects) => subjects,
        None => {
            return Err(ComciganError::MalformedPayload);
        },
    };
    let bare_timetable = pop_first_element(&payload.timetable);
    let timetable = match read_cube(&bare_timetable) {
        Some(timetable) => timetable,
        None => {
            return Err(ComciganError::MalformedPayload);
        },
    };
    Ok(RawSchoolData { timetable, subjects, teachers })
}

/// Reads a school's timetable from the text of the response.
pub fn view_response(text: &str, school: &School, keys: &RawSchoolDataKey) -> (out: Result<
    SchoolData,
    ComciganError,
>)
    ensures
        match out {
            Ok(data) => viewed(document_of(without_filler(text@)), school.2@, keys@) == Ok::<
                SchoolView,
                ComciganError,
            >(data@),
            Err(e) => viewed(document_of(without_filler(text@)), school.2@, keys@) == Err::<
                SchoolView,
                ComciganError,
            >(e),
        },
{
    let clean = validate_json(text);
    let document = match parse_json(clean.as_str()) {
        Ok(document) => document,
        Err(e) => {
            return Err(e);
        },
    };
    let payload = match select_fields(&document, keys) {
        Ok(payload) => payload,
        Err(e) => {
            return Err(e);
        },
    };
    proof {
        lemma_field_well_formed(document@, keys@.subjects);
        lemma_trim_well_formed(payload@.subjects);
        lemma_well_formed_printable(trimmed(payload@.subjects));
    }
    let tables = match raw_school_data(&payload) {
        Ok(tables) => tables,
        Err(e) => {
            return Err(e);
        },
    };
    assemble(school.2.as_str(), &tables)
}

} // verus!
