//! Decoding a timetable cell. A cell packs two indices into one number in
//! base one thousand. By the service's current convention the upper part,
//! counted from one, selects the subject, and the lower part, counted from
//! zero, selects the teacher. Earlier revisions of the service packed in base
//! one hundred; this decoder reads the current convention only.

use vstd::prelude::*;
use vstd::string::StringExecFns;
use crate::error::ComciganError;

verus! {

/// The base in which a cell packs its two indices.
pub const CODE_BASE: u32 = 1000;

/// The number that the upper index of a cell is ahead of its position in
/// the subject table.
pub const SUBJECT_OFFSET: usize = 1;

/// The subject that stands for a period without a class.
pub const EMPTY_SUBJECT: &'static str = "19";

/// The upper index of a cell: the cell divided by the base, rounded down.
pub open spec fn teacher_index(code: u32) -> int {
    code as int / (CODE_BASE as int)
}

/// The lower index of a cell: the rest of that division.
pub open spec fn subject_index(code: u32) -> int {
    code as int % (CODE_BASE as int)
}

/// Whether both indices of a cell point into their tables.
pub open spec fn decodable(code: u32, subjects: Seq<Seq<char>>, teachers: Seq<Seq<char>>) -> bool {
    &&& (SUBJECT_OFFSET as int) <= teacher_index(code) < subjects.len() + (SUBJECT_OFFSET as int)
    &&& subject_index(code) % (CODE_BASE as int) < teachers.len()
}

/// The subject and the teacher of a decodable cell. Where the subject is
/// the one that stands for no class, both are empty.
pub open spec fn decoded(code: u32, subjects: Seq<Seq<char>>, teachers: Seq<Seq<char>>) -> (
    Seq<char>,
    Seq<char>,
) {
    let subject = subjects[teacher_index(code) - (SUBJECT_OFFSET as int)];
    let teacher = teachers[subject_index(code) % (CODE_BASE as int)];
    if subject == EMPTY_SUBJECT@ {
        (Seq::empty(), Seq::empty())
    } else {
        (subject, teacher)
    }
}

/// A cell from one to below the base has the upper index zero, which points
/// before the subject table: no such cell can be decoded.
pub proof fn lemma_low_codes(code: u32, subjects: Seq<Seq<char>>, teachers: Seq<Seq<char>>)
    requires
        1 <= code < CODE_BASE,
    ensures
        teacher_index(code) == 0,
        subject_index(code) == code,
        !decodable(code, subjects, teachers),
{
}

/// The two indices of a cell give the cell back.
pub proof fn lemma_indices_pack(code: u32)
    ensures
        code == teacher_index(code) * CODE_BASE + subject_index(code),
        0 <= subject_index(code) < CODE_BASE,
        0 <= teacher_index(code),
{
}

/// Where the subject of a cell is the one that stands for no class, the
/// cell decodes to two empty texts, whatever its lower index is.
pub proof fn lemma_empty_subject(code: u32, subjects: Seq<Seq<char>>, teachers: Seq<Seq<char>>)
    requires
        decodable(code, subjects, teachers),
        subjects[teacher_index(code) - (SUBJECT_OFFSET as int)] == EMPTY_SUBJECT@,
    ensures
        decoded(code, subjects, teachers) == (Seq::<char>::empty(), Seq::<char>::empty()),
{
}

/// Decodes a cell into its subject and its teacher. A cell that points
/// outside a table is a fault.
pub fn decode(code: u32, subjects: &Vec<String>, teachers: &Vec<String>) -> (out: Result<
    (String, String),
    ComciganError,
>)
    ensures
        match out {
            Ok(pair) => decodable(code, subjects.deep_view(), teachers.deep_view()) && (
                pair.0@,
                pair.1@,
            ) == decoded(code, subjects.deep_view(), teachers.deep_view()),
            Err(e) => e == ComciganError::CodeDecode && !decodable(
                code,
                subjects.deep_view(),
                teachers.deep_view(),
            ),
        },
{
    let upper: usize = (code / CODE_BASE) as usize;
    let lower: usize = ((code % CODE_BASE) % CODE_BASE) as usize;
    if upper < SUBJECT_OFFSET || upper - SUBJECT_OFFSET >= subjects.len() {
        return Err(ComciganError::CodeDecode);
    }
    if lower >= teachers.len() {
        return Err(ComciganError::CodeDecode);
    }
    let subject = subjects[upper - SUBJECT_OFFSET].clone();
    let teacher = teachers[lower].clone();
    let sentinel = String::from_str(EMPTY_SUBJECT);
    if subject == sentinel {
        Ok((String::new(), String::new()))
    } else {
        Ok((subject, teacher))
    }
}

} // verus!
