//! Searching the service's directory of schools: the address of a search,
//! and reading the list that comes back.

use vstd::prelude::*;
use vstd::string::StringExecFns;
use vstd::string::StringSliceAdditionalSpecFns;
use crate::codec::{euc_kr_bytes, euc_kr_encode, fits_encoder};
use crate::data::{school_rows, RawSchoolDataKey, School, SchoolList, SchoolRow};
use crate::error::ComciganError;
use crate::json::{document_of, field_of, parse_json, parsed, Json, JsonValue};
use crate::shape::{read_rows, rows_of};
use crate::text::{percent_escaped, push_percent_escaped, validate_json, without_filler, SERVICE_ROOT};

verus! {

/// The field of a search response that holds the rows.
pub const SEARCH_FIELD: &'static str = "학교검색";

/// The address of a search: the service's root, the search path of the
/// session, and the query in the service's legacy encoding, every byte of it
/// escaped.
pub open spec fn search_address(url_piece: Seq<char>, query: Seq<char>) -> Seq<char> {
    SERVICE_ROOT@ + url_piece + percent_escaped(euc_kr_bytes(query))
}

/// The address that searches for the schools whose names hold `school`.
pub fn search_school_request(school: &str, keys: &RawSchoolDataKey) -> (out: String)
    requires
        fits_encoder(school.spec_bytes().len()),
    ensures
        out@ == search_address(keys.url_piece@, school@),
{
    let query = euc_kr_encode(school);
    let mut out = String::from_str(SERVICE_ROOT);
    out.append(keys.url_piece.as_str());
    push_percent_escaped(&mut out, query.as_slice());
    out
}

/// The rows of a search response's document: a malformed payload where
/// the document is no object, a missing field where it has no list, a
/// malformed payload where the list is not one of rows.
pub open spec fn listed(document: Json) -> Result<Seq<SchoolRow>, ComciganError> {
    if !(document is Object) {
        Err(ComciganError::MalformedPayload)
    } else if field_of(document, SEARCH_FIELD@) is None {
        Err(ComciganError::MissingField)
    } else {
        match rows_of(field_of(document, SEARCH_FIELD@)->Some_0) {
            Some(rows) => Ok(rows),
            None => Err(ComciganError::MalformedPayload),
        }
    }
}

/// The rows of a search response, from what its text parses to.
pub open spec fn searched(document: Option<Json>) -> Result<Seq<SchoolRow>, ComciganError> {
    match parsed(document) {
        Ok(tree) => listed(tree),
        Err(e) => Err(e),
    }
}

/// Reads the list of schools out of the document of a search response.
pub fn read_school_list(document: &JsonValue) -> (out: Result<SchoolList, ComciganError>)
    ensures
        match out {
            Ok(list) => listed(document@) == Ok::<Seq<SchoolRow>, ComciganError>(list@),
            Err(e) => listed(document@) == Err::<Seq<SchoolRow>, ComciganError>(e),
        },
{
    match document {
        JsonValue::Object(_) => {},
        _ => {
            return Err(ComciganError::MalformedPayload);
        },
    }
    match document.get(SEARCH_FIELD) {
        None => Err(ComciganError::MissingField),
        Some(list) => match read_rows(list) {
            Some(schools) => Ok(SchoolList::new(schools)),
            None => Err(ComciganError::MalformedPayload),
        },
    }
}

/// Reads the schools that a search matched from the text of its response.
/// An empty list is a result, not a failure.
pub fn search_school_response(text: &str) -> (out: Result<Vec<School>, ComciganError>)
    ensures
        match out {
            Ok(schools) => searched(document_of(without_filler(text@))) == Ok::<
                Seq<SchoolRow>,
                ComciganError,
            >(school_rows(schools@)),
            Err(e) => searched(document_of(without_filler(text@))) == Err::<
                Seq<SchoolRow>,
                ComciganError,
            >(e),
        },
{
    let clean = validate_json(text);
    let document = match parse_json(clean.as_str()) {
        Ok(document) => document,
        Err(e) => {
            return Err(e);
        },
    };
    match read_school_list(&document) {
        Ok(list) => Ok(list.into_schools()),
        Err(e) => Err(e),
    }
}

/// The first school of a search result, for a caller that needs one.
pub fn first_school(schools: &Vec<School>) -> (out: Result<School, ComciganError>)
    ensures
        match out {
            Ok(school) => schools@.len() > 0 && school@ == schools@[0]@,
            Err(e) => schools@.len() == 0 && e == ComciganError::EmptyResult,
        },
{
    if schools.len() == 0 {
        Err(ComciganError::EmptyResult)
    } else {
        Ok(schools[0].clone())
    }
}

} // verus!
