//! Resolving the names of a session from the bootstrap page. All five names
//! are needed: where the page lacks one, the service has changed its script
//! and the session fails as a whole.

use vstd::prelude::*;
use vstd::string::StringExecFns;
use crate::codec::{euc_kr_decode, euc_kr_text, fits_encoder};
use crate::data::{KeyTexts, RawSchoolDataKey};
use crate::error::ComciganError;
use crate::pattern::{capture, captured, pattern_text, Anchor};
use crate::text::SERVICE_ROOT;

verus! {

/// The path of the bootstrap page below the service's root.
pub const BOOTSTRAP_PATH: &'static str = "st";

/// The names of a session from what the five searches found: all of them,
/// or the failure where one found nothing.
pub open spec fn keys_of(
    url_piece: Option<Seq<char>>,
    encode_header: Option<Seq<char>>,
    timetable: Option<Seq<char>>,
    teachers: Option<Seq<char>>,
    subjects: Option<Seq<char>>,
) -> Result<KeyTexts, ComciganError> {
    if url_piece is Some && encode_header is Some && timetable is Some && teachers is Some
        && subjects is Some {
        Ok(
            KeyTexts {
                timetable: timetable->Some_0,
                subjects: subjects->Some_0,
                teachers: teachers->Some_0,
                encode_header: encode_header->Some_0,
                url_piece: url_piece->Some_0,
            },
        )
    } else {
        Err(ComciganError::SchemaNotFound)
    }
}

/// The names of a session as a page text gives them.
pub open spec fn resolved(page: Seq<char>) -> Result<KeyTexts, ComciganError> {
    keys_of(
        captured(pattern_text(Anchor::UrlPiece), page),
        captured(pattern_text(Anchor::EncodeHeader), page),
        captured(pattern_text(Anchor::Timetable), page),
        captured(pattern_text(Anchor::Teachers), page),
        captured(pattern_text(Anchor::Subjects), page),
    )
}

/// Whether a result holds the given names, or the given failure.
pub open spec fn keys_match(
    out: Result<RawSchoolDataKey, ComciganError>,
    expected: Result<KeyTexts, ComciganError>,
) -> bool {
    match out {
        Ok(keys) => expected == Ok::<KeyTexts, ComciganError>(keys@),
        Err(e) => expected == Err::<KeyTexts, ComciganError>(e),
    }
}

/// Puts the names of a session together from what the five searches found.
pub fn keys_from(
    url_piece: Option<String>,
    encode_header: Option<String>,
    timetable: Option<String>,
    teachers: Option<String>,
    subjects: Option<String>,
) -> (out: Result<RawSchoolDataKey, ComciganError>)
    ensures
        keys_match(
            out,
            keys_of(
                url_piece.deep_view(),
                encode_header.deep_view(),
                timetable.deep_view(),
                teachers.deep_view(),
                subjects.deep_view(),
            ),
        ),
{
    match (url_piece, encode_header, timetable, teachers, subjects) {
        (Some(url_piece), Some(encode_header), Some(timetable), Some(teachers), Some(subjects)) => {
            Ok(RawSchoolDataKey { timetable, subjects, teachers, encode_header, url_piece })
        },
        _ => Err(ComciganError::SchemaNotFound),
    }
}

/// Resolves the names of a session from the text of the bootstrap page.
pub fn resolve(page: &str) -> (out: Result<RawSchoolDataKey, ComciganError>)
    ensures
        keys_match(out, resolved(page@)),
{
    let url_piece = capture(Anchor::UrlPiece, page);
    let encode_header = capture(Anchor::EncodeHeader, page);
    let timetable = capture(Anchor::Timetable, page);
    let teachers = capture(Anchor::Teachers, page);
    let subjects = capture(Anchor::Subjects, page);
    keys_from(url_piece, encode_header, timetable, teachers, subjects)
}

/// The address of the bootstrap page.
pub fn init_request() -> (out: String)
    ensures
        out@ == SERVICE_ROOT@ + BOOTSTRAP_PATH@,
{
    let mut out = String::from_str(SERVICE_ROOT);
    out.append(BOOTSTRAP_PATH);
    out
}

/// Resolves the names of a session from the bytes of the bootstrap page,
/// which the service sends in its legacy encoding.
pub fn init_response(page: &[u8]) -> (out: Result<RawSchoolDataKey, ComciganError>)
    requires
        fits_encoder(page@.len()),
    ensures
        keys_match(out, resolved(euc_kr_text(page@))),
{
    let text = euc_kr_decode(page);
    resolve(text.as_str())
}

} // verus!
