//! The patterns that find the session's field names in the bootstrap page,
//! and the search for one of them. Each name stands in the page's script
//! between two fixed pieces of text; a pattern names the piece before it in
//! a look-behind and the piece after it in a look-ahead. When the service
//! changes its script, the entries of this table change and nothing else.
//!
//! The pattern engine is not part of the verified code: it is called through
//! [`compile`] and [`find_first`].

use vstd::prelude::*;

verus! {

/// The names that a session needs.
#[derive(Clone, Copy, Debug, PartialEq, Eq, Structural)]
pub enum Anchor {
    /// The path and query prefix of the search.
    UrlPiece,
    /// The prefix of the timetable query before it is encoded.
    EncodeHeader,
    /// The field of the timetable cells.
    Timetable,
    /// The field of the teacher table.
    Teachers,
    /// The field of the subject table.
    Subjects,
}

/// The search path stands in the address of the page's search request.
pub const URL_PIECE_PATTERN: &'static str = r#"(?<=\$\.ajax\({ url:'\.\/)(.*)(?='\+sc,success)"#;

/// The header stands as the first argument where the page asks for a
/// school's data.
pub const ENCODE_HEADER_PATTERN: &'static str = r#"(?<=sc_data\(')(.*)(?=',sc,1)"#;

/// The field of the cells is the one that the page indexes by grade, class,
/// day and period.
pub const TIMETABLE_PATTERN: &'static str =
    r#"(?<=원자료=Q자료\(자료\.)(자료[0-9]*)(?=\[학년\]\[반\]\[요일\]\[교시\])"#;

/// The field of the teachers is the one whose length bounds the teacher's
/// index.
pub const TEACHERS_PATTERN: &'static str =
    r#"(?<=분리;if\(th<자료\.)(자료[0-9]*)(?=\.length\) {성명)"#;

/// The field of the subjects is the one whose entry is written into a cell
/// above the teacher's name.
pub const SUBJECTS_PATTERN: &'static str =
    r#"(?<=2px;'>"\+m2\+자료\.)(.*)(?=\[sb\]\+"<br>"\+성명)"#;

/// The pattern of a name.
pub open spec fn pattern_text(anchor: Anchor) -> Seq<char> {
    match anchor {
        Anchor::UrlPiece => URL_PIECE_PATTERN@,
        Anchor::EncodeHeader => ENCODE_HEADER_PATTERN@,
        Anchor::Timetable => TIMETABLE_PATTERN@,
        Anchor::Teachers => TEACHERS_PATTERN@,
        Anchor::Subjects => SUBJECTS_PATTERN@,
    }
}

/// Whether a pattern is one of the table.
pub open spec fn is_anchor_pattern(pattern: Seq<char>) -> bool {
    exists|anchor: Anchor| pattern == #[trigger] pattern_text(anchor)
}

/// The pattern of a name.
pub fn pattern_of(anchor: Anchor) -> (pattern: &'static str)
    ensures
        pattern@ == pattern_text(anchor),
        is_anchor_pattern(pattern@),
{
    let pattern: &'static str = match anchor {
        Anchor::UrlPiece => URL_PIECE_PATTERN,
        Anchor::EncodeHeader => ENCODE_HEADER_PATTERN,
        Anchor::Timetable => TIMETABLE_PATTERN,
        Anchor::Teachers => TEACHERS_PATTERN,
        Anchor::Subjects => SUBJECTS_PATTERN,
    };
    assert(pattern@ == pattern_text(anchor));
    pattern
}

/// The engine's compiled pattern. Nothing is read from it.
#[verifier::external_type_specification]
#[verifier::external_body]
pub struct ExPattern(fancy_regex::Regex);

/// The engine's own error: a pattern it cannot compile, or a search that it
/// gave up. Nothing is read from it.
#[verifier::external_type_specification]
#[verifier::external_body]
pub struct ExPatternError(fancy_regex::Error);

/// How a search ended.
pub enum Capture {
    /// The text of the first match.
    Found(Seq<char>),
    /// The pattern matches nowhere in the text.
    Absent,
    /// The engine gave the search up.
    Failed,
}

/// Whether `fancy_regex::Regex::new` takes the pattern.
pub uninterp spec fn compiles(pattern: Seq<char>) -> bool;

/// The pattern that a compiled pattern was made from: what
/// `fancy_regex::Regex::as_str` returns for it.
pub uninterp spec fn source_of(compiled: fancy_regex::Regex) -> Seq<char>;

/// How `fancy_regex::Regex::find` ends on a text, for the compiled form of
/// a pattern.
pub uninterp spec fn first_match(pattern: Seq<char>, text: Seq<char>) -> Capture;

/// `fancy_regex::Regex::new`: the compiled pattern, or the engine's error
/// where it does not take the pattern. The outcome depends on the pattern
/// alone. Only the patterns of the table are handed to it.
#[verifier::external_body]
pub(crate) fn compile(pattern: &str) -> (made: Result<fancy_regex::Regex, fancy_regex::Error>)
    requires
        is_anchor_pattern(pattern@),
    ensures
        match made {
            Ok(compiled) => compiles(pattern@) && source_of(compiled) == pattern@,
            Err(_) => !compiles(pattern@),
        },
{
    fancy_regex::Regex::new(pattern)
}

/// `fancy_regex::Regex::find`: the text of the leftmost match, `None` where
/// there is none, the engine's error where it gives the search up. The
/// outcome depends on the pattern and the text alone; the engine bounds its
/// own backtracking.
#[verifier::external_body]
pub(crate) fn find_first(compiled: &fancy_regex::Regex, text: &str) -> (found: Result<
    Option<String>,
    fancy_regex::Error,
>)
    requires
        is_anchor_pattern(source_of(*compiled)),
    ensures
        first_match(source_of(*compiled), text@) == match found {
            Ok(Some(part)) => Capture::Found(part@),
            Ok(None) => Capture::Absent,
            Err(_) => Capture::Failed,
        },
{
    Ok(compiled.find(text)?.map(|m| m.as_str().to_string()))
}

/// The text that the search for a pattern finds in a page: the first
/// match, or nothing where there is none or the engine fails.
pub open spec fn captured(pattern: Seq<char>, page: Seq<char>) -> Option<Seq<char>> {
    if compiles(pattern) {
        match first_match(pattern, page) {
            Capture::Found(part) => Some(part),
            _ => None,
        }
    } else {
        None
    }
}

/// Searches a page for a name. A search that the engine fails finds
/// nothing.
pub fn capture(anchor: Anchor, page: &str) -> (out: Option<String>)
    ensures
        out.deep_view() == captured(pattern_text(anchor), page@),
{
    let compiled = match compile(pattern_of(anchor)) {
        Ok(compiled) => compiled,
        Err(_) => {
            return None;
        },
    };
    match find_first(&compiled, page) {
        Ok(Some(part)) => Some(part),
        Ok(None) => None,
        Err(_) => None,
    }
}

} // verus!
