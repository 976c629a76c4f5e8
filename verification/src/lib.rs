//! A reader for the timetables of the Comcigan school timetable service.
//!
//! The service has no fixed interface. The names of its fields are made up
//! anew for each deployment and stand in the script of its bootstrap page;
//! its responses are padded with filler, and every array of them starts with
//! a placeholder. A session therefore goes in three steps, each made of an
//! address to fetch and a reading of what comes back:
//!
//! 1. [`init_request`] and [`init_response`] resolve the names of the
//!    session;
//! 2. [`search_school_request`] and [`search_school_response`] find a
//!    school;
//! 3. [`view_request`] and [`view_response`] read its timetable.
//!
//! Fetching is left to the caller.

use vstd::prelude::*;

pub mod assembler;
pub mod class;
pub mod client;
pub mod codec;
pub mod data;
pub mod decoder;
pub mod error;
pub mod json;
pub mod pattern;
pub mod schema;
pub mod search;
pub mod shape;
pub mod text;
pub mod timetable;
pub mod util;

pub use crate::assembler::assemble;
pub use crate::data::{RawSchoolData, RawSchoolDataKey, School, SchoolList};
pub use crate::decoder::decode;
pub use crate::error::ComciganError;
pub use crate::schema::{init_request, init_response, resolve};
pub use crate::search::{first_school, search_school_request, search_school_response};
pub use crate::text::validate_json;
pub use crate::timetable::{view_request, view_response};
