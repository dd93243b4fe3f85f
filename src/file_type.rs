//! Kinds of files, told apart by extension or by media type.
use vstd::prelude::*;

use crate::text::str_equal;

verus! {

/// A kind of file.
#[derive(Debug, PartialEq, Eq, Hash)]
pub enum FileType {
    /// Files whose extension (without the dot) is this one.
    Extension(String),
    /// Files whose detected media type is this one.
    Mime(String),
}

impl FileType {
    /// Whether a file with extension `extension` and detected media type
    /// `mime_type` (each `None` where there is none) is of this kind.
    pub fn matches_file(&self, extension: Option<&str>, mime_type: Option<&str>) -> (r: bool)
        ensures
            r == match self {
                FileType::Extension(e) => extension matches Some(x) && x@ == e@,
                FileType::Mime(m) => mime_type matches Some(x) && x@ == m@,
            },
    {
        match self {
            FileType::Extension(e) => match extension {
                Some(x) => str_equal(x, e.as_str()),
                None => false,
            },
            FileType::Mime(m) => match mime_type {
                Some(x) => str_equal(x, m.as_str()),
                None => false,
            },
        }
    }
}

} // verus!
