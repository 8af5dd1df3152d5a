//! A reader for the Tiny v1 mapping format.
//!
//! A mapping file is text. Its first line is a header that names two or more
//! namespaces; each line after it gives the names of one class, field or
//! method in those namespaces. The fields of a line are separated by tabs.
//!
//! [`from_str`] reads a whole file. What comes out borrows from the text
//! that went in. What each reader returns is stated as a function of the
//! characters of its input: see the `spec_from_str` beside each `from_str`.

use vstd::prelude::*;

pub mod ascii;
pub mod content;
pub mod entry;
pub mod error;
pub mod file;
pub mod header;
pub mod text;

pub use crate::content::{Content, ContentView};
pub use crate::entry::{MappingEntry, MappingEntryView, MemberView};
pub use crate::error::{outcome, TinyV1Error};
pub use crate::file::{File, FileView};
pub use crate::header::{Header, HeaderView};

verus! {

/// Reads a mapping file from its text.
pub fn from_str<'b>(s: &str) -> (r: Result<File<'_>, TinyV1Error<'b>>)
    ensures
        outcome(r) == File::spec_from_str(s@),
        !s@.contains('\n') ==> outcome(r) == Err::<FileView, Seq<char>>("There is no line break"@),
{
    File::from_str(s)
}

} // verus!
