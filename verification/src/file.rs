//! A whole mapping file.

use vstd::prelude::*;
use crate::content::{lemma_content_lines, Content, ContentView};
use crate::entry::{lemma_entry_keyword, MappingEntry, MappingEntryView};
use crate::error::{outcome, TinyV1Error};
use crate::header::{lemma_header_accepted, Header, HeaderView};
use crate::text::{lemma_prefix_len, lines, prefix_len, split_once};

verus! {

/// A mapping file: its header and its entries.
#[derive(Debug, PartialEq, Eq)]
pub struct File<'a> {
    pub header: Header<'a>,
    pub content: Content<'a>,
}

/// A mapping file as plain sequences of characters.
pub struct FileView {
    pub header: HeaderView,
    pub content: ContentView,
}

impl<'a> View for File<'a> {
    type V = FileView;

    open spec fn view(&self) -> FileView {
        FileView { header: self.header@, content: self.content@ }
    }
}

impl<'a> File<'a> {
    /// What the text of a file means. The header line is what stands before
    /// the first line feed, and the content is all that stands after it; a
    /// text without a line feed is refused. A header line that is refused
    /// decides the message before the content is looked at.
    pub open spec fn spec_from_str(text: Seq<char>) -> Result<FileView, Seq<char>> {
        let i = prefix_len(text, '\n');
        if 0 <= i < text.len() {
            match Header::spec_from_str(text.take(i)) {
                Err(e) => Err(e),
                Ok(header) => match Content::spec_from_str(text.skip(i + 1)) {
                    Err(e) => Err(e),
                    Ok(content) => Ok(FileView { header, content }),
                },
            }
        } else {
            Err("There is no line break"@)
        }
    }

    /// Reads a file from its text.
    pub fn from_str<'b>(s: &'a str) -> (r: Result<Self, TinyV1Error<'b>>)
        ensures
            outcome(r) == Self::spec_from_str(s@),
            !s@.contains('\n') ==> outcome(r) == Err::<FileView, Seq<char>>("There is no line break"@),
    {
        proof {
            lemma_prefix_len(s@, '\n');
        }
        let (header_str, content_str) = match split_once(s, '\n') {
            Some(parts) => parts,
            None => { return Err(TinyV1Error("There is no line break")); },
        };
        let header = match Header::from_str(header_str) {
            Ok(h) => h,
            Err(e) => { return Err(e); },
        };
        let content = match Content::from_str(content_str) {
            Ok(c) => c,
            Err(e) => { return Err(e); },
        };
        Ok(File { header, content })
    }
}

/// A text without a line feed is refused for that, whatever else it holds.
pub proof fn lemma_no_line_break(text: Seq<char>)
    requires
        !text.contains('\n'),
    ensures
        File::spec_from_str(text) == Err::<FileView, Seq<char>>("There is no line break"@),
{
    lemma_prefix_len(text, '\n');
}

/// Two messages exist that no text is refused with. Every line has a first
/// field, be it empty: a header line without the format's name is of the
/// wrong format, and an entry line without a keyword has an invalid one.
pub proof fn lemma_messages_never_given(text: Seq<char>)
    ensures
        File::spec_from_str(text) != Err::<FileView, Seq<char>>("Empty Header"@),
        File::spec_from_str(text) != Err::<FileView, Seq<char>>("Line can not be empty"@),
{
    let i = prefix_len(text, '\n');
    lemma_prefix_len(text, '\n');
    reveal_strlit("There is no line break");
    reveal_strlit("Empty Header");
    reveal_strlit("Line can not be empty");
    reveal_strlit("Wrong Format");
    reveal_strlit("Namespace a not found");
    reveal_strlit("Namespace b not found");
    reveal_strlit("Parent class not found");
    reveal_strlit("descriptor not found");
    reveal_strlit("name a not found");
    reveal_strlit("name b not found");
    reveal_strlit("Invalid Identifier");
    assert("There is no line break"@.len() == 22);
    assert("Empty Header"@.len() == 12);
    assert("Line can not be empty"@.len() == 21);
    if i < text.len() {
        let head = text.take(i);
        let tail = text.skip(i + 1);
        lemma_header_accepted(head);
        assert("Wrong Format"@[0] != "Line can not be empty"@[0]);
        assert("Namespace a not found"@[0] != "Line can not be empty"@[0]);
        assert("Namespace b not found"@[0] != "Line can not be empty"@[0]);
        if Header::spec_from_str(head) is Ok {
            lemma_content_lines(tail);
            if Content::spec_from_str(tail) is Err {
                let e = Content::spec_from_str(tail)->Err_0;
                let k = choose|k: int|
                    0 <= k < lines(tail).len() && MappingEntry::spec_from_str(
                        #[trigger] lines(tail)[k],
                    ) == Err::<MappingEntryView, Seq<char>>(e);
                lemma_entry_keyword(lines(tail)[k]);
                assert("Parent class not found"@[0] != "Empty Header"@[0]);
                assert("descriptor not found"@[0] != "Empty Header"@[0]);
                assert("name a not found"@[0] != "Empty Header"@[0]);
                assert("name b not found"@[0] != "Empty Header"@[0]);
                assert("Invalid Identifier"@[0] != "Empty Header"@[0]);
            }
        }
    }
}

/// Reading has no state: what comes out is decided by the characters that
/// go in. Two results of reading texts that hold the same characters are
/// the same, name for name or message for message.
pub proof fn lemma_from_str_deterministic(
    s: &str,
    t: &str,
    r: Result<File<'_>, TinyV1Error<'_>>,
    q: Result<File<'_>, TinyV1Error<'_>>,
)
    requires
        s@ == t@,
        outcome(r) == File::spec_from_str(s@),
        outcome(q) == File::spec_from_str(t@),
    ensures
        outcome(r) == outcome(q),
        r is Ok <==> q is Ok,
{
}

} // verus!
