//! The first line of a mapping file.

use vstd::prelude::*;
use crate::error::{outcome, TinyV1Error};
use crate::text::{lemma_split, split, str_eq, texts, Fields};

verus! {

/// The names of the namespaces that a file maps between.
///
/// Every name borrows from the line that was read.
#[derive(Debug, PartialEq, Eq)]
pub struct Header<'a> {
    /// The first namespace.
    pub namespace_a: &'a str,
    /// The second namespace.
    pub namespace_b: &'a str,
    /// The namespaces after the first two, in the order of the line.
    pub namespaces: Vec<&'a str>,
}

/// A header as plain sequences of characters.
pub struct HeaderView {
    pub namespace_a: Seq<char>,
    pub namespace_b: Seq<char>,
    pub namespaces: Seq<Seq<char>>,
}

impl<'a> View for Header<'a> {
    type V = HeaderView;

    open spec fn view(&self) -> HeaderView {
        HeaderView {
            namespace_a: self.namespace_a@,
            namespace_b: self.namespace_b@,
            namespaces: texts(self.namespaces@),
        }
    }
}

impl<'a> Header<'a> {
    /// What a header line means. Its fields are separated by tabs: the
    /// format's name, which must be `v1`, then the two namespaces that every
    /// file has, then any number of further namespaces. The first thing
    /// that is missing or wrong decides the message.
    pub open spec fn spec_from_str(line: Seq<char>) -> Result<HeaderView, Seq<char>> {
        let fields = split(line, '\t');
        if fields.len() < 1 {
            Err("Empty Header"@)
        } else if fields[0] != "v1"@ {
            Err("Wrong Format"@)
        } else if fields.len() < 2 {
            Err("Namespace a not found"@)
        } else if fields.len() < 3 {
            Err("Namespace b not found"@)
        } else {
            Ok(
                HeaderView {
                    namespace_a: fields[1],
                    namespace_b: fields[2],
                    namespaces: fields.skip(3),
                },
            )
        }
    }

    /// Reads a header line.
    pub fn from_str<'b>(s: &'a str) -> (r: Result<Self, TinyV1Error<'b>>)
        ensures
            outcome(r) == Self::spec_from_str(s@),
    {
        let mut header = Fields::new(s);
        let format = match header.next() {
            Some(x) => x,
            None => { return Err(TinyV1Error("Empty Header")); },
        };
        if !str_eq(format, "v1") {
            return Err(TinyV1Error("Wrong Format"));
        }
        let namespace_a = match header.next() {
            Some(x) => x,
            None => { return Err(TinyV1Error("Namespace a not found")); },
        };
        let namespace_b = match header.next() {
            Some(x) => x,
            None => { return Err(TinyV1Error("Namespace b not found")); },
        };
        let namespaces = header.collect();
        proof {
            assert(texts(namespaces@) =~= split(s@, '\t').skip(3));
        }
        Ok(Header { namespace_a, namespace_b, namespaces })
    }
}

/// A header line is accepted exactly where it has three fields or more and
/// the first of them is `v1`. A line always has a first field, so no line
/// is refused as an empty header.
pub proof fn lemma_header_accepted(line: Seq<char>)
    ensures
        Header::spec_from_str(line) is Ok <==> split(line, '\t').len() >= 3 && split(line, '\t')[0]
            == "v1"@,
        Header::spec_from_str(line) != Err::<HeaderView, Seq<char>>("Empty Header"@),
{
    lemma_split(line, '\t');
    reveal_strlit("Empty Header");
    reveal_strlit("Wrong Format");
    reveal_strlit("Namespace a not found");
    reveal_strlit("Namespace b not found");
    assert("Empty Header"@[0] != "Wrong Format"@[0]);
}

} // verus!
