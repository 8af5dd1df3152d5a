//! The lines of a mapping file after the first.

use vstd::prelude::*;
use crate::entry::{MappingEntry, MappingEntryView};
use crate::error::{outcome, TinyV1Error};
use crate::text::{lemma_prefix_len, lines, split_once, strip_cr};

verus! {

/// The entries of a file, one for each line and in the order of the lines.
#[derive(Debug, PartialEq, Eq)]
pub struct Content<'a> {
    pub mapping_entries: Vec<MappingEntry<'a>>,
}

/// The entries of a file as plain sequences of characters.
pub struct ContentView {
    pub mapping_entries: Seq<MappingEntryView>,
}

impl<'a> View for Content<'a> {
    type V = ContentView;

    open spec fn view(&self) -> ContentView {
        ContentView {
            mapping_entries: Seq::new(
                self.mapping_entries@.len(),
                |i: int| self.mapping_entries@[i]@,
            ),
        }
    }
}

/// The number of lines at the start of `ls` that are entries: the position
/// of the first line that is refused, or the length of `ls` where none is.
pub open spec fn first_refused(ls: Seq<Seq<char>>) -> int
    decreases ls.len(),
{
    if ls.len() == 0 || MappingEntry::spec_from_str(ls[0]) is Err {
        0
    } else {
        1 + first_refused(ls.drop_first())
    }
}

/// `first_refused` is a position in `ls`, every line before it is an entry,
/// and where it is not the end of `ls` its line is refused.
pub proof fn lemma_first_refused(ls: Seq<Seq<char>>)
    ensures
        0 <= first_refused(ls) <= ls.len(),
        forall|j: int| 0 <= j < first_refused(ls) ==> MappingEntry::spec_from_str(ls[j]) is Ok,
        first_refused(ls) < ls.len() ==> MappingEntry::spec_from_str(ls[first_refused(ls)]) is Err,
    decreases ls.len(),
{
    if ls.len() == 0 || MappingEntry::spec_from_str(ls[0]) is Err {
    } else {
        let t = ls.drop_first();
        lemma_first_refused(t);
        assert forall|j: int| 0 <= j < first_refused(ls) implies MappingEntry::spec_from_str(
            ls[j],
        ) is Ok by {
            if j > 0 {
                assert(ls[j] == t[j - 1]);
            }
        }
        if first_refused(ls) < ls.len() {
            assert(ls[first_refused(ls)] == t[first_refused(t)]);
        }
    }
}

/// The position that `lemma_first_refused` describes is the only one.
pub proof fn lemma_first_refused_is(ls: Seq<Seq<char>>, k: int)
    requires
        0 <= k <= ls.len(),
        forall|j: int| 0 <= j < k ==> MappingEntry::spec_from_str(ls[j]) is Ok,
        k < ls.len() ==> MappingEntry::spec_from_str(ls[k]) is Err,
    ensures
        first_refused(ls) == k,
{
    lemma_first_refused(ls);
    let p = first_refused(ls);
    if p < k {
        assert(MappingEntry::spec_from_str(ls[p]) is Err);
    } else if k < p {
        assert(MappingEntry::spec_from_str(ls[k]) is Ok);
    }
}

impl<'a> Content<'a> {
    /// What the text after the header line means. Each of its lines is an
    /// entry. Where a line is refused, so is the whole text, with the
    /// message of the first such line.
    pub open spec fn spec_from_str(text: Seq<char>) -> Result<ContentView, Seq<char>> {
        let ls = lines(text);
        let k = first_refused(ls);
        if 0 <= k < ls.len() {
            Err(MappingEntry::spec_from_str(ls[k])->Err_0)
        } else {
            Ok(
                ContentView {
                    mapping_entries: Seq::new(
                        ls.len(),
                        |i: int| MappingEntry::spec_from_str(ls[i])->Ok_0,
                    ),
                },
            )
        }
    }

    /// Reads the text after the header line. Reading stops at the first
    /// line that is refused.
    pub fn from_str<'b>(s: &'a str) -> (r: Result<Self, TinyV1Error<'b>>)
        ensures
            outcome(r) == Self::spec_from_str(s@),
    {
        let mut mapping_entries: Vec<MappingEntry<'a>> = Vec::new();
        let mut rest = s;
        let ghost mut done: Seq<Seq<char>> = seq![];
        proof {
            assert(done + lines(rest@) =~= lines(s@));
        }
        while !rest.is_empty()
            invariant
                lines(s@) == done + lines(rest@),
                mapping_entries@.len() == done.len(),
                forall|i: int|
                    0 <= i < done.len() ==> MappingEntry::spec_from_str(#[trigger] done[i]) == Ok::<
                        MappingEntryView,
                        Seq<char>,
                    >(mapping_entries@[i]@),
            decreases rest@.len(),
        {
            let ghost before = rest@;
            let line;
            match split_once(rest, '\n') {
                Some((head, tail)) => {
                    line = strip_cr(head);
                    rest = tail;
                },
                None => {
                    line = rest;
                    rest = "";
                },
            }
            proof {
                reveal_strlit("");
                lemma_prefix_len(before, '\n');
                assert(lines(before) =~= seq![line@] + lines(rest@));
                assert(lines(s@) =~= done.push(line@) + lines(rest@));
                assert(lines(s@)[done.len() as int] == line@);
            }
            match MappingEntry::from_str(line) {
                Ok(entry) => {
                    mapping_entries.push(entry);
                    proof {
                        done = done.push(line@);
                    }
                },
                Err(e) => {
                    proof {
                        assert forall|j: int| 0 <= j < done.len() implies MappingEntry::spec_from_str(
                            lines(s@)[j],
                        ) is Ok by {
                            assert(lines(s@)[j] == done[j]);
                        }
                        lemma_first_refused_is(lines(s@), done.len() as int);
                    }
                    return Err(e);
                },
            }
        }
        let r = Content { mapping_entries };
        proof {
            assert(lines(s@) =~= done);
            lemma_first_refused_is(done, done.len() as int);
            assert(r@.mapping_entries =~= Self::spec_from_str(s@)->Ok_0.mapping_entries);
        }
        Ok(r)
    }
}

/// The text after the header line is accepted exactly where each of its
/// lines is. It then has one entry for each line, in the order of the lines.
/// Where it is refused, one line is refused with the same message, and every
/// line before that one is an entry.
pub proof fn lemma_content_lines(text: Seq<char>)
    ensures
        Content::spec_from_str(text) is Ok <==> forall|i: int|
            0 <= i < lines(text).len() ==> MappingEntry::spec_from_str(
                #[trigger] lines(text)[i],
            ) is Ok,
        Content::spec_from_str(text) matches Ok(c) ==> c.mapping_entries.len() == lines(text).len()
            && forall|i: int|
            0 <= i < lines(text).len() ==> MappingEntry::spec_from_str(#[trigger] lines(text)[i])
                == Ok::<MappingEntryView, Seq<char>>(c.mapping_entries[i]),
        Content::spec_from_str(text) matches Err(e) ==> exists|k: int|
            0 <= k < lines(text).len() && MappingEntry::spec_from_str(#[trigger] lines(text)[k])
                == Err::<MappingEntryView, Seq<char>>(e) && forall|j: int|
                0 <= j < k ==> MappingEntry::spec_from_str(#[trigger] lines(text)[j]) is Ok,
{
    let ls = lines(text);
    let k = first_refused(ls);
    lemma_first_refused(ls);
    if k < ls.len() {
        assert(MappingEntry::spec_from_str(ls[k]) is Err);
    }
}

} // verus!
