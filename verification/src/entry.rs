//! One line of a mapping file's content.

use vstd::prelude::*;
use crate::error::{outcome, TinyV1Error};
use crate::text::{lemma_prefix_len, lemma_split, split, str_eq, texts, Fields};

verus! {

/// What one line says: the names of a class, of a field or of a method in
/// each namespace.
///
/// Every name borrows from the line that was read. Nothing ties an entry to
/// another one or to the header: the class that a field belongs to is a name
/// like any other, and the number of names is not held against the number of
/// namespaces.
#[allow(clippy::upper_case_acronyms)]
#[derive(Debug, PartialEq, Eq)]
pub enum MappingEntry<'a> {
    /// A class, with its name in each namespace.
    CLASS { class_names: Vec<&'a str> },
    /// A field. The class and the descriptor are those of the first
    /// namespace.
    FIELD {
        parent_class_name_a: &'a str,
        field_desc_a: &'a str,
        field_name_a: &'a str,
        field_name_b: &'a str,
        extra_ns_field_names: Vec<&'a str>,
    },
    /// A method. The class and the descriptor are those of the first
    /// namespace.
    METHOD {
        parent_class_name_a: &'a str,
        method_desc_a: &'a str,
        method_name_a: &'a str,
        method_name_b: &'a str,
        extra_ns_method_names: Vec<&'a str>,
    },
}

/// What a field line and a method line have in common, as plain sequences
/// of characters.
pub struct MemberView {
    pub parent_class_name_a: Seq<char>,
    pub desc_a: Seq<char>,
    pub name_a: Seq<char>,
    pub name_b: Seq<char>,
    pub extra_ns_names: Seq<Seq<char>>,
}

/// An entry as plain sequences of characters.
pub enum MappingEntryView {
    Class { class_names: Seq<Seq<char>> },
    Field { member: MemberView },
    Method { member: MemberView },
}

impl<'a> View for MappingEntry<'a> {
    type V = MappingEntryView;

    open spec fn view(&self) -> MappingEntryView {
        match *self {
            MappingEntry::CLASS { class_names } => MappingEntryView::Class {
                class_names: texts(class_names@),
            },
            MappingEntry::FIELD {
                parent_class_name_a,
                field_desc_a,
                field_name_a,
                field_name_b,
                extra_ns_field_names,
            } => MappingEntryView::Field {
                member: MemberView {
                    parent_class_name_a: parent_class_name_a@,
                    desc_a: field_desc_a@,
                    name_a: field_name_a@,
                    name_b: field_name_b@,
                    extra_ns_names: texts(extra_ns_field_names@),
                },
            },
            MappingEntry::METHOD {
                parent_class_name_a,
                method_desc_a,
                method_name_a,
                method_name_b,
                extra_ns_method_names,
            } => MappingEntryView::Method {
                member: MemberView {
                    parent_class_name_a: parent_class_name_a@,
                    desc_a: method_desc_a@,
                    name_a: method_name_a@,
                    name_b: method_name_b@,
                    extra_ns_names: texts(extra_ns_method_names@),
                },
            },
        }
    }
}

/// What the fields after the keyword of a field line or a method line mean:
/// the class, the descriptor, the name in the first namespace and the name
/// in the second must be there, in this order; names in further namespaces
/// may follow. The first of the four that is missing decides the message.
pub open spec fn spec_member(fields: Seq<Seq<char>>) -> Result<MemberView, Seq<char>> {
    if fields.len() < 1 {
        Err("Parent class not found"@)
    } else if fields.len() < 2 {
        Err("descriptor not found"@)
    } else if fields.len() < 3 {
        Err("name a not found"@)
    } else if fields.len() < 4 {
        Err("name b not found"@)
    } else {
        Ok(
            MemberView {
                parent_class_name_a: fields[0],
                desc_a: fields[1],
                name_a: fields[2],
                name_b: fields[3],
                extra_ns_names: fields.skip(4),
            },
        )
    }
}

/// A member as it is read, before it is known to be a field or a method.
struct Member<'a> {
    parent_class_name_a: &'a str,
    desc_a: &'a str,
    name_a: &'a str,
    name_b: &'a str,
    extra_ns_names: Vec<&'a str>,
}

impl<'a> View for Member<'a> {
    type V = MemberView;

    closed spec fn view(&self) -> MemberView {
        MemberView {
            parent_class_name_a: self.parent_class_name_a@,
            desc_a: self.desc_a@,
            name_a: self.name_a@,
            name_b: self.name_b@,
            extra_ns_names: texts(self.extra_ns_names@),
        }
    }
}

/// Reads what follows the keyword of a field line or a method line.
fn read_member<'a, 'b>(fields: Fields<'a>) -> (r: Result<Member<'a>, TinyV1Error<'b>>)
    ensures
        outcome(r) == spec_member(fields@),
{
    let mut fields = fields;
    let ghost all = fields@;
    let parent_class_name_a = match fields.next() {
        Some(x) => x,
        None => { return Err(TinyV1Error("Parent class not found")); },
    };
    let desc_a = match fields.next() {
        Some(x) => x,
        None => { return Err(TinyV1Error("descriptor not found")); },
    };
    let name_a = match fields.next() {
        Some(x) => x,
        None => { return Err(TinyV1Error("name a not found")); },
    };
    let name_b = match fields.next() {
        Some(x) => x,
        None => { return Err(TinyV1Error("name b not found")); },
    };
    let extra_ns_names = fields.collect();
    proof {
        assert(texts(extra_ns_names@) =~= all.skip(4));
    }
    Ok(Member { parent_class_name_a, desc_a, name_a, name_b, extra_ns_names })
}

impl<'a> MappingEntry<'a> {
    /// What a content line means. Its fields are separated by tabs, and the
    /// first of them is the keyword: `CLASS`, `FIELD` or `METHOD`. After
    /// `CLASS` every field is a name. After the other two, see
    /// [`spec_member`]. Any other keyword is refused, the empty one too: a
    /// line with nothing on it has one field, which is empty.
    pub open spec fn spec_from_str(line: Seq<char>) -> Result<MappingEntryView, Seq<char>> {
        let fields = split(line, '\t');
        if fields.len() < 1 {
            Err("Line can not be empty"@)
        } else if fields[0] == "CLASS"@ {
            Ok(MappingEntryView::Class { class_names: fields.skip(1) })
        } else if fields[0] == "FIELD"@ {
            match spec_member(fields.skip(1)) {
                Ok(member) => Ok(MappingEntryView::Field { member }),
                Err(e) => Err(e),
            }
        } else if fields[0] == "METHOD"@ {
            match spec_member(fields.skip(1)) {
                Ok(member) => Ok(MappingEntryView::Method { member }),
                Err(e) => Err(e),
            }
        } else {
            Err("Invalid Identifier"@)
        }
    }

    /// Reads a content line.
    pub fn from_str<'b>(s: &'a str) -> (r: Result<Self, TinyV1Error<'b>>)
        ensures
            outcome(r) == Self::spec_from_str(s@),
    {
        let mut mapping_entry = Fields::new(s);
        let keyword = match mapping_entry.next() {
            Some(x) => x,
            None => { return Err(TinyV1Error("Line can not be empty")); },
        };
        proof {
            assert(mapping_entry@ =~= split(s@, '\t').skip(1));
        }
        if str_eq(keyword, "CLASS") {
            let class_names = mapping_entry.collect();
            Ok(MappingEntry::CLASS { class_names })
        } else if str_eq(keyword, "FIELD") {
            match read_member(mapping_entry) {
                Ok(m) => Ok(
                    MappingEntry::FIELD {
                        parent_class_name_a: m.parent_class_name_a,
                        field_desc_a: m.desc_a,
                        field_name_a: m.name_a,
                        field_name_b: m.name_b,
                        extra_ns_field_names: m.extra_ns_names,
                    },
                ),
                Err(e) => Err(e),
            }
        } else if str_eq(keyword, "METHOD") {
            match read_member(mapping_entry) {
                Ok(m) => Ok(
                    MappingEntry::METHOD {
                        parent_class_name_a: m.parent_class_name_a,
                        method_desc_a: m.desc_a,
                        method_name_a: m.name_a,
                        method_name_b: m.name_b,
                        extra_ns_method_names: m.extra_ns_names,
                    },
                ),
                Err(e) => Err(e),
            }
        } else {
            Err(TinyV1Error("Invalid Identifier"))
        }
    }
}

/// A line always has a first field, so no line is refused as empty: the
/// line with nothing on it is refused for its keyword, like every line whose
/// first field is none of the three keywords.
pub proof fn lemma_entry_keyword(line: Seq<char>)
    ensures
        MappingEntry::spec_from_str(line) != Err::<MappingEntryView, Seq<char>>(
            "Line can not be empty"@,
        ),
        line.len() == 0 ==> MappingEntry::spec_from_str(line) == Err::<MappingEntryView, Seq<char>>(
            "Invalid Identifier"@,
        ),
        split(line, '\t')[0] != "CLASS"@ && split(line, '\t')[0] != "FIELD"@ && split(line, '\t')[0]
            != "METHOD"@ ==> MappingEntry::spec_from_str(line) == Err::<
            MappingEntryView,
            Seq<char>,
        >("Invalid Identifier"@),
{
    lemma_split(line, '\t');
    lemma_prefix_len(line, '\t');
    reveal_strlit("Line can not be empty");
    reveal_strlit("Parent class not found");
    reveal_strlit("descriptor not found");
    reveal_strlit("name a not found");
    reveal_strlit("name b not found");
    reveal_strlit("Invalid Identifier");
    reveal_strlit("CLASS");
    reveal_strlit("FIELD");
    reveal_strlit("METHOD");
    assert("Line can not be empty"@.len() == 21);
    assert("Parent class not found"@.len() == 22);
    assert("descriptor not found"@.len() == 20);
    assert("name a not found"@.len() == 16);
    assert("name b not found"@.len() == 16);
    assert("Invalid Identifier"@.len() == 18);
}

} // verus!
