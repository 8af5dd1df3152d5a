//! Splitting text at single characters.
//!
//! The format is made of lines and of tab-separated fields. This module says
//! what those are as functions on sequences of characters, and holds the
//! executable code that cuts a string slice accordingly. The slices that come
//! out borrow from the slice that went in: nothing is copied.

use vstd::prelude::*;
use vstd::string::StringSliceAdditionalSpecFns;
use vstd::utf8::*;
use crate::ascii::{
    lemma_ascii_occurs, lemma_encode_ascii, lemma_encode_concat, lemma_encode_injective,
    lemma_first_byte_ascii,
};

verus! {

/// The number of characters of `s` that stand before its first `c`; the
/// length of `s` where `c` does not occur.
pub open spec fn prefix_len(s: Seq<char>, c: char) -> int
    decreases s.len(),
{
    if s.len() == 0 || s[0] == c {
        0
    } else {
        1 + prefix_len(s.drop_first(), c)
    }
}

/// The pieces of `s` between the occurrences of `sep`, in order. There is
/// one piece more than there are separators, so the result is never empty;
/// a piece may be.
pub open spec fn split(s: Seq<char>, sep: char) -> Seq<Seq<char>>
    decreases s.len(),
{
    let i = prefix_len(s, sep);
    if 0 <= i < s.len() {
        seq![s.take(i)] + split(s.skip(i + 1), sep)
    } else {
        seq![s]
    }
}

/// `l` without a carriage return at its end.
pub open spec fn without_cr(l: Seq<char>) -> Seq<char> {
    if l.len() > 0 && l.last() == '\r' {
        l.drop_last()
    } else {
        l
    }
}

/// The lines of `s`. A line ends at a line feed; a carriage return directly
/// before that line feed belongs to the line ending. The last line needs no
/// line ending, so text that ends in one has no empty line after it, and
/// empty text has no line at all.
pub open spec fn lines(s: Seq<char>) -> Seq<Seq<char>>
    decreases s.len(),
{
    let i = prefix_len(s, '\n');
    if s.len() == 0 {
        seq![]
    } else if 0 <= i < s.len() {
        seq![without_cr(s.take(i))] + lines(s.skip(i + 1))
    } else {
        seq![s]
    }
}

/// The views of a sequence of string slices.
pub open spec fn texts(v: Seq<&str>) -> Seq<Seq<char>> {
    Seq::new(v.len(), |i: int| v[i]@)
}

/// `prefix_len` is a position in `s`, nothing before it is `c`, and where it
/// is not the end of `s` it holds a `c`.
pub proof fn lemma_prefix_len(s: Seq<char>, c: char)
    ensures
        0 <= prefix_len(s, c) <= s.len(),
        forall|j: int| 0 <= j < prefix_len(s, c) ==> s[j] != c,
        prefix_len(s, c) < s.len() ==> s[prefix_len(s, c)] == c,
        prefix_len(s, c) == s.len() <==> !s.contains(c),
    decreases s.len(),
{
    if s.len() == 0 || s[0] == c {
    } else {
        let t = s.drop_first();
        lemma_prefix_len(t, c);
        assert forall|j: int| 0 <= j < prefix_len(s, c) implies s[j] != c by {
            if j > 0 {
                assert(s[j] == t[j - 1]);
            }
        }
        if prefix_len(s, c) < s.len() {
            assert(s[prefix_len(s, c)] == t[prefix_len(t, c)]);
        }
    }
    if prefix_len(s, c) == s.len() {
        assert(!s.contains(c));
    } else {
        assert(s.contains(c));
    }
}

/// The position that `lemma_prefix_len` describes is the only one.
pub proof fn lemma_prefix_len_is(s: Seq<char>, c: char, i: int)
    requires
        0 <= i <= s.len(),
        forall|j: int| 0 <= j < i ==> s[j] != c,
        i < s.len() ==> s[i] == c,
    ensures
        prefix_len(s, c) == i,
{
    lemma_prefix_len(s, c);
    let p = prefix_len(s, c);
    if p < i {
        assert(s[p] == c);
    } else if i < p {
        assert(s[i] == c);
    }
}

/// The pieces put together again, with a `sep` between each two.
pub open spec fn join(parts: Seq<Seq<char>>, sep: char) -> Seq<char>
    decreases parts.len(),
{
    if parts.len() == 0 {
        seq![]
    } else if parts.len() == 1 {
        parts[0]
    } else {
        parts[0] + seq![sep] + join(parts.drop_first(), sep)
    }
}

/// Splitting gives at least one piece, no piece holds the separator, and
/// the pieces joined by the separator are the text that was split.
pub proof fn lemma_split(s: Seq<char>, sep: char)
    ensures
        split(s, sep).len() >= 1,
        forall|i: int| 0 <= i < split(s, sep).len() ==> !(#[trigger] split(s, sep)[i]).contains(sep),
        join(split(s, sep), sep) == s,
    decreases s.len(),
{
    let i = prefix_len(s, sep);
    lemma_prefix_len(s, sep);
    if i < s.len() {
        let head = s.take(i);
        let tail = s.skip(i + 1);
        lemma_split(tail, sep);
        let parts = split(s, sep);
        assert(parts.drop_first() =~= split(tail, sep));
        assert(!head.contains(sep)) by {
            if head.contains(sep) {
                let k = choose|k: int| 0 <= k < head.len() && head[k] == sep;
                assert(s[k] == sep);
            }
        }
        assert forall|j: int| 0 <= j < parts.len() implies !(#[trigger] parts[j]).contains(sep) by {
            if j > 0 {
                assert(parts[j] == split(tail, sep)[j - 1]);
            }
        }
        assert(head + seq![sep] + tail =~= s);
    }
}

/// What `lemma_split` says of the pieces holds of no other sequence: it
/// says what splitting is.
pub proof fn lemma_split_is(s: Seq<char>, sep: char, parts: Seq<Seq<char>>)
    requires
        parts.len() >= 1,
        forall|i: int| 0 <= i < parts.len() ==> !(#[trigger] parts[i]).contains(sep),
        join(parts, sep) == s,
    ensures
        split(s, sep) == parts,
    decreases parts.len(),
{
    if parts.len() == 1 {
        lemma_prefix_len(s, sep);
        assert(split(s, sep) =~= parts);
    } else {
        let head = parts[0];
        let rest = parts.drop_first();
        let tail = join(rest, sep);
        assert(s == head + seq![sep] + tail);
        assert forall|j: int| 0 <= j < head.len() implies s[j] != sep by {
            assert(s[j] == head[j]);
        }
        assert(s[head.len() as int] == sep);
        lemma_prefix_len_is(s, sep, head.len() as int);
        assert(s.take(head.len() as int) =~= head);
        assert(s.skip(head.len() as int + 1) =~= tail);
        assert forall|i: int| 0 <= i < rest.len() implies !(#[trigger] rest[i]).contains(sep) by {
            assert(rest[i] == parts[i + 1]);
        }
        lemma_split_is(tail, sep, rest);
        assert(split(s, sep) =~= parts);
    }
}

/// The lines of a text are its pieces between line feeds, each without a
/// carriage return at its end. Only the piece after the last line feed is
/// taken as it stands, and it is no line where it is empty.
pub proof fn lemma_lines(s: Seq<char>)
    ensures
        ({
            let pieces = split(s, '\n');
            let n = pieces.len() - 1;
            &&& lines(s).len() == if pieces[n].len() == 0 { n } else { n + 1 }
            &&& forall|i: int| 0 <= i < n ==> #[trigger] lines(s)[i] == without_cr(pieces[i])
            &&& pieces[n].len() > 0 ==> lines(s)[n] == pieces[n]
        }),
    decreases s.len(),
{
    let i = prefix_len(s, '\n');
    lemma_prefix_len(s, '\n');
    if i < s.len() {
        let tail = s.skip(i + 1);
        lemma_lines(tail);
        lemma_split(tail, '\n');
        let pieces = split(s, '\n');
        let n = pieces.len() - 1;
        assert(pieces.drop_first() =~= split(tail, '\n'));
        assert(lines(s).drop_first() =~= lines(tail));
        assert(pieces[n] == split(tail, '\n')[n - 1]);
        assert forall|j: int| 0 <= j < n implies #[trigger] lines(s)[j] == without_cr(pieces[j]) by {
            if j > 0 {
                assert(lines(s)[j] == lines(tail)[j - 1]);
                assert(pieces[j] == split(tail, '\n')[j - 1]);
            }
        }
        if pieces[n].len() > 0 {
            assert(lines(s)[n] == lines(tail)[n - 1]);
        }
    }
}

/// The position of the first `b` among `x`; the length of `x` where there
/// is none.
fn find_byte(x: &[u8], b: u8) -> (i: usize)
    ensures
        0 <= i <= x@.len(),
        forall|j: int| 0 <= j < i ==> x@[j] != b,
        i < x@.len() ==> x@[i as int] == b,
{
    let mut i: usize = 0;
    while i < x.len() && x[i] != b
        invariant
            0 <= i <= x@.len(),
            forall|j: int| 0 <= j < i ==> x@[j] != b,
        decreases x@.len() - i,
    {
        i += 1;
    }
    i
}

/// Cuts `s` at its first `sep`, which must be an ASCII character: what
/// stands before it, and what stands after it. `None` where `sep` does not
/// occur in `s`.
pub fn split_once<'a>(s: &'a str, sep: char) -> (r: Option<(&'a str, &'a str)>)
    requires
        (sep as u32) < 0x80,
    ensures
        r is Some <==> s@.contains(sep),
        r is Some <==> prefix_len(s@, sep) < s@.len(),
        r matches Some((head, tail)) ==> head@ == s@.take(prefix_len(s@, sep)) && tail@
            == s@.skip(prefix_len(s@, sep) + 1),
{
    let b: u8 = sep as u8;
    let bytes = s.as_bytes();
    let i = find_byte(bytes, b);
    proof {
        lemma_prefix_len(s@, sep);
        lemma_ascii_occurs(s@, sep, b);
    }
    if i >= bytes.len() {
        return None;
    }
    proof {
        encode_utf8_valid_utf8(s@);
        is_char_boundary_iff_not_is_continuation_byte(bytes@, i as int);
    }
    let (head, rest) = s.split_at(i);
    proof {
        lemma_cut(s@, i as int, head@, rest@);
        lemma_first_byte_ascii(rest@);
        encode_utf8_valid_utf8(rest@);
        reveal_with_fuel(is_char_boundary, 2);
    }
    let (mark, tail) = rest.split_at(1);
    proof {
        lemma_encode_injective(tail@, rest@.drop_first());
        lemma_ascii_occurs(head@, sep, b);
        char_u32_cast(rest@[0], b as u32);
        char_u32_cast(sep, b as u32);
        lemma_prefix_len_is(s@, sep, head@.len() as int);
        assert(head@ =~= s@.take(head@.len() as int));
        assert(tail@ =~= s@.skip(head@.len() as int + 1));
    }
    Some((head, tail))
}

/// What `str::split_at` means for the characters: the two parts, one after
/// the other, are the whole.
proof fn lemma_cut(s: Seq<char>, i: int, head: Seq<char>, rest: Seq<char>)
    requires
        is_char_boundary(encode_utf8(s), i),
        encode_utf8(head) =~= encode_utf8(s).subrange(0, i),
        encode_utf8(rest) =~= encode_utf8(s).subrange(i, encode_utf8(s).len() as int),
    ensures
        s == head + rest,
{
    let bytes = encode_utf8(s);
    encode_utf8_valid_utf8(s);
    decode_utf8_split(bytes, i);
    encode_utf8_decode_utf8(s);
    encode_utf8_decode_utf8(head);
    encode_utf8_decode_utf8(rest);
}

/// `s` without a carriage return at its end.
pub fn strip_cr<'a>(s: &'a str) -> (r: &'a str)
    ensures
        r@ == without_cr(s@),
{
    let bytes = s.as_bytes();
    let n = bytes.len();
    if n == 0 {
        proof {
            lemma_encode_injective(s@, Seq::<char>::empty());
        }
        return s;
    }
    proof {
        encode_utf8_valid_utf8(s@);
        if s@.len() > 0 {
            assert(s@ =~= s@.drop_last() + seq![s@.last()]);
            lemma_encode_concat(s@.drop_last(), seq![s@.last()]);
            if s@.last() == '\r' {
                lemma_encode_ascii('\r', 0x0du8);
            }
        }
    }
    if bytes[n - 1] != 0x0d {
        return s;
    }
    proof {
        is_char_boundary_iff_not_is_continuation_byte(bytes@, n - 1);
    }
    let (head, last) = s.split_at(n - 1);
    proof {
        lemma_cut(s@, n - 1, head@, last@);
        lemma_first_byte_ascii(last@);
        lemma_encode_injective(last@.drop_first(), Seq::<char>::empty());
        assert(last@ =~= seq![last@[0]]);
        char_u32_cast(last@[0], 0x0du32);
        char_u32_cast('\r', 0x0du32);
        assert(head@ =~= s@.drop_last());
    }
    head
}

/// Whether two string slices hold the same characters.
pub fn str_eq(a: &str, b: &str) -> (r: bool)
    ensures
        r == (a@ == b@),
{
    let x = a.as_bytes();
    let y = b.as_bytes();
    proof {
        if x@ == y@ {
            lemma_encode_injective(a@, b@);
        }
    }
    if x.len() != y.len() {
        return false;
    }
    let mut i: usize = 0;
    while i < x.len()
        invariant
            x@ == a.spec_bytes(),
            y@ == b.spec_bytes(),
            x@.len() == y@.len(),
            0 <= i <= x@.len(),
            forall|j: int| 0 <= j < i ==> x@[j] == y@[j],
        decreases x.len() - i,
    {
        if x[i] != y[i] {
            return false;
        }
        i += 1;
    }
    assert(x@ =~= y@);
    true
}

/// The tab-separated fields of a line that have not been taken yet.
pub struct Fields<'a> {
    rest: Option<&'a str>,
}

impl<'a> Fields<'a> {
    /// The fields still to come, in order.
    pub closed spec fn view(&self) -> Seq<Seq<char>> {
        match self.rest {
            Some(r) => split(r@, '\t'),
            None => seq![],
        }
    }

    /// All the fields of `line`.
    pub fn new(line: &'a str) -> (f: Self)
        ensures
            f@ == split(line@, '\t'),
    {
        Fields { rest: Some(line) }
    }

    /// Takes the next field, if one is left.
    pub fn next(&mut self) -> (t: Option<&'a str>)
        ensures
            t is Some <==> old(self)@.len() > 0,
            t matches Some(x) ==> x@ == old(self)@[0] && final(self)@ == old(self)@.drop_first(),
            t is None ==> final(self)@ == old(self)@,
    {
        match self.rest {
            None => None,
            Some(r) => {
                match split_once(r, '\t') {
                    Some((head, tail)) => {
                        proof {
                            lemma_prefix_len(r@, '\t');
                            assert(split(r@, '\t').drop_first() =~= split(tail@, '\t'));
                        }
                        self.rest = Some(tail);
                        Some(head)
                    },
                    None => {
                        proof {
                            assert(split(r@, '\t').drop_first() =~= Seq::<Seq<char>>::empty());
                        }
                        self.rest = None;
                        Some(r)
                    },
                }
            },
        }
    }

    /// Takes all the fields that are left.
    pub fn collect(self) -> (v: Vec<&'a str>)
        ensures
            texts(v@) == self@,
    {
        let mut fields = self;
        let mut v: Vec<&'a str> = Vec::new();
        loop
            invariant
                self@ == texts(v@) + fields@,
            decreases fields@.len(),
        {
            match fields.next() {
                Some(x) => {
                    proof {
                        assert(texts(v@.push(x)) =~= texts(v@).push(x@));
                    }
                    v.push(x);
                },
                None => {
                    assert(texts(v@) + fields@ =~= texts(v@));
                    return v;
                },
            }
        }
    }
}

} // verus!
