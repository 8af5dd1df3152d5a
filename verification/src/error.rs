use vstd::prelude::*;

verus! {

/// A structural violation found while reading a mapping file.
///
/// The value carries nothing but a message. The message never borrows from
/// the text that was being read, so an error can outlive that text.
#[derive(Debug, Clone, Copy, PartialEq, Eq)]
pub struct TinyV1Error<'a>(pub &'a str);

impl<'a> TinyV1Error<'a> {
    /// The message as a sequence of characters.
    pub open spec fn view(&self) -> Seq<char> {
        self.0@
    }
}

/// What a result of reading says, with the value and the message each taken
/// by its view.
pub open spec fn outcome<T: View>(r: Result<T, TinyV1Error<'_>>) -> Result<T::V, Seq<char>> {
    match r {
        Ok(v) => Ok(v@),
        Err(e) => Err(e@),
    }
}

} // verus!
