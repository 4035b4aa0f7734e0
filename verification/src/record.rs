use vstd::prelude::*;

verus! {

/// The structured value that the pipeline round-trips: a single named text
/// field. Its mathematical view is the field's character sequence.
#[derive(Clone, Debug)]
pub struct Record {
    pub value: String,
}

impl View for Record {
    type V = Seq<char>;

    open spec fn view(&self) -> Seq<char> {
        self.value@
    }
}

impl Record {
    /// Builds a record holding the given text.
    pub fn new(value: String) -> (r: Record)
        ensures
            r@ == value@,
    {
        Record { value }
    }
}

} // verus!
