use vstd::prelude::*;

verus! {

/// A syntax failure raised while lexing or parsing; carries a descriptive
/// message. Its view is the message text.
#[derive(Debug, Clone)]
pub struct Error(pub String);

impl View for Error {
    type V = Seq<char>;

    open spec fn view(&self) -> Seq<char> {
        self.0@
    }
}

} // verus!
