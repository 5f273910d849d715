use vstd::prelude::*;

verus! {

/// A document as the service sent it. `name` is the document's full path;
/// `body` is everything else (fields, timestamps), which this layer carries
/// along without looking at it.
#[derive(Debug, Clone, PartialEq, Eq)]
pub struct RawDocument<B> {
    pub name: String,
    pub body: B,
}

/// One answer in the response to a batch request.
#[derive(Debug, Clone, PartialEq, Eq)]
pub enum Envelope<B> {
    /// The document exists.
    Found(RawDocument<B>),
    /// No document exists under this full path.
    Missing(String),
}

impl<B> Envelope<B> {
    /// The full path that this answer is about.
    pub open spec fn full_name(self) -> Seq<char> {
        match self {
            Envelope::Found(doc) => doc.name@,
            Envelope::Missing(name) => name@,
        }
    }
}

} // verus!
