//! What a successful operation reports.

use vstd::prelude::*;

verus! {

/// A named value in the log of an operation.
#[derive(Debug, Clone, PartialEq, Eq)]
pub struct Attribute {
    pub key: String,
    pub value: String,
}

impl View for Attribute {
    type V = (Seq<char>, Seq<char>);

    open spec fn view(&self) -> (Seq<char>, Seq<char>) {
        (self.key@, self.value@)
    }
}

/// The attribute `key = value`.
pub fn attr(key: &str, value: &str) -> (r: Attribute)
    ensures
        r@ == (key@, value@),
{
    Attribute { key: key.to_owned(), value: value.to_owned() }
}

/// The views of a list of attributes.
pub open spec fn attribute_views(attributes: Seq<Attribute>) -> Seq<(Seq<char>, Seq<char>)> {
    attributes.map_values(|a: Attribute| a@)
}

/// The log of an operation: its attributes, in the order they were added.
#[derive(Debug, Clone, PartialEq, Eq)]
pub struct Response {
    pub attributes: Vec<Attribute>,
}

impl View for Response {
    type V = Seq<(Seq<char>, Seq<char>)>;

    open spec fn view(&self) -> Seq<(Seq<char>, Seq<char>)> {
        attribute_views(self.attributes@)
    }
}

impl Response {
    /// A log without attributes.
    pub fn new() -> (r: Response)
        ensures
            r@ == Seq::<(Seq<char>, Seq<char>)>::empty(),
    {
        let r = Response { attributes: Vec::new() };
        assert(r@ =~= Seq::<(Seq<char>, Seq<char>)>::empty());
        r
    }

    /// The log with `attributes` added at its end.
    pub fn add_attributes(self, attributes: Vec<Attribute>) -> (r: Response)
        ensures
            r@ == self@ + attribute_views(attributes@),
    {
        let mut all = self.attributes;
        let mut more = attributes;
        let ghost before = all@;
        let ghost added = more@;
        all.append(&mut more);
        let r = Response { attributes: all };
        assert(r@ =~= attribute_views(before) + attribute_views(added));
        r
    }

    /// The log with one attribute added at its end.
    pub fn add_attribute(self, attribute: Attribute) -> (r: Response)
        ensures
            r@ == self@.push(attribute@),
    {
        let mut all = self.attributes;
        let ghost before = all@;
        all.push(attribute);
        let r = Response { attributes: all };
        assert(r@ =~= attribute_views(before).push(attribute@));
        r
    }
}

} // verus!
