//! A page: a title, a document and an outline of sections.

use crate::document::Document;
use vstd::prelude::*;

verus! {

/// One entry of a page's outline.
#[derive(Clone, Debug, PartialEq, Eq)]
pub struct Section {
    /// The number shown before the section's text, such as "2.1".
    pub number: String,
    pub text: String,
    /// The identifier of the header that the section starts with.
    pub anchor: String,
}

/// A page to show.
#[derive(Clone, Debug, PartialEq, Eq)]
pub struct Page {
    pub title: String,
    pub content: Document,
    pub sections: Option<Vec<Section>>,
}

impl Page {
    /// The outline of the page, if it has one.
    pub fn sections(&self) -> (r: Option<&Vec<Section>>)
        ensures
            r is Some <==> self.sections is Some,
            r matches Some(s) ==> *s == self.sections->0,
    {
        match &self.sections {
            Some(sections) => Some(sections),
            None => None,
        }
    }

    /// Number of sections in the outline; none where the page has no
    /// outline.
    pub open spec fn section_count(&self) -> nat {
        match self.sections {
            Some(s) => s@.len(),
            None => 0,
        }
    }
}

} // verus!
