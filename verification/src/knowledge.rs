//! The knowledge base: documents in the order in which they were added.

use crate::document::{document_equal, documents_view, Document, DocumentView};
use vstd::prelude::*;
use vstd::std_specs::cmp::PartialEqSpecImpl;
use vstd::std_specs::iter::IteratorSpec;

verus! {

/// Value equality of two lists of documents: the same length, and equal
/// documents at each place.
pub open spec fn documents_equal(a: Seq<DocumentView>, b: Seq<DocumentView>) -> bool {
    &&& a.len() == b.len()
    &&& forall|i: int| 0 <= i < a.len() ==> document_equal(#[trigger] a[i], b[i])
}

/// The documents of a knowledge base after a run of additions, made one
/// after the other.
pub open spec fn after_additions(start: Seq<DocumentView>, added: Seq<DocumentView>) -> Seq<
    DocumentView,
>
    decreases added.len(),
{
    if added.len() == 0 {
        start
    } else {
        after_additions(start, added.drop_last()).push(added.last())
    }
}

/// Ordering: after any run of additions the knowledge base holds what it
/// held before, followed by the added documents in the order of the calls.
pub proof fn lemma_additions_keep_call_order(start: Seq<DocumentView>, added: Seq<DocumentView>)
    ensures
        after_additions(start, added) == start + added,
    decreases added.len(),
{
    if added.len() == 0 {
        assert(start + added =~= start);
    } else {
        lemma_additions_keep_call_order(start, added.drop_last());
        assert((start + added.drop_last()).push(added.last()) =~= start + added);
    }
}

/// An ordered collection of documents. It keeps duplicates and never
/// reorders.
#[derive(Debug)]
pub struct DocumentKnowledgeBase {
    pub documents: Vec<Document>,
}

impl View for DocumentKnowledgeBase {
    type V = Seq<DocumentView>;

    open spec fn view(&self) -> Seq<DocumentView> {
        documents_view(self.documents@)
    }
}

impl DocumentKnowledgeBase {
    /// The knowledge base of the given documents, in their order.
    pub fn new(documents: Vec<Document>) -> (r: Self)
        ensures
            r.documents == documents,
    {
        DocumentKnowledgeBase { documents }
    }

    /// One group per document, in order: each group holds a copy of that
    /// document and nothing else.
    pub fn document_lists_iter(&self) -> (r: Vec<Vec<Document>>)
        ensures
            r@.len() == self@.len(),
            forall|i: int|
                0 <= i < r@.len() ==> (#[trigger] r@[i])@.len() == 1 && r@[i]@[0]@ == self@[i],
    {
        let mut groups: Vec<Vec<Document>> = Vec::new();
        let mut i: usize = 0;
        while i < self.documents.len()
            invariant
                i <= self.documents@.len(),
                groups@.len() == i,
                forall|j: int|
                    0 <= j < i ==> (#[trigger] groups@[j])@.len() == 1 && groups@[j]@[0]@
                        == self.documents@[j]@,
            decreases self.documents@.len() - i,
        {
            let mut group: Vec<Document> = Vec::new();
            group.push(self.documents[i].clone());
            groups.push(group);
            i += 1;
        }
        groups
    }

    /// The documents, read-only, in the order in which they were added.
    pub fn iter_documents(&self) -> (r: core::slice::Iter<'_, Document>)
        ensures
            r.remaining() == self.documents@.as_ref(),
    {
        broadcast use vstd::std_specs::slice::axiom_spec_slice_iter;

        self.documents.as_slice().iter()
    }

    /// Adds the document at the end.
    pub fn add_document(&mut self, document: Document)
        ensures
            final(self).documents@ == old(self).documents@.push(document),
            final(self)@ == old(self)@.push(document@),
    {
        self.documents.push(document);
        assert(self@ =~= old(self)@.push(document@));
    }

    /// The number of documents.
    pub fn len(&self) -> (r: usize)
        ensures
            r == self@.len(),
    {
        self.documents.len()
    }

    /// Whether there is no document.
    pub fn is_empty(&self) -> (r: bool)
        ensures
            r == (self@.len() == 0),
    {
        self.documents.len() == 0
    }

    /// Value equality: the same number of documents, and equal documents at
    /// each place.
    pub fn equals(&self, other: &DocumentKnowledgeBase) -> (r: bool)
        ensures
            r == documents_equal(self@, other@),
    {
        if self.documents.len() != other.documents.len() {
            return false;
        }
        let mut i: usize = 0;
        while i < self.documents.len()
            invariant
                i <= self.documents@.len(),
                self.documents@.len() == other.documents@.len(),
                forall|j: int| 0 <= j < i ==> document_equal(#[trigger] self@[j], other@[j]),
            decreases self.documents@.len() - i,
        {
            if !self.documents[i].equals(&other.documents[i]) {
                assert(!document_equal(self@[i as int], other@[i as int]));
                return false;
            }
            i += 1;
        }
        true
    }
}

impl Clone for DocumentKnowledgeBase {
    fn clone(&self) -> (r: Self)
        ensures
            r@ == self@,
    {
        let mut documents: Vec<Document> = Vec::new();
        let mut i: usize = 0;
        while i < self.documents.len()
            invariant
                i <= self.documents@.len(),
                documents@.len() == i,
                forall|j: int| 0 <= j < i ==> (#[trigger] documents@[j])@ == self.documents@[j]@,
            decreases self.documents@.len() - i,
        {
            documents.push(self.documents[i].clone());
            i += 1;
        }
        assert(documents_view(documents@) =~= self@);
        DocumentKnowledgeBase { documents }
    }
}

impl PartialEq for DocumentKnowledgeBase {
    fn eq(&self, other: &Self) -> (r: bool) {
        self.equals(other)
    }
}

impl PartialEqSpecImpl for DocumentKnowledgeBase {
    open spec fn obeys_eq_spec() -> bool {
        true
    }

    open spec fn eq_spec(&self, other: &Self) -> bool {
        documents_equal(self@, other@)
    }
}

} // verus!
