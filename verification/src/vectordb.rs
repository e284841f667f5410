//! The contract that every storage backend obeys, and the errors that its
//! operations report.

use crate::document::{Document, DocumentView};
use crate::json::JsonMap;
use vstd::prelude::*;
use vstd::string::StringExecFns;

verus! {

/// Why an operation of a backend failed.
#[derive(Debug)]
pub enum VectorDbError {
    /// The backend does not support the operation or the search mode.
    NotImplemented,
    /// The backend could not be reached.
    ConnectionError(String),
    /// The backend took the request and could not complete it.
    OperationFailed(String),
}

impl VectorDbError {
    /// The text that describes the error.
    pub open spec fn text(self) -> Seq<char> {
        match self {
            VectorDbError::NotImplemented => "Operation not implemented"@,
            VectorDbError::ConnectionError(detail) => "Connection error: "@ + detail@,
            VectorDbError::OperationFailed(detail) => "Operation failed: "@ + detail@,
        }
    }

    /// The text that describes the error.
    pub fn to_string(&self) -> (r: String)
        ensures
            r@ == self.text(),
    {
        match self {
            VectorDbError::NotImplemented => "Operation not implemented".to_owned(),
            VectorDbError::ConnectionError(detail) => {
                let mut text = "Connection error: ".to_owned();
                text.append(detail.as_str());
                text
            },
            VectorDbError::OperationFailed(detail) => {
                let mut text = "Operation failed: ".to_owned();
                text.append(detail.as_str());
                text
            },
        }
    }
}

/// The ways to search.
pub ghost enum SearchMode {
    /// By similarity of embeddings.
    Vector,
    /// By matching words.
    Keyword,
    /// By both, combined.
    Hybrid,
}

/// What a backend's collection is: whether it exists, and the documents
/// that it holds.
pub ghost struct Collection {
    pub present: bool,
    pub stored: Seq<DocumentView>,
}

/// A rule that says whether a stored document and a probe are the same
/// document.
pub type Identity = spec_fn(DocumentView, DocumentView) -> bool;

impl Collection {
    /// The collection holds a document that the rule takes for the probe.
    pub open spec fn holds(self, same: Identity, probe: DocumentView) -> bool {
        exists|i: int| 0 <= i < self.stored.len() && same(#[trigger] self.stored[i], probe)
    }

    /// The collection holds a document of that name.
    pub open spec fn holds_name(self, name: Seq<char>) -> bool {
        exists|i: int| 0 <= i < self.stored.len() && (#[trigger] self.stored[i]).name == Some(name)
    }

    /// The collection holds a document of that identifier.
    pub open spec fn holds_id(self, id: Seq<char>) -> bool {
        exists|i: int| 0 <= i < self.stored.len() && (#[trigger] self.stored[i]).id == Some(id)
    }

    /// The collection does not exist, and holds nothing.
    pub open spec fn gone(self) -> bool {
        !self.present && self.stored == Seq::<DocumentView>::empty()
    }
}

/// A storage backend for documents. A backend is a collection that may or
/// may not exist and that holds documents; every operation either takes
/// effect as a whole or fails and leaves the collection as it was.
pub trait VectorDb {
    /// The collection as it is now.
    spec fn state(&self) -> Collection;

    /// The backend's rule for taking a stored document and a probe for the
    /// same document.
    spec fn identity(&self) -> Identity;

    /// Whether the backend notices that a document to insert is one that it
    /// holds already.
    spec fn detects_conflicts(&self) -> bool;

    /// Whether the backend offers the search mode.
    spec fn supports_mode(&self, mode: SearchMode) -> bool;

    /// Whether the backend can replace a document by identity. A backend
    /// cannot, unless it says otherwise.
    open spec fn supports_upsert(&self) -> bool {
        false
    }

    /// Makes the collection. One that exists stays as it is.
    fn create(&mut self) -> (r: Result<(), VectorDbError>)
        ensures
            match r {
                Ok(_) => {
                    &&& final(self).state().present
                    &&& old(self).state().present ==> final(self).state() == old(self).state()
                    &&& !old(self).state().present ==> final(self).state().stored == Seq::<
                        DocumentView,
                    >::empty()
                },
                Err(e) => final(self).state() == old(self).state() && !(e is NotImplemented),
            },
    ;

    /// Whether the backend holds the document. That it does not is an
    /// answer, not an error.
    fn doc_exists(&self, document: &Document) -> (r: Result<bool, VectorDbError>)
        ensures
            r matches Ok(found) ==> found == self.state().holds(self.identity(), document@),
    ;

    /// Whether the backend holds a document of that name.
    fn name_exists(&self, name: &str) -> (r: Result<bool, VectorDbError>)
        ensures
            r matches Ok(found) ==> found == self.state().holds_name(name@),
    ;

    /// Whether the backend holds a document of that identifier.
    fn id_exists(&self, id: &str) -> (r: Result<bool, VectorDbError>)
        ensures
            r matches Ok(found) ==> found == self.state().holds_id(id@),
    ;

    /// Adds the documents. A backend that notices conflicts refuses a
    /// document that it holds already.
    fn insert(&mut self, documents: &[Document], filters: Option<JsonMap>) -> (r: Result<
        (),
        VectorDbError,
    >)
        ensures
            match r {
                Ok(_) => {
                    &&& forall|j: int|
                        0 <= j < documents@.len() ==> final(self).state().holds(
                            final(self).identity(),
                            (#[trigger] documents@[j])@,
                        )
                    &&& forall|d: DocumentView| #[trigger]
                        old(self).state().holds(old(self).identity(), d)
                            ==> final(self).state().holds(final(self).identity(), d)
                },
                Err(_) => final(self).state() == old(self).state(),
            },
            old(self).detects_conflicts() && (exists|j: int|
                0 <= j < documents@.len() && old(self).state().holds(
                    old(self).identity(),
                    (#[trigger] documents@[j])@,
                )) ==> r is Err,
    ;

    /// Whether the backend can replace a document by identity.
    fn upsert_available(&self) -> (r: bool)
        ensures
            r == self.supports_upsert(),
    ;

    /// Adds the documents, each replacing the one of the same identity. A
    /// backend that cannot replace fails, and changes nothing.
    fn upsert(&mut self, documents: &[Document], filters: Option<JsonMap>) -> (r: Result<
        (),
        VectorDbError,
    >)
        ensures
            !old(self).supports_upsert() ==> r == Err::<(), VectorDbError>(
                VectorDbError::NotImplemented,
            ),
            r is Err ==> final(self).state() == old(self).state(),
    ;

    /// Searches in the backend's own mode. At most `limit` documents come
    /// back.
    fn search(&self, query: &str, limit: u32, filters: Option<JsonMap>) -> (r: Result<
        Vec<Document>,
        VectorDbError,
    >)
        ensures
            r matches Ok(found) ==> found@.len() <= limit,
    ;

    /// Searches by similarity of embeddings.
    fn vector_search(&self, query: &str, limit: u32) -> (r: Result<Vec<Document>, VectorDbError>)
        ensures
            r matches Ok(found) ==> found@.len() <= limit,
            !self.supports_mode(SearchMode::Vector) ==> r == Err::<Vec<Document>, VectorDbError>(
                VectorDbError::NotImplemented,
            ),
    ;

    /// Searches by matching words.
    fn keyword_search(&self, query: &str, limit: u32) -> (r: Result<Vec<Document>, VectorDbError>)
        ensures
            r matches Ok(found) ==> found@.len() <= limit,
            !self.supports_mode(SearchMode::Keyword) ==> r == Err::<Vec<Document>, VectorDbError>(
                VectorDbError::NotImplemented,
            ),
    ;

    /// Searches by both, combined.
    fn hybrid_search(&self, query: &str, limit: u32) -> (r: Result<Vec<Document>, VectorDbError>)
        ensures
            r matches Ok(found) ==> found@.len() <= limit,
            !self.supports_mode(SearchMode::Hybrid) ==> r == Err::<Vec<Document>, VectorDbError>(
                VectorDbError::NotImplemented,
            ),
    ;

    /// Destroys the collection with all that it holds.
    fn drop_db(&mut self) -> (r: Result<(), VectorDbError>)
        ensures
            match r {
                Ok(_) => final(self).state().gone(),
                Err(_) => final(self).state() == old(self).state(),
            },
    ;

    /// Whether the collection exists.
    fn db_exists(&self) -> (r: Result<bool, VectorDbError>)
        ensures
            r matches Ok(found) ==> found == self.state().present,
    ;

    /// Maintenance. The collection holds what it held.
    fn optimize(&mut self) -> (r: Result<(), VectorDbError>)
        ensures
            final(self).state() == old(self).state(),
    ;

    /// Removes the collection, and says whether there was one.
    fn delete(&mut self) -> (r: Result<bool, VectorDbError>)
        ensures
            match r {
                Ok(removed) => removed == old(self).state().present && final(self).state().gone(),
                Err(_) => final(self).state() == old(self).state(),
            },
    ;
}

} // verus!
