//! A backend that keeps its collection in memory: the plainest thing that
//! obeys the contract. It tells documents apart by identifier, or by content
//! where the probe has no identifier; it refuses to insert a document that is
//! there already; it searches by keyword only, in the order of insertion.

use crate::document::{documents_view, Document, DocumentView};
use crate::fields::object_view;
use crate::json::{entries_view, has_key, json_equal, str_eq, JsonMap, JsonSpec};
use crate::vectordb::{Collection, Identity, SearchMode, VectorDb, VectorDbError};
use vstd::prelude::*;
use vstd::utf8::encode_utf8;

verus! {

/// The stored document and the probe are the same document: they have the
/// probe's identifier, or, where the probe has none, the same content.
pub open spec fn same_document(stored: DocumentView, probe: DocumentView) -> bool {
    match probe.id {
        Some(id) => stored.id == Some(id),
        None => stored.content == probe.content,
    }
}

/// Some document of the list is the same document as the probe.
pub open spec fn known(stored: Seq<DocumentView>, probe: DocumentView) -> bool {
    exists|i: int| 0 <= i < stored.len() && same_document(#[trigger] stored[i], probe)
}

/// A document of the batch is stored already, or is the same document as an
/// earlier one of the batch.
pub open spec fn conflicts(stored: Seq<DocumentView>, batch: Seq<DocumentView>) -> bool {
    exists|j: int|
        0 <= j < batch.len() && (known(stored, #[trigger] batch[j]) || known(
            batch.subrange(0, j),
            batch[j],
        ))
}

/// The place of the first stored document that is the same document as the
/// probe.
pub open spec fn first_known(stored: Seq<DocumentView>, probe: DocumentView) -> int {
    choose|i: int|
        0 <= i < stored.len() && same_document(#[trigger] stored[i], probe) && forall|j: int|
            0 <= j < i ==> !same_document(#[trigger] stored[j], probe)
}

/// The list after one upsert: the document replaces the first stored one
/// that is the same document, or is added at the end.
pub open spec fn upsert_one(stored: Seq<DocumentView>, d: DocumentView) -> Seq<DocumentView> {
    if known(stored, d) {
        stored.update(first_known(stored, d), d)
    } else {
        stored.push(d)
    }
}

/// The list after the upserts of a batch, one after the other.
pub open spec fn upsert_all(stored: Seq<DocumentView>, batch: Seq<DocumentView>) -> Seq<
    DocumentView,
>
    decreases batch.len(),
{
    if batch.len() == 0 {
        stored
    } else {
        upsert_one(upsert_all(stored, batch.drop_last()), batch.last())
    }
}

/// The bytes `needle` stand in the bytes `hay` from place `k` on.
pub open spec fn occurs_at(needle: Seq<u8>, hay: Seq<u8>, k: int) -> bool {
    0 <= k && k + needle.len() <= hay.len() && hay.subrange(k, k + needle.len()) == needle
}

/// The bytes `needle` stand somewhere in the bytes `hay`.
pub open spec fn occurs_in(needle: Seq<u8>, hay: Seq<u8>) -> bool {
    exists|k: int| occurs_at(needle, hay, k)
}

/// The text `needle` stands somewhere in the text `hay`, both taken as
/// UTF-8.
pub open spec fn text_occurs_in(needle: Seq<char>, hay: Seq<char>) -> bool {
    occurs_in(encode_utf8(needle), encode_utf8(hay))
}

/// The document has every wanted attribute, with an equal value.
pub open spec fn has_all(wanted: Map<Seq<char>, JsonSpec>, d: DocumentView) -> bool {
    forall|k: Seq<char>| #[trigger]
        wanted.dom().contains(k) ==> d.meta_data.dom().contains(k) && json_equal(
            wanted[k],
            d.meta_data[k],
        )
}

/// The document passes the filters: there are none, or it has every
/// attribute that they ask for.
pub open spec fn passes(filters: Option<Map<Seq<char>, JsonSpec>>, d: DocumentView) -> bool {
    match filters {
        Some(wanted) => has_all(wanted, d),
        None => true,
    }
}

/// The document answers the query: the query stands in its content, and it
/// passes the filters.
pub open spec fn answers(
    d: DocumentView,
    query: Seq<char>,
    filters: Option<Map<Seq<char>, JsonSpec>>,
) -> bool {
    text_occurs_in(query, d.content) && passes(filters, d)
}

/// The stored documents that answer the query, in their order.
pub open spec fn answering(
    stored: Seq<DocumentView>,
    query: Seq<char>,
    filters: Option<Map<Seq<char>, JsonSpec>>,
) -> Seq<DocumentView>
    decreases stored.len(),
{
    if stored.len() == 0 {
        Seq::empty()
    } else {
        let before = answering(stored.drop_last(), query, filters);
        if answers(stored.last(), query, filters) {
            before.push(stored.last())
        } else {
            before
        }
    }
}

/// The first `n` of a list, or all of it where it has fewer.
pub open spec fn first(found: Seq<DocumentView>, n: int) -> Seq<DocumentView> {
    if found.len() <= n {
        found
    } else {
        found.subrange(0, n)
    }
}

/// What a search gives: the first `limit` stored documents that answer the
/// query.
pub open spec fn search_result(
    stored: Seq<DocumentView>,
    query: Seq<char>,
    limit: u32,
    filters: Option<Map<Seq<char>, JsonSpec>>,
) -> Seq<DocumentView> {
    first(answering(stored, query, filters), limit as int)
}

/// A collection of documents in memory.
#[derive(Debug)]
pub struct InMemoryVectorDb {
    created: bool,
    upsert_enabled: bool,
    documents: Vec<Document>,
}

/// The error of an operation on a collection that does not exist.
pub open spec fn is_missing_collection(e: VectorDbError) -> bool {
    e matches VectorDbError::OperationFailed(detail) && detail@ == "collection does not exist"@
}

/// The error of an insertion that meets a document a second time.
pub open spec fn is_conflict(e: VectorDbError) -> bool {
    e matches VectorDbError::OperationFailed(detail) && detail@ == "conflicting identity"@
}

fn missing_collection() -> (e: VectorDbError)
    ensures
        is_missing_collection(e),
{
    VectorDbError::OperationFailed("collection does not exist".to_owned())
}

fn conflict() -> (e: VectorDbError)
    ensures
        is_conflict(e),
{
    VectorDbError::OperationFailed("conflicting identity".to_owned())
}

fn contains_text(hay: &str, needle: &str) -> (r: bool)
    ensures
        r == text_occurs_in(needle@, hay@),
{
    let h = hay.as_bytes();
    let n = needle.as_bytes();
    let h_len = h.len();
    let n_len = n.len();
    if n_len > h_len {
        return false;
    }
    let last = h_len - n_len;
    let mut k: usize = 0;
    while k <= last
        invariant
            h_len == h@.len(),
            n_len == n@.len(),
            last == h_len - n_len,
            k <= last + 1,
            h@ == encode_utf8(hay@),
            n@ == encode_utf8(needle@),
            forall|p: int| 0 <= p < k ==> !occurs_at(n@, h@, p),
        decreases last + 1 - k,
    {
        let mut j: usize = 0;
        let mut same = true;
        while same && j < n_len
            invariant
                h_len == h@.len(),
                n_len == n@.len(),
                last == h_len - n_len,
                k <= last,
                j <= n_len,
                forall|q: int| 0 <= q < j ==> h@[k + q] == n@[q],
                !same ==> j < n_len && h@[k + j] != n@[j as int],
            decreases n_len - j + if same { 1int } else { 0int },
        {
            if h[k + j] == n[j] {
                j += 1;
            } else {
                same = false;
            }
        }
        if same {
            assert(h@.subrange(k as int, k + n_len) =~= n@);
            assert(occurs_at(n@, h@, k as int));
            return true;
        }
        assert(h@.subrange(k as int, k + n_len)[j as int] != n@[j as int]);
        k += 1;
    }
    assert(!occurs_in(n@, h@)) by {
        if occurs_in(n@, h@) {
            let p = choose|p: int| occurs_at(n@, h@, p);
            assert(p < k);
        }
    }
    false
}

fn identifies(stored: &Document, probe: &Document) -> (r: bool)
    ensures
        r == same_document(stored@, probe@),
{
    match &probe.id {
        Some(id) => match &stored.id {
            Some(other) => str_eq(other.as_str(), id.as_str()),
            None => false,
        },
        None => str_eq(stored.content.as_str(), probe.content.as_str()),
    }
}

fn position(documents: &[Document], probe: &Document) -> (r: Option<usize>)
    ensures
        match r {
            Some(i) => {
                &&& i < documents@.len()
                &&& same_document(documents@[i as int]@, probe@)
                &&& forall|j: int| 0 <= j < i ==> !same_document(documents@[j]@, probe@)
            },
            None => forall|j: int|
                0 <= j < documents@.len() ==> !same_document(documents@[j]@, probe@),
        },
        r is Some <==> known(documents_view(documents@), probe@),
{
    let mut i: usize = 0;
    while i < documents.len()
        invariant
            i <= documents@.len(),
            forall|j: int| 0 <= j < i ==> !same_document(documents@[j]@, probe@),
        decreases documents@.len() - i,
    {
        if identifies(&documents[i], probe) {
            assert(same_document(documents_view(documents@)[i as int], probe@));
            return Some(i);
        }
        i += 1;
    }
    assert(!known(documents_view(documents@), probe@)) by {
        if known(documents_view(documents@), probe@) {
            let j = choose|j: int|
                0 <= j < documents_view(documents@).len() && same_document(
                    #[trigger] documents_view(documents@)[j],
                    probe@,
                );
            assert(!same_document(documents@[j]@, probe@));
        }
    }
    None
}

fn passes_filters(filters: &Option<JsonMap>, d: &Document) -> (r: bool)
    ensures
        r == passes(object_view(*filters), d@),
{
    match filters {
        None => true,
        Some(wanted) => {
            let entries = wanted.entries();
            let mut i: usize = 0;
            while i < entries.len()
                invariant
                    i <= entries@.len(),
                    object_view(*filters) == Some(wanted@),
                    forall|j: int|
                        0 <= j < entries@.len() ==> wanted@.contains_key(
                            (#[trigger] entries@[j]).0@,
                        ) && wanted@[entries@[j].0@] == entries@[j].1@,
                    forall|j: int|
                        0 <= j < i ==> d@.meta_data.contains_key((#[trigger] entries@[j]).0@)
                            && json_equal(entries@[j].1@, d@.meta_data[entries@[j].0@]),
                decreases entries@.len() - i,
            {
                match d.meta_data.get(entries[i].0.as_str()) {
                    None => {
                        proof {
                            let k = entries@[i as int].0@;
                            assert(wanted@.contains_key(k));
                            assert(!d@.meta_data.contains_key(k));
                            assert(!passes(Some(wanted@), d@));
                        }
                        return false;
                    },
                    Some(v) => {
                        if !entries[i].1.equals(v) {
                            proof {
                                let k = entries@[i as int].0@;
                                assert(wanted@.contains_key(k));
                                assert(wanted@[k] == entries@[i as int].1@);
                                assert(!json_equal(wanted@[k], d@.meta_data[k]));
                                assert(!passes(Some(wanted@), d@));
                            }
                            return false;
                        }
                    },
                }
                i += 1;
            }
            assert forall|k: Seq<char>| #[trigger]
                wanted@.dom().contains(k) implies d@.meta_data.dom().contains(k) && json_equal(
                wanted@[k],
                d@.meta_data[k],
            ) by {
                assert(has_key(entries_view(entries@), k));
                let j = choose|j: int|
                    0 <= j < entries_view(entries@).len() && (#[trigger] entries_view(
                        entries@,
                    )[j]).0 == k;
                assert(entries@[j].0@ == k);
            }
            true
        },
    }
}

/// The answers among a list with one more document at its end.
proof fn lemma_answering_push(
    stored: Seq<DocumentView>,
    d: DocumentView,
    query: Seq<char>,
    filters: Option<Map<Seq<char>, JsonSpec>>,
)
    ensures
        answering(stored.push(d), query, filters) == if answers(d, query, filters) {
            answering(stored, query, filters).push(d)
        } else {
            answering(stored, query, filters)
        },
{
    assert(stored.push(d).drop_last() =~= stored);
}

impl InMemoryVectorDb {
    /// A backend whose collection does not exist yet, with or without the
    /// ability to upsert.
    pub fn new(upsert_enabled: bool) -> (r: Self)
        ensures
            r.state().gone(),
            r.supports_upsert() == upsert_enabled,
    {
        InMemoryVectorDb { created: false, upsert_enabled, documents: Vec::new() }
    }

    fn find(&self, query: &str, limit: u32, filters: &Option<JsonMap>) -> (r: Vec<Document>)
        requires
            self.created,
        ensures
            documents_view(r@) == search_result(self.state().stored, query@, limit, object_view(*filters)),
            r@.len() <= limit,
    {
        let mut found: Vec<Document> = Vec::new();
        let mut i: usize = 0;
        let ghost wanted = object_view(*filters);
        assert(documents_view(self.documents@).subrange(0, 0) =~= Seq::<DocumentView>::empty());
        assert(documents_view(found@) =~= Seq::<DocumentView>::empty());
        while i < self.documents.len()
            invariant
                i <= self.documents@.len(),
                wanted == object_view(*filters),
                documents_view(found@) == answering(
                    documents_view(self.documents@).subrange(0, i as int),
                    query@,
                    wanted,
                ),
            decreases self.documents@.len() - i,
        {
            let ghost before = documents_view(self.documents@).subrange(0, i as int);
            let ghost d = self.documents@[i as int]@;
            proof {
                lemma_answering_push(before, d, query@, wanted);
                assert(documents_view(self.documents@).subrange(0, i + 1) =~= before.push(d));
            }
            if contains_text(self.documents[i].content.as_str(), query) && passes_filters(
                filters,
                &self.documents[i],
            ) {
                let ghost earlier = documents_view(found@);
                found.push(self.documents[i].clone());
                assert(documents_view(found@) =~= earlier.push(d));
            }
            i += 1;
        }
        assert(documents_view(self.documents@).subrange(0, self.documents@.len() as int) =~= documents_view(
            self.documents@,
        ));
        let ghost all = documents_view(found@);
        if found.len() > limit as usize {
            found.truncate(limit as usize);
            assert(documents_view(found@) =~= all.subrange(0, limit as int));
        }
        found
    }
}

impl VectorDb for InMemoryVectorDb {
    closed spec fn state(&self) -> Collection {
        Collection {
            present: self.created,
            stored: if self.created {
                documents_view(self.documents@)
            } else {
                Seq::empty()
            },
        }
    }

    open spec fn identity(&self) -> Identity {
        |stored: DocumentView, probe: DocumentView| same_document(stored, probe)
    }

    open spec fn detects_conflicts(&self) -> bool {
        true
    }

    open spec fn supports_mode(&self, mode: SearchMode) -> bool {
        mode is Keyword
    }

    closed spec fn supports_upsert(&self) -> bool {
        self.upsert_enabled
    }

    /// Always succeeds.
    fn create(&mut self) -> (r: Result<(), VectorDbError>)
        ensures
            r is Ok,
            final(self).supports_upsert() == old(self).supports_upsert(),
    {
        if !self.created {
            self.documents = Vec::new();
            self.created = true;
            assert(self.state().stored =~= Seq::<DocumentView>::empty());
        }
        Ok(())
    }

    /// Fails only where the collection does not exist.
    fn doc_exists(&self, document: &Document) -> (r: Result<bool, VectorDbError>)
        ensures
            r is Ok <==> self.state().present,
            r matches Err(e) ==> is_missing_collection(e),
    {
        if !self.created {
            return Err(missing_collection());
        }
        let found = position(self.documents.as_slice(), document).is_some();
        proof {
            let stored = self.state().stored;
            if self.state().holds(self.identity(), document@) {
                let i = choose|i: int|
                    0 <= i < stored.len() && (self.identity())(#[trigger] stored[i], document@);
                assert(same_document(stored[i], document@));
            }
            if known(stored, document@) {
                let i = choose|i: int|
                    0 <= i < stored.len() && same_document(#[trigger] stored[i], document@);
                assert((self.identity())(stored[i], document@));
            }
        }
        Ok(found)
    }

    /// Fails only where the collection does not exist.
    fn name_exists(&self, name: &str) -> (r: Result<bool, VectorDbError>)
        ensures
            r is Ok <==> self.state().present,
            r matches Err(e) ==> is_missing_collection(e),
    {
        if !self.created {
            return Err(missing_collection());
        }
        let mut i: usize = 0;
        while i < self.documents.len()
            invariant
                i <= self.documents@.len(),
                self.created,
                forall|j: int| 0 <= j < i ==> self.documents@[j]@.name != Some(name@),
            decreases self.documents@.len() - i,
        {
            let same = match &self.documents[i].name {
                Some(other) => str_eq(other.as_str(), name),
                None => false,
            };
            if same {
                assert(self.state().stored[i as int].name == Some(name@));
                return Ok(true);
            }
            i += 1;
        }
        proof {
            let stored = self.state().stored;
            if self.state().holds_name(name@) {
                let i = choose|i: int|
                    0 <= i < stored.len() && (#[trigger] stored[i]).name == Some(name@);
                assert(self.documents@[i]@.name != Some(name@));
            }
        }
        Ok(false)
    }

    /// Fails only where the collection does not exist.
    fn id_exists(&self, id: &str) -> (r: Result<bool, VectorDbError>)
        ensures
            r is Ok <==> self.state().present,
            r matches Err(e) ==> is_missing_collection(e),
    {
        if !self.created {
            return Err(missing_collection());
        }
        let mut i: usize = 0;
        while i < self.documents.len()
            invariant
                i <= self.documents@.len(),
                self.created,
                forall|j: int| 0 <= j < i ==> self.documents@[j]@.id != Some(id@),
            decreases self.documents@.len() - i,
        {
            let same = match &self.documents[i].id {
                Some(other) => str_eq(other.as_str(), id),
                None => false,
            };
            if same {
                assert(self.state().stored[i as int].id == Some(id@));
                return Ok(true);
            }
            i += 1;
        }
        proof {
            let stored = self.state().stored;
            if self.state().holds_id(id@) {
                let i = choose|i: int|
                    0 <= i < stored.len() && (#[trigger] stored[i]).id == Some(id@);
                assert(self.documents@[i]@.id != Some(id@));
            }
        }
        Ok(false)
    }

    /// Succeeds exactly where the collection exists and no document of the
    /// batch is stored already or given twice; the batch is then added at
    /// the end, in its order. The filters are not used.
    fn insert(&mut self, documents: &[Document], filters: Option<JsonMap>) -> (r: Result<
        (),
        VectorDbError,
    >)
        ensures
            r is Ok <==> old(self).state().present && !conflicts(
                old(self).state().stored,
                documents_view(documents@),
            ),
            r is Ok ==> final(self).state().present && final(self).state().stored == old(
                self,
            ).state().stored + documents_view(documents@),
            r matches Err(e) ==> if old(self).state().present {
                is_conflict(e)
            } else {
                is_missing_collection(e)
            },
            final(self).supports_upsert() == old(self).supports_upsert(),
    {
        if !self.created {
            return Err(missing_collection());
        }
        let ghost stored = documents_view(self.documents@);
        let ghost batch = documents_view(documents@);
        let mut j: usize = 0;
        while j < documents.len()
            invariant
                j <= documents@.len(),
                self.created,
                old(self).created,
                stored == documents_view(self.documents@),
                batch == documents_view(documents@),
                forall|k: int|
                    0 <= k < j ==> !known(stored, #[trigger] batch[k]) && !known(
                        batch.subrange(0, k),
                        batch[k],
                    ),
            decreases documents@.len() - j,
        {
            if position(self.documents.as_slice(), &documents[j]).is_some() {
                assert(known(stored, batch[j as int]));
                return Err(conflict());
            }
            let ghost earlier = batch.subrange(0, j as int);
            let mut k: usize = 0;
            while k < j
                invariant
                    k <= j < documents@.len(),
                    old(self).created,
                    batch == documents_view(documents@),
                    earlier == batch.subrange(0, j as int),
                    forall|m: int| 0 <= m < k ==> !same_document(batch[m], batch[j as int]),
                decreases j - k,
            {
                if identifies(&documents[k], &documents[j]) {
                    assert(same_document(earlier[k as int], batch[j as int]));
                    assert(known(earlier, batch[j as int]));
                    return Err(conflict());
                }
                k += 1;
            }
            assert(!known(earlier, batch[j as int])) by {
                if known(earlier, batch[j as int]) {
                    let m = choose|m: int|
                        0 <= m < earlier.len() && same_document(
                            #[trigger] earlier[m],
                            batch[j as int],
                        );
                    assert(!same_document(batch[m], batch[j as int]));
                }
            }
            j += 1;
        }
        assert(!conflicts(stored, batch));
        let mut j: usize = 0;
        while j < documents.len()
            invariant
                j <= documents@.len(),
                self.created,
                self.upsert_enabled == old(self).upsert_enabled,
                batch == documents_view(documents@),
                !conflicts(stored, batch),
                documents_view(self.documents@) == stored + batch.subrange(0, j as int),
            decreases documents@.len() - j,
        {
            let ghost before = documents_view(self.documents@);
            self.documents.push(documents[j].clone());
            assert(documents_view(self.documents@) =~= before.push(batch[j as int]));
            assert(batch.subrange(0, j + 1) =~= batch.subrange(0, j as int).push(batch[j as int]));
            assert(documents_view(self.documents@) =~= stored + batch.subrange(0, j + 1));
            j += 1;
        }
        proof {
            assert(batch.subrange(0, batch.len() as int) =~= batch);
            let now = self.state().stored;
            assert(now == stored + batch);
            assert(old(self).state().stored == stored);
            assert forall|m: int| 0 <= m < documents@.len() implies !old(self).state().holds(
                old(self).identity(),
                (#[trigger] documents@[m])@,
            ) by {
                if old(self).state().holds(old(self).identity(), documents@[m]@) {
                    let i = choose|i: int|
                        0 <= i < stored.len() && (old(self).identity())(
                            #[trigger] stored[i],
                            documents@[m]@,
                        );
                    assert(same_document(stored[i], batch[m]));
                    assert(known(stored, batch[m]));
                }
            }
            assert forall|m: int| 0 <= m < documents@.len() implies self.state().holds(
                self.identity(),
                (#[trigger] documents@[m])@,
            ) by {
                assert(now[stored.len() + m] == batch[m]);
                assert(batch[m] == documents@[m]@);
                assert(same_document(batch[m], batch[m]));
                assert((self.identity())(self.state().stored[stored.len() + m], documents@[m]@));
            }
            assert forall|d: DocumentView| #[trigger]
                old(self).state().holds(old(self).identity(), d) implies self.state().holds(
                self.identity(),
                d,
            ) by {
                let i = choose|i: int|
                    0 <= i < stored.len() && (old(self).identity())(#[trigger] stored[i], d);
                assert(now[i] == stored[i]);
                assert((self.identity())(self.state().stored[i], d));
            }
        }
        Ok(())
    }

    fn upsert_available(&self) -> (r: bool) {
        self.upsert_enabled
    }

    /// Succeeds exactly where the backend can upsert and the collection
    /// exists; each document of the batch, in its order, then replaces the
    /// first stored one that is the same document, or is added at the end.
    /// The filters are not used.
    fn upsert(&mut self, documents: &[Document], filters: Option<JsonMap>) -> (r: Result<
        (),
        VectorDbError,
    >)
        ensures
            r is Ok <==> old(self).supports_upsert() && old(self).state().present,
            r is Ok ==> final(self).state().present && final(self).state().stored == upsert_all(
                old(self).state().stored,
                documents_view(documents@),
            ),
            r matches Err(e) ==> if old(self).supports_upsert() {
                is_missing_collection(e)
            } else {
                e is NotImplemented
            },
            final(self).supports_upsert() == old(self).supports_upsert(),
    {
        if !self.upsert_enabled {
            return Err(VectorDbError::NotImplemented);
        }
        if !self.created {
            return Err(missing_collection());
        }
        let ghost stored = documents_view(self.documents@);
        let ghost batch = documents_view(documents@);
        let mut j: usize = 0;
        assert(batch.subrange(0, 0) =~= Seq::<DocumentView>::empty());
        while j < documents.len()
            invariant
                j <= documents@.len(),
                self.created,
                self.upsert_enabled == old(self).upsert_enabled,
                batch == documents_view(documents@),
                documents_view(self.documents@) == upsert_all(stored, batch.subrange(0, j as int)),
            decreases documents@.len() - j,
        {
            let ghost before = documents_view(self.documents@);
            let ghost d = batch[j as int];
            proof {
                assert(batch.subrange(0, j + 1).drop_last() =~= batch.subrange(0, j as int));
                assert(batch.subrange(0, j + 1).last() == d);
            }
            let ghost old_documents = self.documents@;
            match position(self.documents.as_slice(), &documents[j]) {
                Some(i) => {
                    self.documents.push(documents[j].clone());
                    let replaced = self.documents.swap_remove(i);
                    proof {
                        assert(same_document(before[i as int], d));
                        assert forall|m: int| 0 <= m < i implies !same_document(
                            #[trigger] before[m],
                            d,
                        ) by {
                            assert(before[m] == old_documents[m]@);
                        }
                        let chosen = first_known(before, d);
                        if chosen < i {
                            assert(!same_document(before[chosen], d));
                        }
                        if i < chosen {
                            assert(!same_document(before[i as int], d));
                        }
                        assert(documents_view(self.documents@) =~= before.update(i as int, d));
                    }
                },
                None => {
                    self.documents.push(documents[j].clone());
                    assert(documents_view(self.documents@) =~= before.push(d));
                },
            }
            j += 1;
        }
        assert(batch.subrange(0, batch.len() as int) =~= batch);
        Ok(())
    }

    /// Searches by keyword. Fails only where the collection does not exist.
    fn search(&self, query: &str, limit: u32, filters: Option<JsonMap>) -> (r: Result<
        Vec<Document>,
        VectorDbError,
    >)
        ensures
            r is Ok <==> self.state().present,
            r matches Err(e) ==> is_missing_collection(e),
            r matches Ok(found) ==> documents_view(found@) == search_result(
                self.state().stored,
                query@,
                limit,
                object_view(filters),
            ),
    {
        if !self.created {
            return Err(missing_collection());
        }
        Ok(self.find(query, limit, &filters))
    }

    /// Always fails: the backend has no embeddings.
    fn vector_search(&self, query: &str, limit: u32) -> (r: Result<Vec<Document>, VectorDbError>) {
        Err(VectorDbError::NotImplemented)
    }

    /// The first `limit` stored documents whose content holds the query.
    /// Fails only where the collection does not exist.
    fn keyword_search(&self, query: &str, limit: u32) -> (r: Result<Vec<Document>, VectorDbError>)
        ensures
            r is Ok <==> self.state().present,
            r matches Err(e) ==> is_missing_collection(e),
            r matches Ok(found) ==> documents_view(found@) == search_result(
                self.state().stored,
                query@,
                limit,
                None,
            ),
    {
        if !self.created {
            return Err(missing_collection());
        }
        Ok(self.find(query, limit, &None))
    }

    /// Always fails: the backend has no embeddings.
    fn hybrid_search(&self, query: &str, limit: u32) -> (r: Result<Vec<Document>, VectorDbError>) {
        Err(VectorDbError::NotImplemented)
    }

    /// Always succeeds.
    fn drop_db(&mut self) -> (r: Result<(), VectorDbError>)
        ensures
            r is Ok,
            final(self).supports_upsert() == old(self).supports_upsert(),
    {
        self.documents = Vec::new();
        self.created = false;
        Ok(())
    }

    /// Always succeeds.
    fn db_exists(&self) -> (r: Result<bool, VectorDbError>)
        ensures
            r is Ok,
    {
        Ok(self.created)
    }

    /// Always succeeds, and does nothing.
    fn optimize(&mut self) -> (r: Result<(), VectorDbError>)
        ensures
            r is Ok,
            final(self).supports_upsert() == old(self).supports_upsert(),
    {
        Ok(())
    }

    /// Always succeeds.
    fn delete(&mut self) -> (r: Result<bool, VectorDbError>)
        ensures
            r is Ok,
            final(self).supports_upsert() == old(self).supports_upsert(),
    {
        let was_there = self.created;
        self.documents = Vec::new();
        self.created = false;
        Ok(was_there)
    }
}

} // verus!
