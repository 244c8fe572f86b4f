//! Transactions on a catalog backend, and the object store and the
//! transactions of the backend in memory.

use crate::error::{error_of, ErrorKind, ErrorModel, ErrorModelView};
use crate::memory::{CatalogView, MemoryCatalog};
use vstd::prelude::*;

verus! {

/// A transaction on the state `D` of a catalog backend. What is done to the
/// state inside the transaction takes effect with the commit, all of it or
/// none.
pub trait Transaction<D: View>: Sized {
    /// The state as it was when the transaction began.
    spec fn snapshot(&self) -> D::V;

    /// The state as the transaction has made it so far.
    spec fn current(&self) -> D::V;

    /// Begins a transaction that may change the state.
    fn begin_write(db_state: D) -> (r: Result<Self, ErrorModel>)
        ensures
            r matches Ok(t) ==> t.snapshot() == db_state@ && t.current() == db_state@,
    ;

    /// Begins a transaction that only reads.
    fn begin_read(db_state: D) -> (r: Result<Self, ErrorModel>)
        ensures
            r matches Ok(t) ==> t.snapshot() == db_state@ && t.current() == db_state@,
    ;

    /// Ends the transaction and keeps what it did.
    fn commit(self) -> (r: Result<D, ErrorModel>)
        ensures
            r matches Ok(state) ==> state@ == self.current(),
    ;

    /// Ends the transaction and forgets what it did.
    fn rollback(self) -> (r: Result<D, ErrorModel>)
        ensures
            r matches Ok(state) ==> state@ == self.snapshot(),
    ;
}

/// A transaction on a catalog in memory: a working copy beside the state
/// that the transaction began with.
#[derive(Debug)]
pub struct MemoryTransaction {
    before: MemoryCatalog,
    working: MemoryCatalog,
}

impl MemoryTransaction {
    /// The validity of the state as the transaction sees it.
    pub open spec fn wf(&self) -> bool {
        crate::memory::valid_catalog(self.current())
    }

    /// The state as the transaction sees it, to read it.
    pub fn state(&self) -> (state: &MemoryCatalog)
        ensures
            state@ == self.current(),
    {
        &self.working
    }

    /// The state as the transaction sees it, to change it.
    pub fn transaction(&mut self) -> (state: &mut MemoryCatalog)
        ensures
            state@ == old(self).current(),
            final(self).current() == final(state)@,
            final(self).snapshot() == old(self).snapshot(),
    {
        &mut self.working
    }
}

impl Transaction<MemoryCatalog> for MemoryTransaction {
    closed spec fn snapshot(&self) -> CatalogView {
        self.before@
    }

    closed spec fn current(&self) -> CatalogView {
        self.working@
    }

    fn begin_write(db_state: MemoryCatalog) -> (r: Result<Self, ErrorModel>)
        ensures
            r is Ok,
    {
        let working = db_state.duplicate();
        Ok(MemoryTransaction { before: db_state, working })
    }

    fn begin_read(db_state: MemoryCatalog) -> (r: Result<Self, ErrorModel>)
        ensures
            r is Ok,
    {
        let working = db_state.duplicate();
        Ok(MemoryTransaction { before: db_state, working })
    }

    fn commit(self) -> (r: Result<MemoryCatalog, ErrorModel>)
        ensures
            r is Ok,
    {
        Ok(self.working)
    }

    fn rollback(self) -> (r: Result<MemoryCatalog, ErrorModel>)
        ensures
            r is Ok,
    {
        Ok(self.before)
    }
}

/// The content of the object at `location`, if there is one.
pub open spec fn object_at(objects: Seq<(Seq<char>, Seq<u8>)>, location: Seq<char>) -> Option<
    Seq<u8>,
>
    decreases objects.len(),
{
    if objects.len() == 0 {
        None
    } else if objects[0].0 == location {
        Some(objects[0].1)
    } else {
        object_at(objects.drop_first(), location)
    }
}

/// The error for a write to a location that holds an object already.
pub open spec fn object_exists() -> ErrorModelView {
    error_of(ErrorKind::StorageError, "Object exists already."@, "ObjectAlreadyExists"@)
}

/// An object store in memory. Objects are written once and never changed.
#[derive(Debug, Clone)]
pub struct MemoryObjectStore {
    objects: Vec<(String, Vec<u8>)>,
}

impl View for MemoryObjectStore {
    type V = Seq<(Seq<char>, Seq<u8>)>;

    closed spec fn view(&self) -> Seq<(Seq<char>, Seq<u8>)> {
        self.objects@.map_values(|o: (String, Vec<u8>)| (o.0@, o.1@))
    }
}

/// An object is found at its location after it was added to a store that
/// had none there, and what was found elsewhere before is still found.
pub proof fn lemma_object_added(
    objects: Seq<(Seq<char>, Seq<u8>)>,
    location: Seq<char>,
    content: Seq<u8>,
    other: Seq<char>,
)
    requires
        object_at(objects, location) is None,
    ensures
        object_at(objects.push((location, content)), location) == Some(content),
        other != location ==> object_at(objects.push((location, content)), other) == object_at(
            objects,
            other,
        ),
    decreases objects.len(),
{
    let after = objects.push((location, content));
    if objects.len() == 0 {
        assert(after.drop_first() =~= Seq::<(Seq<char>, Seq<u8>)>::empty());
        assert(object_at(after.drop_first(), other) is None);
        assert(after[0] == (location, content));
    } else {
        assert(after.drop_first() =~= objects.drop_first().push((location, content)));
        assert(after[0] == objects[0]);
        lemma_object_added(objects.drop_first(), location, content, other);
    }
}

impl MemoryObjectStore {
    /// A store without objects.
    pub fn new() -> (store: Self)
        ensures
            store@ == Seq::<(Seq<char>, Seq<u8>)>::empty(),
    {
        let store = MemoryObjectStore { objects: Vec::new() };
        assert(store@ =~= Seq::<(Seq<char>, Seq<u8>)>::empty());
        store
    }

    /// The number of objects.
    pub fn len(&self) -> (n: usize)
        ensures
            n == self@.len(),
    {
        self.objects.len()
    }

    /// The content of the object at `location`.
    pub fn read(&self, location: &str) -> (content: Option<&Vec<u8>>)
        ensures
            content is Some <==> object_at(self@, location@) is Some,
            content matches Some(bytes) ==> Some(bytes@) == object_at(self@, location@),
    {
        let wanted = location.to_owned();
        let mut i: usize = 0;
        assert(self@.skip(0) =~= self@);
        while i < self.objects.len()
            invariant
                wanted@ == location@,
                i <= self.objects.len(),
                object_at(self@, location@) == object_at(self@.skip(i as int), location@),
            decreases self.objects.len() - i,
        {
            let ghost rest = self@.skip(i as int);
            assert(rest[0] == self@[i as int]);
            if self.objects[i].0 == wanted {
                return Some(&self.objects[i].1);
            }
            assert(rest.drop_first() =~= self@.skip(i + 1));
            i += 1;
        }
        None
    }

    /// Writes a new object. A location that holds an object is not
    /// written to again.
    pub fn write(&mut self, location: String, content: Vec<u8>) -> (r: Result<(), ErrorModel>)
        ensures
            match object_at(old(self)@, location@) {
                Some(_) => r is Err && r->Err_0@ == object_exists() && final(self)@ == old(self)@,
                None => r is Ok && final(self)@ == old(self)@.push((location@, content@)),
            },
            r is Ok ==> object_at(final(self)@, location@) == Some(content@),
    {
        if self.read(location.as_str()).is_some() {
            return Err(
                ErrorModel::new(
                    ErrorKind::StorageError,
                    "Object exists already.",
                    "ObjectAlreadyExists",
                ),
            );
        }
        proof {
            lemma_object_added(self@, location@, content@, location@);
            assert(self.objects@.push((location, content)).map_values(
                |o: (String, Vec<u8>)| (o.0@, o.1@),
            ) =~= self@.push((location@, content@)));
        }
        self.objects.push((location, content));
        Ok(())
    }
}

} // verus!
