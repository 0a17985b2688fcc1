//! The repository: records of several types in one store of bytes, each type
//! under the keys that start with its prefix.

use crate::error::RepoError;
use crate::message::{decode, encodable, encode, parse};
use crate::record::{store_key, Record};
use vstd::hash_map::StringHashMap;
use vstd::prelude::*;
use vstd::string::StringExecFns;

verus! {

/// What a store holds for a natural key of some record type.
pub enum Lookup<V> {
    /// No entry stands under the key.
    Absent,
    /// The entry under the key decodes to this record.
    Found(V),
    /// An entry stands under the key and its bytes are no record.
    Corrupt,
}

/// The store after the record has been filed under its natural key: the entry
/// is new or takes the place of the one that was there.
pub open spec fn stored<T: Record>(entries: Map<Seq<char>, Seq<u8>>, record: T::V) -> Map<
    Seq<char>,
    Seq<u8>,
> {
    entries.insert(store_key::<T>(T::key(record)), T::wire(record))
}

/// The store without the entry of type `T` under the natural key `id`.
pub open spec fn removed<T: Record>(entries: Map<Seq<char>, Seq<u8>>, id: Seq<char>) -> Map<
    Seq<char>,
    Seq<u8>,
> {
    entries.remove(store_key::<T>(id))
}

/// Whether the store has an entry of type `T` under the natural key `id`.
pub open spec fn holds<T: Record>(entries: Map<Seq<char>, Seq<u8>>, id: Seq<char>) -> bool {
    entries.contains_key(store_key::<T>(id))
}

/// What the store holds of type `T` under the natural key `id`.
pub open spec fn lookup<T: Record>(entries: Map<Seq<char>, Seq<u8>>, id: Seq<char>) -> Lookup<
    T::V,
> {
    if !holds::<T>(entries, id) {
        Lookup::Absent
    } else {
        match parse::<T>(entries[store_key::<T>(id)]) {
            Some(record) => Lookup::Found(record),
            None => Lookup::Corrupt,
        }
    }
}

/// Create-or-replace, point lookup and delete for the records of type `T`,
/// over a store that other record types may share.
pub trait Repository<T: Record> {
    /// The whole store: the bytes held under each store key.
    spec fn entries(&self) -> Map<Seq<char>, Seq<u8>>;

    /// Files `entity` under its natural key, in place of any record of its
    /// type that was there, so that it is the record found there afterwards.
    /// It fails, and leaves the store as it was, exactly where the record
    /// cannot be encoded.
    fn store(&mut self, entity: &T) -> (r: Result<(), RepoError>)
        ensures
            match r {
                Ok(_) => encodable::<T>(entity@) && final(self).entries() == stored::<T>(
                    old(self).entries(),
                    entity@,
                ) && lookup::<T>(final(self).entries(), T::key(entity@)) == Lookup::Found(entity@),
                Err(e) => !encodable::<T>(entity@) && e is Encode && final(self).entries() == old(
                    self,
                ).entries(),
            },
    ;

    /// The record of type `T` with natural key `id`: `None` where the store
    /// has none, an error where the bytes under the key are no record.
    fn get_by_id(&self, id: &str) -> (r: Result<Option<T>, RepoError>)
        ensures
            match r {
                Ok(Some(entity)) => lookup::<T>(self.entries(), id@) == Lookup::Found(entity@),
                Ok(None) => lookup::<T>(self.entries(), id@) is Absent,
                Err(e) => lookup::<T>(self.entries(), id@) is Corrupt && e is Decode,
            },
    ;

    /// Removes the record of type `T` with natural key `id` and says whether
    /// there was one. It never fails.
    fn delete(&mut self, id: &str) -> (r: Result<bool, RepoError>)
        ensures
            r matches Ok(existed) && existed == holds::<T>(old(self).entries(), id@),
            final(self).entries() == removed::<T>(old(self).entries(), id@),
    ;
}

/// A repository that lives in memory and ends with the value that holds it.
/// It keeps the records of every type apart from those of every other as long
/// as no prefix of one type begins with the prefix of another.
pub struct InMemoryRepo {
    store: StringHashMap<Vec<u8>>,
}

impl View for InMemoryRepo {
    type V = Map<Seq<char>, Seq<u8>>;

    /// The bytes held under each store key.
    closed spec fn view(&self) -> Map<Seq<char>, Seq<u8>> {
        self.store@.map_values(|bytes: Vec<u8>| bytes@)
    }
}

impl InMemoryRepo {
    /// An empty repository.
    pub fn new() -> (repo: Self)
        ensures
            repo@ == Map::<Seq<char>, Seq<u8>>::empty(),
    {
        let repo = InMemoryRepo { store: StringHashMap::new() };
        assert(repo@ =~= Map::<Seq<char>, Seq<u8>>::empty());
        repo
    }

    /// Puts `bytes` under the store key `key` as they are, whether or not they
    /// encode a record of the type that owns the key.
    pub fn insert_raw(&mut self, key: String, bytes: Vec<u8>)
        ensures
            final(self)@ == old(self)@.insert(key@, bytes@),
    {
        self.store.insert(key, bytes);
        assert(self@ =~= old(self)@.insert(key@, bytes@));
    }

    /// The store key of the record of type `T` with natural key `id`.
    fn key_for<T: Record>(id: &str) -> (key: String)
        ensures
            key@ == store_key::<T>(id@),
    {
        let mut key = String::from_str(T::key_prefix());
        key.append(id);
        key
    }
}

impl<T: Record> Repository<T> for InMemoryRepo {
    open spec fn entries(&self) -> Map<Seq<char>, Seq<u8>> {
        self@
    }

    fn store(&mut self, entity: &T) -> (r: Result<(), RepoError>) {
        let bytes = encode(entity)?;
        let key = Self::key_for::<T>(entity.natural_key());
        self.store.insert(key, bytes);
        proof {
            assert(self@ =~= stored::<T>(old(self)@, entity@));
            T::round_trip(entity@);
        }
        Ok(())
    }

    fn get_by_id(&self, id: &str) -> (r: Result<Option<T>, RepoError>) {
        let key = Self::key_for::<T>(id);
        match self.store.get(key.as_str()) {
            Some(bytes) => match decode::<T>(bytes.as_slice()) {
                Ok(entity) => Ok(Some(entity)),
                Err(e) => Err(RepoError::Decode(e)),
            },
            None => Ok(None),
        }
    }

    fn delete(&mut self, id: &str) -> (r: Result<bool, RepoError>) {
        let key = Self::key_for::<T>(id);
        let existed = self.store.contains_key(key.as_str());
        self.store.remove(key.as_str());
        assert(self@ =~= removed::<T>(old(self)@, id@));
        Ok(existed)
    }
}

} // verus!
