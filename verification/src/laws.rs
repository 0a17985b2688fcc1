//! What holds of every repository, proved from the contracts of its
//! operations: `store` turns the entries into `stored`, `delete` into
//! `removed`, and `get_by_id` answers `lookup`.

use crate::account::{Account, ACCOUNT_PREFIX};
use crate::message::encodable;
use crate::record::{store_key, Record};
use crate::repository::{holds, lookup, removed, stored, Lookup};
use crate::todo::{Todo, TODO_PREFIX};
use vstd::prelude::*;

verus! {

/// One change of a store: bytes put under a store key, as `store` and
/// `insert_raw` do, or a store key removed, as `delete` does.
pub enum Change {
    Put(Seq<char>, Seq<u8>),
    Remove(Seq<char>),
}

/// The store after one change.
pub open spec fn apply(entries: Map<Seq<char>, Seq<u8>>, change: Change) -> Map<
    Seq<char>,
    Seq<u8>,
> {
    match change {
        Change::Put(key, bytes) => entries.insert(key, bytes),
        Change::Remove(key) => entries.remove(key),
    }
}

/// The store that a new repository has become after the changes, first to
/// last.
pub open spec fn replay(changes: Seq<Change>) -> Map<Seq<char>, Seq<u8>>
    decreases changes.len(),
{
    if changes.len() == 0 {
        Map::empty()
    } else {
        apply(replay(changes.drop_last()), changes.last())
    }
}

/// `store` is a put under the store key of the record, and `delete` the removal
/// of a store key.
pub proof fn lemma_operations_are_changes<T: Record>(
    entries: Map<Seq<char>, Seq<u8>>,
    record: T::V,
    id: Seq<char>,
)
    ensures
        stored::<T>(entries, record) == apply(
            entries,
            Change::Put(store_key::<T>(T::key(record)), T::wire(record)),
        ),
        removed::<T>(entries, id) == apply(entries, Change::Remove(store_key::<T>(id))),
{
}

/// Two record types are apart where neither prefix begins with the other.
pub open spec fn apart<A: Record, B: Record>() -> bool {
    !A::prefix().is_prefix_of(B::prefix()) && !B::prefix().is_prefix_of(A::prefix())
}

/// Every entry of type `T` decodes to a record whose natural key is the one
/// it stands under.
pub open spec fn sound<T: Record>(entries: Map<Seq<char>, Seq<u8>>) -> bool {
    forall|id: Seq<char>| #[trigger]
        holds::<T>(entries, id) ==> (lookup::<T>(entries, id) matches Lookup::Found(record)
            && T::key(record) == id)
}

/// Two natural keys of one type have the same store key only where they are
/// the same.
pub proof fn lemma_store_key_injective<T: Record>(a: Seq<char>, b: Seq<char>)
    requires
        store_key::<T>(a) == store_key::<T>(b),
    ensures
        a == b,
{
    let prefix = T::prefix();
    assert(a =~= (prefix + a).skip(prefix.len() as int));
    assert(b =~= (prefix + b).skip(prefix.len() as int));
}

/// Two types that are apart never share a store key.
pub proof fn lemma_store_keys_apart<A: Record, B: Record>(a: Seq<char>, b: Seq<char>)
    requires
        apart::<A, B>(),
    ensures
        store_key::<A>(a) != store_key::<B>(b),
{
    let left = A::prefix();
    let right = B::prefix();
    if left + a == right + b {
        if left.len() <= right.len() {
            assert(left =~= (left + a).subrange(0, left.len() as int));
            assert(right.subrange(0, left.len() as int) =~= (right + b).subrange(
                0,
                left.len() as int,
            ));
            assert(left.is_prefix_of(right));
        } else {
            assert(right =~= (right + b).subrange(0, right.len() as int));
            assert(left.subrange(0, right.len() as int) =~= (left + a).subrange(
                0,
                right.len() as int,
            ));
            assert(right.is_prefix_of(left));
        }
    }
}

/// Accounts and todos are apart.
pub proof fn lemma_account_todo_apart()
    ensures
        apart::<Account, Todo>(),
        apart::<Todo, Account>(),
{
    reveal_strlit("account:");
    reveal_strlit("todo:");
    assert(ACCOUNT_PREFIX@[0] != TODO_PREFIX@[0]);
}

/// Round trip: a record that has been stored is found under its natural key,
/// with every field as it was stored.
pub proof fn law_store_then_get<T: Record>(entries: Map<Seq<char>, Seq<u8>>, record: T::V)
    requires
        encodable::<T>(record),
    ensures
        lookup::<T>(stored::<T>(entries, record), T::key(record)) == Lookup::Found(record),
{
    T::round_trip(record);
}

/// A new repository holds nothing.
pub proof fn law_new_holds_nothing<T: Record>(id: Seq<char>)
    ensures
        lookup::<T>(Map::empty(), id) is Absent,
        !holds::<T>(Map::empty(), id),
{
}

/// A key that was never stored is absent: whatever has been put into or
/// removed from a new repository, if nothing was put under the store key of
/// `id`, then `get_by_id` finds nothing there and `delete` reports `false`.
pub proof fn law_never_stored<T: Record>(changes: Seq<Change>, id: Seq<char>)
    requires
        forall|i: int|
            0 <= i < changes.len() ==> !(#[trigger] changes[i] matches Change::Put(key, _) && key
                == store_key::<T>(id)),
    ensures
        lookup::<T>(replay(changes), id) is Absent,
        !holds::<T>(replay(changes), id),
        removed::<T>(replay(changes), id) == replay(changes),
    decreases changes.len(),
{
    if changes.len() > 0 {
        let earlier = changes.drop_last();
        assert forall|i: int| 0 <= i < earlier.len() implies !(#[trigger] earlier[i] matches Change::Put(
            key,
            _,
        ) && key == store_key::<T>(id)) by {
            assert(earlier[i] == changes[i]);
        }
        law_never_stored::<T>(earlier, id);
        assert(changes.last() == changes[changes.len() - 1]);
    }
    assert(removed::<T>(replay(changes), id) =~= replay(changes));
}

/// A record that has been stored can be deleted, and is gone afterwards:
/// `delete` reports `true`, and `get_by_id` then finds nothing.
pub proof fn law_store_then_delete<T: Record>(entries: Map<Seq<char>, Seq<u8>>, record: T::V)
    ensures
        holds::<T>(stored::<T>(entries, record), T::key(record)),
        lookup::<T>(removed::<T>(stored::<T>(entries, record), T::key(record)), T::key(record))
            is Absent,
        !holds::<T>(removed::<T>(stored::<T>(entries, record), T::key(record)), T::key(record)),
{
}

/// Deleting twice: the second `delete` of a key reports `false` and changes
/// nothing.
pub proof fn law_delete_twice<T: Record>(entries: Map<Seq<char>, Seq<u8>>, id: Seq<char>)
    ensures
        !holds::<T>(removed::<T>(entries, id), id),
        removed::<T>(removed::<T>(entries, id), id) == removed::<T>(entries, id),
{
    assert(removed::<T>(removed::<T>(entries, id), id) =~= removed::<T>(entries, id));
}

/// The last store wins: of two records with the same natural key, stored one
/// after the other, the store keeps the second and nothing of the first.
pub proof fn law_store_overwrites<T: Record>(
    entries: Map<Seq<char>, Seq<u8>>,
    first: T::V,
    second: T::V,
)
    requires
        T::key(first) == T::key(second),
        encodable::<T>(second),
    ensures
        lookup::<T>(stored::<T>(stored::<T>(entries, first), second), T::key(first))
            == Lookup::Found(second),
        stored::<T>(stored::<T>(entries, first), second) == stored::<T>(entries, second),
{
    T::round_trip(second);
    assert(stored::<T>(stored::<T>(entries, first), second) =~= stored::<T>(entries, second));
}

/// Storing or deleting a record leaves the records of its type under every
/// other natural key as they were.
pub proof fn law_other_keys_untouched<T: Record>(
    entries: Map<Seq<char>, Seq<u8>>,
    record: T::V,
    deleted: Seq<char>,
    id: Seq<char>,
)
    ensures
        id != T::key(record) ==> lookup::<T>(stored::<T>(entries, record), id) == lookup::<T>(
            entries,
            id,
        ),
        id != deleted ==> lookup::<T>(removed::<T>(entries, deleted), id) == lookup::<T>(
            entries,
            id,
        ),
{
    if store_key::<T>(id) == store_key::<T>(T::key(record)) {
        lemma_store_key_injective::<T>(id, T::key(record));
    }
    if store_key::<T>(id) == store_key::<T>(deleted) {
        lemma_store_key_injective::<T>(id, deleted);
    }
}

/// Types that are apart never collide: storing or deleting a record of type
/// `A` leaves every record of type `B` as it was, whatever their natural keys.
pub proof fn law_types_do_not_collide<A: Record, B: Record>(
    entries: Map<Seq<char>, Seq<u8>>,
    record: A::V,
    deleted: Seq<char>,
    id: Seq<char>,
)
    requires
        apart::<A, B>(),
    ensures
        lookup::<B>(stored::<A>(entries, record), id) == lookup::<B>(entries, id),
        lookup::<B>(removed::<A>(entries, deleted), id) == lookup::<B>(entries, id),
{
    lemma_store_keys_apart::<A, B>(A::key(record), id);
    lemma_store_keys_apart::<A, B>(deleted, id);
}

/// An account and a todo with one and the same natural key live side by side:
/// each is found whole after both have been stored, and each is still found
/// after the other has been deleted.
pub proof fn law_account_and_todo_side_by_side(
    entries: Map<Seq<char>, Seq<u8>>,
    account: <Account as View>::V,
    todo: <Todo as View>::V,
)
    requires
        encodable::<Account>(account),
        encodable::<Todo>(todo),
        account.name == todo.id,
    ensures
        ({
            let both = stored::<Todo>(stored::<Account>(entries, account), todo);
            let id = account.name;
            &&& lookup::<Account>(both, id) == Lookup::Found(account)
            &&& lookup::<Todo>(both, id) == Lookup::Found(todo)
            &&& lookup::<Todo>(removed::<Account>(both, id), id) == Lookup::Found(todo)
            &&& lookup::<Account>(removed::<Account>(both, id), id) is Absent
            &&& lookup::<Account>(removed::<Todo>(both, id), id) == Lookup::Found(account)
            &&& lookup::<Todo>(removed::<Todo>(both, id), id) is Absent
        }),
{
    let id = account.name;
    let first = stored::<Account>(entries, account);
    let both = stored::<Todo>(first, todo);
    lemma_account_todo_apart();
    law_store_then_get::<Account>(entries, account);
    law_store_then_get::<Todo>(first, todo);
    law_types_do_not_collide::<Todo, Account>(first, todo, id, id);
    law_types_do_not_collide::<Account, Todo>(both, account, id, id);
    law_types_do_not_collide::<Todo, Account>(both, todo, id, id);
}

/// Soundness is an invariant: a new repository is sound for every type, and
/// `store` and `delete` keep a store sound for their own type.
pub proof fn law_sound_is_kept<T: Record>(
    entries: Map<Seq<char>, Seq<u8>>,
    record: T::V,
    deleted: Seq<char>,
)
    requires
        sound::<T>(entries),
        encodable::<T>(record),
    ensures
        sound::<T>(Map::empty()),
        sound::<T>(stored::<T>(entries, record)),
        sound::<T>(removed::<T>(entries, deleted)),
{
    let after = stored::<T>(entries, record);
    assert forall|id: Seq<char>| #[trigger] holds::<T>(after, id) implies (lookup::<T>(
        after,
        id,
    ) matches Lookup::Found(found) && T::key(found) == id) by {
        if id == T::key(record) {
            law_store_then_get::<T>(entries, record);
        } else {
            law_other_keys_untouched::<T>(entries, record, deleted, id);
            assert(holds::<T>(entries, id));
        }
    }
    let less = removed::<T>(entries, deleted);
    assert forall|id: Seq<char>| #[trigger] holds::<T>(less, id) implies (lookup::<T>(
        less,
        id,
    ) matches Lookup::Found(found) && T::key(found) == id) by {
        assert(holds::<T>(entries, id));
    }
}

/// Soundness for one type is kept by `store` and `delete` for a type that is
/// apart from it.
pub proof fn law_sound_is_kept_by_others<A: Record, B: Record>(
    entries: Map<Seq<char>, Seq<u8>>,
    record: A::V,
    deleted: Seq<char>,
)
    requires
        apart::<A, B>(),
        sound::<B>(entries),
    ensures
        sound::<B>(stored::<A>(entries, record)),
        sound::<B>(removed::<A>(entries, deleted)),
{
    let after = stored::<A>(entries, record);
    assert forall|id: Seq<char>| #[trigger] holds::<B>(after, id) implies (lookup::<B>(
        after,
        id,
    ) matches Lookup::Found(found) && B::key(found) == id) by {
        law_types_do_not_collide::<A, B>(entries, record, deleted, id);
        lemma_store_keys_apart::<A, B>(A::key(record), id);
        assert(holds::<B>(entries, id));
    }
    let less = removed::<A>(entries, deleted);
    assert forall|id: Seq<char>| #[trigger] holds::<B>(less, id) implies (lookup::<B>(
        less,
        id,
    ) matches Lookup::Found(found) && B::key(found) == id) by {
        law_types_do_not_collide::<A, B>(entries, record, deleted, id);
        assert(holds::<B>(entries, id));
    }
}

} // verus!
