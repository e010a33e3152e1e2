//! The store as a mathematical map from owners to their records, and what
//! the requests do to it.

use vstd::prelude::*;
use crate::order::sorted_listing;
use crate::user::UserDataView;

verus! {

/// The store seen as a map: the records of each owner that has any entry.
pub type Store = Map<Seq<u8>, Seq<UserDataView>>;

/// The records of an owner: those stored, and none for an owner without an
/// entry.
pub open spec fn records_for(store: Store, owner: Seq<u8>) -> Seq<UserDataView> {
    if store.contains_key(owner) {
        store[owner]
    } else {
        Seq::empty()
    }
}

/// The store after `record` was appended to the records of `owner`.
pub open spec fn with_record(store: Store, owner: Seq<u8>, record: UserDataView) -> Store {
    store.insert(owner, records_for(store, owner).push(record))
}

/// The same records, each under the name `name`.
pub open spec fn renamed(records: Seq<UserDataView>, name: Seq<char>) -> Seq<UserDataView> {
    records.map_values(|record: UserDataView| record.with_name(name))
}

/// The store after every record of `owner` was given the name `name`. An
/// owner without records stays as it was.
pub open spec fn with_name(store: Store, owner: Seq<u8>, name: Seq<char>) -> Store {
    if records_for(store, owner).len() == 0 {
        store
    } else {
        store.insert(owner, renamed(records_for(store, owner), name))
    }
}

/// The records of every owner, one sequence per owner, in the order of the
/// owners' principals.
pub open spec fn records_in_order(store: Store) -> Seq<Seq<UserDataView>> {
    sorted_listing(store).map_values(|entry: (Seq<u8>, Seq<UserDataView>)| entry.1)
}

/// After a record was appended for an owner, the owner's records are the
/// earlier ones followed by the new one, so they include it; the records of
/// every other owner are as before.
pub proof fn lemma_appended_record_is_kept(
    store: Store,
    owner: Seq<u8>,
    record: UserDataView,
    other: Seq<u8>,
)
    ensures
        records_for(with_record(store, owner, record), owner) == records_for(store, owner).push(
            record,
        ),
        records_for(with_record(store, owner, record), owner).contains(record),
        forall|earlier: UserDataView|
            records_for(store, owner).contains(earlier) ==> records_for(
                with_record(store, owner, record),
                owner,
            ).contains(earlier),
        other != owner ==> records_for(with_record(store, owner, record), other) == records_for(
            store,
            other,
        ),
{
    let before = records_for(store, owner);
    let after = records_for(with_record(store, owner, record), owner);
    assert(after[before.len() as int] == record);
    assert forall|earlier: UserDataView| before.contains(earlier) implies after.contains(
        earlier,
    ) by {
        let i = choose|i: int| 0 <= i < before.len() && before[i] == earlier;
        assert(after[i] == earlier);
    }
}

/// Records appended one after the other are kept in the order in which they
/// came.
pub proof fn lemma_appends_keep_order(
    store: Store,
    owner: Seq<u8>,
    first: UserDataView,
    second: UserDataView,
)
    ensures
        records_for(with_record(with_record(store, owner, first), owner, second), owner)
            == records_for(store, owner).push(first).push(second),
{
}

/// Renaming gives every record of the owner the new name and changes nothing
/// else: the owner has as many records as before, each with its email and
/// picture, and the records of every other owner are as before.
pub proof fn lemma_rename_sets_every_name(
    store: Store,
    owner: Seq<u8>,
    name: Seq<char>,
    other: Seq<u8>,
)
    ensures
        records_for(with_name(store, owner, name), owner).len() == records_for(store, owner).len(),
        forall|i: int|
            0 <= i < records_for(store, owner).len() ==> (#[trigger] records_for(
                with_name(store, owner, name),
                owner,
            )[i]) == records_for(store, owner)[i].with_name(name),
        forall|i: int|
            0 <= i < records_for(store, owner).len() ==> (#[trigger] records_for(
                with_name(store, owner, name),
                owner,
            )[i]).name == name,
        other != owner ==> records_for(with_name(store, owner, name), other) == records_for(
            store,
            other,
        ),
{
}

/// A request that was answered with success and may have changed the store.
/// Requests that only read, and requests that failed, change nothing and are
/// no part of a history.
pub enum Change {
    /// A record was appended for an owner.
    Append { owner: Seq<u8>, record: UserDataView },
    /// The records of an owner were renamed.
    Rename { owner: Seq<u8>, name: Seq<char> },
}

/// The store after one change.
pub open spec fn after(store: Store, change: Change) -> Store {
    match change {
        Change::Append { owner, record } => with_record(store, owner, record),
        Change::Rename { owner, name } => with_name(store, owner, name),
    }
}

/// The store after a history of changes, the earliest first.
pub open spec fn after_all(store: Store, history: Seq<Change>) -> Store
    decreases history.len(),
{
    if history.len() == 0 {
        store
    } else {
        after(after_all(store, history.drop_last()), history.last())
    }
}

/// The change renames the records of `owner`.
pub open spec fn renames(change: Change, owner: Seq<u8>) -> bool {
    change matches Change::Rename { owner: renamed_owner, .. } && renamed_owner == owner
}

/// A record that was appended for an owner is among the owner's records
/// after any history of later changes, by whatever owners, in which the
/// owner's own records are not renamed.
pub proof fn lemma_appended_record_stays(
    store: Store,
    owner: Seq<u8>,
    record: UserDataView,
    history: Seq<Change>,
)
    requires
        forall|i: int| 0 <= i < history.len() ==> !renames(#[trigger] history[i], owner),
    ensures
        records_for(after_all(with_record(store, owner, record), history), owner).contains(
            record,
        ),
    decreases history.len(),
{
    let start = with_record(store, owner, record);
    if history.len() == 0 {
        lemma_appended_record_is_kept(store, owner, record, owner);
    } else {
        let earlier = history.drop_last();
        assert forall|i: int| 0 <= i < earlier.len() implies !renames(
            #[trigger] earlier[i],
            owner,
        ) by {
            assert(earlier[i] == history[i]);
        }
        lemma_appended_record_stays(store, owner, record, earlier);
        let before = after_all(start, earlier);
        assert(!renames(history[history.len() - 1], owner));
        match history.last() {
            Change::Append { owner: other, record: added } => {
                lemma_appended_record_is_kept(before, other, added, owner);
            },
            Change::Rename { owner: other, name } => {
                lemma_rename_sets_every_name(before, other, name, owner);
            },
        }
    }
}

} // verus!
