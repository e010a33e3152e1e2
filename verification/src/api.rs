//! The requests that the store answers.
//!
//! Each request reads the caller's entry, or every entry, and decodes it. The
//! decoder decides whether that succeeds, so each request comes in two parts:
//! the part that reads and decodes, and a part that takes what the decoder
//! gave and says exactly what is answered and stored for each outcome.

use vstd::prelude::*;
use crate::model::{records_for, records_in_order, renamed, with_name, with_record};
use crate::order::{
    is_sorted_listing, lemma_sorted_listing_is_unique, lemma_sorted_listing_len, principal_lt,
    sorted_listing,
};
use crate::pagination::{page_slice, paginate, PaginationParams, PaginationResponse};
use crate::state::{records_in, State};
use crate::storable::{decoded, encoded, Candid, StoreError, StoredPrincipal};
use crate::user::{UserData, UserDataView};

verus! {

/// The records of an entry, given what decoding it gave: no records for a
/// missing entry, the decoded records, or the decoder's error.
pub fn entry_records(entry: Option<Result<Candid<Vec<UserData>>, StoreError>>) -> (records: Result<
    Vec<UserData>,
    StoreError,
>)
    ensures
        match entry {
            None => records matches Ok(found) && found.deep_view() == Seq::<UserDataView>::empty(),
            Some(Ok(stored)) => records matches Ok(found) && found.deep_view()
                == stored.0.deep_view(),
            Some(Err(e)) => records matches Err(same) && same == e,
        },
{
    match entry {
        None => {
            let none: Vec<UserData> = Vec::new();
            assert(none.deep_view() =~= Seq::<UserDataView>::empty());
            Ok(none)
        },
        Some(Ok(stored)) => Ok(stored.0),
        Some(Err(e)) => Err(e),
    }
}

/// The records stored for the caller, oldest first. A caller without an
/// entry has none, and is always answered. Where records come back, the
/// caller's entry decodes and they are its records. The only error is
/// [`StoreError::Corrupted`], and it comes only for a caller with an entry.
pub fn get_user_data(state: &State, caller: &StoredPrincipal) -> (records: Result<
    Vec<UserData>,
    StoreError,
>)
    ensures
        !state.entries().contains_key(caller@) ==> records is Ok,
        match records {
            Ok(found) => state.readable(caller@) && found.deep_view() == records_for(
                state@,
                caller@,
            ),
            Err(e) => e == StoreError::Corrupted && state.entries().contains_key(caller@),
        },
{
    let entry = match state.stored_bytes(caller) {
        Some(bytes) => Some(Candid::from_bytes(bytes.as_slice())),
        None => None,
    };
    entry_records(entry)
}

/// Appends a record to the records that were read for the caller and stores
/// them; where reading them failed, hands the error on and stores nothing.
/// Every other entry stays as it was, and the store stays in its memory.
pub fn append_record(
    state: &mut State,
    caller: &StoredPrincipal,
    stored: Result<Vec<UserData>, StoreError>,
    user_details: UserData,
) -> (status: Result<String, StoreError>)
    ensures
        final(state).memory_id() == old(state).memory_id(),
        match stored {
            Ok(records) => {
                &&& status matches Ok(message) && message@ == "user data added successfully"@
                &&& final(state).entries() == old(state).entries().insert(
                    caller@,
                    encoded(records.deep_view().push(user_details@)),
                )
                &&& final(state).readable(caller@)
                &&& records_for(final(state)@, caller@) == records.deep_view().push(
                    user_details@,
                )
            },
            Err(e) => {
                &&& status matches Err(same) && same == e
                &&& final(state).entries() == old(state).entries()
            },
        },
{
    let mut tokens = match stored {
        Ok(records) => records,
        Err(e) => {
            return Err(e);
        },
    };
    let ghost before = tokens.deep_view();
    let ghost record = user_details@;
    tokens.push(user_details);
    assert(tokens.deep_view() =~= before.push(record));
    let bytes = Candid(tokens).to_bytes();
    state.store_bytes(caller, bytes);
    Ok("user data added successfully".to_string())
}

/// Appends a record to the caller's records, creating the entry where the
/// caller has none, which always succeeds. Every other entry stays as it
/// was, and the store stays in its memory. The only error is
/// [`StoreError::Corrupted`]; it comes only for a caller with an entry, and
/// then nothing is changed.
pub fn add_user_data(state: &mut State, caller: &StoredPrincipal, user_details: UserData) -> (status:
    Result<String, StoreError>)
    ensures
        final(state).memory_id() == old(state).memory_id(),
        !old(state).entries().contains_key(caller@) ==> status is Ok,
        final(state).entries().remove(caller@) == old(state).entries().remove(caller@),
        match status {
            Ok(message) => {
                &&& old(state).readable(caller@)
                &&& message@ == "user data added successfully"@
                &&& final(state)@ == with_record(old(state)@, caller@, user_details@)
                &&& final(state).entries() == old(state).entries().insert(
                    caller@,
                    encoded(records_for(old(state)@, caller@).push(user_details@)),
                )
                &&& final(state).readable(caller@)
            },
            Err(e) => {
                &&& e == StoreError::Corrupted
                &&& old(state).entries().contains_key(caller@)
                &&& final(state).entries() == old(state).entries()
            },
        },
{
    let ghost record = user_details@;
    let stored = get_user_data(state, caller);
    let status = append_record(state, caller, stored, user_details);
    proof {
        if status is Ok {
            assert(state@ =~= with_record(old(state)@, caller@, record));
        }
        assert(state.entries().remove(caller@) =~= old(state).entries().remove(caller@));
    }
    status
}

/// Gives every record that was read for the caller the name `username` and
/// stores them; tells a caller without records so and stores nothing; where
/// reading the records failed, hands the error on and stores nothing. Every
/// other entry stays as it was, and the store stays in its memory.
pub fn rename_records(
    state: &mut State,
    caller: &StoredPrincipal,
    stored: Result<Vec<UserData>, StoreError>,
    username: String,
) -> (status: Result<String, StoreError>)
    ensures
        final(state).memory_id() == old(state).memory_id(),
        match stored {
            Ok(records) => if records.len() == 0 {
                &&& status matches Ok(message) && message@ == "User not found."@
                &&& final(state).entries() == old(state).entries()
            } else {
                &&& status matches Ok(message) && message@ == "Username updated successfully"@
                &&& final(state).entries() == old(state).entries().insert(
                    caller@,
                    encoded(renamed(records.deep_view(), username@)),
                )
                &&& final(state).readable(caller@)
                &&& records_for(final(state)@, caller@) == renamed(
                    records.deep_view(),
                    username@,
                )
            },
            Err(e) => {
                &&& status matches Err(same) && same == e
                &&& final(state).entries() == old(state).entries()
            },
        },
{
    let mut user = match stored {
        Ok(records) => records,
        Err(e) => {
            return Err(e);
        },
    };
    if user.len() == 0 {
        return Ok("User not found.".to_string());
    }
    let ghost before = user.deep_view();
    let mut i: usize = 0;
    while i < user.len()
        invariant
            i <= user.len(),
            user.len() == before.len(),
            forall|j: int| 0 <= j < i ==> (#[trigger] user[j])@ == before[j].with_name(username@),
            forall|j: int| i <= j < user.len() ==> (#[trigger] user[j])@ == before[j],
        decreases user.len() - i,
    {
        user[i].set_username(username.clone());
        i += 1;
    }
    assert(user.deep_view() =~= renamed(before, username@));
    let bytes = Candid(user).to_bytes();
    state.store_bytes(caller, bytes);
    Ok("Username updated successfully".to_string())
}

/// Gives every record of the caller the name `username`. A caller without
/// records is told so and nothing changes; for a caller without an entry
/// that always succeeds. Every other entry stays as it was, and the store
/// stays in its memory. The only error is [`StoreError::Corrupted`]; it
/// comes only for a caller with an entry, and then nothing is changed.
pub fn set_username(state: &mut State, caller: &StoredPrincipal, username: String) -> (status:
    Result<String, StoreError>)
    ensures
        final(state).memory_id() == old(state).memory_id(),
        !old(state).entries().contains_key(caller@) ==> status is Ok,
        final(state).entries().remove(caller@) == old(state).entries().remove(caller@),
        match status {
            Ok(message) => {
                &&& old(state).readable(caller@)
                &&& final(state)@ == with_name(old(state)@, caller@, username@)
                &&& final(state).readable(caller@)
                &&& if records_for(old(state)@, caller@).len() == 0 {
                    &&& message@ == "User not found."@
                    &&& final(state).entries() == old(state).entries()
                } else {
                    &&& message@ == "Username updated successfully"@
                    &&& final(state).entries() == old(state).entries().insert(
                        caller@,
                        encoded(renamed(records_for(old(state)@, caller@), username@)),
                    )
                }
            },
            Err(e) => {
                &&& e == StoreError::Corrupted
                &&& old(state).entries().contains_key(caller@)
                &&& final(state).entries() == old(state).entries()
            },
        },
{
    let ghost name = username@;
    let stored = get_user_data(state, caller);
    let status = rename_records(state, caller, stored, username);
    proof {
        if status is Ok {
            assert(state@ =~= with_name(old(state)@, caller@, name));
        }
        assert(state.entries().remove(caller@) =~= old(state).entries().remove(caller@));
    }
    status
}

/// The records that decoding every entry gave, entry by entry; no records
/// for an entry that did not decode.
pub open spec fn decoded_records(entries: Seq<Result<Candid<Vec<UserData>>, StoreError>>) -> Seq<
    Seq<UserDataView>,
> {
    Seq::new(
        entries.len(),
        |i: int|
            match entries[i] {
                Ok(stored) => stored.0.deep_view(),
                Err(_) => Seq::empty(),
            },
    )
}

/// One page of the records of all owners, given what decoding each entry
/// gave: the page and the number of entries where every entry decoded, and
/// otherwise the error of the first entry that did not.
pub fn list_decoded(
    entries: Vec<Result<Candid<Vec<UserData>>, StoreError>>,
    pagination_params: PaginationParams,
) -> (response: Result<PaginationResponse<Vec<UserData>>, StoreError>)
    ensures
        match response {
            Ok(page) => {
                &&& forall|i: int| 0 <= i < entries.len() ==> (#[trigger] entries[i]) is Ok
                &&& page.total_items == entries.len()
                &&& page.items.deep_view() == page_slice(
                    decoded_records(entries@),
                    pagination_params.page as int,
                    pagination_params.page_size as int,
                )
            },
            Err(e) => exists|i: int|
                {
                    &&& 0 <= i < entries.len()
                    &&& #[trigger] entries[i] matches Err(first) && first == e
                    &&& forall|j: int| 0 <= j < i ==> (#[trigger] entries[j]) is Ok
                },
        },
{
    let mut all_users: Vec<Vec<UserData>> = Vec::new();
    for entry in iter: entries
        invariant
            iter.seq() == entries@,
            all_users.len() == iter.index(),
            forall|j: int| 0 <= j < iter.index() ==> (#[trigger] entries[j]) is Ok,
            forall|j: int|
                0 <= j < iter.index() ==> (#[trigger] all_users[j]).deep_view() == decoded_records(
                    entries@,
                )[j],
    {
        assert(entry == entries[iter.index() as int]);
        match entry {
            Ok(users) => {
                all_users.push(users.0);
            },
            Err(e) => {
                return Err(e);
            },
        }
    }
    let ghost all = all_users.deep_view();
    assert(all =~= decoded_records(entries@));
    let page = paginate(all_users, &pagination_params);
    assert(page.items.deep_view() =~= page_slice(
        all,
        pagination_params.page as int,
        pagination_params.page_size as int,
    ));
    Ok(page)
}

/// One page of the records of all owners, one item per owner in the order of
/// the owners' principals, and the number of owners that have an entry. A
/// page outside the list is empty. A store without entries is always
/// answered. The only error is [`StoreError::Corrupted`], and it comes only
/// for a store with entries.
pub fn list_all_users(state: &State, pagination_params: PaginationParams) -> (response: Result<
    PaginationResponse<Vec<UserData>>,
    StoreError,
>)
    ensures
        state.entries() == Map::<Seq<u8>, Seq<u8>>::empty() ==> response is Ok,
        match response {
            Ok(page) => {
                &&& state.intact()
                &&& is_sorted_listing(state@, sorted_listing(state@))
                &&& page.total_items == records_in_order(state@).len()
                &&& page.total_items == state@.dom().len()
                &&& page.items.deep_view() == page_slice(
                    records_in_order(state@),
                    pagination_params.page as int,
                    pagination_params.page_size as int,
                )
            },
            Err(e) => e == StoreError::Corrupted && state.entries() != Map::<
                Seq<u8>,
                Seq<u8>,
            >::empty(),
        },
{
    let data = state.stored_listing();
    let ghost listing = data.deep_view();
    let mut entries: Vec<Result<Candid<Vec<UserData>>, StoreError>> = Vec::new();
    let mut i: usize = 0;
    while i < data.len()
        invariant
            i <= data.len(),
            listing == data.deep_view(),
            entries.len() == i,
            forall|j: int|
                0 <= j < i ==> match #[trigger] entries[j] {
                    Ok(stored) => decoded(listing[j].1) == Some(stored.0.deep_view()),
                    Err(e) => e == StoreError::Corrupted,
                },
        decreases data.len() - i,
    {
        assert(listing[i as int].1 =~= data[i as int].1@);
        entries.push(Candid::from_bytes(data[i].1.as_slice()));
        i += 1;
    }
    let ghost given = entries@;
    let response = list_decoded(entries, pagination_params);
    proof {
        if response is Ok {
            let by_owner = Seq::new(
                listing.len(),
                |j: int| (listing[j].0, records_in(listing[j].1)),
            );
            assert forall|owner: Seq<u8>| state.readable(owner) by {
                if state.entries().contains_key(owner) {
                    let j = choose|j: int|
                        0 <= j < listing.len() && (#[trigger] listing[j]).0 == owner;
                    assert(given[j] is Ok);
                }
            }
            assert(is_sorted_listing(state@, by_owner)) by {
                assert forall|owner: Seq<u8>| #[trigger]
                    state@.contains_key(owner) implies exists|j: int|
                    0 <= j < by_owner.len() && (#[trigger] by_owner[j]).0 == owner by {
                    let j = choose|j: int|
                        0 <= j < listing.len() && (#[trigger] listing[j]).0 == owner;
                    assert(by_owner[j].0 == owner);
                }
                assert forall|a: int, b: int| 0 <= a < b < by_owner.len() implies principal_lt(
                    (#[trigger] by_owner[a]).0,
                    (#[trigger] by_owner[b]).0,
                ) by {
                    assert(principal_lt(listing[a].0, listing[b].0));
                }
                assert forall|a: int| 0 <= a < by_owner.len() implies state@.contains_key(
                    (#[trigger] by_owner[a]).0,
                ) && state@[by_owner[a].0] == by_owner[a].1 by {
                    assert(state.entries().contains_key(listing[a].0));
                }
            }
            lemma_sorted_listing_is_unique(state@, by_owner, by_owner);
            lemma_sorted_listing_len(state@, by_owner);
            assert forall|j: int| 0 <= j < given.len() implies decoded_records(given)[j]
                == records_in_order(state@)[j] by {
                assert(given[j] is Ok);
            }
            assert(decoded_records(given) =~= records_in_order(state@));
        } else {
            let j = choose|j: int| 0 <= j < given.len() && (#[trigger] given[j]) is Err;
            assert(state.entries().contains_key(listing[j].0));
        }
    }
    response
}

} // verus!
