use profile_store::api::{
    add_user_data, append_record, entry_records, get_user_data, list_all_users, list_decoded,
    rename_records, set_username,
};
use profile_store::pagination::PaginationParams;
use profile_store::state::{State, USER_MAP_MEMORY_ID};
use profile_store::storable::{Candid, StoreError, StoredPrincipal};
use profile_store::user::UserData;

fn owner(bytes: &[u8]) -> StoredPrincipal {
    StoredPrincipal::from_bytes(bytes)
}

fn record(name: &str, email: &str, profile_pic: Option<Vec<u8>>) -> UserData {
    UserData { name: name.to_string(), email: email.to_string(), profile_pic }
}

#[test]
fn new_store_has_no_records() {
    assert_eq!(USER_MAP_MEMORY_ID, 0);
    let state = State::new();
    assert_eq!(get_user_data(&state, &owner(&[1])), Ok(vec![]));
    assert_eq!(state.stored_bytes(&owner(&[1])), None);
    assert_eq!(state.stored_listing(), vec![]);
    let page = list_all_users(&state, PaginationParams { page: 1, page_size: 10 }).unwrap();
    assert_eq!(page.items, Vec::<Vec<UserData>>::new());
    assert_eq!(page.total_items, 0);
}

#[test]
fn appended_record_is_fetched() {
    let mut state = State::new();
    let x = owner(&[1, 2, 3]);
    let a = record("Ada", "ada@example.com", Some(vec![1, 2]));
    let status = add_user_data(&mut state, &x, a.clone());
    assert_eq!(status, Ok("user data added successfully".to_string()));
    let fetched = get_user_data(&state, &x).unwrap();
    assert!(fetched.contains(&a));
    assert_eq!(fetched, vec![a]);
}

#[test]
fn records_are_fetched_in_the_order_they_were_appended() {
    let mut state = State::new();
    let x = owner(&[1, 2, 3]);
    let a = record("A", "a@example.com", None);
    let b = record("B", "b@example.com", Some(vec![7]));
    assert_eq!(add_user_data(&mut state, &x, a.clone()), Ok("user data added successfully".to_string()));
    assert_eq!(add_user_data(&mut state, &x, b.clone()), Ok("user data added successfully".to_string()));
    assert_eq!(get_user_data(&state, &x), Ok(vec![a, b]));
}

#[test]
fn owners_do_not_see_each_other() {
    let mut state = State::new();
    let x = owner(&[1]);
    let y = owner(&[2]);
    let a = record("A", "a", None);
    let b = record("B", "b", None);
    add_user_data(&mut state, &x, a.clone()).unwrap();
    add_user_data(&mut state, &y, b.clone()).unwrap();
    assert_eq!(get_user_data(&state, &x), Ok(vec![a]));
    assert_eq!(get_user_data(&state, &y), Ok(vec![b]));
    assert_eq!(get_user_data(&state, &owner(&[3])), Ok(vec![]));
}

#[test]
fn append_stores_the_encoding_of_the_records() {
    let mut state = State::new();
    let x = owner(&[5, 5]);
    let a = record("A", "a", None);
    let b = record("B", "b", Some(vec![1]));
    add_user_data(&mut state, &x, a.clone()).unwrap();
    assert_eq!(state.stored_bytes(&x), Some(Candid(vec![a.clone()]).to_bytes()));
    add_user_data(&mut state, &x, b.clone()).unwrap();
    assert_eq!(state.stored_bytes(&x), Some(Candid(vec![a, b]).to_bytes()));
}

#[test]
fn rename_sets_every_name() {
    let mut state = State::new();
    let x = owner(&[1, 2, 3]);
    let y = owner(&[4]);
    add_user_data(&mut state, &x, record("A", "a@example.com", Some(vec![1]))).unwrap();
    add_user_data(&mut state, &x, record("B", "b@example.com", None)).unwrap();
    add_user_data(&mut state, &y, record("C", "c@example.com", None)).unwrap();
    let status = set_username(&mut state, &x, "Rohan".to_string());
    assert_eq!(status, Ok("Username updated successfully".to_string()));
    assert_eq!(
        get_user_data(&state, &x),
        Ok(vec![
            record("Rohan", "a@example.com", Some(vec![1])),
            record("Rohan", "b@example.com", None),
        ])
    );
    assert_eq!(get_user_data(&state, &y), Ok(vec![record("C", "c@example.com", None)]));
}

#[test]
fn rename_without_records_is_not_found() {
    let mut state = State::new();
    let x = owner(&[1, 2, 3]);
    let status = set_username(&mut state, &x, "Rohan".to_string());
    assert_eq!(status, Ok("User not found.".to_string()));
    assert_eq!(state.stored_bytes(&x), None);
    assert_eq!(get_user_data(&state, &x), Ok(vec![]));
}

#[test]
fn rename_with_an_empty_entry_is_not_found() {
    let mut state = State::new();
    let x = owner(&[1, 2, 3]);
    let empty = Candid(Vec::<UserData>::new()).to_bytes();
    state.store_bytes(&x, empty.clone());
    let status = set_username(&mut state, &x, "Rohan".to_string());
    assert_eq!(status, Ok("User not found.".to_string()));
    assert_eq!(state.stored_bytes(&x), Some(empty));
}

#[test]
fn append_after_an_empty_entry_starts_the_records() {
    let mut state = State::new();
    let x = owner(&[1, 2, 3]);
    state.store_bytes(&x, Candid(Vec::<UserData>::new()).to_bytes());
    let a = record("A", "a", None);
    add_user_data(&mut state, &x, a.clone()).unwrap();
    assert_eq!(get_user_data(&state, &x), Ok(vec![a]));
}

#[test]
fn store_bytes_returns_what_was_there() {
    let mut state = State::new();
    let x = owner(&[9]);
    assert_eq!(state.store_bytes(&x, vec![1, 2]), None);
    assert_eq!(state.store_bytes(&x, vec![3]), Some(vec![1, 2]));
    assert_eq!(state.stored_bytes(&x), Some(vec![3]));
    assert_eq!(state.stored_bytes(&owner(&[8])), None);
}

#[test]
fn corrupted_entry_is_reported_and_left_alone() {
    let mut state = State::new();
    let x = owner(&[1]);
    let y = owner(&[2]);
    state.store_bytes(&x, vec![0xff, 0x00, 0x13]);
    add_user_data(&mut state, &y, record("B", "b", None)).unwrap();
    assert_eq!(get_user_data(&state, &x), Err(StoreError::Corrupted));
    assert_eq!(add_user_data(&mut state, &x, record("A", "a", None)), Err(StoreError::Corrupted));
    assert_eq!(set_username(&mut state, &x, "Rohan".to_string()), Err(StoreError::Corrupted));
    assert_eq!(state.stored_bytes(&x), Some(vec![0xff, 0x00, 0x13]));
    assert!(matches!(
        list_all_users(&state, PaginationParams { page: 1, page_size: 10 }),
        Err(StoreError::Corrupted)
    ));
    assert_eq!(get_user_data(&state, &y), Ok(vec![record("B", "b", None)]));
}

#[test]
fn corrupted_entry_outside_the_page_still_fails_the_listing() {
    let mut state = State::new();
    add_user_data(&mut state, &owner(&[1]), record("A", "a", None)).unwrap();
    state.store_bytes(&owner(&[2]), vec![1]);
    assert!(matches!(
        list_all_users(&state, PaginationParams { page: 1, page_size: 1 }),
        Err(StoreError::Corrupted)
    ));
}

#[test]
fn listing_is_in_the_order_of_principals() {
    let mut state = State::new();
    state.store_bytes(&owner(&[1, 0]), vec![10]);
    state.store_bytes(&owner(&[2]), vec![20]);
    state.store_bytes(&owner(&[1, 0, 0]), vec![30]);
    state.store_bytes(&owner(&[0, 9]), vec![40]);
    state.store_bytes(&owner(&[]), vec![50]);
    state.store_bytes(&owner(&[1]), vec![60]);
    assert_eq!(
        state.stored_listing(),
        vec![
            (vec![], vec![50]),
            (vec![1], vec![60]),
            (vec![2], vec![20]),
            (vec![0, 9], vec![40]),
            (vec![1, 0], vec![10]),
            (vec![1, 0, 0], vec![30]),
        ]
    );
}

fn five_owners() -> State {
    let mut state = State::new();
    for n in [3u8, 1, 5, 2, 4] {
        let who = owner(&[n]);
        add_user_data(&mut state, &who, record(&format!("user{n}"), "e", None)).unwrap();
    }
    add_user_data(&mut state, &owner(&[2]), record("second", "e", None)).unwrap();
    state
}

fn names(items: &[Vec<UserData>]) -> Vec<Vec<String>> {
    items.iter().map(|records| records.iter().map(|r| r.name.clone()).collect()).collect()
}

#[test]
fn list_all_users_first_page() {
    let state = five_owners();
    let page = list_all_users(&state, PaginationParams { page: 1, page_size: 2 }).unwrap();
    assert_eq!(page.total_items, 5);
    assert_eq!(
        names(&page.items),
        vec![vec!["user1".to_string()], vec!["user2".to_string(), "second".to_string()]]
    );
}

#[test]
fn list_all_users_last_page_is_short() {
    let state = five_owners();
    let page = list_all_users(&state, PaginationParams { page: 3, page_size: 2 }).unwrap();
    assert_eq!(page.total_items, 5);
    assert_eq!(names(&page.items), vec![vec!["user5".to_string()]]);
}

#[test]
fn list_all_users_beyond_the_end_is_empty_with_the_total() {
    let state = five_owners();
    let page = list_all_users(&state, PaginationParams { page: 4, page_size: 2 }).unwrap();
    assert_eq!(page.total_items, 5);
    assert_eq!(page.items, Vec::<Vec<UserData>>::new());
    let zero = list_all_users(&state, PaginationParams { page: 0, page_size: 2 }).unwrap();
    assert_eq!(zero.total_items, 5);
    assert_eq!(zero.items, Vec::<Vec<UserData>>::new());
}

#[test]
fn list_all_users_whole_list_in_one_page() {
    let state = five_owners();
    let page = list_all_users(&state, PaginationParams { page: 1, page_size: 100 }).unwrap();
    assert_eq!(page.total_items, 5);
    assert_eq!(
        names(&page.items),
        vec![
            vec!["user1".to_string()],
            vec!["user2".to_string(), "second".to_string()],
            vec!["user3".to_string()],
            vec!["user4".to_string()],
            vec!["user5".to_string()],
        ]
    );
}

#[test]
fn list_all_users_counts_owners_not_records() {
    let mut state = State::new();
    let x = owner(&[1]);
    add_user_data(&mut state, &x, record("A", "a", None)).unwrap();
    add_user_data(&mut state, &x, record("B", "b", None)).unwrap();
    add_user_data(&mut state, &x, record("C", "c", None)).unwrap();
    let page = list_all_users(&state, PaginationParams { page: 1, page_size: 10 }).unwrap();
    assert_eq!(page.total_items, 1);
    assert_eq!(page.items.len(), 1);
    assert_eq!(page.items[0].len(), 3);
}

#[test]
fn requests_of_a_caller_without_an_entry_succeed() {
    let mut state = State::new();
    state.store_bytes(&owner(&[9]), vec![0xff]);
    let x = owner(&[1]);
    assert_eq!(get_user_data(&state, &x), Ok(vec![]));
    assert_eq!(set_username(&mut state, &x, "Rohan".to_string()), Ok("User not found.".to_string()));
    assert_eq!(
        add_user_data(&mut state, &x, record("A", "a", None)),
        Ok("user data added successfully".to_string())
    );
    assert_eq!(state.stored_bytes(&owner(&[9])), Some(vec![0xff]));
}

#[test]
fn entry_records_for_each_outcome() {
    assert_eq!(entry_records(None), Ok(vec![]));
    let a = record("A", "a", Some(vec![1]));
    assert_eq!(entry_records(Some(Ok(Candid(vec![a.clone()])))), Ok(vec![a]));
    assert_eq!(entry_records(Some(Ok(Candid(vec![])))), Ok(vec![]));
    assert_eq!(entry_records(Some(Err(StoreError::Corrupted))), Err(StoreError::Corrupted));
}

#[test]
fn append_record_for_each_outcome() {
    let mut state = State::new();
    let x = owner(&[1]);
    let y = owner(&[2]);
    state.store_bytes(&y, vec![7]);
    let a = record("A", "a", None);
    let b = record("B", "b", Some(vec![2]));
    let failed = append_record(&mut state, &x, Err(StoreError::Corrupted), a.clone());
    assert_eq!(failed, Err(StoreError::Corrupted));
    assert_eq!(state.stored_bytes(&x), None);
    let first = append_record(&mut state, &x, Ok(vec![]), a.clone());
    assert_eq!(first, Ok("user data added successfully".to_string()));
    assert_eq!(get_user_data(&state, &x), Ok(vec![a.clone()]));
    let second = append_record(&mut state, &x, Ok(vec![a.clone()]), b.clone());
    assert_eq!(second, Ok("user data added successfully".to_string()));
    assert_eq!(state.stored_bytes(&x), Some(Candid(vec![a.clone(), b.clone()]).to_bytes()));
    assert_eq!(get_user_data(&state, &x), Ok(vec![a, b]));
    assert_eq!(state.stored_bytes(&y), Some(vec![7]));
}

#[test]
fn rename_records_for_each_outcome() {
    let mut state = State::new();
    let x = owner(&[1]);
    let y = owner(&[2]);
    state.store_bytes(&y, vec![7]);
    let failed = rename_records(&mut state, &x, Err(StoreError::Corrupted), "N".to_string());
    assert_eq!(failed, Err(StoreError::Corrupted));
    assert_eq!(state.stored_bytes(&x), None);
    let none = rename_records(&mut state, &x, Ok(vec![]), "N".to_string());
    assert_eq!(none, Ok("User not found.".to_string()));
    assert_eq!(state.stored_bytes(&x), None);
    let records = vec![record("A", "a", Some(vec![1])), record("B", "b", None)];
    let done = rename_records(&mut state, &x, Ok(records), "N".to_string());
    assert_eq!(done, Ok("Username updated successfully".to_string()));
    assert_eq!(
        get_user_data(&state, &x),
        Ok(vec![record("N", "a", Some(vec![1])), record("N", "b", None)])
    );
    assert_eq!(state.stored_bytes(&y), Some(vec![7]));
}

#[test]
fn list_decoded_for_each_outcome() {
    let a = vec![record("A", "a", None)];
    let b = vec![record("B", "b", None), record("B2", "b2", None)];
    let c = vec![record("C", "c", None)];
    let all = list_decoded(
        vec![Ok(Candid(a.clone())), Ok(Candid(b.clone())), Ok(Candid(c.clone()))],
        PaginationParams { page: 2, page_size: 2 },
    )
    .unwrap();
    assert_eq!(all.total_items, 3);
    assert_eq!(all.items, vec![c.clone()]);
    let first = list_decoded(
        vec![Ok(Candid(a.clone())), Ok(Candid(b.clone())), Ok(Candid(c))],
        PaginationParams { page: 1, page_size: 2 },
    )
    .unwrap();
    assert_eq!(first.total_items, 3);
    assert_eq!(first.items, vec![a.clone(), b]);
    let broken = list_decoded(
        vec![Ok(Candid(a)), Err(StoreError::Corrupted)],
        PaginationParams { page: 1, page_size: 1 },
    );
    assert!(matches!(broken, Err(StoreError::Corrupted)));
    let empty = list_decoded(vec![], PaginationParams { page: 1, page_size: 5 }).unwrap();
    assert_eq!(empty.total_items, 0);
    assert_eq!(empty.items, Vec::<Vec<UserData>>::new());
}

#[test]
fn appended_record_stays_through_later_requests() {
    let mut state = State::new();
    let o = owner(&[1, 1]);
    let p = owner(&[2]);
    let r = record("R", "r@example.com", Some(vec![4, 2]));
    add_user_data(&mut state, &o, record("first", "f", None)).unwrap();
    add_user_data(&mut state, &o, r.clone()).unwrap();
    add_user_data(&mut state, &p, record("Pat", "pat", None)).unwrap();
    get_user_data(&state, &p).unwrap();
    list_all_users(&state, PaginationParams { page: 1, page_size: 1 }).unwrap();
    add_user_data(&mut state, &o, record("later", "l", None)).unwrap();
    set_username(&mut state, &p, "renamed".to_string()).unwrap();
    add_user_data(&mut state, &p, record("Pia", "pia", None)).unwrap();
    assert!(get_user_data(&state, &o).unwrap().contains(&r));
}
