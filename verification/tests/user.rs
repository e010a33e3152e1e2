use profile_store::user::UserData;

#[test]
fn test_get_username() {
    let mut state = UserData::default();
    state.set_username("Rohan".to_string());
    assert_eq!(state.get_username(), "Rohan");
}

#[test]
fn default_record_is_empty() {
    let record = UserData::default();
    assert_eq!(record.name, "");
    assert_eq!(record.email, "");
    assert_eq!(record.profile_pic, None);
}

#[test]
fn set_username_keeps_the_other_fields() {
    let mut record = UserData {
        name: "old".to_string(),
        email: "a@example.com".to_string(),
        profile_pic: Some(vec![1, 2, 3]),
    };
    record.set_username("new".to_string());
    assert_eq!(record.get_username(), "new");
    assert_eq!(record.email, "a@example.com");
    assert_eq!(record.profile_pic, Some(vec![1, 2, 3]));
}

#[test]
fn clone_copies_every_field() {
    let record = UserData {
        name: "n".to_string(),
        email: "e".to_string(),
        profile_pic: Some(vec![9, 8]),
    };
    let copy = record.clone();
    assert_eq!(copy, record);
}
