//! Profile records and their mathematical view.

use vstd::prelude::*;

verus! {

/// One profile record of an owner.
#[derive(Debug, PartialEq, Eq)]
pub struct UserData {
    pub name: String,
    pub email: String,
    pub profile_pic: Option<Vec<u8>>,
}

/// What a [`UserData`] holds, as mathematical values.
pub struct UserDataView {
    pub name: Seq<char>,
    pub email: Seq<char>,
    pub profile_pic: Option<Seq<u8>>,
}

impl UserDataView {
    /// The same record under another name.
    pub open spec fn with_name(self, name: Seq<char>) -> UserDataView {
        UserDataView { name, email: self.email, profile_pic: self.profile_pic }
    }
}

impl View for UserData {
    type V = UserDataView;

    open spec fn view(&self) -> UserDataView {
        UserDataView {
            name: self.name@,
            email: self.email@,
            profile_pic: match self.profile_pic {
                Some(bytes) => Some(bytes@),
                None => None,
            },
        }
    }
}

impl DeepView for UserData {
    type V = UserDataView;

    open spec fn deep_view(&self) -> UserDataView {
        self@
    }
}

impl Default for UserData {
    /// The record with an empty name, an empty email and no picture.
    fn default() -> (record: UserData)
        ensures
            record@.name == Seq::<char>::empty(),
            record@.email == Seq::<char>::empty(),
            record@.profile_pic == None::<Seq<u8>>,
    {
        UserData { name: String::new(), email: String::new(), profile_pic: None }
    }
}

impl Clone for UserData {
    fn clone(&self) -> (copy: UserData)
        ensures
            copy@ == self@,
    {
        let profile_pic = match &self.profile_pic {
            Some(bytes) => Some(bytes.clone()),
            None => None,
        };
        UserData { name: self.name.clone(), email: self.email.clone(), profile_pic }
    }
}

impl UserData {
    /// A copy of the record's name.
    pub fn get_username(&self) -> (name: String)
        ensures
            name@ == self@.name,
    {
        self.name.clone()
    }

    /// Replaces the record's name and leaves the other fields as they were.
    pub fn set_username(&mut self, username: String)
        ensures
            final(self)@ == old(self)@.with_name(username@),
    {
        self.name = username;
    }
}

} // verus!
