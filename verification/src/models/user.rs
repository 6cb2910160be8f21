//! Users.

use crate::ident::random_id;
use crate::table::{Record, Row};
use crate::temporal::{clock_now, Timestamp};
use vstd::prelude::*;

verus! {

/// Someone who may log in.
#[derive(Debug, PartialEq, Eq)]
pub struct User {
    pub id: String,
    pub login: String,
    /// Kept as it was given.
    pub password: String,
    /// `admin` or `user`.
    pub role: String,
    pub created_at: Timestamp,
    pub updated_at: Timestamp,
}

/// What a [`User`] holds, with its texts as sequences of characters.
pub struct UserView {
    pub id: Seq<char>,
    pub login: Seq<char>,
    pub password: Seq<char>,
    pub role: Seq<char>,
    pub created_at: Timestamp,
    pub updated_at: Timestamp,
}

impl User {
    /// A user created at the instant `now` under the identity `id`.
    pub fn new_with(
        id: String,
        now: Timestamp,
        login: String,
        password: String,
        role: String,
    ) -> (user: User)
        ensures
            user@ == (UserView {
                id: id@,
                login: login@,
                password: password@,
                role: role@,
                created_at: now,
                updated_at: now,
            }),
    {
        User { id, login, password, role, created_at: now, updated_at: now }
    }

    /// A user created now, under a fresh identity.
    pub fn new(login: String, password: String, role: String) -> (user: User)
        ensures
            user.id@.len() == 36,
            user.login@ == login@,
            user.password@ == password@,
            user.role@ == role@,
            user.created_at == user.updated_at,
    {
        let id = random_id();
        let now = clock_now();
        User::new_with(id, now, login, password, role)
    }
}

impl View for User {
    type V = UserView;

    open spec fn view(&self) -> UserView {
        UserView {
            id: self.id@,
            login: self.login@,
            password: self.password@,
            role: self.role@,
            created_at: self.created_at,
            updated_at: self.updated_at,
        }
    }
}

impl Row for User {
    open spec fn rank(&self) -> i128 {
        self.created_at.unix_nanos
    }

    fn rank_value(&self) -> (rank: i128) {
        self.created_at.unix_nanos
    }

    fn duplicate(&self) -> (r: User) {
        User {
            id: self.id.clone(),
            login: self.login.clone(),
            password: self.password.clone(),
            role: self.role.clone(),
            created_at: self.created_at,
            updated_at: self.updated_at,
        }
    }}

impl Record for User {
    open spec fn key(&self) -> Seq<char> {
        self.id@
    }

    fn id(&self) -> (k: &String) {
        &self.id
    }
}

impl Clone for User {
    fn clone(&self) -> (r: User)
        ensures
            r == *self,
    {
        self.duplicate()
    }
}


} // verus!
