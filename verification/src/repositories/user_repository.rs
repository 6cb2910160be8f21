//! Users in the store.

use crate::database::{has_login, Database, DatabaseView};
use crate::error::{Entity, Error, Violation};
use crate::models::User;
use crate::ordering::{descending, sort_descending};
use crate::table::{has_key, Record, Row};
use vstd::prelude::*;

verus! {

/// The users of the store.
pub struct UserRepository;

/// The user has the login, and the password where one is asked for.
pub open spec fn matches_login(user: User, login: Seq<char>, password: Option<Seq<char>>) -> bool {
    user.login@ == login && match password {
        Some(p) => user.password@ == p,
        None => true,
    }
}

/// The first of `users` that has the login, and the password where one is
/// asked for.
pub open spec fn user_with_login(
    users: Seq<User>,
    login: Seq<char>,
    password: Option<Seq<char>>,
) -> Option<User>
    decreases users.len(),
{
    if users.len() == 0 {
        None
    } else {
        match user_with_login(users.drop_last(), login, password) {
            Some(user) => Some(user),
            None => if matches_login(users.last(), login, password) {
                Some(users.last())
            } else {
                None
            },
        }
    }
}

/// A user found among the first users is the user found among them all.
proof fn lemma_user_with_login_found(
    users: Seq<User>,
    login: Seq<char>,
    password: Option<Seq<char>>,
    n: int,
)
    requires
        0 <= n <= users.len(),
        user_with_login(users.take(n), login, password) is Some,
    ensures
        user_with_login(users, login, password) == user_with_login(users.take(n), login, password),
    decreases users.len() - n,
{
    if n < users.len() {
        assert(users.take(n + 1).drop_last() =~= users.take(n));
        lemma_user_with_login_found(users, login, password, n + 1);
    } else {
        assert(users.take(n) =~= users);
    }
}

/// A copy of the first user that has the login, and the password where one
/// is asked for.
fn find_user(users: &Vec<User>, login: &String, password: Option<&String>) -> (found: Option<User>)
    ensures
        found == user_with_login(
            users@,
            login@,
            match password {
                Some(p) => Some(p@),
                None => None,
            },
        ),
{
    let ghost asked: Option<Seq<char>> = match password {
        Some(p) => Some(p@),
        None => None,
    };
    let mut i: usize = 0;
    assert(users@.take(0) =~= Seq::<User>::empty());
    while i < users.len()
        invariant
            i <= users.len(),
            asked == match password {
                Some(p) => Some(p@),
                None => None::<Seq<char>>,
            },
            user_with_login(users@.take(i as int), login@, asked) is None,
        decreases users.len() - i,
    {
        proof {
            assert(users@.take(i + 1).drop_last() =~= users@.take(i as int));
            assert(users@.take(i + 1).last() == users[i as int]);
        }
        let same_password = match password {
            Some(p) => users[i].password == *p,
            None => true,
        };
        if users[i].login == *login && same_password {
            proof {
                lemma_user_with_login_found(users@, login@, asked, i + 1);
            }
            return Some(users[i].duplicate());
        }
        i += 1;
    }
    assert(users@.take(users.len() as int) =~= users@);
    None
}

impl UserRepository {
    /// Stores a copy of `user`, unless its identity or its login is taken.
    pub fn create_user(db: &mut Database, user: &User) -> (r: Result<User, Error>)
        ensures
            if has_key(old(db)@.users, user.key()) {
                r == Err::<User, Error>(Error::StoreFailure(Violation::DuplicateKey(Entity::User)))
                    && final(db)@ == old(db)@
            } else if has_login(old(db)@.users, user.login@) {
                r == Err::<User, Error>(Error::StoreFailure(Violation::DuplicateLogin))
                    && final(db)@ == old(db)@
            } else {
                r == Ok::<User, Error>(*user) && final(db)@ == (DatabaseView {
                    users: old(db)@.users.push(*user),
                    ..old(db)@
                })
            },
            old(db)@.wf() ==> final(db)@.wf(),
    {
        match db.insert_user(user.duplicate()) {
            Ok(()) => Ok(user.duplicate()),
            Err(e) => Err(e),
        }
    }

    /// The user with this login and this password, if there is one.
    pub fn find_by_login_and_password(db: &Database, login: &str, password: &str) -> (r: Result<
        Option<User>,
        Error,
    >)
        ensures
            r == Ok::<Option<User>, Error>(
                user_with_login(db@.users, login@, Some(password@)),
            ),
    {
        let password = password.to_owned();
        Ok(find_user(db.users(), &login.to_owned(), Some(&password)))
    }

    /// The user with this login, if there is one.
    pub fn find_by_login(db: &Database, login: &str) -> (r: Result<Option<User>, Error>)
        ensures
            r == Ok::<Option<User>, Error>(user_with_login(db@.users, login@, None)),
    {
        Ok(find_user(db.users(), &login.to_owned(), None))
    }

    /// All users, latest first.
    pub fn list_users(db: &Database) -> (r: Result<Vec<User>, Error>)
        ensures
            r matches Ok(users) && users@ == descending(db@.users),
    {
        Ok(sort_descending(db.users()))
    }
}

} // verus!
