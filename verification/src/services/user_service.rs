//! Users: logging in, creating and listing them.

use crate::database::{has_login, Database, DatabaseView};
use crate::dto::{CreateUserDto, LoginDto, LoginResponseDto};
use crate::error::{Entity, Error, Invalid, Violation};
use crate::ident::random_id;
use crate::models::{User, UserView};
use crate::ordering::descending;
use crate::repositories::user_repository::user_with_login;
use crate::repositories::UserRepository;
use crate::table::has_key;
use crate::temporal::{clock_now, Timestamp};
use vstd::prelude::*;

verus! {

/// The operations on users.
pub struct UserService;

/// The text is the name of a role.
pub open spec fn is_role(text: Seq<char>) -> bool {
    text == "admin"@ || text == "user"@
}

/// The answer to a login attempt: the first user with the login and the
/// password, or a refusal with empty texts.
pub open spec fn login_answer(users: Seq<User>, dto: LoginDto, answer: LoginResponseDto) -> bool {
    match user_with_login(users, dto.login@, Some(dto.password@)) {
        Some(user) => {
            &&& answer.success
            &&& answer.id == user.id
            &&& answer.login == user.login
            &&& answer.role == user.role
            &&& answer.message@ == "Login realizado com sucesso"@
        },
        None => {
            &&& !answer.success
            &&& answer.id@ == Seq::<char>::empty()
            &&& answer.login@ == Seq::<char>::empty()
            &&& answer.role@ == Seq::<char>::empty()
            &&& answer.message@ == "Login ou password inválidos"@
        },
    }
}

/// What creating a user does. The role must be one, and the login and the
/// identity must be free; then the user is stored.
pub open spec fn creates_user(
    before: DatabaseView,
    after: DatabaseView,
    r: Result<User, Error>,
    id: Seq<char>,
    now: Timestamp,
    dto: CreateUserDto,
) -> bool {
    if !is_role(dto.role@) {
        r == Err::<User, Error>(Error::InvalidArgument(Invalid::Role)) && after == before
    } else if has_login(before.users, dto.login@) {
        r == Err::<User, Error>(Error::InvalidArgument(Invalid::LoginTaken)) && after == before
    } else if has_key(before.users, id) {
        r == Err::<User, Error>(Error::StoreFailure(Violation::DuplicateKey(Entity::User)))
            && after == before
    } else {
        r matches Ok(user) && user@ == (UserView {
            id,
            login: dto.login@,
            password: dto.password@,
            role: dto.role@,
            created_at: now,
            updated_at: now,
        }) && after == (DatabaseView { users: before.users.push(user), ..before })
    }
}

/// A user with the login is found exactly where some user has the login.
pub proof fn lemma_user_with_login(users: Seq<User>, login: Seq<char>)
    ensures
        user_with_login(users, login, None) is Some <==> has_login(users, login),
    decreases users.len(),
{
    if users.len() > 0 {
        let front = users.drop_last();
        lemma_user_with_login(front, login);
        if has_login(front, login) {
            let i = choose|i: int| 0 <= i < front.len() && #[trigger] front[i].login@ == login;
            assert(users[i].login@ == login);
        }
        if has_login(users, login) {
            let i = choose|i: int| 0 <= i < users.len() && #[trigger] users[i].login@ == login;
            if i < front.len() {
                assert(front[i].login@ == login);
            }
        }
    }
}

impl UserService {
    /// Answers a login attempt.
    pub fn login(db: &Database, login_dto: LoginDto) -> (r: Result<LoginResponseDto, Error>)
        ensures
            r matches Ok(answer) && login_answer(db@.users, login_dto, answer),
    {
        let user = UserRepository::find_by_login_and_password(
            db,
            login_dto.login.as_str(),
            login_dto.password.as_str(),
        );
        match user {
            Ok(Some(user)) => Ok(
                LoginResponseDto {
                    id: user.id,
                    login: user.login,
                    role: user.role,
                    success: true,
                    message: "Login realizado com sucesso".to_owned(),
                },
            ),
            _ => Ok(
                LoginResponseDto {
                    id: String::new(),
                    login: String::new(),
                    role: String::new(),
                    success: false,
                    message: "Login ou password inválidos".to_owned(),
                },
            ),
        }
    }

    /// Creates a user at the instant `now` under the identity `id`.
    pub fn create_user_with(
        db: &mut Database,
        id: String,
        now: Timestamp,
        create_user_dto: CreateUserDto,
    ) -> (r: Result<User, Error>)
        ensures
            creates_user(old(db)@, final(db)@, r, id@, now, create_user_dto),
            old(db)@.wf() ==> final(db)@.wf(),
    {
        if !(create_user_dto.role == "admin".to_owned()) && !(create_user_dto.role
            == "user".to_owned()) {
            return Err(Error::InvalidArgument(Invalid::Role));
        }
        proof {
            lemma_user_with_login(db@.users, create_user_dto.login@);
        }
        match UserRepository::find_by_login(db, create_user_dto.login.as_str()) {
            Ok(None) => {},
            _ => {
                return Err(Error::InvalidArgument(Invalid::LoginTaken));
            },
        }
        let user = User::new_with(
            id,
            now,
            create_user_dto.login,
            create_user_dto.password,
            create_user_dto.role,
        );
        UserRepository::create_user(db, &user)
    }

    /// Creates a user now, under a fresh identity.
    pub fn create_user(db: &mut Database, create_user_dto: CreateUserDto) -> (r: Result<
        User,
        Error,
    >)
        ensures
            exists|id: Seq<char>, now: Timestamp|
                creates_user(old(db)@, final(db)@, r, id, now, create_user_dto),
            old(db)@.wf() ==> final(db)@.wf(),
    {
        let id = random_id();
        let now = clock_now();
        UserService::create_user_with(db, id, now, create_user_dto)
    }

    /// All users, latest first.
    pub fn list_users(db: &Database) -> (r: Result<Vec<User>, Error>)
        ensures
            r matches Ok(users) && users@ == descending(db@.users),
    {
        UserRepository::list_users(db)
    }
}

} // verus!
