//! The user database against which the startup handshake authenticates.
//! Passwords are stored as bcrypt hashes.

use vstd::prelude::*;
use vstd::string::*;
use crate::text::str_eq;

verus! {

/// `bcrypt::BcryptError`, what hashing or verifying can fail with.
#[verifier::external_type_specification]
#[verifier::external_body]
pub struct ExBcryptError(bcrypt::BcryptError);

/// What `bcrypt::verify` makes of a password and a stored hash: whether
/// the password matches, or nothing where the hash cannot be read.
pub uninterp spec fn bcrypt_verdict(password: Seq<char>, hash: Seq<char>) -> Option<bool>;

/// The verdict that a result of `bcrypt::verify` stands for.
pub open spec fn verdict_of(r: Result<bool, bcrypt::BcryptError>) -> Option<bool> {
    match r {
        Ok(matches) => Some(matches),
        Err(_) => None,
    }
}

/// Calls `bcrypt::verify`, which reads cost and salt from the stored hash,
/// hashes the password with them and compares. The result depends on the
/// two arguments alone; a hash that cannot be read gives an error.
#[verifier::external_body]
fn bcrypt_verify(password: &str, hash: &str) -> (r: Result<bool, bcrypt::BcryptError>)
    ensures
        verdict_of(r) == bcrypt_verdict(password@, hash@),
{
    bcrypt::verify(password, hash)
}

/// Calls `bcrypt::hash`, which draws a random salt. Whatever the salt, a
/// hash that it returns is one that `bcrypt::verify` accepts for the same
/// password. It fails where the cost is not allowed or no salt can be drawn.
#[verifier::external_body]
fn bcrypt_hash(password: &str, cost: u32) -> (r: Result<String, bcrypt::BcryptError>)
    ensures
        r matches Ok(hash) ==> bcrypt_verdict(password@, hash@) == Some(true),
{
    bcrypt::hash(password, cost)
}

/// The cost with which new passwords are hashed.
pub const DEFAULT_COST: u32 = 12;

/// One account.
#[derive(Debug, Clone)]
pub struct User {
    pub username: String,
    pub hashed_password: String,
    pub is_admin: bool,
}

/// The mathematical value of a [`User`].
pub struct UserView {
    pub username: Seq<char>,
    pub hashed_password: Seq<char>,
    pub is_admin: bool,
}

impl View for User {
    type V = UserView;

    open spec fn view(&self) -> UserView {
        UserView {
            username: self.username@,
            hashed_password: self.hashed_password@,
            is_admin: self.is_admin,
        }
    }
}

impl DeepView for User {
    type V = UserView;

    open spec fn deep_view(&self) -> UserView {
        self@
    }
}

/// Why the user database refused to add an account.
#[derive(Debug, Clone, Copy, PartialEq, Eq, Structural)]
pub enum UserDbError {
    /// An account of that name exists.
    AlreadyExists,
    /// The password could not be hashed.
    HashFailed,
}

/// The accounts, in the order in which they were added.
#[derive(Debug)]
pub struct UserDB {
    pub users: Vec<User>,
}

impl View for UserDB {
    type V = Seq<UserView>;

    open spec fn view(&self) -> Seq<UserView> {
        self.users.deep_view()
    }
}

/// The position of the first account named `username`, if there is one.
pub open spec fn find_user(users: Seq<UserView>, username: Seq<char>) -> Option<int>
    decreases users.len(),
{
    if users.len() == 0 {
        None
    } else {
        match find_user(users.drop_last(), username) {
            Some(i) => Some(i),
            None => if users.last().username == username {
                Some(users.len() - 1)
            } else {
                None
            },
        }
    }
}

/// Whether an account named `username` exists.
pub open spec fn has_user(users: Seq<UserView>, username: Seq<char>) -> bool {
    find_user(users, username) is Some
}

/// Whether a verdict lets the user in: only a match does; a mismatch and a
/// hash that cannot be read both keep the user out.
pub open spec fn verdict_accepts(verdict: Option<bool>) -> bool {
    verdict == Some(true)
}

/// Whether the database lets `username` in with `password`: the first
/// account of that name exists and its stored hash matches the password.
pub open spec fn accepts(users: Seq<UserView>, username: Seq<char>, password: Seq<char>) -> bool {
    match find_user(users, username) {
        Some(i) => verdict_accepts(bcrypt_verdict(password, users[i].hashed_password)),
        None => false,
    }
}

/// The first match, if any, is an account of that name, and no earlier
/// account has the name.
pub proof fn lemma_find_user(users: Seq<UserView>, username: Seq<char>)
    ensures
        match find_user(users, username) {
            Some(i) => 0 <= i < users.len() && users[i].username == username && forall|j: int|
                0 <= j < i ==> (#[trigger] users[j]).username != username,
            None => forall|j: int| 0 <= j < users.len() ==> (#[trigger] users[j]).username != username,
        },
    decreases users.len(),
{
    if users.len() > 0 {
        lemma_find_user(users.drop_last(), username);
        assert forall|j: int| 0 <= j < users.len() - 1 implies users.drop_last()[j] == users[j] by {}
        match find_user(users.drop_last(), username) {
            Some(i) => {
                assert(users.drop_last()[i] == users[i]);
                assert forall|j: int| 0 <= j < i implies (#[trigger] users[j]).username
                    != username by {
                    assert(users.drop_last()[j] == users[j]);
                }
            },
            None => {
                assert forall|j: int| 0 <= j < users.len() - 1 implies (#[trigger] users[j]).username
                    != username by {
                    assert(users.drop_last()[j] == users[j]);
                }
            },
        }
    }
}

/// Where the first `i` accounts do not have the name and account `i` has
/// it, account `i` is the one found.
proof fn lemma_found_at(users: Seq<UserView>, username: Seq<char>, i: int)
    requires
        0 <= i < users.len(),
        users[i].username == username,
        forall|j: int| 0 <= j < i ==> (#[trigger] users[j]).username != username,
    ensures
        find_user(users, username) == Some(i),
{
    lemma_find_user(users, username);
}

/// Where no account has the name, none is found.
proof fn lemma_not_found(users: Seq<UserView>, username: Seq<char>)
    requires
        forall|j: int| 0 <= j < users.len() ==> (#[trigger] users[j]).username != username,
    ensures
        find_user(users, username) is None,
{
    lemma_find_user(users, username);
}

/// Whether the outcome of a password check lets the user in.
pub fn outcome_accepts(outcome: Option<bool>) -> (accepted: bool)
    ensures
        accepted == verdict_accepts(outcome),
{
    match outcome {
        Some(matches) => matches,
        None => false,
    }
}

impl UserDB {
    /// A database that holds the given accounts.
    pub fn new(users: Vec<User>) -> (db: UserDB)
        ensures
            db@ == users.deep_view(),
    {
        UserDB { users }
    }

    /// The first account named `username`.
    pub fn lookup(&self, username: &str) -> (found: Option<usize>)
        ensures
            match found {
                Some(i) => i < self.users.len() && find_user(self@, username@) == Some(i as int),
                None => find_user(self@, username@) is None,
            },
    {
        let mut i: usize = 0;
        while i < self.users.len()
            invariant
                i <= self.users.len(),
                forall|j: int| 0 <= j < i ==> (#[trigger] self@[j]).username != username@,
            decreases self.users.len() - i,
        {
            assert(self@[i as int] == self.users[i as int]@);
            if str_eq(self.users[i].username.as_str(), username) {
                proof {
                    lemma_found_at(self@, username@, i as int);
                }
                return Some(i);
            }
            i += 1;
        }
        proof {
            lemma_not_found(self@, username@);
        }
        None
    }

    /// Whether `password` is the password of the account named `username`.
    ///
    /// An unknown user, a wrong password and a stored hash that cannot be
    /// read all give `false`.
    pub fn verify_user(&self, username: &str, password: &str) -> (accepted: bool)
        ensures
            accepted == accepts(self@, username@, password@),
    {
        match self.lookup(username) {
            Some(i) => {
                assert(self@[i as int] == self.users[i as int]@);
                let outcome = match bcrypt_verify(password, self.users[i].hashed_password.as_str()) {
                    Ok(matches) => Some(matches),
                    Err(_) => None,
                };
                outcome_accepts(outcome)
            },
            None => false,
        }
    }

    /// Adds an account whose password is already hashed.
    ///
    /// Fails with `AlreadyExists`, and changes nothing, exactly when an
    /// account of that name exists.
    pub fn add_user(&mut self, username: &str, hashed_password: String, is_admin: bool) -> (r:
        Result<(), UserDbError>)
        ensures
            has_user(old(self)@, username@) ==> r == Err::<(), UserDbError>(
                UserDbError::AlreadyExists,
            ) && final(self)@ == old(self)@,
            !has_user(old(self)@, username@) ==> r is Ok && final(self)@ == old(self)@.push(
                UserView { username: username@, hashed_password: hashed_password@, is_admin },
            ),
    {
        if self.lookup(username).is_some() {
            return Err(UserDbError::AlreadyExists);
        }
        let user = User { username: String::from_str(username), hashed_password, is_admin };
        self.users.push(user);
        assert(self@ =~= old(self)@.push(
            UserView { username: username@, hashed_password: hashed_password@, is_admin },
        ));
        Ok(())
    }

    /// Creates an account: hashes the password and adds the account.
    ///
    /// Fails with `AlreadyExists` exactly when an account of that name
    /// exists, and with `HashFailed` where the password cannot be hashed;
    /// either way nothing changes. On success one account is appended, and
    /// its stored hash matches the password.
    pub fn create_user(&mut self, username: &str, password: &str, is_admin: bool) -> (r: Result<
        (),
        UserDbError,
    >)
        ensures
            has_user(old(self)@, username@) <==> r == Err::<(), UserDbError>(
                UserDbError::AlreadyExists,
            ),
            r is Err ==> final(self)@ == old(self)@,
            r is Ok ==> final(self)@.len() == old(self)@.len() + 1 && final(self)@.drop_last() == old(
                self,
            )@ && final(self)@.last().username == username@ && final(self)@.last().is_admin
                == is_admin && bcrypt_verdict(password@, final(self)@.last().hashed_password)
                == Some(true),
    {
        if self.lookup(username).is_some() {
            return Err(UserDbError::AlreadyExists);
        }
        let hashed = match bcrypt_hash(password, DEFAULT_COST) {
            Ok(hash) => hash,
            Err(_) => {
                return Err(UserDbError::HashFailed);
            },
        };
        let r = self.add_user(username, hashed, is_admin);
        proof {
            assert(final(self)@.drop_last() =~= old(self)@);
        }
        r
    }

    /// The database that is made where none is stored yet: the single
    /// administrator `admin` with the password `admin123`.
    pub fn with_default_admin() -> (r: Result<UserDB, UserDbError>)
        ensures
            r is Err ==> r == Err::<UserDB, UserDbError>(UserDbError::HashFailed),
            r matches Ok(db) ==> db@.len() == 1 && db@[0].username == "admin"@ && db@[0].is_admin
                && bcrypt_verdict("admin123"@, db@[0].hashed_password) == Some(true),
    {
        let mut db = UserDB { users: Vec::new() };
        assert(db@ =~= Seq::<UserView>::empty());
        match db.create_user("admin", "admin123", true) {
            Ok(()) => Ok(db),
            Err(_) => Err(UserDbError::HashFailed),
        }
    }
}

/// A user that was created can log in with the password it was created
/// with, provided no earlier account has the name.
pub proof fn lemma_created_user_is_accepted(
    before: Seq<UserView>,
    after: Seq<UserView>,
    username: Seq<char>,
    password: Seq<char>,
)
    requires
        !has_user(before, username),
        after.len() == before.len() + 1,
        after.drop_last() == before,
        after.last().username == username,
        bcrypt_verdict(password, after.last().hashed_password) == Some(true),
    ensures
        accepts(after, username, password),
{
}

/// Adding an account changes the verdict for no other user name.
pub proof fn lemma_other_users_unaffected(
    before: Seq<UserView>,
    added: UserView,
    username: Seq<char>,
    password: Seq<char>,
)
    requires
        added.username != username,
    ensures
        accepts(before.push(added), username, password) == accepts(before, username, password),
{
    assert(before.push(added).drop_last() =~= before);
    lemma_find_user(before, username);
}

} // verus!
