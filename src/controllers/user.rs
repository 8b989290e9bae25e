use crate::bindings::{
    bcrypt_accepts, email_is_valid, email_valid, fresh_id, id_text, now_unix, regex_find,
    regex_search, uuid_text,
};
use crate::db::{
    lemma_pairwise_push,find_user_by_name, user_pos, user_rel, Database};
use crate::entity::users;
use crate::error::ApiError;
use crate::services::auth::{hash_password, issue_claims, verify_password, Claims};
use crate::text::{owned, same_text};
use vstd::prelude::*;
use vstd::string::*;
use vstd::utf8::encode_utf8;

verus! {

/// A registration request.
pub struct RegisterData {
    pub username: String,
    pub email: String,
    pub password: String,
}

/// A login request.
pub struct LoginData {
    pub username: String,
    pub password: String,
}

/// At least 8 bytes of UTF-8, with a lower-case letter, an upper-case letter and a digit.
pub open spec fn password_ok(p: Seq<char>) -> bool {
    &&& encode_utf8(p).len() >= 8
    &&& regex_search("[a-z]"@, p) == Some(true)
    &&& regex_search("[A-Z]"@, p) == Some(true)
    &&& regex_search("\\d"@, p) == Some(true)
}

/// A username of 1 to 15 characters, a valid email address and an acceptable password.
pub open spec fn registration_valid(d: RegisterData) -> bool {
    &&& 1 <= d.username@.len() <= 15
    &&& email_valid(d.email@)
    &&& password_ok(d.password@)
}

/// Some account already has this username or this email.
pub open spec fn name_or_email_taken(s: Seq<users::Model>, name: Seq<char>, email: Seq<char>) -> bool {
    exists|i: int| 0 <= i < s.len() && ((#[trigger] s[i]).username@ == name || s[i].email@ == email)
}

/// Some account already has this id.
pub open spec fn user_id_taken(s: Seq<users::Model>, id: u128) -> bool {
    exists|i: int| 0 <= i < s.len() && (#[trigger] s[i]).id == id
}

/// Every table but the accounts is as it was.
pub open spec fn users_only_changed(old: Database, new: Database) -> bool {
    &&& new.products@ == old.products@
    &&& new.cart@ == old.cart@
    &&& new.orders@ == old.orders@
    &&& new.order_items@ == old.order_items@
}

/// Once an account is stored, every later registration with its username or its email
/// meets a taken name or email, which `register` refuses.
pub proof fn stored_account_blocks_same_name_or_email(
    users: Seq<users::Model>,
    i: int,
    d: RegisterData,
)
    requires
        0 <= i < users.len(),
        d.username@ == users[i].username@ || d.email@ == users[i].email@,
    ensures
        name_or_email_taken(users, d.username@, d.email@),
{
    assert(users[i].username@ == d.username@ || users[i].email@ == d.email@);
}

/// The password rule that the checks' outcomes break first, if any.
pub fn password_verdict(
    long_enough: bool,
    lower: Option<bool>,
    upper: Option<bool>,
    digit: Option<bool>,
) -> (r: Result<(), String>)
    ensures
        r is Ok <==> long_enough && lower == Some(true) && upper == Some(true) && digit == Some(
            true,
        ),
        !long_enough ==> (r matches Err(m) && m@ == "Password must be at least 8 characters long"@),
        long_enough && lower != Some(true) ==> (r matches Err(m) && m@
            == "Password must contain at least one lowercase letter"@),
        long_enough && lower == Some(true) && upper != Some(true) ==> (r matches Err(m) && m@
            == "Password must contain at least one uppercase letter"@),
        long_enough && lower == Some(true) && upper == Some(true) && digit != Some(true) ==> (r matches Err(
            m,
        ) && m@ == "Password must contain at least one digit"@),
{
    if !long_enough {
        return Err(owned("Password must be at least 8 characters long"));
    }
    if lower != Some(true) {
        return Err(owned("Password must contain at least one lowercase letter"));
    }
    if upper != Some(true) {
        return Err(owned("Password must contain at least one uppercase letter"));
    }
    if digit != Some(true) {
        return Err(owned("Password must contain at least one digit"));
    }
    Ok(())
}

/// Checks the password rules; the error names the first rule broken.
pub fn validate_password(password: &str) -> (r: Result<(), String>)
    ensures
        r is Ok <==> password_ok(password@),
{
    let long_enough = password.as_bytes().len() >= 8;
    let lower = regex_find("[a-z]", password);
    let upper = regex_find("[A-Z]", password);
    let digit = regex_find("\\d", password);
    password_verdict(long_enough, lower, upper, digit)
}

impl RegisterData {
    /// Checks the username length, the email format and the password rules, in that order.
    pub fn validate(&self) -> (r: Result<(), String>)
        ensures
            r is Ok <==> registration_valid(*self),
    {
        let n = self.username.as_str().unicode_len();
        if n < 1 || n > 15 {
            return Err(owned("username: must be 1 - 15 characters long"));
        }
        if !email_is_valid(self.email.as_str()) {
            return Err(owned("email: invalid"));
        }
        match validate_password(self.password.as_str()) {
            Ok(()) => Ok(()),
            Err(m) => Err(owned("password: ").concat(m.as_str())),
        }
    }
}

/// Whether some account has this username or this email.
pub fn find_name_or_email(users: &Vec<users::Model>, name: &str, email: &str) -> (r: bool)
    ensures
        r == name_or_email_taken(users@, name@, email@),
{
    let mut i: usize = 0;
    while i < users.len()
        invariant
            i <= users@.len(),
            forall|k: int|
                0 <= k < i ==> (#[trigger] users@[k]).username@ != name@ && users@[k].email@
                    != email@,
        decreases users@.len() - i,
    {
        if same_text(users[i].username.as_str(), name) || same_text(users[i].email.as_str(), email) {
            assert(users@[i as int].username@ == name@ || users@[i as int].email@ == email@);
            return true;
        }
        i = i + 1;
    }
    false
}

/// Whether some account has this id.
pub fn find_user_id(users: &Vec<users::Model>, id: u128) -> (r: bool)
    ensures
        r == user_id_taken(users@, id),
{
    let mut i: usize = 0;
    while i < users.len()
        invariant
            i <= users@.len(),
            forall|k: int| 0 <= k < i ==> (#[trigger] users@[k]).id != id,
        decreases users@.len() - i,
    {
        if users[i].id == id {
            assert(users@[i as int].id == id);
            return true;
        }
        i = i + 1;
    }
    false
}

/// Stores an account; a taken id, username or email is refused, as a unique key would.
pub fn insert_user(
    db: &mut Database,
    id: u128,
    username: String,
    email: String,
    hashed_password: String,
    now: i64,
) -> (r: Result<users::Model, ApiError>)
    requires
        old(db).wf(),
    ensures
        final(db).wf(),
        users_only_changed(*old(db), *final(db)),
        (user_id_taken(old(db).users@, id) || name_or_email_taken(
            old(db).users@,
            username@,
            email@,
        )) ==> (r matches Err(ApiError::DatabaseError(_)) && final(db).users@ == old(db).users@),
        !(user_id_taken(old(db).users@, id) || name_or_email_taken(
            old(db).users@,
            username@,
            email@,
        )) ==> (r matches Ok(u) && u.id == id && u.username == username && u.email == email
            && u.hashed_password == hashed_password && u.created_at == now && final(db).users@
            == old(db).users@.push(u)),
{
    if find_user_id(&db.users, id) || find_name_or_email(
        &db.users,
        username.as_str(),
        email.as_str(),
    ) {
        return Err(ApiError::DatabaseError(owned("Failed to create user")));
    }
    let user = users::Model { id, username, email, hashed_password, created_at: now };
    let stored = user.duplicate();
    proof {
        let s = db.users@;
        assert forall|k: int| 0 <= k < s.len() implies user_rel()(#[trigger] s[k], user) && user_rel()(user, s[k]) by {
            assert(s[k].id != id && s[k].username@ != user.username@ && s[k].email@ != user.email@);
        }
        lemma_pairwise_push(s, user, user_rel());
    }
    db.users.push(user);
    Ok(stored)
}

/// Validates the request and stores a new account with a hashed password.
pub fn register(db: &mut Database, data: &RegisterData) -> (r: Result<(), ApiError>)
    requires
        old(db).wf(),
    ensures
        final(db).wf(),
        users_only_changed(*old(db), *final(db)),
        r is Err ==> final(db).users@ == old(db).users@,
        !registration_valid(*data) ==> r matches Err(ApiError::ValidationError(_)),
        r matches Err(ApiError::ValidationError(_)) ==> !registration_valid(*data),
        registration_valid(*data) && !name_or_email_taken(
            old(db).users@,
            data.username@,
            data.email@,
        ) ==> (r is Ok || r == Err::<(), ApiError>(ApiError::InternalServerError)
            || r matches Err(ApiError::DatabaseError(_))),
        registration_valid(*data) && name_or_email_taken(
            old(db).users@,
            data.username@,
            data.email@,
        ) ==> r matches Err(ApiError::DatabaseError(_)),
        r is Ok ==> {
            let n = old(db).users@.len();
            &&& final(db).users@.len() == n + 1
            &&& final(db).users@.subrange(0, n as int) == old(db).users@
            &&& final(db).users@[n as int].username@ == data.username@
            &&& final(db).users@[n as int].email@ == data.email@
            &&& bcrypt_accepts(data.password@, final(db).users@[n as int].hashed_password@)
                == Some(true)
        },
{
    match data.validate() {
        Ok(()) => {},
        Err(m) => {
            return Err(ApiError::ValidationError(m));
        },
    }
    if find_name_or_email(&db.users, data.username.as_str(), data.email.as_str()) {
        return Err(ApiError::DatabaseError(owned("Failed to create user")));
    }
    let hashed = hash_password(data.password.as_str())?;
    let id = fresh_id();
    let now = now_unix();
    match insert_user(db, id, data.username.clone(), data.email.clone(), hashed, now) {
        Ok(_) => {
            assert(db.users@.subrange(0, old(db).users@.len() as int) =~= old(db).users@);
            Ok(())
        },
        Err(e) => Err(e),
    }
}

/// Checks the credentials and issues the claims of a token for the account.
pub fn login(db: &Database, data: &LoginData) -> (r: Result<Claims, ApiError>)
    ensures
        user_pos(db.users@, data.username@) < 0 ==> (r matches Err(
            ApiError::AuthenticationError(m),
        ) && m@ == "Invalid credentials"@),
        ({
            let u = db.users@[user_pos(db.users@, data.username@)];
            user_pos(db.users@, data.username@) >= 0 ==> match bcrypt_accepts(
                data.password@,
                u.hashed_password@,
            ) {
                None => r == Err::<Claims, ApiError>(ApiError::InternalServerError),
                Some(false) => (r matches Err(ApiError::AuthenticationError(m)) && m@
                    == "Invalid credentials"@),
                Some(true) => match r {
                    Ok(c) => c.spec_sub() == uuid_text(u.id),
                    Err(e) => e == ApiError::InternalServerError,
                },
            }
        }),
{
    proof {
        reveal_strlit("Invalid credentials");
    }
    match find_user_by_name(&db.users, data.username.as_str()) {
        None => Err(ApiError::AuthenticationError(owned("Invalid credentials"))),
        Some(i) => {
            let user = &db.users[i];
            if verify_password(data.password.as_str(), user.hashed_password.as_str())? {
                let sub = id_text(user.id);
                issue_claims(sub.as_str())
            } else {
                Err(ApiError::AuthenticationError(owned("Invalid credentials")))
            }
        },
    }
}

} // verus!
