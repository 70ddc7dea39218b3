//! Accounts: sessions and their permissions, the checks on e-mail addresses and
//! phone numbers, and the password hashing that registration, login and password
//! changes rely on.

use vstd::prelude::*;
use vstd::utf8::encode_utf8;
use crate::message::opt_view;
use crate::text::{contains_char, str_eq, string_views};

verus! {

/// The result of `char::is_numeric` on `c` (Unicode general categories Nd, Nl, No).
pub uninterp spec fn char_numeric(c: char) -> bool;

/// What `bcrypt::verify(password, hash)` gives: `Some(b)` where it returns `Ok(b)`,
/// `None` where it returns an error (a malformed hash, or a cost out of range).
pub uninterp spec fn bcrypt_matches(password: Seq<char>, hash: Seq<char>) -> Option<bool>;

/// The error type of `bcrypt`, carried through opaque.
#[verifier::external_type_specification]
#[verifier::external_body]
pub struct ExBcryptError(bcrypt::BcryptError);

/// Calls `char::is_numeric`. Claims that its result is `char_numeric(c)` and that,
/// among the ASCII characters, exactly the digits `0` to `9` are numeric: the
/// documented categories (Nd, Nl, No) hold no other ASCII character.
#[verifier::external_body]
fn is_numeric(c: char) -> (r: bool)
    ensures
        r == char_numeric(c),
        (c as u32) < 128 ==> (r <==> '0' <= c <= '9'),
{
    c.is_numeric()
}

/// Calls `bcrypt::verify`. Claims that the outcome is `bcrypt_matches(password, hash)`:
/// the function recomputes the hash with the salt and cost that `hash` carries,
/// so it depends on its two arguments alone.
#[verifier::external_body]
fn bcrypt_verify(password: &str, hash: &str) -> (r: Result<bool, bcrypt::BcryptError>)
    ensures
        match r {
            Ok(b) => bcrypt_matches(password@, hash@) == Some(b),
            Err(_) => bcrypt_matches(password@, hash@) is None,
        },
{
    bcrypt::verify(password, hash)
}

/// Calls `bcrypt::hash` with `bcrypt::DEFAULT_COST`. The salt is random, so which
/// hash comes back is not stated; claimed is what the source shows of every hash it
/// returns: `bcrypt::verify` of the same password against it gives `Ok(true)`.
/// It fails only where the system's random source fails.
#[verifier::external_body]
fn bcrypt_hash(password: &str) -> (r: Result<String, bcrypt::BcryptError>)
    ensures
        r matches Ok(h) ==> bcrypt_matches(password@, h@) == Some(true),
{
    bcrypt::hash(password, bcrypt::DEFAULT_COST)
}

/// A logged-in user: who it is and what it may do.
#[derive(Debug, Clone, PartialEq, Eq)]
pub struct UserSession {
    pub user_id: i32,
    pub username: String,
    pub email: String,
    pub phone: String,
    pub display_name: Option<String>,
    pub avatar_url: Option<String>,
    pub role: String,
    pub permissions: Vec<String>,
}

/// `permission` is among the session's permissions.
pub open spec fn has_permission_spec(session: UserSession, permission: Seq<char>) -> bool {
    string_views(session.permissions@).contains(permission)
}

impl UserSession {
    /// Whether the session holds `permission`.
    pub fn has_permission(&self, permission: &str) -> (r: bool)
        ensures
            r == has_permission_spec(*self, permission@),
    {
        let ghost pv = string_views(self.permissions@);
        let mut i: usize = 0;
        while i < self.permissions.len()
            invariant
                pv == string_views(self.permissions@),
                i <= self.permissions.len(),
                forall|j: int| 0 <= j < i ==> pv[j] != permission@,
            decreases self.permissions.len() - i,
        {
            if str_eq(self.permissions[i].as_str(), permission) {
                assert(pv[i as int] == permission@);
                return true;
            }
            i = i + 1;
        }
        false
    }
}

/// An e-mail address is accepted when it holds an `@` and a `.`.
pub open spec fn email_ok(email: Seq<char>) -> bool {
    email.contains('@') && email.contains('.')
}

/// Whether `c` counts as numeric: among the ASCII characters exactly the digits,
/// beyond them as `char::is_numeric` says.
pub open spec fn numeric_char(c: char) -> bool {
    if (c as u32) < 128 {
        '0' <= c <= '9'
    } else {
        char_numeric(c)
    }
}

/// A phone number is accepted when its length in bytes (`str::len`, of its UTF-8
/// encoding) is 10 to 20 and
/// every character is numeric or `+`.
pub open spec fn phone_ok(phone: Seq<char>) -> bool {
    &&& 10 <= encode_utf8(phone).len() as usize <= 20
    &&& forall|i: int| 0 <= i < phone.len() ==> numeric_char(#[trigger] phone[i]) || phone[i] == '+'
}

/// Whether `email` is accepted as an e-mail address.
pub fn validate_email(email: &str) -> (r: bool)
    ensures
        r == email_ok(email@),
{
    contains_char(email, '@') && contains_char(email, '.')
}

/// Whether `phone` is accepted as a phone number.
pub fn validate_phone(phone: &str) -> (r: bool)
    ensures
        r == phone_ok(phone@),
{
    let len = phone.len();
    if len < 10 || len > 20 {
        return false;
    }
    let n = phone.unicode_len();
    let mut i: usize = 0;
    while i < n
        invariant
            n == phone@.len(),
            i <= n,
            forall|j: int| 0 <= j < i ==> numeric_char(#[trigger] phone@[j]) || phone@[j] == '+',
        decreases n - i,
    {
        let c = phone.get_char(i);
        if !(is_numeric(c) || c == '+') {
            return false;
        }
        i = i + 1;
    }
    true
}

/// Whether `password` matches the stored bcrypt hash; a hash that cannot be read
/// matches nothing.
pub fn check_password(password: &str, hash: &str) -> (r: bool)
    ensures
        r == (bcrypt_matches(password@, hash@) == Some(true)),
{
    match bcrypt_verify(password, hash) {
        Ok(b) => b,
        Err(_) => false,
    }
}

/// A new account, ready to be stored.
#[derive(Debug, Clone, PartialEq, Eq)]
pub struct Registration {
    pub username: String,
    pub email: String,
    pub phone: String,
    pub password_hash: String,
}

/// Why an account could not be created or a password not changed.
#[derive(Debug, Clone, Copy, PartialEq, Eq)]
pub enum AccountError {
    InvalidEmail,
    InvalidPhone,
    WrongPassword,
    HashFailed,
}

/// Prepares a new account: the e-mail address is checked first, then the phone
/// number, then the password is hashed.
pub fn register(username: &str, email: &str, phone: &str, password: &str) -> (r: Result<
    Registration,
    AccountError,
>)
    ensures
        !email_ok(email@) ==> r == Err::<Registration, AccountError>(AccountError::InvalidEmail),
        email_ok(email@) && !phone_ok(phone@) ==> r == Err::<Registration, AccountError>(
            AccountError::InvalidPhone,
        ),
        email_ok(email@) && phone_ok(phone@) ==> (r is Ok || r == Err::<Registration, AccountError>(
            AccountError::HashFailed,
        )),
        r matches Ok(reg) ==> {
            &&& reg.username@ == username@
            &&& reg.email@ == email@
            &&& reg.phone@ == phone@
            &&& bcrypt_matches(password@, reg.password_hash@) == Some(true)
        },
{
    if !validate_email(email) {
        return Err(AccountError::InvalidEmail);
    }
    if !validate_phone(phone) {
        return Err(AccountError::InvalidPhone);
    }
    match bcrypt_hash(password) {
        Ok(hash) => Ok(
            Registration {
                username: username.to_owned(),
                email: email.to_owned(),
                phone: phone.to_owned(),
                password_hash: hash,
            },
        ),
        Err(_) => Err(AccountError::HashFailed),
    }
}

/// What is stored of an account and read back at login.
#[derive(Debug, Clone, PartialEq, Eq)]
pub struct AccountRecord {
    pub user_id: i32,
    pub username: String,
    pub email: String,
    pub phone: String,
    pub display_name: Option<String>,
    pub avatar_url: Option<String>,
    pub password_hash: String,
    pub is_active: bool,
    pub role: String,
}

/// An account admits a password when it is active and the password matches its hash.
pub open spec fn login_ok(is_active: bool, hash: Seq<char>, password: Seq<char>) -> bool {
    is_active && bcrypt_matches(password, hash) == Some(true)
}

/// Whether the account admits `password`.
pub fn login_allowed(record: &AccountRecord, password: &str) -> (r: bool)
    ensures
        r == login_ok(record.is_active, record.password_hash@, password@),
{
    record.is_active && check_password(password, record.password_hash.as_str())
}

/// The session of an account that logged in, with the permissions of its role.
pub fn session_from_record(record: AccountRecord, permissions: Vec<String>) -> (s: UserSession)
    ensures
        s.user_id == record.user_id,
        s.username@ == record.username@,
        s.email@ == record.email@,
        s.phone@ == record.phone@,
        opt_view(s.display_name) == opt_view(record.display_name),
        opt_view(s.avatar_url) == opt_view(record.avatar_url),
        s.role@ == record.role@,
        string_views(s.permissions@) == string_views(permissions@),
{
    UserSession {
        user_id: record.user_id,
        username: record.username,
        email: record.email,
        phone: record.phone,
        display_name: record.display_name,
        avatar_url: record.avatar_url,
        role: record.role,
        permissions,
    }
}

/// The values that are present, in order.
pub open spec fn present(names: Seq<Option<Seq<char>>>) -> Seq<Seq<char>>
    decreases names.len(),
{
    if names.len() == 0 {
        Seq::empty()
    } else {
        let rest = present(names.drop_last());
        match names.last() {
            Some(n) => rest.push(n),
            None => rest,
        }
    }
}

/// The views of a sequence of optional strings.
pub open spec fn opt_views(v: Seq<Option<String>>) -> Seq<Option<Seq<char>>> {
    v.map_values(|o: Option<String>| opt_view(o))
}

/// The permission names that were read, skipping the rows that held none.
pub fn collect_permissions(names: Vec<Option<String>>) -> (r: Vec<String>)
    ensures
        string_views(r@) == present(opt_views(names@)),
{
    let ghost nv = opt_views(names@);
    let mut r: Vec<String> = Vec::new();
    let mut i: usize = 0;
    assert(nv.take(0) =~= Seq::<Option<Seq<char>>>::empty());
    while i < names.len()
        invariant
            nv == opt_views(names@),
            i <= names.len(),
            string_views(r@) =~= present(nv.take(i as int)),
        decreases names.len() - i,
    {
        assert(nv.take(i + 1).drop_last() =~= nv.take(i as int));
        assert(nv[i as int] == opt_view(names@[i as int]));
        match &names[i] {
            Some(n) => {
                let ghost before = r@;
                r.push(n.clone());
                assert(string_views(r@) =~= string_views(before).push(n@));
            },
            None => {},
        }
        i = i + 1;
    }
    assert(nv.take(names.len() as int) =~= nv);
    r
}

/// Prepares a password change: `old_pass` must match the stored hash (a missing hash
/// is read as the empty one), then `new_pass` is hashed. The result is the hash to store.
pub fn change_password(stored_hash: Option<String>, old_pass: &str, new_pass: &str) -> (r: Result<
    String,
    AccountError,
>)
    ensures
        ({
            let stored = match stored_hash {
                Some(h) => h@,
                None => Seq::empty(),
            };
            &&& bcrypt_matches(old_pass@, stored) != Some(true) ==> r == Err::<String, AccountError>(
                AccountError::WrongPassword,
            )
            &&& bcrypt_matches(old_pass@, stored) == Some(true) ==> (r is Ok || r == Err::<
                String,
                AccountError,
            >(AccountError::HashFailed))
        }),
        r matches Ok(h) ==> bcrypt_matches(new_pass@, h@) == Some(true),
{
    let stored = match stored_hash {
        Some(h) => h,
        None => String::new(),
    };
    if !check_password(old_pass, stored.as_str()) {
        return Err(AccountError::WrongPassword);
    }
    match bcrypt_hash(new_pass) {
        Ok(h) => Ok(h),
        Err(_) => Err(AccountError::HashFailed),
    }
}

} // verus!
