//! Signing in against the accounts table.
use vstd::prelude::*;
use crate::db::{Database, Tables};
use crate::outside::random_token;
use crate::user::{hash_password, password_hash};

verus! {

/// The answer to a sign-in attempt: a session token, empty when the
/// attempt failed, and a message for the user.
#[derive(Clone, Debug, PartialEq, Eq)]
pub struct LoginResponse {
    pub access_token: String,
    pub message: String,
}

/// Some account has this email and stores the hash of this password.
pub open spec fn credentials_match(t: Tables, email: Seq<char>, password: Seq<char>) -> bool {
    exists|i: int|
        0 <= i < t.users.len() && (#[trigger] t.users[i]).email@ == email && t.users[i].password@
            == password_hash(password)
}

/// Whether some account has this email and stores the hash of this password.
pub fn credentials_valid(db: &Database, email: &String, password: &str) -> (r: bool)
    ensures
        r == credentials_match(db@, email@, password@),
{
    let hashed = hash_password(password);
    let mut i: usize = 0;
    while i < db.users.len()
        invariant
            i <= db.users.len(),
            hashed@ == password_hash(password@),
            forall|k: int|
                0 <= k < i ==> !((#[trigger] db@.users[k]).email@ == email@ && db@.users[k].password@
                    == password_hash(password@)),
        decreases db.users.len() - i,
    {
        if db.users[i].email == *email && db.users[i].password == hashed {
            assert(db@.users[i as int].email@ == email@);
            return true;
        }
        i += 1;
    }
    false
}

/// Checks the credentials against the stored password hashes. On a match
/// the answer carries a fresh random token, 36 characters long; otherwise
/// an empty token. A failed attempt is an answer, not an error.
pub fn login(db: &Database, email: String, password: String) -> (r: Result<LoginResponse, String>)
    ensures
        r is Ok,
        credentials_match(db@, email@, password@) ==> r->Ok_0.access_token@.len() == 36
            && r->Ok_0.message@ == "Login successful"@,
        !credentials_match(db@, email@, password@) ==> r->Ok_0.access_token@ == ""@
            && r->Ok_0.message@ == "Invalid credentials"@,
{
    if credentials_valid(db, &email, password.as_str()) {
        Ok(
            LoginResponse {
                access_token: random_token(),
                message: String::from_str("Login successful"),
            },
        )
    } else {
        Ok(
            LoginResponse {
                access_token: String::from_str(""),
                message: String::from_str("Invalid credentials"),
            },
        )
    }
}

} // verus!
