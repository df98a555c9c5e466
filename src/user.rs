//! Application accounts, whose passwords are stored hashed.
use vstd::prelude::*;
use crate::db::{Database, Tables};
use crate::outside::{sha256, sha256_of};
use crate::table::{
    Contact, Row, email_used, email_used_by_other, has_key, find_email, find_row, lemma_push_email,
    lemma_push_fresh, lemma_replace_email, lemma_replace_wf, lemma_without_keys_emails,
    lemma_without_keys_wf, lookup, remove_key, replace_row, replace_row_in, without_keys,
};
use vstd::utf8::encode_utf8;

verus! {

#[derive(Clone, Debug, PartialEq, Eq)]
pub struct User {
    pub id: i32,
    pub name: String,
    pub email: String,
    pub password: String,
}

impl Row for User {
    open spec fn row_id(&self) -> i32 {
        self.id
    }

    fn key(&self) -> (r: i32) {
        self.id
    }

    fn copied(&self) -> (r: Self) {
        User {
            id: self.id,
            name: self.name.clone(),
            email: self.email.clone(),
            password: self.password.clone(),
        }
    }
}

impl Contact for User {
    open spec fn contact_email(&self) -> Seq<char> {
        self.email@
    }

    fn email_text(&self) -> (r: &String) {
        &self.email
    }
}

/// The lower-case hexadecimal digit of `n`, for `n` below 16.
pub open spec fn hex_digit(n: u8) -> Seq<char> {
    if n == 0 { "0"@ } else if n == 1 { "1"@ } else if n == 2 { "2"@ } else if n == 3 { "3"@ }
    else if n == 4 { "4"@ } else if n == 5 { "5"@ } else if n == 6 { "6"@ } else if n == 7 { "7"@ }
    else if n == 8 { "8"@ } else if n == 9 { "9"@ } else if n == 10 { "a"@ } else if n == 11 { "b"@ }
    else if n == 12 { "c"@ } else if n == 13 { "d"@ } else if n == 14 { "e"@ } else { "f"@ }
}

/// Each byte as two lower-case hexadecimal digits, high digit first.
pub open spec fn hex_text(b: Seq<u8>) -> Seq<char>
    decreases b.len(),
{
    if b.len() == 0 {
        Seq::empty()
    } else {
        hex_text(b.drop_last()) + hex_digit(b.last() / 16) + hex_digit(b.last() % 16)
    }
}

proof fn lemma_hex_digit_len(n: u8)
    ensures
        hex_digit(n).len() == 1,
{
    reveal_strlit("0");
    reveal_strlit("1");
    reveal_strlit("2");
    reveal_strlit("3");
    reveal_strlit("4");
    reveal_strlit("5");
    reveal_strlit("6");
    reveal_strlit("7");
    reveal_strlit("8");
    reveal_strlit("9");
    reveal_strlit("a");
    reveal_strlit("b");
    reveal_strlit("c");
    reveal_strlit("d");
    reveal_strlit("e");
    reveal_strlit("f");
}

/// Hexadecimal text has two digits per byte.
pub proof fn lemma_hex_text_len(b: Seq<u8>)
    ensures
        hex_text(b).len() == 2 * b.len(),
    decreases b.len(),
{
    if b.len() > 0 {
        lemma_hex_text_len(b.drop_last());
        lemma_hex_digit_len(b.last() / 16);
        lemma_hex_digit_len(b.last() % 16);
    }
}

/// What is stored for the password `p`: its SHA-256 digest in hexadecimal.
pub open spec fn password_hash(p: Seq<char>) -> Seq<char> {
    hex_text(sha256_of(encode_utf8(p)))
}

fn hex_digit_text(n: u8) -> (r: &'static str)
    requires
        n < 16,
    ensures
        r@ == hex_digit(n),
{
    if n == 0 { "0" } else if n == 1 { "1" } else if n == 2 { "2" } else if n == 3 { "3" }
    else if n == 4 { "4" } else if n == 5 { "5" } else if n == 6 { "6" } else if n == 7 { "7" }
    else if n == 8 { "8" } else if n == 9 { "9" } else if n == 10 { "a" } else if n == 11 { "b" }
    else if n == 12 { "c" } else if n == 13 { "d" } else if n == 14 { "e" } else { "f" }
}

/// Each byte as two lower-case hexadecimal digits, high digit first.
pub fn to_hex(bytes: &Vec<u8>) -> (r: String)
    ensures
        r@ == hex_text(bytes@),
{
    let mut out = String::new();
    let mut i: usize = 0;
    assert(bytes@.take(0) =~= Seq::<u8>::empty());
    while i < bytes.len()
        invariant
            i <= bytes.len(),
            out@ == hex_text(bytes@.take(i as int)),
        decreases bytes.len() - i,
    {
        let b = bytes[i];
        out.append(hex_digit_text(b / 16));
        out.append(hex_digit_text(b % 16));
        assert(bytes@.take(i + 1).drop_last() =~= bytes@.take(i as int));
        i += 1;
    }
    assert(bytes@.take(i as int) =~= bytes@);
    out
}

/// The SHA-256 digest of the password's UTF-8 bytes, in lower-case hexadecimal.
pub fn hash_password(password: &str) -> (r: String)
    ensures
        r@ == password_hash(password@),
        r@.len() == 64,
{
    let digest = sha256(password.as_bytes());
    proof {
        lemma_hex_text_len(digest@);
    }
    to_hex(&digest)
}

/// The tables after `row` is added as the next account; `row` carries the next id.
pub open spec fn user_created(t: Tables, row: User) -> Tables {
    Tables { users: t.users.push(row), user_seq: (t.user_seq + 1) as i32, ..t }
}

/// `u` is an account with the given id, name and email whose stored
/// password is the hash of `password`.
pub open spec fn account(u: User, id: i32, name: String, email: String, password: Seq<char>) -> bool {
    u.id == id && u.name == name && u.email == email && u.password@ == password_hash(password)
}

/// Adds an account, storing the hash of its password, and returns its id;
/// fails when the email is taken or every id has been handed out.
pub fn create_user(db: &mut Database, name: String, email: String, password: String) -> (r: Result<
    i32,
    String,
>)
    requires
        old(db).wf(),
    ensures
        final(db).wf(),
        old(db).user_seq == i32::MAX ==> r is Err && r->Err_0@ == "database or disk is full"@
            && final(db)@ == old(db)@,
        old(db).user_seq < i32::MAX && email_used(old(db)@.users, email@) ==> r is Err && r->Err_0@
            == "UNIQUE constraint failed: users.email"@ && final(db)@ == old(db)@,
        old(db).user_seq < i32::MAX && !email_used(old(db)@.users, email@) ==> r == Ok::<i32, String>(
            (old(db).user_seq + 1) as i32,
        ) && final(db)@ == user_created(old(db)@, final(db)@.users.last()) && account(
            final(db)@.users.last(),
            (old(db).user_seq + 1) as i32,
            name,
            email,
            password@,
        ),
{
    if db.user_seq == i32::MAX {
        return Err(String::from_str("database or disk is full"));
    }
    if find_email(&db.users, &email, None) {
        return Err(String::from_str("UNIQUE constraint failed: users.email"));
    }
    let hashed = hash_password(password.as_str());
    let id = db.user_seq + 1;
    let row = User { id, name, email, password: hashed };
    proof {
        lemma_push_fresh(db@.users, db.user_seq, row);
        lemma_push_email(db@.users, row);
    }
    db.users.push(row);
    db.user_seq = id;
    Ok(id)
}

/// The account `id`; an error when there is none.
pub fn get_user(db: &Database, id: i32) -> (r: Result<User, String>)
    requires
        db.wf(),
    ensures
        match lookup(db@.users, id) {
            Some(c) => r == Ok::<User, String>(c),
            None => r is Err && r->Err_0@ == "Query returned no rows"@,
        },
{
    match find_row(&db.users, id) {
        Some(c) => Ok(c),
        None => Err(String::from_str("Query returned no rows")),
    }
}

/// Overwrites the account `id`, storing the hash of the new password; an
/// error, with nothing changed, when another account has the new email.
/// With no account `id` nothing changes and this succeeds.
pub fn update_user(db: &mut Database, id: i32, name: String, email: String, password: String) -> (r:
    Result<(), String>)
    requires
        old(db).wf(),
    ensures
        final(db).wf(),
        !has_key(old(db)@.users, id) ==> r is Ok && final(db)@ == old(db)@,
        has_key(old(db)@.users, id) && email_used_by_other(old(db)@.users, email@, id) ==> r is Err
            && r->Err_0@ == "UNIQUE constraint failed: users.email"@ && final(db)@ == old(db)@,
        has_key(old(db)@.users, id) && !email_used_by_other(old(db)@.users, email@, id) ==> r is Ok
            && exists|u: User|
            account(u, id, name, email, password@) && final(db)@ == (Tables {
                users: replace_row(old(db)@.users, u),
                ..old(db)@
            }),
{
    if find_row(&db.users, id).is_none() {
        return Ok(());
    }
    if find_email(&db.users, &email, Some(id)) {
        return Err(String::from_str("UNIQUE constraint failed: users.email"));
    }
    let hashed = hash_password(password.as_str());
    let row = User { id, name, email, password: hashed };
    proof {
        lemma_replace_wf(db@.users, db.user_seq, row);
        lemma_replace_email(db@.users, row);
    }
    replace_row_in(&mut db.users, &row);
    assert(account(row, id, name, email, password@));
    Ok(())
}

/// Deletes the account `id`, if any.
pub fn delete_user(db: &mut Database, id: i32) -> (r: Result<(), String>)
    requires
        old(db).wf(),
    ensures
        final(db).wf(),
        r is Ok,
        final(db)@ == (Tables { users: without_keys(old(db)@.users, seq![id]), ..old(db)@ }),
{
    proof {
        lemma_without_keys_wf(db@.users, seq![id], db.user_seq);
        lemma_without_keys_emails(db@.users, seq![id]);
    }
    remove_key(&mut db.users, id);
    Ok(())
}

/// A created account reads back under the id it was given, with its name,
/// its email and the hash of its password.
pub proof fn law_user_round_trip(t: Tables, row: User)
    requires
        t.wf(),
        t.user_seq < i32::MAX,
        row.id == t.user_seq + 1,
    ensures
        lookup(user_created(t, row).users, row.id) == Some(row),
{
    lemma_push_fresh(t.users, t.user_seq, row);
}

} // verus!
