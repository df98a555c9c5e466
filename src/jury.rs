//! Jury members, stored with a unique email.
use vstd::prelude::*;
use crate::db::{Database, Tables};
use crate::table::{
    Contact, Row, email_used, email_used_by_other, find_email, find_row, lemma_push_email,
    lemma_push_fresh, lemma_replace_email, lemma_replace_wf, lemma_without_keys_emails,
    lemma_without_keys_wf, law_delete_of_no_ids_changes_nothing, lookup, remove_keys, replace_row, replace_row_in,
    without_keys,
};
use crate::jury_soutenance::JurySoutenance;

verus! {

#[derive(Clone, Debug, PartialEq, Eq)]
pub struct Jury {
    pub id: i32,
    pub firstname: String,
    pub lastname: String,
    pub email: String,
}

/// The fields of a new or edited record; the id is chosen by the table.
#[derive(Clone, Debug, PartialEq, Eq)]
pub struct NewJury {
    pub firstname: String,
    pub lastname: String,
    pub email: String,
}

impl Row for Jury {
    open spec fn row_id(&self) -> i32 {
        self.id
    }

    fn key(&self) -> (r: i32) {
        self.id
    }

    fn copied(&self) -> (r: Self) {
        Jury {
            id: self.id,
            firstname: self.firstname.clone(),
            lastname: self.lastname.clone(),
            email: self.email.clone(),
        }
    }
}

impl Contact for Jury {
    open spec fn contact_email(&self) -> Seq<char> {
        self.email@
    }

    fn email_text(&self) -> (r: &String) {
        &self.email
    }
}

/// The tables after `row` is added as the next jury member; `row` carries the next id.
pub open spec fn jury_created(t: Tables, row: Jury) -> Tables {
    Tables { juries: t.juries.push(row), jury_seq: (t.jury_seq + 1) as i32, ..t }
}

pub open spec fn jury_sessions(id: i32) -> spec_fn(JurySoutenance) -> Option<(i32, String)> {
    |p: JurySoutenance|
        if p.jury_id == id {
            Some((p.soutenance_id, p.role))
        } else {
            None
        }
}

/// Adds a jury member and returns a random number, which is not the id the row
/// was stored under; fails when the email is taken or every id has been
/// handed out.
pub fn create_jury(db: &mut Database, jury: NewJury) -> (r: Result<i32, String>)
    requires
        old(db).wf(),
    ensures
        final(db).wf(),
        old(db).jury_seq == i32::MAX ==> r is Err && r->Err_0@
            == "BACKEND: Failed to create jury: database or disk is full"@ && final(db)@ == old(db)@,
        old(db).jury_seq < i32::MAX && email_used(old(db)@.juries, jury.email@) ==> r is Err && r->Err_0@
            == "BACKEND: Failed to create jury: UNIQUE constraint failed: jury.email"@ && final(db)@
            == old(db)@,
        old(db).jury_seq < i32::MAX && !email_used(old(db)@.juries, jury.email@) ==> r is Ok && final(db)@
            == jury_created(
            old(db)@,
            Jury {
                id: (old(db).jury_seq + 1) as i32,
                firstname: jury.firstname,
                lastname: jury.lastname,
                email: jury.email,
            },
        ),
{
    if db.jury_seq == i32::MAX {
        return Err(String::from_str("BACKEND: Failed to create jury: database or disk is full"));
    }
    if find_email(&db.juries, &jury.email, None) {
        return Err(
            String::from_str("BACKEND: Failed to create jury: UNIQUE constraint failed: jury.email"),
        );
    }
    let id = db.jury_seq + 1;
    let row = Jury { id, firstname: jury.firstname, lastname: jury.lastname, email: jury.email };
    proof {
        lemma_push_fresh(db@.juries, db.jury_seq, row);
        lemma_push_email(db@.juries, row);
    }
    db.juries.push(row);
    db.jury_seq = id;
    Ok(rand::random::<i32>())
}

/// Every jury member, in table order.
pub fn get_all_jury(db: &Database) -> (r: Result<Vec<Jury>, String>)
    ensures
        r is Ok,
        r->Ok_0@ == db@.juries,
{
    let mut out: Vec<Jury> = Vec::new();
    let mut i: usize = 0;
    while i < db.juries.len()
        invariant
            i <= db.juries.len(),
            out@ == db@.juries.take(i as int),
        decreases db.juries.len() - i,
    {
        out.push(db.juries[i].copied());
        i += 1;
        assert(out@ =~= db@.juries.take(i as int));
    }
    assert(db@.juries.take(i as int) =~= db@.juries);
    Ok(out)
}

/// The jury member `id`; an error when there is none.
pub fn get_jury(db: &Database, id: i32) -> (r: Result<Jury, String>)
    requires
        db.wf(),
    ensures
        match lookup(db@.juries, id) {
            Some(c) => r == Ok::<Jury, String>(c),
            None => r is Err && r->Err_0@ == "Query returned no rows"@,
        },
{
    match find_row(&db.juries, id) {
        Some(c) => Ok(c),
        None => Err(String::from_str("Query returned no rows")),
    }
}

/// Overwrites the fields of the jury member `id`. When another jury member already has the
/// new email nothing changes and a message says so; this is not an error.
/// With no jury member `id` nothing changes either.
pub fn update_jury(db: &mut Database, id: i32, jury: NewJury) -> (r: Result<String, String>)
    requires
        old(db).wf(),
    ensures
        final(db).wf(),
        r is Ok,
        email_used_by_other(old(db)@.juries, jury.email@, id) ==> r->Ok_0@
            == "Email already exists for another jury"@ && final(db)@ == old(db)@,
        !email_used_by_other(old(db)@.juries, jury.email@, id) ==> r->Ok_0@
            == "Jury updated successfully"@ && final(db)@ == (Tables {
            juries: replace_row(
                old(db)@.juries,
                Jury { id, firstname: jury.firstname, lastname: jury.lastname, email: jury.email },
            ),
            ..old(db)@
        }),
{
    if find_email(&db.juries, &jury.email, Some(id)) {
        return Ok(String::from_str("Email already exists for another jury"));
    }
    let row = Jury { id, firstname: jury.firstname, lastname: jury.lastname, email: jury.email };
    proof {
        lemma_replace_wf(db@.juries, db.jury_seq, row);
        lemma_replace_email(db@.juries, row);
    }
    replace_row_in(&mut db.juries, &row);
    Ok(String::from_str("Jury updated successfully"))
}

/// Deletes every jury member whose id is listed; an empty list changes nothing.
/// Their session links stay behind.
pub fn delete_jury(db: &mut Database, ids: Vec<i32>) -> (r: Result<(), String>)
    requires
        old(db).wf(),
    ensures
        final(db).wf(),
        r is Ok,
        final(db)@ == (Tables { juries: without_keys(old(db)@.juries, ids@), ..old(db)@ }),
{
    proof {
        lemma_without_keys_wf(db@.juries, ids@, db.jury_seq);
        lemma_without_keys_emails(db@.juries, ids@);
    }
    if ids.len() == 0 {
        proof {
            law_delete_of_no_ids_changes_nothing(db@.juries, ids@);
        }
        return Ok(());
    }
    remove_keys(&mut db.juries, &ids);
    Ok(())
}

/// A created jury member reads back under the id the table gave it, with the fields it was given.
/// The number `create_jury` returns is drawn at random, not derived from this id.
pub proof fn law_jury_round_trip(t: Tables, row: Jury)
    requires
        t.wf(),
        t.jury_seq < i32::MAX,
        row.id == t.jury_seq + 1,
    ensures
        lookup(jury_created(t, row).juries, row.id) == Some(row),
{
    lemma_push_fresh(t.juries, t.jury_seq, row);
}

/// The sessions of jury member `jury_id` with the role held in each, in assignment order.
pub fn get_jury_soutenances(db: &Database, jury_id: i32) -> (r: Result<Vec<(i32, String)>, String>)
    ensures
        r is Ok,
        r->Ok_0@ == db@.jury_soutenances.filter_map(jury_sessions(jury_id)),
{
    let ghost f = jury_sessions(jury_id);
    let rows = &db.jury_soutenances;
    let mut out: Vec<(i32, String)> = Vec::new();
    let mut i: usize = 0;
    assert(rows@.take(0) =~= Seq::<JurySoutenance>::empty());
    while i < rows.len()
        invariant
            rows == &db.jury_soutenances,
            f == jury_sessions(jury_id),
            i <= rows.len(),
            out@ == rows@.take(i as int).filter_map(f),
        decreases rows.len() - i,
    {
        proof {
            rows@.lemma_filter_map_take_succ(f, i as int);
        }
        if rows[i].jury_id == jury_id {
            out.push((rows[i].soutenance_id, rows[i].role.clone()));
        }
        i += 1;
    }
    assert(rows@.take(i as int) =~= rows@);
    Ok(out)
}

} // verus!
