//! Invitees, stored with a unique email.
use vstd::prelude::*;
use crate::db::{Database, Tables};
use crate::table::{
    Contact, Row, email_used, email_used_by_other, find_email, find_row, lemma_push_email,
    lemma_push_fresh, lemma_replace_email, lemma_replace_wf, lemma_without_keys_emails,
    lemma_without_keys_wf, law_delete_of_no_ids_changes_nothing, lookup, remove_keys, replace_row, replace_row_in,
    without_keys,
};
use crate::invite_soutenance::InviteSoutenance;

verus! {

#[derive(Clone, Debug, PartialEq, Eq)]
pub struct Invitee {
    pub id: i32,
    pub firstname: String,
    pub lastname: String,
    pub email: String,
}

/// The fields of a new or edited record; the id is chosen by the table.
#[derive(Clone, Debug, PartialEq, Eq)]
pub struct NewInvitee {
    pub firstname: String,
    pub lastname: String,
    pub email: String,
}

impl Row for Invitee {
    open spec fn row_id(&self) -> i32 {
        self.id
    }

    fn key(&self) -> (r: i32) {
        self.id
    }

    fn copied(&self) -> (r: Self) {
        Invitee {
            id: self.id,
            firstname: self.firstname.clone(),
            lastname: self.lastname.clone(),
            email: self.email.clone(),
        }
    }
}

impl Contact for Invitee {
    open spec fn contact_email(&self) -> Seq<char> {
        self.email@
    }

    fn email_text(&self) -> (r: &String) {
        &self.email
    }
}

/// The tables after `row` is added as the next invitee; `row` carries the next id.
pub open spec fn invite_created(t: Tables, row: Invitee) -> Tables {
    Tables { invites: t.invites.push(row), invite_seq: (t.invite_seq + 1) as i32, ..t }
}

pub open spec fn invite_sessions(id: i32) -> spec_fn(InviteSoutenance) -> Option<i32> {
    |p: InviteSoutenance|
        if p.invite_id == id {
            Some(p.soutenance_id)
        } else {
            None
        }
}

/// Adds a invitee and returns a random number, which is not the id the row
/// was stored under; fails when the email is taken or every id has been
/// handed out.
pub fn create_invite(db: &mut Database, invite: NewInvitee) -> (r: Result<i32, String>)
    requires
        old(db).wf(),
    ensures
        final(db).wf(),
        old(db).invite_seq == i32::MAX ==> r is Err && r->Err_0@
            == "BACKEND: Failed to create invite: database or disk is full"@ && final(db)@ == old(db)@,
        old(db).invite_seq < i32::MAX && email_used(old(db)@.invites, invite.email@) ==> r is Err && r->Err_0@
            == "BACKEND: Failed to create invite: UNIQUE constraint failed: invite.email"@ && final(db)@
            == old(db)@,
        old(db).invite_seq < i32::MAX && !email_used(old(db)@.invites, invite.email@) ==> r is Ok && final(db)@
            == invite_created(
            old(db)@,
            Invitee {
                id: (old(db).invite_seq + 1) as i32,
                firstname: invite.firstname,
                lastname: invite.lastname,
                email: invite.email,
            },
        ),
{
    if db.invite_seq == i32::MAX {
        return Err(String::from_str("BACKEND: Failed to create invite: database or disk is full"));
    }
    if find_email(&db.invites, &invite.email, None) {
        return Err(
            String::from_str("BACKEND: Failed to create invite: UNIQUE constraint failed: invite.email"),
        );
    }
    let id = db.invite_seq + 1;
    let row = Invitee { id, firstname: invite.firstname, lastname: invite.lastname, email: invite.email };
    proof {
        lemma_push_fresh(db@.invites, db.invite_seq, row);
        lemma_push_email(db@.invites, row);
    }
    db.invites.push(row);
    db.invite_seq = id;
    Ok(rand::random::<i32>())
}

/// Every invitee, in table order.
pub fn get_all_invite(db: &Database) -> (r: Result<Vec<Invitee>, String>)
    ensures
        r is Ok,
        r->Ok_0@ == db@.invites,
{
    let mut out: Vec<Invitee> = Vec::new();
    let mut i: usize = 0;
    while i < db.invites.len()
        invariant
            i <= db.invites.len(),
            out@ == db@.invites.take(i as int),
        decreases db.invites.len() - i,
    {
        out.push(db.invites[i].copied());
        i += 1;
        assert(out@ =~= db@.invites.take(i as int));
    }
    assert(db@.invites.take(i as int) =~= db@.invites);
    Ok(out)
}

/// The invitee `id`; an error when there is none.
pub fn get_invite(db: &Database, id: i32) -> (r: Result<Invitee, String>)
    requires
        db.wf(),
    ensures
        match lookup(db@.invites, id) {
            Some(c) => r == Ok::<Invitee, String>(c),
            None => r is Err && r->Err_0@ == "Query returned no rows"@,
        },
{
    match find_row(&db.invites, id) {
        Some(c) => Ok(c),
        None => Err(String::from_str("Query returned no rows")),
    }
}

/// Overwrites the fields of the invitee `id`. When another invitee already has the
/// new email nothing changes and a message says so; this is not an error.
/// With no invitee `id` nothing changes either.
pub fn update_invite(db: &mut Database, id: i32, invite: NewInvitee) -> (r: Result<String, String>)
    requires
        old(db).wf(),
    ensures
        final(db).wf(),
        r is Ok,
        email_used_by_other(old(db)@.invites, invite.email@, id) ==> r->Ok_0@
            == "Email already exists for another invite"@ && final(db)@ == old(db)@,
        !email_used_by_other(old(db)@.invites, invite.email@, id) ==> r->Ok_0@
            == "Invitee updated successfully"@ && final(db)@ == (Tables {
            invites: replace_row(
                old(db)@.invites,
                Invitee { id, firstname: invite.firstname, lastname: invite.lastname, email: invite.email },
            ),
            ..old(db)@
        }),
{
    if find_email(&db.invites, &invite.email, Some(id)) {
        return Ok(String::from_str("Email already exists for another invite"));
    }
    let row = Invitee { id, firstname: invite.firstname, lastname: invite.lastname, email: invite.email };
    proof {
        lemma_replace_wf(db@.invites, db.invite_seq, row);
        lemma_replace_email(db@.invites, row);
    }
    replace_row_in(&mut db.invites, &row);
    Ok(String::from_str("Invitee updated successfully"))
}

/// Deletes every invitee whose id is listed; an empty list changes nothing.
/// Their session links stay behind.
pub fn delete_invite(db: &mut Database, ids: Vec<i32>) -> (r: Result<(), String>)
    requires
        old(db).wf(),
    ensures
        final(db).wf(),
        r is Ok,
        final(db)@ == (Tables { invites: without_keys(old(db)@.invites, ids@), ..old(db)@ }),
{
    proof {
        lemma_without_keys_wf(db@.invites, ids@, db.invite_seq);
        lemma_without_keys_emails(db@.invites, ids@);
    }
    if ids.len() == 0 {
        proof {
            law_delete_of_no_ids_changes_nothing(db@.invites, ids@);
        }
        return Ok(());
    }
    remove_keys(&mut db.invites, &ids);
    Ok(())
}

/// A created invitee reads back under the id the table gave it, with the fields it was given.
/// The number `create_invite` returns is drawn at random, not derived from this id.
pub proof fn law_invite_round_trip(t: Tables, row: Invitee)
    requires
        t.wf(),
        t.invite_seq < i32::MAX,
        row.id == t.invite_seq + 1,
    ensures
        lookup(invite_created(t, row).invites, row.id) == Some(row),
{
    lemma_push_fresh(t.invites, t.invite_seq, row);
}

/// The sessions of invitee `invite_id`, in invitation order, each paired
/// with an empty text: invitations carry no role.
pub fn get_invite_soutenances(db: &Database, invite_id: i32) -> (r: Result<
    Vec<(i32, String)>,
    String,
>)
    ensures
        r is Ok,
        r->Ok_0@.len() == db@.invite_soutenances.filter_map(invite_sessions(invite_id)).len(),
        forall|i: int|
            0 <= i < r->Ok_0@.len() ==> (#[trigger] r->Ok_0@[i]).0
                == db@.invite_soutenances.filter_map(invite_sessions(invite_id))[i] && r->Ok_0@[i].1@
                == Seq::<char>::empty(),
{
    let ghost f = invite_sessions(invite_id);
    let rows = &db.invite_soutenances;
    let mut out: Vec<(i32, String)> = Vec::new();
    let mut i: usize = 0;
    assert(rows@.take(0) =~= Seq::<InviteSoutenance>::empty());
    while i < rows.len()
        invariant
            rows == &db.invite_soutenances,
            f == invite_sessions(invite_id),
            i <= rows.len(),
            out@.len() == rows@.take(i as int).filter_map(f).len(),
            forall|k: int|
                0 <= k < out@.len() ==> (#[trigger] out@[k]).0 == rows@.take(i as int).filter_map(
                    f,
                )[k] && out@[k].1@ == Seq::<char>::empty(),
        decreases rows.len() - i,
    {
        proof {
            rows@.lemma_filter_map_take_succ(f, i as int);
        }
        if rows[i].invite_id == invite_id {
            out.push((rows[i].soutenance_id, String::new()));
        }
        i += 1;
    }
    assert(rows@.take(i as int) =~= rows@);
    Ok(out)
}

} // verus!
