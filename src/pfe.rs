//! Final-year projects, each tied to a program.
use vstd::prelude::*;
use crate::db::{Database, Tables};
use crate::table::{
    Row, find_row, lemma_push_fresh, lemma_replace_wf, lemma_without_keys_wf, lookup, remove_key,
    replace_row, replace_row_in, without_keys,
};

verus! {

#[derive(Clone, Copy, Debug, PartialEq, Eq)]
pub struct Pfe {
    pub id: i32,
    pub specialite_id: i32,
}

impl Row for Pfe {
    open spec fn row_id(&self) -> i32 {
        self.id
    }

    fn key(&self) -> (r: i32) {
        self.id
    }

    fn copied(&self) -> (r: Self) {
        Pfe { id: self.id, specialite_id: self.specialite_id }
    }
}

/// The tables after a project of program `specialite_id` is added under the next id.
pub open spec fn pfe_created(t: Tables, specialite_id: i32) -> Tables {
    Tables {
        pfes: t.pfes.push(Pfe { id: (t.pfe_seq + 1) as i32, specialite_id }),
        pfe_seq: (t.pfe_seq + 1) as i32,
        ..t
    }
}

/// Adds a project and returns its id; fails once every id has been handed out.
pub fn create_pfe(db: &mut Database, specialite_id: i32) -> (r: Result<i32, String>)
    requires
        old(db).wf(),
    ensures
        final(db).wf(),
        old(db).pfe_seq < i32::MAX ==> r == Ok::<i32, String>((old(db).pfe_seq + 1) as i32)
            && final(db)@ == pfe_created(old(db)@, specialite_id),
        old(db).pfe_seq == i32::MAX ==> r is Err && r->Err_0@ == "database or disk is full"@
            && final(db)@ == old(db)@,
{
    if db.pfe_seq == i32::MAX {
        return Err(String::from_str("database or disk is full"));
    }
    let id = db.pfe_seq + 1;
    proof {
        lemma_push_fresh(db@.pfes, db.pfe_seq, Pfe { id, specialite_id });
    }
    db.pfes.push(Pfe { id, specialite_id });
    db.pfe_seq = id;
    Ok(id)
}

/// The project `id`; an error when there is none.
pub fn get_pfe(db: &Database, id: i32) -> (r: Result<Pfe, String>)
    requires
        db.wf(),
    ensures
        match lookup(db@.pfes, id) {
            Some(c) => r == Ok::<Pfe, String>(c),
            None => r is Err && r->Err_0@ == "Query returned no rows"@,
        },
{
    match find_row(&db.pfes, id) {
        Some(c) => Ok(c),
        None => Err(String::from_str("Query returned no rows")),
    }
}

/// Moves the project `id` to another program; with no such project nothing changes.
pub fn update_pfe(db: &mut Database, id: i32, specialite_id: i32) -> (r: Result<(), String>)
    requires
        old(db).wf(),
    ensures
        final(db).wf(),
        r is Ok,
        final(db)@ == (Tables {
            pfes: replace_row(old(db)@.pfes, Pfe { id, specialite_id }),
            ..old(db)@
        }),
{
    let row = Pfe { id, specialite_id };
    proof {
        lemma_replace_wf(db@.pfes, db.pfe_seq, row);
    }
    replace_row_in(&mut db.pfes, &row);
    Ok(())
}

/// Deletes the project `id`, if there is one.
pub fn delete_pfe(db: &mut Database, id: i32) -> (r: Result<(), String>)
    requires
        old(db).wf(),
    ensures
        final(db).wf(),
        r is Ok,
        final(db)@ == (Tables { pfes: without_keys(old(db)@.pfes, seq![id]), ..old(db)@ }),
{
    proof {
        lemma_without_keys_wf(db@.pfes, seq![id], db.pfe_seq);
    }
    remove_key(&mut db.pfes, id);
    Ok(())
}

/// A created project reads back under the id it was given, with its program.
pub proof fn law_pfe_round_trip(t: Tables, specialite_id: i32)
    requires
        t.wf(),
        t.pfe_seq < i32::MAX,
    ensures
        lookup(pfe_created(t, specialite_id).pfes, (t.pfe_seq + 1) as i32) == Some(
            Pfe { id: (t.pfe_seq + 1) as i32, specialite_id },
        ),
{
    lemma_push_fresh(t.pfes, t.pfe_seq, Pfe { id: (t.pfe_seq + 1) as i32, specialite_id });
}

} // verus!
