//! Classrooms, where defense sessions take place.
use vstd::prelude::*;
use crate::db::{Database, Tables};
use crate::soutenance::SoutenanceRow;
use crate::table::{
    Row, find_row, lemma_push_fresh, lemma_replace_wf, lemma_without_keys_wf, law_delete_of_no_ids_changes_nothing, lookup, remove_keys,
    replace_row, replace_row_in, without_keys,
};

verus! {

#[derive(Clone, Debug, PartialEq, Eq)]
pub struct Salle {
    pub id: i32,
    pub name: String,
}

impl Row for Salle {
    open spec fn row_id(&self) -> i32 {
        self.id
    }

    fn key(&self) -> (r: i32) {
        self.id
    }

    fn copied(&self) -> (r: Self) {
        Salle { id: self.id, name: self.name.clone() }
    }
}

/// The tables after a classroom named `name` is added under the next id.
pub open spec fn classroom_created(t: Tables, name: String) -> Tables {
    Tables {
        classrooms: t.classrooms.push(Salle { id: (t.classroom_seq + 1) as i32, name }),
        classroom_seq: (t.classroom_seq + 1) as i32,
        ..t
    }
}

pub open spec fn in_classroom(salle_id: i32) -> spec_fn(SoutenanceRow) -> Option<i32> {
    |r: SoutenanceRow|
        if r.classroom_id == Some(salle_id) {
            Some(r.id)
        } else {
            None
        }
}

/// Adds a classroom and returns its id; fails once every id has been handed out.
pub fn create_classroom(db: &mut Database, name: String) -> (r: Result<i32, String>)
    requires
        old(db).wf(),
    ensures
        final(db).wf(),
        old(db).classroom_seq < i32::MAX ==> r == Ok::<i32, String>((old(db).classroom_seq + 1) as i32)
            && final(db)@ == classroom_created(old(db)@, name),
        old(db).classroom_seq == i32::MAX ==> r is Err && r->Err_0@ == "database or disk is full"@
            && final(db)@ == old(db)@,
{
    if db.classroom_seq == i32::MAX {
        return Err(String::from_str("database or disk is full"));
    }
    let id = db.classroom_seq + 1;
    proof {
        lemma_push_fresh(db@.classrooms, db.classroom_seq, Salle { id, name });
    }
    db.classrooms.push(Salle { id, name });
    db.classroom_seq = id;
    Ok(id)
}

/// The classroom `id`; an error when there is none.
pub fn get_classroom(db: &Database, id: i32) -> (r: Result<Salle, String>)
    requires
        db.wf(),
    ensures
        match lookup(db@.classrooms, id) {
            Some(c) => r == Ok::<Salle, String>(c),
            None => r is Err && r->Err_0@ == "Query returned no rows"@,
        },
{
    match find_row(&db.classrooms, id) {
        Some(c) => Ok(c),
        None => Err(String::from_str("Query returned no rows")),
    }
}

/// Renames the classroom `id`; with no such classroom nothing changes.
pub fn update_classroom(db: &mut Database, id: i32, name: String) -> (r: Result<(), String>)
    requires
        old(db).wf(),
    ensures
        final(db).wf(),
        r is Ok,
        final(db)@ == (Tables {
            classrooms: replace_row(old(db)@.classrooms, Salle { id, name }),
            ..old(db)@
        }),
{
    let row = Salle { id, name };
    proof {
        lemma_replace_wf(db@.classrooms, db.classroom_seq, row);
    }
    replace_row_in(&mut db.classrooms, &row);
    Ok(())
}

/// Deletes every classroom whose id is listed; an empty list changes nothing.
pub fn delete_classrooms(db: &mut Database, ids: Vec<i32>) -> (r: Result<(), String>)
    requires
        old(db).wf(),
    ensures
        final(db).wf(),
        r is Ok,
        final(db)@ == (Tables { classrooms: without_keys(old(db)@.classrooms, ids@), ..old(db)@ }),
{
    proof {
        lemma_without_keys_wf(db@.classrooms, ids@, db.classroom_seq);
    }
    if ids.len() == 0 {
        proof {
            law_delete_of_no_ids_changes_nothing(db@.classrooms, ids@);
        }
        return Ok(());
    }
    remove_keys(&mut db.classrooms, &ids);
    Ok(())
}

/// Every classroom, in table order.
pub fn get_all_classrooms(db: &Database) -> (r: Result<Vec<Salle>, String>)
    ensures
        r is Ok,
        r->Ok_0@ == db@.classrooms,
{
    let mut out: Vec<Salle> = Vec::new();
    let mut i: usize = 0;
    while i < db.classrooms.len()
        invariant
            i <= db.classrooms.len(),
            out@ == db@.classrooms.take(i as int),
        decreases db.classrooms.len() - i,
    {
        out.push(db.classrooms[i].copied());
        i += 1;
        assert(out@ =~= db@.classrooms.take(i as int));
    }
    assert(db@.classrooms.take(i as int) =~= db@.classrooms);
    Ok(out)
}

/// The ids of the sessions held in classroom `salle_id`, in table order.
pub fn get_classroom_soutenances(db: &Database, salle_id: i32) -> (r: Result<Vec<i32>, String>)
    ensures
        r is Ok,
        r->Ok_0@ == db@.soutenances.filter_map(in_classroom(salle_id)),
{
    let ghost f = in_classroom(salle_id);
    let rows = &db.soutenances;
    let mut out: Vec<i32> = Vec::new();
    let mut i: usize = 0;
    assert(rows@.take(0) =~= Seq::<SoutenanceRow>::empty());
    while i < rows.len()
        invariant
            rows == &db.soutenances,
            f == in_classroom(salle_id),
            i <= rows.len(),
            out@ == rows@.take(i as int).filter_map(f),
        decreases rows.len() - i,
    {
        proof {
            rows@.lemma_filter_map_take_succ(f, i as int);
        }
        if rows[i].classroom_id == Some(salle_id) {
            out.push(rows[i].id);
        }
        i += 1;
    }
    assert(rows@.take(i as int) =~= rows@);
    Ok(out)
}

/// A created classroom reads back under the id it was given, with its name.
pub proof fn law_classroom_round_trip(t: Tables, name: String)
    requires
        t.wf(),
        t.classroom_seq < i32::MAX,
    ensures
        lookup(classroom_created(t, name).classrooms, (t.classroom_seq + 1) as i32) == Some(
            Salle { id: (t.classroom_seq + 1) as i32, name },
        ),
{
    lemma_push_fresh(t.classrooms, t.classroom_seq, Salle { id: (t.classroom_seq + 1) as i32, name });
}

} // verus!
