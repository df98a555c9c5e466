//! Academic programs.
use vstd::prelude::*;
use crate::db::{Database, Tables};
use crate::pfe::Pfe;
use crate::table::{
    Row, find_row, lemma_push_fresh, lemma_without_keys_wf, lookup, remove_key, without_keys,
};

verus! {

#[derive(Clone, Debug, PartialEq, Eq)]
pub struct Specialite {
    pub id: i32,
    pub name: String,
}

impl Row for Specialite {
    open spec fn row_id(&self) -> i32 {
        self.id
    }

    fn key(&self) -> (r: i32) {
        self.id
    }

    fn copied(&self) -> (r: Self) {
        Specialite { id: self.id, name: self.name.clone() }
    }
}

/// `u` is `t` after a program with an empty name is added under the next id.
pub open spec fn specialite_created(t: Tables, u: Tables) -> bool {
    let id = (t.specialite_seq + 1) as i32;
    &&& u.specialites.len() == t.specialites.len() + 1
    &&& u.specialites.drop_last() == t.specialites
    &&& u.specialites.last().id == id
    &&& u.specialites.last().name@ == Seq::<char>::empty()
    &&& u == (Tables { specialites: u.specialites, specialite_seq: id, ..t })
}

pub open spec fn of_specialite(specialite_id: i32) -> spec_fn(Pfe) -> Option<i32> {
    |p: Pfe|
        if p.specialite_id == specialite_id {
            Some(p.id)
        } else {
            None
        }
}

/// Adds a program with an empty name and returns its id; fails once every
/// id has been handed out.
pub fn create_specialite(db: &mut Database) -> (r: Result<i32, String>)
    requires
        old(db).wf(),
    ensures
        final(db).wf(),
        old(db).specialite_seq < i32::MAX ==> r == Ok::<i32, String>(
            (old(db).specialite_seq + 1) as i32,
        ) && specialite_created(old(db)@, final(db)@),
        old(db).specialite_seq == i32::MAX ==> r is Err && r->Err_0@ == "database or disk is full"@
            && final(db)@ == old(db)@,
{
    if db.specialite_seq == i32::MAX {
        return Err(String::from_str("database or disk is full"));
    }
    let id = db.specialite_seq + 1;
    let row = Specialite { id, name: String::new() };
    proof {
        lemma_push_fresh(db@.specialites, db.specialite_seq, row);
    }
    db.specialites.push(row);
    db.specialite_seq = id;
    assert(db@.specialites.drop_last() =~= old(db)@.specialites);
    Ok(id)
}

/// The program `id`; an error when there is none.
pub fn get_specialite(db: &Database, id: i32) -> (r: Result<Specialite, String>)
    requires
        db.wf(),
    ensures
        match lookup(db@.specialites, id) {
            Some(c) => r == Ok::<Specialite, String>(c),
            None => r is Err && r->Err_0@ == "Query returned no rows"@,
        },
{
    match find_row(&db.specialites, id) {
        Some(c) => Ok(c),
        None => Err(String::from_str("Query returned no rows")),
    }
}

/// Programs have no editable field: this succeeds and changes nothing.
pub fn update_specialite(db: &Database, id: i32) -> (r: Result<(), String>)
    ensures
        r is Ok,
{
    Ok(())
}

/// Deletes the program `id`, if there is one.
pub fn delete_specialite(db: &mut Database, id: i32) -> (r: Result<(), String>)
    requires
        old(db).wf(),
    ensures
        final(db).wf(),
        r is Ok,
        final(db)@ == (Tables {
            specialites: without_keys(old(db)@.specialites, seq![id]),
            ..old(db)@
        }),
{
    proof {
        lemma_without_keys_wf(db@.specialites, seq![id], db.specialite_seq);
    }
    remove_key(&mut db.specialites, id);
    Ok(())
}

/// The ids of the projects of program `specialite_id`, in table order.
pub fn get_specialite_pfes(db: &Database, specialite_id: i32) -> (r: Result<Vec<i32>, String>)
    ensures
        r is Ok,
        r->Ok_0@ == db@.pfes.filter_map(of_specialite(specialite_id)),
{
    let ghost f = of_specialite(specialite_id);
    let rows = &db.pfes;
    let mut out: Vec<i32> = Vec::new();
    let mut i: usize = 0;
    assert(rows@.take(0) =~= Seq::<Pfe>::empty());
    while i < rows.len()
        invariant
            rows == &db.pfes,
            f == of_specialite(specialite_id),
            i <= rows.len(),
            out@ == rows@.take(i as int).filter_map(f),
        decreases rows.len() - i,
    {
        proof {
            rows@.lemma_filter_map_take_succ(f, i as int);
        }
        if rows[i].specialite_id == specialite_id {
            out.push(rows[i].id);
        }
        i += 1;
    }
    assert(rows@.take(i as int) =~= rows@);
    Ok(out)
}

/// A created program reads back under the id it was given, with an empty name.
pub proof fn law_specialite_round_trip(t: Tables, u: Tables)
    requires
        t.wf(),
        t.specialite_seq < i32::MAX,
        specialite_created(t, u),
    ensures
        lookup(u.specialites, (t.specialite_seq + 1) as i32) == Some(u.specialites.last()),
        u.specialites.last().id == (t.specialite_seq + 1) as i32,
        u.specialites.last().name@ == Seq::<char>::empty(),
{
    assert(t.specialites.push(u.specialites.last()) =~= u.specialites);
    lemma_push_fresh(t.specialites, t.specialite_seq, u.specialites.last());
}

} // verus!
