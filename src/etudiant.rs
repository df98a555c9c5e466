//! Students.
use vstd::prelude::*;
use crate::db::{Database, Tables};
use crate::table::{
    Row, find_row, lemma_push_fresh, lemma_replace_wf, lemma_without_keys_wf, lookup, remove_keys,
    replace_row, replace_row_in, without_keys,
};

verus! {

#[derive(Clone, Debug, PartialEq, Eq)]
pub struct Etudiant {
    pub id: i32,
    pub firstname: String,
    pub lastname: String,
    pub address: String,
    pub specialite_id: i32,
    pub soutenance_id: Option<i32>,
}

impl Row for Etudiant {
    open spec fn row_id(&self) -> i32 {
        self.id
    }

    fn key(&self) -> (r: i32) {
        self.id
    }

    fn copied(&self) -> (r: Self) {
        Etudiant {
            id: self.id,
            firstname: self.firstname.clone(),
            lastname: self.lastname.clone(),
            address: self.address.clone(),
            specialite_id: self.specialite_id,
            soutenance_id: self.soutenance_id,
        }
    }
}

/// The tables after `row` is added as the next student; `row` carries the next id.
pub open spec fn student_created(t: Tables, row: Etudiant) -> Tables {
    Tables { etudiants: t.etudiants.push(row), etudiant_seq: (t.etudiant_seq + 1) as i32, ..t }
}

pub open spec fn in_specialite(specialite_id: i32) -> spec_fn(Etudiant) -> bool {
    |e: Etudiant| e.specialite_id == specialite_id
}

/// Adds a student and returns the new id; fails once every id has been handed out.
pub fn create_student(
    db: &mut Database,
    firstname: String,
    lastname: String,
    address: String,
    specialite_id: i32,
    soutenance_id: Option<i32>,
) -> (r: Result<i32, String>)
    requires
        old(db).wf(),
    ensures
        final(db).wf(),
        old(db).etudiant_seq < i32::MAX ==> r == Ok::<i32, String>(
            (old(db).etudiant_seq + 1) as i32,
        ) && final(db)@ == student_created(
            old(db)@,
            Etudiant {
                id: (old(db).etudiant_seq + 1) as i32,
                firstname,
                lastname,
                address,
                specialite_id,
                soutenance_id,
            },
        ),
        old(db).etudiant_seq == i32::MAX ==> r is Err && r->Err_0@ == "database or disk is full"@
            && final(db)@ == old(db)@,
{
    if db.etudiant_seq == i32::MAX {
        return Err(String::from_str("database or disk is full"));
    }
    let id = db.etudiant_seq + 1;
    let row = Etudiant { id, firstname, lastname, address, specialite_id, soutenance_id };
    proof {
        lemma_push_fresh(db@.etudiants, db.etudiant_seq, row);
    }
    db.etudiants.push(row);
    db.etudiant_seq = id;
    Ok(id)
}

/// The student `id`; an error when there is none.
pub fn get_student(db: &Database, id: i32) -> (r: Result<Etudiant, String>)
    requires
        db.wf(),
    ensures
        match lookup(db@.etudiants, id) {
            Some(c) => r == Ok::<Etudiant, String>(c),
            None => r is Err && r->Err_0@ == "Query returned no rows"@,
        },
{
    match find_row(&db.etudiants, id) {
        Some(c) => Ok(c),
        None => Err(String::from_str("Query returned no rows")),
    }
}

/// Overwrites every field of the student `id`, assigning the student to
/// session `soutenance_id`, and returns the record as written. With no
/// student `id` nothing changes; this is not an error.
pub fn update_student(
    db: &mut Database,
    id: i32,
    firstname: String,
    lastname: String,
    address: String,
    specialite_id: i32,
    soutenance_id: i32,
) -> (r: Result<Etudiant, String>)
    requires
        old(db).wf(),
    ensures
        final(db).wf(),
        final(db)@ == (Tables {
            etudiants: replace_row(
                old(db)@.etudiants,
                Etudiant {
                    id,
                    firstname,
                    lastname,
                    address,
                    specialite_id,
                    soutenance_id: Some(soutenance_id),
                },
            ),
            ..old(db)@
        }),
        r == Ok::<Etudiant, String>(
            Etudiant {
                id,
                firstname,
                lastname,
                address,
                specialite_id,
                soutenance_id: Some(soutenance_id),
            },
        ),
        lookup(old(db)@.etudiants, id) is None ==> final(db)@ == old(db)@,
        lookup(old(db)@.etudiants, id) is Some ==> lookup(final(db)@.etudiants, id) == Some(r->Ok_0),
{
    let row = Etudiant {
        id,
        firstname,
        lastname,
        address,
        specialite_id,
        soutenance_id: Some(soutenance_id),
    };
    proof {
        lemma_replace_wf(db@.etudiants, db.etudiant_seq, row);
    }
    replace_row_in(&mut db.etudiants, &row);
    Ok(row)
}

/// Deletes every student whose id is listed, all together.
pub fn delete_students(db: &mut Database, ids: Vec<i32>) -> (r: Result<(), String>)
    requires
        old(db).wf(),
    ensures
        final(db).wf(),
        r is Ok,
        final(db)@ == (Tables { etudiants: without_keys(old(db)@.etudiants, ids@), ..old(db)@ }),
{
    proof {
        lemma_without_keys_wf(db@.etudiants, ids@, db.etudiant_seq);
    }
    remove_keys(&mut db.etudiants, &ids);
    Ok(())
}

fn students_in(db: &Database, specialite_id: i32) -> (r: Vec<Etudiant>)
    ensures
        r@ == db@.etudiants.filter(in_specialite(specialite_id)),
{
    let ghost keep = in_specialite(specialite_id);
    let rows = &db.etudiants;
    let mut out: Vec<Etudiant> = Vec::new();
    let mut i: usize = 0;
    proof {
        reveal(Seq::filter);
        assert(rows@.take(0) =~= Seq::<Etudiant>::empty());
    }
    while i < rows.len()
        invariant
            rows == &db.etudiants,
            keep == in_specialite(specialite_id),
            i <= rows.len(),
            out@ == rows@.take(i as int).filter(keep),
        decreases rows.len() - i,
    {
        proof {
            reveal(Seq::filter);
            assert(rows@.take(i + 1).drop_last() =~= rows@.take(i as int));
        }
        if rows[i].specialite_id == specialite_id {
            out.push(rows[i].copied());
        }
        i += 1;
    }
    assert(rows@.take(i as int) =~= rows@);
    out
}

/// The students of program `department_id`, in table order.
pub fn get_students_by_department(db: &Database, department_id: i32) -> (r: Result<
    Vec<Etudiant>,
    String,
>)
    ensures
        r is Ok,
        r->Ok_0@ == db@.etudiants.filter(in_specialite(department_id)),
{
    Ok(students_in(db, department_id))
}

/// The students of program `specialite_id`, in table order.
pub fn get_specialite_students(db: &Database, specialite_id: i32) -> (r: Result<
    Vec<Etudiant>,
    String,
>)
    ensures
        r is Ok,
        r->Ok_0@ == db@.etudiants.filter(in_specialite(specialite_id)),
{
    Ok(students_in(db, specialite_id))
}

/// A created student reads back under the id it was given, with the fields it was given.
pub proof fn law_student_round_trip(t: Tables, row: Etudiant)
    requires
        t.wf(),
        t.etudiant_seq < i32::MAX,
        row.id == t.etudiant_seq + 1,
    ensures
        lookup(student_created(t, row).etudiants, row.id) == Some(row),
{
    lemma_push_fresh(t.etudiants, t.etudiant_seq, row);
}

} // verus!
