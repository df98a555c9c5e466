//! Defense sessions, stored as rows and read back with their classroom,
//! jury members, invitees and students.
use vstd::prelude::*;
use crate::classroom::Salle;
use crate::db::{Database, Tables};
use crate::etudiant::Etudiant;
use crate::invite::Invitee;
use crate::jury::Jury;
use crate::invite_soutenance::InviteSoutenance;
use crate::jury_soutenance::JurySoutenance;
use crate::table::{
    Row, find_row, lemma_push_fresh, lemma_replace_wf, lemma_without_keys_wf, lookup, remove_key,
    replace_row, replace_row_in, without_keys,
};

verus! {

/// A defense session as its table stores it.
#[derive(Clone, Debug, PartialEq, Eq)]
pub struct SoutenanceRow {
    pub id: i32,
    pub date: Option<String>,
    pub hour: Option<String>,
    pub specialite_id: i32,
    pub classroom_id: Option<i32>,
    pub pfe: Option<String>,
}

/// A jury member together with the role held in one session.
#[derive(Clone, Debug, PartialEq, Eq)]
pub struct JurySoutenanceDetails {
    pub jury: Jury,
    pub role: String,
}

/// A defense session with everything attached to it.
#[derive(Clone, Debug, PartialEq, Eq)]
pub struct Soutenance {
    pub id: i32,
    pub date: Option<String>,
    pub hour: Option<String>,
    pub specialite_id: i32,
    pub pfe: Option<String>,
    pub classroom: Option<Salle>,
    pub juries: Vec<JurySoutenanceDetails>,
    pub invitees: Vec<Invitee>,
    pub students: Vec<Etudiant>,
}

pub fn copy_text(t: &Option<String>) -> (r: Option<String>)
    ensures
        r == *t,
{
    match t {
        Some(s) => Some(s.clone()),
        None => None,
    }
}

impl Row for SoutenanceRow {
    open spec fn row_id(&self) -> i32 {
        self.id
    }

    fn key(&self) -> (r: i32) {
        self.id
    }

    fn copied(&self) -> (r: Self) {
        SoutenanceRow {
            id: self.id,
            date: copy_text(&self.date),
            hour: copy_text(&self.hour),
            specialite_id: self.specialite_id,
            classroom_id: self.classroom_id,
            pfe: copy_text(&self.pfe),
        }
    }
}

/// The classroom a session row points at, when that classroom exists.
pub open spec fn classroom_of(t: Tables, row: SoutenanceRow) -> Option<Salle> {
    match row.classroom_id {
        Some(c) => lookup(t.classrooms, c),
        None => None,
    }
}

/// The entry an assignment contributes to session `sid`: its jury member
/// and role, when it belongs to `sid` and the member exists.
pub open spec fn jury_entry(juries: Seq<Jury>, sid: i32) -> spec_fn(JurySoutenance) -> Option<
    JurySoutenanceDetails,
> {
    |p: JurySoutenance|
        if p.soutenance_id == sid {
            match lookup(juries, p.jury_id) {
                Some(j) => Some(JurySoutenanceDetails { jury: j, role: p.role }),
                None => None,
            }
        } else {
            None
        }
}

/// The invitee an invitation contributes to session `sid`.
pub open spec fn invitee_entry(invites: Seq<Invitee>, sid: i32) -> spec_fn(InviteSoutenance) -> Option<
    Invitee,
> {
    |p: InviteSoutenance|
        if p.soutenance_id == sid {
            lookup(invites, p.invite_id)
        } else {
            None
        }
}

pub open spec fn in_session(sid: i32) -> spec_fn(Etudiant) -> bool {
    |e: Etudiant| e.soutenance_id == Some(sid)
}

/// Jury members of session `sid` with their roles, in assignment order.
pub open spec fn juries_of(t: Tables, sid: i32) -> Seq<JurySoutenanceDetails> {
    t.jury_soutenances.filter_map(jury_entry(t.juries, sid))
}

/// Invitees of session `sid`, in invitation order.
pub open spec fn invitees_of(t: Tables, sid: i32) -> Seq<Invitee> {
    t.invite_soutenances.filter_map(invitee_entry(t.invites, sid))
}

/// Students assigned to session `sid`, in table order.
pub open spec fn students_of(t: Tables, sid: i32) -> Seq<Etudiant> {
    t.etudiants.filter(in_session(sid))
}

/// `s` is the session `row` read with everything attached to it in `t`.
pub open spec fn hydrated(t: Tables, row: SoutenanceRow, s: Soutenance) -> bool {
    &&& s.id == row.id
    &&& s.date == row.date
    &&& s.hour == row.hour
    &&& s.specialite_id == row.specialite_id
    &&& s.pfe == row.pfe
    &&& s.classroom == classroom_of(t, row)
    &&& s.juries@ == juries_of(t, row.id)
    &&& s.invitees@ == invitees_of(t, row.id)
    &&& s.students@ == students_of(t, row.id)
}

pub open spec fn of_specialite(specialite_id: i32) -> spec_fn(SoutenanceRow) -> bool {
    |r: SoutenanceRow| r.specialite_id == specialite_id
}

fn collect_juries(db: &Database, sid: i32) -> (r: Vec<JurySoutenanceDetails>)
    requires
        db.wf(),
    ensures
        r@ == juries_of(db@, sid),
{
    let ghost f = jury_entry(db@.juries, sid);
    let pivots = &db.jury_soutenances;
    let mut out: Vec<JurySoutenanceDetails> = Vec::new();
    let mut i: usize = 0;
    proof {
        assert(pivots@.take(0) =~= Seq::<JurySoutenance>::empty());
    }
    while i < pivots.len()
        invariant
            db.wf(),
            pivots == &db.jury_soutenances,
            f == jury_entry(db@.juries, sid),
            i <= pivots.len(),
            out@ == pivots@.take(i as int).filter_map(f),
        decreases pivots.len() - i,
    {
        proof {
            pivots@.lemma_filter_map_take_succ(f, i as int);
        }
        let p = &pivots[i];
        if p.soutenance_id == sid {
            match find_row(&db.juries, p.jury_id) {
                Some(j) => {
                    out.push(JurySoutenanceDetails { jury: j, role: p.role.clone() });
                },
                None => {},
            }
        }
        i += 1;
    }
    assert(pivots@.take(i as int) =~= pivots@);
    out
}

fn collect_invitees(db: &Database, sid: i32) -> (r: Vec<Invitee>)
    requires
        db.wf(),
    ensures
        r@ == invitees_of(db@, sid),
{
    let ghost f = invitee_entry(db@.invites, sid);
    let pivots = &db.invite_soutenances;
    let mut out: Vec<Invitee> = Vec::new();
    let mut i: usize = 0;
    proof {
        assert(pivots@.take(0) =~= Seq::<InviteSoutenance>::empty());
    }
    while i < pivots.len()
        invariant
            db.wf(),
            pivots == &db.invite_soutenances,
            f == invitee_entry(db@.invites, sid),
            i <= pivots.len(),
            out@ == pivots@.take(i as int).filter_map(f),
        decreases pivots.len() - i,
    {
        proof {
            pivots@.lemma_filter_map_take_succ(f, i as int);
        }
        let p = &pivots[i];
        if p.soutenance_id == sid {
            match find_row(&db.invites, p.invite_id) {
                Some(v) => {
                    out.push(v);
                },
                None => {},
            }
        }
        i += 1;
    }
    assert(pivots@.take(i as int) =~= pivots@);
    out
}

fn collect_students(db: &Database, sid: i32) -> (r: Vec<Etudiant>)
    ensures
        r@ == students_of(db@, sid),
{
    let ghost keep = in_session(sid);
    let rows = &db.etudiants;
    let mut out: Vec<Etudiant> = Vec::new();
    let mut i: usize = 0;
    proof {
        reveal(Seq::filter);
        assert(rows@.take(0) =~= Seq::<Etudiant>::empty());
    }
    while i < rows.len()
        invariant
            rows == &db.etudiants,
            keep == in_session(sid),
            i <= rows.len(),
            out@ == rows@.take(i as int).filter(keep),
        decreases rows.len() - i,
    {
        proof {
            reveal(Seq::filter);
            assert(rows@.take(i + 1).drop_last() =~= rows@.take(i as int));
        }
        if rows[i].soutenance_id == Some(sid) {
            out.push(rows[i].copied());
        }
        i += 1;
    }
    assert(rows@.take(i as int) =~= rows@);
    out
}

/// Reads a stored session with its classroom, jury members, invitees and students.
fn hydrate(db: &Database, row: &SoutenanceRow) -> (r: Soutenance)
    requires
        db.wf(),
    ensures
        hydrated(db@, *row, r),
{
    let classroom = match row.classroom_id {
        Some(c) => find_row(&db.classrooms, c),
        None => None,
    };
    Soutenance {
        id: row.id,
        date: copy_text(&row.date),
        hour: copy_text(&row.hour),
        specialite_id: row.specialite_id,
        pfe: copy_text(&row.pfe),
        classroom,
        juries: collect_juries(db, row.id),
        invitees: collect_invitees(db, row.id),
        students: collect_students(db, row.id),
    }
}

/// The session `id` with everything attached to it; an error when no such
/// session is stored.
pub fn get_soutenance(db: &Database, id: i32) -> (r: Result<Soutenance, String>)
    requires
        db.wf(),
    ensures
        match lookup(db@.soutenances, id) {
            Some(row) => r is Ok && hydrated(db@, row, r->Ok_0),
            None => r is Err && r->Err_0@ == "Failed to fetch soutenance: Query returned no rows"@,
        },
{
    match find_row(&db.soutenances, id) {
        Some(row) => Ok(hydrate(db, &row)),
        None => Err(String::from_str("Failed to fetch soutenance: Query returned no rows")),
    }
}

/// Every session of a program, each with everything attached to it, in table order.
pub fn get_specialite_soutenances(db: &Database, specialite_id: i32) -> (r: Result<
    Vec<Soutenance>,
    String,
>)
    requires
        db.wf(),
    ensures
        r is Ok,
        r->Ok_0@.len() == db@.soutenances.filter(of_specialite(specialite_id)).len(),
        forall|i: int|
            0 <= i < r->Ok_0@.len() ==> hydrated(
                db@,
                db@.soutenances.filter(of_specialite(specialite_id))[i],
                #[trigger] r->Ok_0@[i],
            ),
{
    let ghost keep = of_specialite(specialite_id);
    let rows = &db.soutenances;
    let mut out: Vec<Soutenance> = Vec::new();
    let mut i: usize = 0;
    proof {
        reveal(Seq::filter);
        assert(rows@.take(0) =~= Seq::<SoutenanceRow>::empty());
    }
    while i < rows.len()
        invariant
            db.wf(),
            rows == &db.soutenances,
            keep == of_specialite(specialite_id),
            i <= rows.len(),
            out@.len() == rows@.take(i as int).filter(keep).len(),
            forall|k: int|
                0 <= k < out@.len() ==> hydrated(
                    db@,
                    rows@.take(i as int).filter(keep)[k],
                    #[trigger] out@[k],
                ),
        decreases rows.len() - i,
    {
        proof {
            reveal(Seq::filter);
            assert(rows@.take(i + 1).drop_last() =~= rows@.take(i as int));
        }
        if rows[i].specialite_id == specialite_id {
            let s = hydrate(db, &rows[i]);
            out.push(s);
        }
        i += 1;
    }
    assert(rows@.take(i as int) =~= rows@);
    Ok(out)
}

/// The tables after `row` is added as the next session; `row` carries the next id.
pub open spec fn soutenance_created(t: Tables, row: SoutenanceRow) -> Tables {
    Tables {
        soutenances: t.soutenances.push(row),
        soutenance_seq: (t.soutenance_seq + 1) as i32,
        ..t
    }
}

pub open spec fn session_students(sid: i32) -> spec_fn(Etudiant) -> Option<i32> {
    |e: Etudiant|
        if e.soutenance_id == Some(sid) {
            Some(e.id)
        } else {
            None
        }
}

pub open spec fn session_juries(sid: i32) -> spec_fn(JurySoutenance) -> Option<(i32, String)> {
    |p: JurySoutenance|
        if p.soutenance_id == sid {
            Some((p.jury_id, p.role))
        } else {
            None
        }
}

pub open spec fn session_invitees(sid: i32) -> spec_fn(InviteSoutenance) -> Option<i32> {
    |p: InviteSoutenance|
        if p.soutenance_id == sid {
            Some(p.invite_id)
        } else {
            None
        }
}

/// Adds a session and returns it as read back at once: its classroom when
/// that classroom exists, and no jury members, invitees or students. Fails
/// once every id has been handed out.
pub fn create_soutenance(
    db: &mut Database,
    date: Option<String>,
    hour: Option<String>,
    specialite_id: i32,
    classroom_id: Option<i32>,
    pfe: Option<String>,
) -> (r: Result<Soutenance, String>)
    requires
        old(db).wf(),
    ensures
        final(db).wf(),
        old(db).soutenance_seq == i32::MAX ==> r is Err && r->Err_0@
            == "Failed to insert soutenance: database or disk is full"@ && final(db)@ == old(db)@,
        old(db).soutenance_seq < i32::MAX ==> {
            let row = SoutenanceRow {
                id: (old(db).soutenance_seq + 1) as i32,
                date,
                hour,
                specialite_id,
                classroom_id,
                pfe,
            };
            &&& final(db)@ == soutenance_created(old(db)@, row)
            &&& r is Ok
            &&& r->Ok_0.id == row.id
            &&& r->Ok_0.date == date
            &&& r->Ok_0.hour == hour
            &&& r->Ok_0.specialite_id == specialite_id
            &&& r->Ok_0.pfe == pfe
            &&& r->Ok_0.classroom == classroom_of(old(db)@, row)
            &&& r->Ok_0.juries@.len() == 0
            &&& r->Ok_0.invitees@.len() == 0
            &&& r->Ok_0.students@.len() == 0
        },
{
    if db.soutenance_seq == i32::MAX {
        return Err(String::from_str("Failed to insert soutenance: database or disk is full"));
    }
    let id = db.soutenance_seq + 1;
    let row = SoutenanceRow {
        id,
        date: copy_text(&date),
        hour: copy_text(&hour),
        specialite_id,
        classroom_id,
        pfe: copy_text(&pfe),
    };
    proof {
        lemma_push_fresh(db@.soutenances, db.soutenance_seq, row);
    }
    db.soutenances.push(row);
    db.soutenance_seq = id;
    let classroom = match classroom_id {
        Some(c) => find_row(&db.classrooms, c),
        None => None,
    };
    Ok(
        Soutenance {
            id,
            date,
            hour,
            specialite_id,
            pfe,
            classroom,
            juries: Vec::new(),
            invitees: Vec::new(),
            students: Vec::new(),
        },
    )
}

/// Overwrites every field of the session `id`; with no such session nothing changes.
pub fn update_soutenance(
    db: &mut Database,
    id: i32,
    date: Option<String>,
    hour: Option<String>,
    specialite_id: i32,
    classroom_id: Option<i32>,
    pfe: Option<String>,
) -> (r: Result<(), String>)
    requires
        old(db).wf(),
    ensures
        final(db).wf(),
        r is Ok,
        final(db)@ == (Tables {
            soutenances: replace_row(
                old(db)@.soutenances,
                SoutenanceRow { id, date, hour, specialite_id, classroom_id, pfe },
            ),
            ..old(db)@
        }),
{
    let row = SoutenanceRow { id, date, hour, specialite_id, classroom_id, pfe };
    proof {
        lemma_replace_wf(db@.soutenances, db.soutenance_seq, row);
    }
    replace_row_in(&mut db.soutenances, &row);
    Ok(())
}

/// Deletes the session `id`, if any; its links and students stay behind.
pub fn delete_soutenance(db: &mut Database, id: i32) -> (r: Result<(), String>)
    requires
        old(db).wf(),
    ensures
        final(db).wf(),
        r is Ok,
        final(db)@ == (Tables {
            soutenances: without_keys(old(db)@.soutenances, seq![id]),
            ..old(db)@
        }),
{
    proof {
        lemma_without_keys_wf(db@.soutenances, seq![id], db.soutenance_seq);
    }
    remove_key(&mut db.soutenances, id);
    Ok(())
}

/// The ids of the students of session `soutenance_id`, in table order.
pub fn get_soutenance_students(db: &Database, soutenance_id: i32) -> (r: Result<Vec<i32>, String>)
    ensures
        r is Ok,
        r->Ok_0@ == db@.etudiants.filter_map(session_students(soutenance_id)),
{
    let ghost f = session_students(soutenance_id);
    let rows = &db.etudiants;
    let mut out: Vec<i32> = Vec::new();
    let mut i: usize = 0;
    assert(rows@.take(0) =~= Seq::<Etudiant>::empty());
    while i < rows.len()
        invariant
            rows == &db.etudiants,
            f == session_students(soutenance_id),
            i <= rows.len(),
            out@ == rows@.take(i as int).filter_map(f),
        decreases rows.len() - i,
    {
        proof {
            rows@.lemma_filter_map_take_succ(f, i as int);
        }
        if rows[i].soutenance_id == Some(soutenance_id) {
            out.push(rows[i].id);
        }
        i += 1;
    }
    assert(rows@.take(i as int) =~= rows@);
    Ok(out)
}

/// The jury members of session `soutenance_id` with their roles, in assignment order.
pub fn get_soutenance_jurys(db: &Database, soutenance_id: i32) -> (r: Result<
    Vec<(i32, String)>,
    String,
>)
    ensures
        r is Ok,
        r->Ok_0@ == db@.jury_soutenances.filter_map(session_juries(soutenance_id)),
{
    let ghost f = session_juries(soutenance_id);
    let rows = &db.jury_soutenances;
    let mut out: Vec<(i32, String)> = Vec::new();
    let mut i: usize = 0;
    assert(rows@.take(0) =~= Seq::<JurySoutenance>::empty());
    while i < rows.len()
        invariant
            rows == &db.jury_soutenances,
            f == session_juries(soutenance_id),
            i <= rows.len(),
            out@ == rows@.take(i as int).filter_map(f),
        decreases rows.len() - i,
    {
        proof {
            rows@.lemma_filter_map_take_succ(f, i as int);
        }
        if rows[i].soutenance_id == soutenance_id {
            out.push((rows[i].jury_id, rows[i].role.clone()));
        }
        i += 1;
    }
    assert(rows@.take(i as int) =~= rows@);
    Ok(out)
}

/// The ids of the invitees of session `soutenance_id`, in invitation order.
pub fn get_soutenance_invites(db: &Database, soutenance_id: i32) -> (r: Result<Vec<i32>, String>)
    ensures
        r is Ok,
        r->Ok_0@ == db@.invite_soutenances.filter_map(session_invitees(soutenance_id)),
{
    let ghost f = session_invitees(soutenance_id);
    let rows = &db.invite_soutenances;
    let mut out: Vec<i32> = Vec::new();
    let mut i: usize = 0;
    assert(rows@.take(0) =~= Seq::<InviteSoutenance>::empty());
    while i < rows.len()
        invariant
            rows == &db.invite_soutenances,
            f == session_invitees(soutenance_id),
            i <= rows.len(),
            out@ == rows@.take(i as int).filter_map(f),
        decreases rows.len() - i,
    {
        proof {
            rows@.lemma_filter_map_take_succ(f, i as int);
        }
        if rows[i].soutenance_id == soutenance_id {
            out.push(rows[i].invite_id);
        }
        i += 1;
    }
    assert(rows@.take(i as int) =~= rows@);
    Ok(out)
}

proof fn lemma_filter_map_nothing<A, B>(s: Seq<A>, f: spec_fn(A) -> Option<B>)
    requires
        forall|i: int| 0 <= i < s.len() ==> f(#[trigger] s[i]) is None,
    ensures
        s.filter_map(f) == Seq::<B>::empty(),
    decreases s.len(),
{
    if s.len() > 0 {
        let d = s.drop_last();
        assert forall|i: int| 0 <= i < d.len() implies f(#[trigger] d[i]) is None by {
            assert(d[i] == s[i]);
        }
        lemma_filter_map_nothing(d, f);
        assert(f(s[s.len() - 1]) is None);
    }
}

proof fn lemma_filter_nothing<A>(s: Seq<A>, p: spec_fn(A) -> bool)
    requires
        forall|i: int| 0 <= i < s.len() ==> !p(#[trigger] s[i]),
    ensures
        s.filter(p) == Seq::<A>::empty(),
    decreases s.len(),
{
    reveal(Seq::filter);
    if s.len() > 0 {
        let d = s.drop_last();
        assert forall|i: int| 0 <= i < d.len() implies !p(#[trigger] d[i]) by {
            assert(d[i] == s[i]);
        }
        lemma_filter_nothing(d, p);
        assert(!p(s[s.len() - 1]));
    }
}

/// A session that no assignment, invitation or student points at reads
/// back with empty collections of jury members, invitees and students.
pub proof fn law_unlinked_session_reads_empty(t: Tables, sid: i32)
    requires
        forall|i: int|
            0 <= i < t.jury_soutenances.len() ==> (#[trigger] t.jury_soutenances[i]).soutenance_id
                != sid,
        forall|i: int|
            0 <= i < t.invite_soutenances.len() ==> (#[trigger] t.invite_soutenances[i]).soutenance_id
                != sid,
        forall|i: int| 0 <= i < t.etudiants.len() ==> (#[trigger] t.etudiants[i]).soutenance_id != Some(sid),
    ensures
        juries_of(t, sid) == Seq::<JurySoutenanceDetails>::empty(),
        invitees_of(t, sid) == Seq::<Invitee>::empty(),
        students_of(t, sid) == Seq::<Etudiant>::empty(),
{
    let f = jury_entry(t.juries, sid);
    assert forall|i: int| 0 <= i < t.jury_soutenances.len() implies f(
        #[trigger] t.jury_soutenances[i],
    ) is None by {}
    lemma_filter_map_nothing(t.jury_soutenances, f);
    let g = invitee_entry(t.invites, sid);
    assert forall|i: int| 0 <= i < t.invite_soutenances.len() implies g(
        #[trigger] t.invite_soutenances[i],
    ) is None by {}
    lemma_filter_map_nothing(t.invite_soutenances, g);
    let p = in_session(sid);
    assert forall|i: int| 0 <= i < t.etudiants.len() implies !p(#[trigger] t.etudiants[i]) by {}
    lemma_filter_nothing(t.etudiants, p);
}

/// A created session reads back under the id it was given, with the fields it was given.
pub proof fn law_soutenance_round_trip(t: Tables, row: SoutenanceRow)
    requires
        t.wf(),
        t.soutenance_seq < i32::MAX,
        row.id == t.soutenance_seq + 1,
    ensures
        lookup(soutenance_created(t, row).soutenances, row.id) == Some(row),
{
    lemma_push_fresh(t.soutenances, t.soutenance_seq, row);
}

} // verus!
