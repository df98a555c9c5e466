//! Assignments of jury members to defense sessions, keyed by the pair of
//! ids and qualified by a free-text role.
use vstd::prelude::*;
use crate::db::{Database, Tables};
use crate::table::{distinct_by, lemma_filter_distinct};

verus! {

#[derive(Clone, Debug, PartialEq, Eq)]
pub struct JurySoutenance {
    pub jury_id: i32,
    pub soutenance_id: i32,
    pub role: String,
}

impl JurySoutenance {
    pub fn copied(&self) -> (r: Self)
        ensures
            r == *self,
    {
        JurySoutenance {
            jury_id: self.jury_id,
            soutenance_id: self.soutenance_id,
            role: self.role.clone(),
        }
    }
}

/// No two assignments share their pair of ids.
pub open spec fn assignment_keys_unique(s: Seq<JurySoutenance>) -> bool {
    forall|i: int, j: int|
        0 <= i < s.len() && 0 <= j < s.len() && #[trigger] s[i].jury_id == #[trigger] s[j].jury_id
            && s[i].soutenance_id == s[j].soutenance_id ==> i == j
}

pub open spec fn is_pair(p: JurySoutenance, jury_id: i32, soutenance_id: i32) -> bool {
    p.jury_id == jury_id && p.soutenance_id == soutenance_id
}

pub open spec fn has_assignment(s: Seq<JurySoutenance>, jury_id: i32, soutenance_id: i32) -> bool {
    exists|i: int| 0 <= i < s.len() && is_pair(#[trigger] s[i], jury_id, soutenance_id)
}

/// The assignment of `jury_id` to `soutenance_id`, if any.
pub open spec fn assignment(s: Seq<JurySoutenance>, jury_id: i32, soutenance_id: i32) -> Option<
    JurySoutenance,
> {
    if has_assignment(s, jury_id, soutenance_id) {
        Some(s[choose|i: int| 0 <= i < s.len() && is_pair(#[trigger] s[i], jury_id, soutenance_id)])
    } else {
        None
    }
}

pub open spec fn pair_key() -> spec_fn(JurySoutenance) -> (i32, i32) {
    |p: JurySoutenance| (p.jury_id, p.soutenance_id)
}

/// The assignments after the one of `jury_id` to `soutenance_id` takes the role `role`.
pub open spec fn with_role(s: Seq<JurySoutenance>, jury_id: i32, soutenance_id: i32, role: String) -> Seq<
    JurySoutenance,
> {
    s.map_values(
        |p: JurySoutenance|
            if is_pair(p, jury_id, soutenance_id) {
                JurySoutenance { jury_id, soutenance_id, role }
            } else {
                p
            },
    )
}

/// The assignments without the one of `jury_id` to `soutenance_id`.
pub open spec fn without_assignment(s: Seq<JurySoutenance>, jury_id: i32, soutenance_id: i32) -> Seq<
    JurySoutenance,
> {
    s.filter(|p: JurySoutenance| !is_pair(p, jury_id, soutenance_id))
}

fn find_assignment(rows: &Vec<JurySoutenance>, jury_id: i32, soutenance_id: i32) -> (r: Option<
    JurySoutenance,
>)
    requires
        assignment_keys_unique(rows@),
    ensures
        r == assignment(rows@, jury_id, soutenance_id),
{
    let mut i: usize = 0;
    while i < rows.len()
        invariant
            i <= rows.len(),
            assignment_keys_unique(rows@),
            forall|k: int| 0 <= k < i ==> !is_pair(#[trigger] rows@[k], jury_id, soutenance_id),
        decreases rows.len() - i,
    {
        if rows[i].jury_id == jury_id && rows[i].soutenance_id == soutenance_id {
            proof {
                let s = rows@;
                assert(is_pair(s[i as int], jury_id, soutenance_id));
                let j = choose|j: int| 0 <= j < s.len() && is_pair(#[trigger] s[j], jury_id, soutenance_id);
                assert(s[j].jury_id == s[i as int].jury_id);
            }
            return Some(rows[i].copied());
        }
        i += 1;
    }
    proof {
        if has_assignment(rows@, jury_id, soutenance_id) {
            let j = choose|j: int| 0 <= j < rows@.len() && is_pair(#[trigger] rows@[j], jury_id, soutenance_id);
        }
    }
    None
}

proof fn lemma_keys_distinct(s: Seq<JurySoutenance>)
    ensures
        assignment_keys_unique(s) <==> distinct_by(s, pair_key()),
{
    let key = pair_key();
    if assignment_keys_unique(s) {
        assert forall|i: int, j: int|
            0 <= i < s.len() && 0 <= j < s.len() && #[trigger] key(s[i]) == #[trigger] key(s[j])
            implies i == j by {
            assert(s[i].jury_id == s[j].jury_id);
        }
    }
    if distinct_by(s, key) {
        assert forall|i: int, j: int|
            0 <= i < s.len() && 0 <= j < s.len() && #[trigger] s[i].jury_id == #[trigger] s[j].jury_id
                && s[i].soutenance_id == s[j].soutenance_id implies i == j by {
            assert(key(s[i]) == key(s[j]));
        }
    }
}

/// Assigns jury member `jury_id` to session `soutenance_id` with role `role`;
/// an error, with nothing changed, when that pair is already assigned.
pub fn create_jury_soutenance(db: &mut Database, jury_id: i32, soutenance_id: i32, role: String) -> (r:
    Result<(), String>)
    requires
        old(db).wf(),
    ensures
        final(db).wf(),
        has_assignment(old(db)@.jury_soutenances, jury_id, soutenance_id) ==> r is Err && r->Err_0@
            == "UNIQUE constraint failed: jury_soutenance.jury_id, jury_soutenance.soutenance_id"@
            && final(db)@ == old(db)@,
        !has_assignment(old(db)@.jury_soutenances, jury_id, soutenance_id) ==> r is Ok && final(db)@
            == (Tables {
            jury_soutenances: old(db)@.jury_soutenances.push(
                JurySoutenance { jury_id, soutenance_id, role },
            ),
            ..old(db)@
        }),
{
    if find_assignment(&db.jury_soutenances, jury_id, soutenance_id).is_some() {
        return Err(
            String::from_str(
                "UNIQUE constraint failed: jury_soutenance.jury_id, jury_soutenance.soutenance_id",
            ),
        );
    }
    let row = JurySoutenance { jury_id, soutenance_id, role };
    proof {
        let s = db@.jury_soutenances;
        let t = s.push(row);
        assert forall|i: int, j: int|
            0 <= i < t.len() && 0 <= j < t.len() && #[trigger] t[i].jury_id == #[trigger] t[j].jury_id
                && t[i].soutenance_id == t[j].soutenance_id implies i == j by {
            if i < s.len() {
                assert(t[i] == s[i]);
            }
            if j < s.len() {
                assert(t[j] == s[j]);
            }
            if i < s.len() && j == s.len() {
                assert(is_pair(s[i], jury_id, soutenance_id));
            }
            if j < s.len() && i == s.len() {
                assert(is_pair(s[j], jury_id, soutenance_id));
            }
        }
    }
    db.jury_soutenances.push(row);
    Ok(())
}

/// The assignment of jury member `jury_id` to session `soutenance_id`; an
/// error when there is none.
pub fn get_jury_soutenance(db: &Database, jury_id: i32, soutenance_id: i32) -> (r: Result<
    JurySoutenance,
    String,
>)
    requires
        db.wf(),
    ensures
        match assignment(db@.jury_soutenances, jury_id, soutenance_id) {
            Some(p) => r == Ok::<JurySoutenance, String>(p),
            None => r is Err && r->Err_0@ == "Query returned no rows"@,
        },
{
    match find_assignment(&db.jury_soutenances, jury_id, soutenance_id) {
        Some(p) => Ok(p),
        None => Err(String::from_str("Query returned no rows")),
    }
}

/// Sets the role of jury member `jury_id` in session `soutenance_id`; with
/// no such assignment nothing changes.
pub fn update_jury_soutenance(db: &mut Database, jury_id: i32, soutenance_id: i32, role: String) -> (r:
    Result<(), String>)
    requires
        old(db).wf(),
    ensures
        final(db).wf(),
        r is Ok,
        final(db)@ == (Tables {
            jury_soutenances: with_role(old(db)@.jury_soutenances, jury_id, soutenance_id, role),
            ..old(db)@
        }),
{
    let ghost start = db@.jury_soutenances;
    let mut i: usize = 0;
    while i < db.jury_soutenances.len()
        invariant
            db@ == (Tables { jury_soutenances: db@.jury_soutenances, ..old(db)@ }),
            start == old(db)@.jury_soutenances,
            db@.jury_soutenances.len() == start.len(),
            i <= db.jury_soutenances.len(),
            forall|k: int|
                0 <= k < i ==> db@.jury_soutenances[k] == (if is_pair(start[k], jury_id, soutenance_id) {
                    JurySoutenance { jury_id, soutenance_id, role }
                } else {
                    start[k]
                }),
            forall|k: int| i <= k < start.len() ==> db@.jury_soutenances[k] == start[k],
        decreases db.jury_soutenances.len() - i,
    {
        if db.jury_soutenances[i].jury_id == jury_id && db.jury_soutenances[i].soutenance_id
            == soutenance_id {
            db.jury_soutenances.set(i, JurySoutenance { jury_id, soutenance_id, role: role.clone() });
        }
        i += 1;
    }
    assert(db@.jury_soutenances =~= with_role(start, jury_id, soutenance_id, role));
    proof {
        let t = db@.jury_soutenances;
        assert forall|a: int, b: int|
            0 <= a < t.len() && 0 <= b < t.len() && #[trigger] t[a].jury_id == #[trigger] t[b].jury_id
                && t[a].soutenance_id == t[b].soutenance_id implies a == b by {
            assert(t[a].jury_id == start[a].jury_id && t[b].jury_id == start[b].jury_id);
        }
    }
    Ok(())
}

/// Removes the assignment of jury member `jury_id` to session `soutenance_id`, if any.
pub fn delete_jury_soutenance(db: &mut Database, jury_id: i32, soutenance_id: i32) -> (r: Result<
    (),
    String,
>)
    requires
        old(db).wf(),
    ensures
        final(db).wf(),
        r is Ok,
        final(db)@ == (Tables {
            jury_soutenances: without_assignment(old(db)@.jury_soutenances, jury_id, soutenance_id),
            ..old(db)@
        }),
{
    let ghost start = db@.jury_soutenances;
    let ghost keep = |p: JurySoutenance| !is_pair(p, jury_id, soutenance_id);
    let mut kept: Vec<JurySoutenance> = Vec::new();
    let mut i: usize = 0;
    proof {
        reveal(Seq::filter);
        assert(start.take(0).filter(keep) =~= Seq::<JurySoutenance>::empty());
    }
    while i < db.jury_soutenances.len()
        invariant
            db@ == old(db)@,
            start == db@.jury_soutenances,
            keep == (|p: JurySoutenance| !is_pair(p, jury_id, soutenance_id)),
            i <= db.jury_soutenances.len(),
            kept@ == start.take(i as int).filter(keep),
        decreases db.jury_soutenances.len() - i,
    {
        proof {
            reveal(Seq::filter);
            assert(start.take(i + 1).drop_last() =~= start.take(i as int));
        }
        if !(db.jury_soutenances[i].jury_id == jury_id && db.jury_soutenances[i].soutenance_id
            == soutenance_id) {
            kept.push(db.jury_soutenances[i].copied());
        }
        i += 1;
    }
    assert(start.take(i as int) =~= start);
    proof {
        lemma_keys_distinct(start);
        lemma_filter_distinct(start, pair_key(), keep);
        lemma_keys_distinct(kept@);
    }
    db.jury_soutenances = kept;
    Ok(())
}

/// A created assignment reads back under its pair of ids, with its role.
pub proof fn law_assignment_round_trip(s: Seq<JurySoutenance>, row: JurySoutenance)
    requires
        assignment_keys_unique(s),
        !has_assignment(s, row.jury_id, row.soutenance_id),
    ensures
        assignment(s.push(row), row.jury_id, row.soutenance_id) == Some(row),
{
    let t = s.push(row);
    assert(is_pair(t[s.len() as int], row.jury_id, row.soutenance_id));
    let j = choose|j: int| 0 <= j < t.len() && is_pair(#[trigger] t[j], row.jury_id, row.soutenance_id);
    if j < s.len() {
        assert(t[j] == s[j]);
        assert(is_pair(s[j], row.jury_id, row.soutenance_id));
    }
}

/// Whether no two assignments share their pair of ids.
pub fn check_assignments(rows: &Vec<JurySoutenance>) -> (r: bool)
    ensures
        r == assignment_keys_unique(rows@),
{
    let mut i: usize = 0;
    while i < rows.len()
        invariant
            i <= rows.len(),
            forall|a: int, b: int|
                0 <= a < i && 0 <= b < rows@.len() && #[trigger] rows@[a].jury_id
                    == #[trigger] rows@[b].jury_id && rows@[a].soutenance_id == rows@[b].soutenance_id
                    ==> a == b,
        decreases rows.len() - i,
    {
        let mut j: usize = 0;
        while j < rows.len()
            invariant
                i < rows.len(),
                j <= rows.len(),
                forall|b: int|
                    0 <= b < j && b != i ==> !is_pair(#[trigger] rows@[b], rows@[i as int].jury_id, rows@[i as int].soutenance_id),
            decreases rows.len() - j,
        {
            if j != i && rows[j].jury_id == rows[i].jury_id && rows[j].soutenance_id
                == rows[i].soutenance_id {
                assert(rows@[j as int].jury_id == rows@[i as int].jury_id);
                return false;
            }
            j += 1;
        }
        proof {
            assert forall|b: int|
                0 <= b < rows@.len() && #[trigger] rows@[i as int].jury_id == rows@[b].jury_id
                    && rows@[i as int].soutenance_id == rows@[b].soutenance_id implies i == b by {
                if b != i {
                    assert(!is_pair(rows@[b], rows@[i as int].jury_id, rows@[i as int].soutenance_id));
                }
            }
        }
        i += 1;
    }
    true
}

} // verus!
