//! Invitations of invitees to defense sessions, keyed by the pair of ids.
use vstd::prelude::*;
use crate::db::{Database, Tables};
use crate::table::{distinct_by, lemma_filter_distinct};

verus! {

#[derive(Clone, Copy, Debug, PartialEq, Eq)]
pub struct InviteSoutenance {
    pub invite_id: i32,
    pub soutenance_id: i32,
}

/// No two invitations share their pair of ids.
pub open spec fn invitation_keys_unique(s: Seq<InviteSoutenance>) -> bool {
    forall|i: int, j: int|
        0 <= i < s.len() && 0 <= j < s.len() && #[trigger] s[i] == #[trigger] s[j] ==> i == j
}

pub open spec fn whole() -> spec_fn(InviteSoutenance) -> InviteSoutenance {
    |p: InviteSoutenance| p
}

/// The invitations without the one of `invite_id` to `soutenance_id`.
pub open spec fn without_invitation(s: Seq<InviteSoutenance>, invite_id: i32, soutenance_id: i32) -> Seq<
    InviteSoutenance,
> {
    s.filter(|p: InviteSoutenance| p != (InviteSoutenance { invite_id, soutenance_id }))
}

fn find_invitation(rows: &Vec<InviteSoutenance>, invite_id: i32, soutenance_id: i32) -> (r: bool)
    ensures
        r == rows@.contains(InviteSoutenance { invite_id, soutenance_id }),
{
    let mut i: usize = 0;
    while i < rows.len()
        invariant
            i <= rows.len(),
            forall|k: int| 0 <= k < i ==> rows@[k] != (InviteSoutenance { invite_id, soutenance_id }),
        decreases rows.len() - i,
    {
        if rows[i].invite_id == invite_id && rows[i].soutenance_id == soutenance_id {
            assert(rows@[i as int] == (InviteSoutenance { invite_id, soutenance_id }));
            return true;
        }
        i += 1;
    }
    false
}

/// Invites invitee `invite_id` to session `soutenance_id`; an error, with
/// nothing changed, when the invitation exists already.
pub fn create_invite_soutenance(db: &mut Database, invite_id: i32, soutenance_id: i32) -> (r: Result<
    (),
    String,
>)
    requires
        old(db).wf(),
    ensures
        final(db).wf(),
        old(db)@.invite_soutenances.contains(InviteSoutenance { invite_id, soutenance_id }) ==> r is Err
            && r->Err_0@
            == "UNIQUE constraint failed: invite_soutenance.invite_id, invite_soutenance.soutenance_id"@
            && final(db)@ == old(db)@,
        !old(db)@.invite_soutenances.contains(InviteSoutenance { invite_id, soutenance_id }) ==> r is Ok
            && final(db)@ == (Tables {
            invite_soutenances: old(db)@.invite_soutenances.push(
                (InviteSoutenance { invite_id, soutenance_id }),
            ),
            ..old(db)@
        }),
{
    if find_invitation(&db.invite_soutenances, invite_id, soutenance_id) {
        return Err(
            String::from_str(
                "UNIQUE constraint failed: invite_soutenance.invite_id, invite_soutenance.soutenance_id",
            ),
        );
    }
    let row = (InviteSoutenance { invite_id, soutenance_id });
    proof {
        let s = db@.invite_soutenances;
        let t = s.push(row);
        assert forall|i: int, j: int|
            0 <= i < t.len() && 0 <= j < t.len() && #[trigger] t[i] == #[trigger] t[j] implies i == j by {
            if i < s.len() {
                assert(t[i] == s[i]);
            }
            if j < s.len() {
                assert(t[j] == s[j]);
            }
        }
    }
    db.invite_soutenances.push(row);
    Ok(())
}

/// The invitation of invitee `invite_id` to session `soutenance_id`; an
/// error when there is none.
pub fn get_invite_soutenance(db: &Database, invite_id: i32, soutenance_id: i32) -> (r: Result<
    InviteSoutenance,
    String,
>)
    ensures
        db@.invite_soutenances.contains(InviteSoutenance { invite_id, soutenance_id }) ==> r == Ok::<
            InviteSoutenance,
            String,
        >(InviteSoutenance { invite_id, soutenance_id }),
        !db@.invite_soutenances.contains(InviteSoutenance { invite_id, soutenance_id }) ==> r is Err
            && r->Err_0@ == "Query returned no rows"@,
{
    if find_invitation(&db.invite_soutenances, invite_id, soutenance_id) {
        Ok(InviteSoutenance { invite_id, soutenance_id })
    } else {
        Err(String::from_str("Query returned no rows"))
    }
}

/// An invitation has no field beyond its key: this succeeds and changes nothing.
pub fn update_invite_soutenance(db: &mut Database, invite_id: i32, soutenance_id: i32) -> (r: Result<
    (),
    String,
>)
    ensures
        r is Ok,
        final(db)@ == old(db)@,
{
    Ok(())
}

/// Removes the invitation of invitee `invite_id` to session `soutenance_id`, if any.
pub fn delete_invite_soutenance(db: &mut Database, invite_id: i32, soutenance_id: i32) -> (r: Result<
    (),
    String,
>)
    requires
        old(db).wf(),
    ensures
        final(db).wf(),
        r is Ok,
        final(db)@ == (Tables {
            invite_soutenances: without_invitation(old(db)@.invite_soutenances, invite_id, soutenance_id),
            ..old(db)@
        }),
{
    let ghost start = db@.invite_soutenances;
    let ghost keep = |p: InviteSoutenance| p != (InviteSoutenance { invite_id, soutenance_id });
    let mut kept: Vec<InviteSoutenance> = Vec::new();
    let mut i: usize = 0;
    proof {
        reveal(Seq::filter);
        assert(start.take(0).filter(keep) =~= Seq::<InviteSoutenance>::empty());
    }
    while i < db.invite_soutenances.len()
        invariant
            db@ == old(db)@,
            start == db@.invite_soutenances,
            keep == (|p: InviteSoutenance| p != (InviteSoutenance { invite_id, soutenance_id })),
            i <= db.invite_soutenances.len(),
            kept@ == start.take(i as int).filter(keep),
        decreases db.invite_soutenances.len() - i,
    {
        proof {
            reveal(Seq::filter);
            assert(start.take(i + 1).drop_last() =~= start.take(i as int));
        }
        if !(db.invite_soutenances[i].invite_id == invite_id && db.invite_soutenances[i].soutenance_id
            == soutenance_id) {
            kept.push(db.invite_soutenances[i]);
        }
        i += 1;
    }
    assert(start.take(i as int) =~= start);
    proof {
        let key = whole();
        assert(distinct_by(start, key)) by {
            assert forall|a: int, b: int|
                0 <= a < start.len() && 0 <= b < start.len() && #[trigger] key(start[a])
                    == #[trigger] key(start[b]) implies a == b by {
                assert(start[a] == start[b]);
            }
        }
        lemma_filter_distinct(start, key, keep);
        let f = kept@;
        assert forall|a: int, b: int|
            0 <= a < f.len() && 0 <= b < f.len() && #[trigger] f[a] == #[trigger] f[b] implies a == b by {
            assert(key(f[a]) == key(f[b]));
        }
    }
    db.invite_soutenances = kept;
    Ok(())
}

/// A created invitation reads back.
pub proof fn law_invitation_round_trip(s: Seq<InviteSoutenance>, invite_id: i32, soutenance_id: i32)
    ensures
        s.push((InviteSoutenance { invite_id, soutenance_id })).contains(
            (InviteSoutenance { invite_id, soutenance_id }),
        ),
{
    assert(s.push((InviteSoutenance { invite_id, soutenance_id }))[s.len() as int] == (
    InviteSoutenance { invite_id, soutenance_id }));
}

/// Whether no two invitations share their pair of ids.
pub fn check_invitations(rows: &Vec<InviteSoutenance>) -> (r: bool)
    ensures
        r == invitation_keys_unique(rows@),
{
    let mut i: usize = 0;
    while i < rows.len()
        invariant
            i <= rows.len(),
            forall|a: int, b: int|
                0 <= a < i && 0 <= b < rows@.len() && #[trigger] rows@[a] == #[trigger] rows@[b] ==> a == b,
        decreases rows.len() - i,
    {
        let mut j: usize = 0;
        while j < rows.len()
            invariant
                i < rows.len(),
                j <= rows.len(),
                forall|b: int| 0 <= b < j && b != i ==> #[trigger] rows@[b] != rows@[i as int],
            decreases rows.len() - j,
        {
            if j != i && rows[j].invite_id == rows[i].invite_id && rows[j].soutenance_id
                == rows[i].soutenance_id {
                assert(rows@[j as int] == rows@[i as int]);
                return false;
            }
            j += 1;
        }
        i += 1;
    }
    true
}

} // verus!
