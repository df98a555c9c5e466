use gestion_soutenances::classroom::create_classroom;
use gestion_soutenances::db::Database;
use gestion_soutenances::etudiant::create_student;
use gestion_soutenances::invite::{create_invite, NewInvitee};
use gestion_soutenances::invite_soutenance::{
    create_invite_soutenance, delete_invite_soutenance, get_invite_soutenance,
    update_invite_soutenance,
};
use gestion_soutenances::jury::{create_jury, NewJury};
use gestion_soutenances::jury_soutenance::{
    create_jury_soutenance, delete_jury_soutenance, get_jury_soutenance, update_jury_soutenance,
};
use gestion_soutenances::seed::seed;
use gestion_soutenances::soutenance::{
    create_soutenance, delete_soutenance, get_soutenance, get_soutenance_invites,
    get_soutenance_jurys, get_soutenance_students, get_specialite_soutenances, update_soutenance,
};

fn s(t: &str) -> String {
    t.to_string()
}

#[test]
fn new_session_reads_back_empty() {
    let mut db = Database::new();
    seed(&mut db);
    let created = create_soutenance(&mut db, Some(s("2025-01-10")), None, 2, None, None).unwrap();
    assert_eq!(created.id, 1);
    assert!(created.classroom.is_none());
    assert!(created.juries.is_empty());
    let got = get_soutenance(&db, created.id).unwrap();
    assert_eq!(got.date, Some(s("2025-01-10")));
    assert_eq!(got.hour, None);
    assert_eq!(got.specialite_id, 2);
    assert_eq!(got.pfe, None);
    assert!(got.classroom.is_none());
    assert!(got.juries.is_empty());
    assert!(got.invitees.is_empty());
    assert!(got.students.is_empty());
}

#[test]
fn session_reads_back_with_everything_attached() {
    let mut db = Database::new();
    let room = create_classroom(&mut db, s("Salle 12")).unwrap();
    let sess = create_soutenance(
        &mut db,
        Some(s("2025-06-20")),
        Some(s("09:30")),
        2,
        Some(room),
        Some(s("Plateforme de gestion")),
    )
    .unwrap();
    assert_eq!(sess.classroom.as_ref().unwrap().name, "Salle 12");
    create_jury(&mut db, NewJury { firstname: s("Ali"), lastname: s("B"), email: s("ali@x.tn") }).unwrap();
    create_jury(&mut db, NewJury { firstname: s("Hedi"), lastname: s("M"), email: s("hedi@x.tn") }).unwrap();
    create_invite(&mut db, NewInvitee { firstname: s("Sara"), lastname: s("K"), email: s("sara@x.tn") }).unwrap();
    create_jury_soutenance(&mut db, 2, sess.id, s("président")).unwrap();
    create_jury_soutenance(&mut db, 1, sess.id, s("rapporteur")).unwrap();
    create_jury_soutenance(&mut db, 77, sess.id, s("absent")).unwrap();
    create_invite_soutenance(&mut db, 1, sess.id).unwrap();
    let st = create_student(&mut db, s("Mona"), s("L"), s("Sfax"), 2, Some(sess.id)).unwrap();
    create_student(&mut db, s("Other"), s("O"), s("Gabes"), 2, None).unwrap();

    let got = get_soutenance(&db, sess.id).unwrap();
    assert_eq!(got.hour, Some(s("09:30")));
    assert_eq!(got.pfe, Some(s("Plateforme de gestion")));
    let c = got.classroom.unwrap();
    assert_eq!((c.id, c.name.as_str()), (room, "Salle 12"));
    assert_eq!(got.juries.len(), 2);
    assert_eq!(got.juries[0].jury.firstname, "Hedi");
    assert_eq!(got.juries[0].role, "président");
    assert_eq!(got.juries[1].jury.id, 1);
    assert_eq!(got.juries[1].role, "rapporteur");
    assert_eq!(got.invitees.len(), 1);
    assert_eq!(got.invitees[0].email, "sara@x.tn");
    assert_eq!(got.students.len(), 1);
    assert_eq!(got.students[0].id, st);

    assert_eq!(get_soutenance_students(&db, sess.id).unwrap(), vec![st]);
    assert_eq!(
        get_soutenance_jurys(&db, sess.id).unwrap(),
        vec![(2, s("président")), (1, s("rapporteur")), (77, s("absent"))]
    );
    assert_eq!(get_soutenance_invites(&db, sess.id).unwrap(), vec![1]);
}

#[test]
fn session_with_missing_classroom_reads_none() {
    let mut db = Database::new();
    let sess = create_soutenance(&mut db, None, None, 1, Some(5), None).unwrap();
    assert!(sess.classroom.is_none());
    assert!(get_soutenance(&db, sess.id).unwrap().classroom.is_none());
}

#[test]
fn missing_session_is_an_error() {
    let db = Database::new();
    assert_eq!(
        get_soutenance(&db, 3).unwrap_err(),
        "Failed to fetch soutenance: Query returned no rows"
    );
}

#[test]
fn session_create_fails_when_ids_are_exhausted() {
    let mut db = Database::new();
    db.soutenance_seq = i32::MAX;
    let r = create_soutenance(&mut db, None, None, 1, None, None);
    assert_eq!(r.unwrap_err(), "Failed to insert soutenance: database or disk is full");
}

#[test]
fn session_update_and_delete() {
    let mut db = Database::new();
    let sess = create_soutenance(&mut db, None, None, 1, None, None).unwrap();
    update_soutenance(&mut db, sess.id, Some(s("2025-02-01")), Some(s("14:00")), 4, None, Some(s("P"))).unwrap();
    let got = get_soutenance(&db, sess.id).unwrap();
    assert_eq!(got.date, Some(s("2025-02-01")));
    assert_eq!(got.specialite_id, 4);
    let rows = db.soutenances.clone();
    update_soutenance(&mut db, 99, None, None, 1, None, None).unwrap();
    assert_eq!(db.soutenances, rows);
    delete_soutenance(&mut db, sess.id).unwrap();
    assert!(get_soutenance(&db, sess.id).is_err());
}

#[test]
fn sessions_of_a_program() {
    let mut db = Database::new();
    create_soutenance(&mut db, Some(s("d1")), None, 2, None, None).unwrap();
    create_soutenance(&mut db, Some(s("d2")), None, 3, None, None).unwrap();
    create_soutenance(&mut db, Some(s("d3")), None, 2, None, None).unwrap();
    create_student(&mut db, s("M"), s("L"), s("S"), 2, Some(3)).unwrap();
    let found = get_specialite_soutenances(&db, 2).unwrap();
    assert_eq!(found.len(), 2);
    assert_eq!(found[0].id, 1);
    assert_eq!(found[1].id, 3);
    assert_eq!(found[1].students.len(), 1);
    assert!(get_specialite_soutenances(&db, 9).unwrap().is_empty());
}

#[test]
fn jury_assignment_round_trip() {
    let mut db = Database::new();
    create_jury_soutenance(&mut db, 1, 2, s("président")).unwrap();
    let p = get_jury_soutenance(&db, 1, 2).unwrap();
    assert_eq!((p.jury_id, p.soutenance_id, p.role.as_str()), (1, 2, "président"));
    update_jury_soutenance(&mut db, 1, 2, s("examinateur")).unwrap();
    assert_eq!(get_jury_soutenance(&db, 1, 2).unwrap().role, "examinateur");
    let r = create_jury_soutenance(&mut db, 1, 2, s("x"));
    assert_eq!(
        r.unwrap_err(),
        "UNIQUE constraint failed: jury_soutenance.jury_id, jury_soutenance.soutenance_id"
    );
    delete_jury_soutenance(&mut db, 1, 2).unwrap();
    assert_eq!(get_jury_soutenance(&db, 1, 2).unwrap_err(), "Query returned no rows");
}

#[test]
fn invitation_round_trip() {
    let mut db = Database::new();
    create_invite_soutenance(&mut db, 3, 4).unwrap();
    let p = get_invite_soutenance(&db, 3, 4).unwrap();
    assert_eq!((p.invite_id, p.soutenance_id), (3, 4));
    update_invite_soutenance(&mut db, 3, 4).unwrap();
    assert_eq!(db.invite_soutenances.len(), 1);
    let r = create_invite_soutenance(&mut db, 3, 4);
    assert_eq!(
        r.unwrap_err(),
        "UNIQUE constraint failed: invite_soutenance.invite_id, invite_soutenance.soutenance_id"
    );
    delete_invite_soutenance(&mut db, 3, 4).unwrap();
    assert!(get_invite_soutenance(&db, 3, 4).is_err());
}
