use gestion_soutenances::classroom::{
    create_classroom, delete_classrooms, get_all_classrooms, get_classroom,
    get_classroom_soutenances, update_classroom,
};
use gestion_soutenances::db::Database;
use gestion_soutenances::etudiant::{
    create_student, delete_students, get_specialite_students, get_student,
    get_students_by_department, update_student,
};
use gestion_soutenances::invite::{
    create_invite, delete_invite, get_all_invite, get_invite, get_invite_soutenances,
    update_invite, NewInvitee,
};
use gestion_soutenances::jury::{
    create_jury, delete_jury, get_all_jury, get_jury, get_jury_soutenances, update_jury, NewJury,
};
use gestion_soutenances::pfe::{create_pfe, delete_pfe, get_pfe, update_pfe};
use gestion_soutenances::seed::seed;
use gestion_soutenances::soutenance::create_soutenance;
use gestion_soutenances::specialite::{
    create_specialite, delete_specialite, get_specialite, get_specialite_pfes, update_specialite,
};

fn s(t: &str) -> String {
    t.to_string()
}

fn invitee(first: &str, last: &str, email: &str) -> NewInvitee {
    NewInvitee { firstname: s(first), lastname: s(last), email: s(email) }
}

fn jury(first: &str, last: &str, email: &str) -> NewJury {
    NewJury { firstname: s(first), lastname: s(last), email: s(email) }
}

#[test]
fn classroom_round_trip() {
    let mut db = Database::new();
    let id = create_classroom(&mut db, s("A101")).unwrap();
    assert_eq!(id, 1);
    let c = get_classroom(&db, id).unwrap();
    assert_eq!(c.id, 1);
    assert_eq!(c.name, "A101");
    let id2 = create_classroom(&mut db, s("B202")).unwrap();
    assert_eq!(id2, 2);
    let all = get_all_classrooms(&db).unwrap();
    assert_eq!(all.len(), 2);
    assert_eq!(all[1].name, "B202");
}

#[test]
fn classroom_update_and_delete() {
    let mut db = Database::new();
    let id = create_classroom(&mut db, s("A101")).unwrap();
    update_classroom(&mut db, id, s("Amphi")).unwrap();
    assert_eq!(get_classroom(&db, id).unwrap().name, "Amphi");
    create_classroom(&mut db, s("B202")).unwrap();
    create_classroom(&mut db, s("C303")).unwrap();
    delete_classrooms(&mut db, vec![1, 3, 99]).unwrap();
    let all = get_all_classrooms(&db).unwrap();
    assert_eq!(all.len(), 1);
    assert_eq!(all[0].id, 2);
    assert!(get_classroom(&db, 1).is_err());
}

#[test]
fn ids_are_not_reused_after_delete() {
    let mut db = Database::new();
    create_classroom(&mut db, s("A")).unwrap();
    create_classroom(&mut db, s("B")).unwrap();
    delete_classrooms(&mut db, vec![2]).unwrap();
    assert_eq!(create_classroom(&mut db, s("C")).unwrap(), 3);
}

#[test]
fn get_missing_classroom_is_an_error() {
    let db = Database::new();
    assert_eq!(get_classroom(&db, 7).unwrap_err(), "Query returned no rows");
}

#[test]
fn create_fails_when_ids_are_exhausted() {
    let mut db = Database::new();
    db.classroom_seq = i32::MAX;
    assert_eq!(create_classroom(&mut db, s("A")).unwrap_err(), "database or disk is full");
    assert!(db.classrooms.is_empty());
}

#[test]
fn update_of_missing_id_succeeds_and_changes_nothing() {
    let mut db = Database::new();
    create_classroom(&mut db, s("A101")).unwrap();
    let rooms = db.classrooms.clone();
    assert!(update_classroom(&mut db, 42, s("Nowhere")).is_ok());
    assert_eq!(db.classrooms, rooms);

    create_pfe(&mut db, 2).unwrap();
    let pfes = db.pfes.clone();
    assert!(update_pfe(&mut db, 42, 5).is_ok());
    assert_eq!(db.pfes, pfes);

    let id = create_jury(&mut db, jury("Ali", "Ben", "ali@x.tn")).unwrap();
    let _ = id;
    let juries = db.juries.clone();
    assert_eq!(update_jury(&mut db, 42, jury("Z", "Z", "z@x.tn")).unwrap(), "Jury updated successfully");
    assert_eq!(db.juries, juries);
}

#[test]
fn delete_with_empty_list_changes_nothing() {
    let mut db = Database::new();
    create_classroom(&mut db, s("A101")).unwrap();
    create_invite(&mut db, invitee("Sara", "K", "sara@x.tn")).unwrap();
    create_jury(&mut db, jury("Ali", "Ben", "ali@x.tn")).unwrap();
    create_student(&mut db, s("Mona"), s("L"), s("Tunis"), 2, None).unwrap();
    let rooms = db.classrooms.clone();
    let invites = db.invites.clone();
    let juries = db.juries.clone();
    let students = db.etudiants.clone();
    assert!(delete_classrooms(&mut db, vec![]).is_ok());
    assert!(delete_invite(&mut db, vec![]).is_ok());
    assert!(delete_jury(&mut db, vec![]).is_ok());
    assert!(delete_students(&mut db, vec![]).is_ok());
    assert_eq!(db.classrooms, rooms);
    assert_eq!(db.invites, invites);
    assert_eq!(db.juries, juries);
    assert_eq!(db.etudiants, students);
}

#[test]
fn classroom_sessions_are_listed() {
    let mut db = Database::new();
    let room = create_classroom(&mut db, s("A101")).unwrap();
    create_soutenance(&mut db, None, None, 2, Some(room), None).unwrap();
    create_soutenance(&mut db, None, None, 2, None, None).unwrap();
    create_soutenance(&mut db, None, None, 3, Some(room), None).unwrap();
    assert_eq!(get_classroom_soutenances(&db, room).unwrap(), vec![1, 3]);
    assert!(get_classroom_soutenances(&db, 9).unwrap().is_empty());
}

#[test]
fn student_round_trip() {
    let mut db = Database::new();
    let id = create_student(&mut db, s("Mona"), s("Lahmar"), s("Sfax"), 4, Some(7)).unwrap();
    let e = get_student(&db, id).unwrap();
    assert_eq!(e.id, id);
    assert_eq!(e.firstname, "Mona");
    assert_eq!(e.lastname, "Lahmar");
    assert_eq!(e.address, "Sfax");
    assert_eq!(e.specialite_id, 4);
    assert_eq!(e.soutenance_id, Some(7));
}

#[test]
fn student_update_returns_the_stored_record() {
    let mut db = Database::new();
    let id = create_student(&mut db, s("Mona"), s("L"), s("Sfax"), 4, None).unwrap();
    let e = update_student(&mut db, id, s("Mouna"), s("Lahmar"), s("Tunis"), 5, 3).unwrap();
    assert_eq!(e.firstname, "Mouna");
    assert_eq!(e.specialite_id, 5);
    assert_eq!(e.soutenance_id, Some(3));
    assert_eq!(get_student(&db, id).unwrap(), e);
}

#[test]
fn student_update_of_missing_id_succeeds_and_changes_nothing() {
    let mut db = Database::new();
    create_student(&mut db, s("Mona"), s("L"), s("Sfax"), 4, None).unwrap();
    let before = db.etudiants.clone();
    let r = update_student(&mut db, 50, s("X"), s("Y"), s("Z"), 1, 1).unwrap();
    assert_eq!(r.id, 50);
    assert_eq!(r.soutenance_id, Some(1));
    assert_eq!(db.etudiants, before);
    assert!(get_student(&db, 50).is_err());
}

#[test]
fn students_by_department_after_seed() {
    let mut db = Database::new();
    seed(&mut db);
    let sp = get_specialite(&db, 2).unwrap();
    assert_eq!(sp.name, "Licence Génie Informatique");
    let id = create_student(&mut db, s("Amine"), s("Trabelsi"), s("Sousse"), 2, None).unwrap();
    create_student(&mut db, s("Other"), s("One"), s("Gabes"), 3, None).unwrap();
    let found = get_students_by_department(&db, 2).unwrap();
    assert_eq!(found.len(), 1);
    assert_eq!(found[0].id, id);
    assert_eq!(found[0].firstname, "Amine");
    assert_eq!(get_specialite_students(&db, 2).unwrap(), found);
}

#[test]
fn delete_students_removes_listed_ones() {
    let mut db = Database::new();
    create_student(&mut db, s("A"), s("A"), s("A"), 1, None).unwrap();
    create_student(&mut db, s("B"), s("B"), s("B"), 1, None).unwrap();
    create_student(&mut db, s("C"), s("C"), s("C"), 1, None).unwrap();
    delete_students(&mut db, vec![2, 3]).unwrap();
    let left = get_students_by_department(&db, 1).unwrap();
    assert_eq!(left.len(), 1);
    assert_eq!(left[0].firstname, "A");
}

#[test]
fn invite_round_trip_and_random_return_value() {
    let mut db = Database::new();
    let returned = create_invite(&mut db, invitee("Sara", "Karray", "sara@x.tn")).unwrap();
    let stored = db.invites[0].id;
    assert_eq!(stored, 1);
    assert_ne!(returned, stored);
    let v = get_invite(&db, stored).unwrap();
    assert_eq!(v.firstname, "Sara");
    assert_eq!(v.lastname, "Karray");
    assert_eq!(v.email, "sara@x.tn");
    assert_eq!(get_all_invite(&db).unwrap(), vec![v]);
}

#[test]
fn jury_round_trip_and_random_return_value() {
    let mut db = Database::new();
    let returned = create_jury(&mut db, jury("Ali", "Ben Salah", "ali@x.tn")).unwrap();
    let stored = db.juries[0].id;
    assert_eq!(stored, 1);
    assert_ne!(returned, stored);
    let j = get_jury(&db, stored).unwrap();
    assert_eq!(j.firstname, "Ali");
    assert_eq!(j.lastname, "Ben Salah");
    assert_eq!(j.email, "ali@x.tn");
    assert_eq!(get_all_jury(&db).unwrap(), vec![j]);
}

#[test]
fn invite_with_taken_email_is_refused() {
    let mut db = Database::new();
    create_invite(&mut db, invitee("Sara", "K", "sara@x.tn")).unwrap();
    let r = create_invite(&mut db, invitee("Other", "P", "sara@x.tn"));
    assert_eq!(
        r.unwrap_err(),
        "BACKEND: Failed to create invite: UNIQUE constraint failed: invite.email"
    );
    assert_eq!(db.invites.len(), 1);
}

#[test]
fn jury_with_taken_email_is_refused() {
    let mut db = Database::new();
    create_jury(&mut db, jury("Ali", "B", "ali@x.tn")).unwrap();
    let r = create_jury(&mut db, jury("Other", "P", "ali@x.tn"));
    assert_eq!(r.unwrap_err(), "BACKEND: Failed to create jury: UNIQUE constraint failed: jury.email");
    assert_eq!(db.juries.len(), 1);
}

#[test]
fn invite_create_fails_when_ids_are_exhausted() {
    let mut db = Database::new();
    db.invite_seq = i32::MAX;
    let r = create_invite(&mut db, invitee("Sara", "K", "sara@x.tn"));
    assert_eq!(r.unwrap_err(), "BACKEND: Failed to create invite: database or disk is full");
}

#[test]
fn invite_email_conflict_is_a_soft_rejection() {
    let mut db = Database::new();
    create_invite(&mut db, invitee("Sara", "K", "sara@x.tn")).unwrap();
    create_invite(&mut db, invitee("Omar", "F", "omar@x.tn")).unwrap();
    let before = db.invites.clone();
    let r = update_invite(&mut db, 2, invitee("Omar", "F", "sara@x.tn"));
    assert_eq!(r.unwrap(), "Email already exists for another invite");
    assert_eq!(db.invites, before);
    assert_eq!(get_invite(&db, 2).unwrap().email, "omar@x.tn");
}

#[test]
fn jury_email_conflict_is_a_soft_rejection() {
    let mut db = Database::new();
    create_jury(&mut db, jury("Ali", "B", "ali@x.tn")).unwrap();
    create_jury(&mut db, jury("Hedi", "M", "hedi@x.tn")).unwrap();
    let before = db.juries.clone();
    let r = update_jury(&mut db, 1, jury("Ali", "B", "hedi@x.tn"));
    assert_eq!(r.unwrap(), "Email already exists for another jury");
    assert_eq!(db.juries, before);
}

#[test]
fn invite_update_keeping_own_email() {
    let mut db = Database::new();
    create_invite(&mut db, invitee("Sara", "K", "sara@x.tn")).unwrap();
    let r = update_invite(&mut db, 1, invitee("Sarra", "Karray", "sara@x.tn"));
    assert_eq!(r.unwrap(), "Invitee updated successfully");
    let v = get_invite(&db, 1).unwrap();
    assert_eq!(v.firstname, "Sarra");
    assert_eq!(v.lastname, "Karray");
}

#[test]
fn jury_delete_and_sessions() {
    let mut db = Database::new();
    create_jury(&mut db, jury("Ali", "B", "ali@x.tn")).unwrap();
    create_jury(&mut db, jury("Hedi", "M", "hedi@x.tn")).unwrap();
    gestion_soutenances::jury_soutenance::create_jury_soutenance(&mut db, 1, 10, s("président")).unwrap();
    gestion_soutenances::jury_soutenance::create_jury_soutenance(&mut db, 1, 11, s("examinateur")).unwrap();
    gestion_soutenances::jury_soutenance::create_jury_soutenance(&mut db, 2, 10, s("rapporteur")).unwrap();
    assert_eq!(get_jury_soutenances(&db, 1).unwrap(), vec![(10, s("président")), (11, s("examinateur"))]);
    delete_jury(&mut db, vec![1]).unwrap();
    assert!(get_jury(&db, 1).is_err());
    assert_eq!(get_jury_soutenances(&db, 1).unwrap().len(), 2);
}

#[test]
fn invite_delete_and_sessions() {
    let mut db = Database::new();
    create_invite(&mut db, invitee("Sara", "K", "sara@x.tn")).unwrap();
    gestion_soutenances::invite_soutenance::create_invite_soutenance(&mut db, 1, 4).unwrap();
    gestion_soutenances::invite_soutenance::create_invite_soutenance(&mut db, 1, 6).unwrap();
    assert_eq!(get_invite_soutenances(&db, 1).unwrap(), vec![(4, s("")), (6, s(""))]);
    delete_invite(&mut db, vec![1]).unwrap();
    assert!(get_all_invite(&db).unwrap().is_empty());
}

#[test]
fn pfe_round_trip_update_delete() {
    let mut db = Database::new();
    let id = create_pfe(&mut db, 3).unwrap();
    let p = get_pfe(&db, id).unwrap();
    assert_eq!(p.id, id);
    assert_eq!(p.specialite_id, 3);
    update_pfe(&mut db, id, 8).unwrap();
    assert_eq!(get_pfe(&db, id).unwrap().specialite_id, 8);
    delete_pfe(&mut db, id).unwrap();
    assert_eq!(get_pfe(&db, id).unwrap_err(), "Query returned no rows");
}

#[test]
fn specialite_round_trip_and_projects() {
    let mut db = Database::new();
    seed(&mut db);
    let id = create_specialite(&mut db).unwrap();
    assert_eq!(id, 10);
    let sp = get_specialite(&db, id).unwrap();
    assert_eq!(sp.id, 10);
    assert_eq!(sp.name, "");
    assert!(update_specialite(&db, id).is_ok());
    create_pfe(&mut db, 10).unwrap();
    create_pfe(&mut db, 2).unwrap();
    create_pfe(&mut db, 10).unwrap();
    assert_eq!(get_specialite_pfes(&db, 10).unwrap(), vec![1, 3]);
    delete_specialite(&mut db, 10).unwrap();
    assert!(get_specialite(&db, 10).is_err());
}
