use gestion_soutenances::auth::{credentials_valid, login};
use gestion_soutenances::db::Database;
use gestion_soutenances::seed::seed;
use gestion_soutenances::specialite::get_specialite;
use gestion_soutenances::user::{create_user, delete_user, get_user, hash_password, to_hex, update_user};

fn s(t: &str) -> String {
    t.to_string()
}

#[test]
fn hash_of_known_inputs() {
    assert_eq!(
        hash_password("admin"),
        "8c6976e5b5410415bde908bd4dee15dfb167a9c873fc4bb8a81f6f2ab448a918"
    );
    assert_eq!(
        hash_password(""),
        "e3b0c44298fc1c149afbf4c8996fb92427ae41e4649b934ca495991b7852b855"
    );
}

#[test]
fn user_round_trip_stores_hash() {
    let mut db = Database::new();
    let id = create_user(&mut db, s("Nour"), s("nour@x.tn"), s("secret")).unwrap();
    let u = get_user(&db, id).unwrap();
    assert_eq!(u.id, id);
    assert_eq!(u.name, "Nour");
    assert_eq!(u.email, "nour@x.tn");
    assert_eq!(u.password, hash_password("secret"));
    assert_ne!(u.password, "secret");
}

#[test]
fn user_email_must_be_unique() {
    let mut db = Database::new();
    create_user(&mut db, s("A"), s("a@x.tn"), s("p")).unwrap();
    let id = create_user(&mut db, s("B"), s("b@x.tn"), s("p")).unwrap();
    assert_eq!(
        create_user(&mut db, s("C"), s("a@x.tn"), s("p")).unwrap_err(),
        "UNIQUE constraint failed: users.email"
    );
    assert_eq!(
        update_user(&mut db, id, s("B"), s("a@x.tn"), s("p")).unwrap_err(),
        "UNIQUE constraint failed: users.email"
    );
    update_user(&mut db, id, s("Bee"), s("b@x.tn"), s("q")).unwrap();
    let u = get_user(&db, id).unwrap();
    assert_eq!(u.name, "Bee");
    assert_eq!(u.password, hash_password("q"));
    delete_user(&mut db, id).unwrap();
    assert!(get_user(&db, id).is_err());
}

#[test]
fn user_update_of_missing_id_succeeds_and_changes_nothing() {
    let mut db = Database::new();
    create_user(&mut db, s("A"), s("a@x.tn"), s("p")).unwrap();
    let before = db.users.clone();
    assert!(update_user(&mut db, 9, s("B"), s("a@x.tn"), s("q")).is_ok());
    assert_eq!(db.users, before);
}

#[test]
fn hash_is_sixty_four_hex_digits() {
    let h = hash_password("Génie");
    assert_eq!(h.len(), 64);
    assert!(h.chars().all(|c| c.is_ascii_hexdigit() && !c.is_ascii_uppercase()));
}

#[test]
fn seeding_twice_gives_the_same_tables() {
    let mut db = Database::new();
    seed(&mut db);
    let users = db.users.clone();
    let programs = db.specialites.clone();
    let (us, ss) = (db.user_seq, db.specialite_seq);
    seed(&mut db);
    assert_eq!(db.users, users);
    assert_eq!(db.specialites, programs);
    assert_eq!((db.user_seq, db.specialite_seq), (us, ss));
}

#[test]
fn seeding_appends_only_missing_programs_in_id_order() {
    let mut db = Database::new();
    db.specialites.push(gestion_soutenances::specialite::Specialite { id: 4, name: s("Civil") });
    db.specialite_seq = 4;
    seed(&mut db);
    let ids: Vec<i32> = db.specialites.iter().map(|p| p.id).collect();
    assert_eq!(ids, vec![4, 1, 2, 3, 5, 6, 7, 8, 9]);
    assert_eq!(db.specialites[0].name, "Civil");
    assert_eq!(db.specialite_seq, 9);
}

#[test]
fn seeding_skips_admin_when_account_ids_are_exhausted() {
    let mut db = Database::new();
    db.user_seq = i32::MAX;
    seed(&mut db);
    assert!(db.users.is_empty());
    assert_eq!(db.user_seq, i32::MAX);
}

#[test]
fn seeded_admin_can_log_in() {
    let mut db = Database::new();
    seed(&mut db);
    let ok = login(&db, s("admin@example.com"), s("admin")).unwrap();
    assert_eq!(ok.message, "Login successful");
    assert_eq!(ok.access_token.len(), 36);
    let bad = login(&db, s("admin@example.com"), s("wrong")).unwrap();
    assert_eq!(bad.message, "Invalid credentials");
    assert_eq!(bad.access_token, "");
    let nobody = login(&db, s("x@y.z"), s("admin")).unwrap();
    assert_eq!(nobody.message, "Invalid credentials");
}

#[test]
fn created_user_can_log_in() {
    let mut db = Database::new();
    create_user(&mut db, s("Nour"), s("nour@x.tn"), s("secret")).unwrap();
    assert_eq!(login(&db, s("nour@x.tn"), s("secret")).unwrap().message, "Login successful");
}

#[test]
fn seed_is_idempotent_and_keeps_existing_rows() {
    let mut db = Database::new();
    seed(&mut db);
    assert_eq!(db.specialites.len(), 9);
    assert_eq!(db.users.len(), 1);
    assert_eq!(get_specialite(&db, 9).unwrap().name, "Génie Mécanique");
    db.specialites[0].name = s("Renamed");
    seed(&mut db);
    assert_eq!(db.specialites.len(), 9);
    assert_eq!(db.users.len(), 1);
    assert_eq!(get_specialite(&db, 1).unwrap().name, "Renamed");
    assert!(db.is_well_formed());
}

#[test]
fn well_formedness_check_rejects_duplicates() {
    let mut db = Database::new();
    seed(&mut db);
    assert!(db.is_well_formed());
    let copy = db.specialites[0].clone();
    db.specialites.push(copy);
    assert!(!db.is_well_formed());
    db.specialites.pop();
    db.specialite_seq = 3;
    assert!(!db.is_well_formed());
}

#[test]
fn hex_encoding_of_bytes() {
    assert_eq!(to_hex(&vec![]), "");
    assert_eq!(to_hex(&vec![0x00, 0x0f, 0xa5, 0xff]), "000fa5ff");
}

#[test]
fn credentials_are_checked_against_hashes() {
    let mut db = Database::new();
    create_user(&mut db, s("Nour"), s("nour@x.tn"), s("secret")).unwrap();
    assert!(credentials_valid(&db, &s("nour@x.tn"), "secret"));
    assert!(!credentials_valid(&db, &s("nour@x.tn"), "Secret"));
    assert!(!credentials_valid(&db, &s("nour@x.tn"), &hash_password("secret")));
}
