//! Thesis-defense scheduling: students, juries, invitees, classrooms,
//! programs, projects and defense sessions, kept as relational tables.
//!
//! [`db::Database`] holds every table in memory together with the last id
//! each keyed table handed out. Each command is a function on it whose
//! contract states the resulting tables exactly: inserts take the next id,
//! updates overwrite the row with the given id (changing nothing when there
//! is none), deletes remove the listed ids, and reads return the matching
//! rows in table order. A session is read back with its classroom, jury
//! members, invitees and students by joining the link tables in memory.
//! Keeping the tables on disk is left to the caller.
pub mod auth;
pub mod classroom;
pub mod db;
pub mod etudiant;
pub mod invite;
pub mod invite_soutenance;
pub mod jury;
pub mod jury_soutenance;
pub mod outside;
pub mod pfe;
pub mod seed;
pub mod soutenance;
pub mod specialite;
pub mod table;
pub mod user;
