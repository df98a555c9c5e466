//! The database: every table, with the last id each keyed table handed out.
use vstd::prelude::*;
use crate::classroom::Salle;
use crate::etudiant::Etudiant;
use crate::invite::Invitee;
use crate::invite_soutenance::{InviteSoutenance, invitation_keys_unique};
use crate::jury::Jury;
use crate::jury_soutenance::{JurySoutenance, assignment_keys_unique};
use crate::pfe::Pfe;
use crate::soutenance::SoutenanceRow;
use crate::specialite::Specialite;
use crate::invite_soutenance::check_invitations;
use crate::jury_soutenance::check_assignments;
use crate::table::{check_emails, check_keys, emails_unique, keys_at_most, keys_unique};
use crate::user::User;

verus! {

pub struct Database {
    pub users: Vec<User>,
    pub user_seq: i32,
    pub specialites: Vec<Specialite>,
    pub specialite_seq: i32,
    pub classrooms: Vec<Salle>,
    pub classroom_seq: i32,
    pub etudiants: Vec<Etudiant>,
    pub etudiant_seq: i32,
    pub invites: Vec<Invitee>,
    pub invite_seq: i32,
    pub juries: Vec<Jury>,
    pub jury_seq: i32,
    pub pfes: Vec<Pfe>,
    pub pfe_seq: i32,
    pub soutenances: Vec<SoutenanceRow>,
    pub soutenance_seq: i32,
    pub jury_soutenances: Vec<JurySoutenance>,
    pub invite_soutenances: Vec<InviteSoutenance>,
}

/// The contents of a `Database`.
pub struct Tables {
    pub users: Seq<User>,
    pub user_seq: i32,
    pub specialites: Seq<Specialite>,
    pub specialite_seq: i32,
    pub classrooms: Seq<Salle>,
    pub classroom_seq: i32,
    pub etudiants: Seq<Etudiant>,
    pub etudiant_seq: i32,
    pub invites: Seq<Invitee>,
    pub invite_seq: i32,
    pub juries: Seq<Jury>,
    pub jury_seq: i32,
    pub pfes: Seq<Pfe>,
    pub pfe_seq: i32,
    pub soutenances: Seq<SoutenanceRow>,
    pub soutenance_seq: i32,
    pub jury_soutenances: Seq<JurySoutenance>,
    pub invite_soutenances: Seq<InviteSoutenance>,
}

impl View for Database {
    type V = Tables;

    open spec fn view(&self) -> Tables {
        Tables {
            users: self.users@,
            user_seq: self.user_seq,
            specialites: self.specialites@,
            specialite_seq: self.specialite_seq,
            classrooms: self.classrooms@,
            classroom_seq: self.classroom_seq,
            etudiants: self.etudiants@,
            etudiant_seq: self.etudiant_seq,
            invites: self.invites@,
            invite_seq: self.invite_seq,
            juries: self.juries@,
            jury_seq: self.jury_seq,
            pfes: self.pfes@,
            pfe_seq: self.pfe_seq,
            soutenances: self.soutenances@,
            soutenance_seq: self.soutenance_seq,
            jury_soutenances: self.jury_soutenances@,
            invite_soutenances: self.invite_soutenances@,
        }
    }
}

impl Tables {
    /// Keys are unique and never above the table's last handed-out id, and
    /// emails are unique where the schema says so.
    pub open spec fn wf(&self) -> bool {
        &&& keys_unique(self.users) && keys_at_most(self.users, self.user_seq)
        &&& emails_unique(self.users)
        &&& keys_unique(self.specialites) && keys_at_most(self.specialites, self.specialite_seq)
        &&& keys_unique(self.classrooms) && keys_at_most(self.classrooms, self.classroom_seq)
        &&& keys_unique(self.etudiants) && keys_at_most(self.etudiants, self.etudiant_seq)
        &&& keys_unique(self.invites) && keys_at_most(self.invites, self.invite_seq)
        &&& emails_unique(self.invites)
        &&& keys_unique(self.juries) && keys_at_most(self.juries, self.jury_seq)
        &&& emails_unique(self.juries)
        &&& keys_unique(self.pfes) && keys_at_most(self.pfes, self.pfe_seq)
        &&& keys_unique(self.soutenances) && keys_at_most(self.soutenances, self.soutenance_seq)
        &&& assignment_keys_unique(self.jury_soutenances)
        &&& invitation_keys_unique(self.invite_soutenances)
    }
}

impl Database {
    pub open spec fn wf(&self) -> bool {
        self@.wf()
    }

    /// Whether the tables meet their invariants; rows loaded from storage are
    /// checked with this before any command runs on them.
    pub fn is_well_formed(&self) -> (r: bool)
        ensures
            r == self.wf(),
    {
        check_keys(&self.users, self.user_seq) && check_emails(&self.users) && check_keys(
            &self.specialites,
            self.specialite_seq,
        ) && check_keys(&self.classrooms, self.classroom_seq) && check_keys(
            &self.etudiants,
            self.etudiant_seq,
        ) && check_keys(&self.invites, self.invite_seq) && check_emails(&self.invites)
            && check_keys(&self.juries, self.jury_seq) && check_emails(&self.juries) && check_keys(
            &self.pfes,
            self.pfe_seq,
        ) && check_keys(&self.soutenances, self.soutenance_seq) && check_assignments(
            &self.jury_soutenances,
        ) && check_invitations(&self.invite_soutenances)
    }

    /// An empty database.
    pub fn new() -> (r: Database)
        ensures
            r.wf(),
            r@.users.len() == 0 && r@.specialites.len() == 0 && r@.classrooms.len() == 0,
            r@.etudiants.len() == 0 && r@.invites.len() == 0 && r@.juries.len() == 0,
            r@.pfes.len() == 0 && r@.soutenances.len() == 0,
            r@.jury_soutenances.len() == 0 && r@.invite_soutenances.len() == 0,
            r.user_seq == 0 && r.specialite_seq == 0 && r.classroom_seq == 0,
            r.etudiant_seq == 0 && r.invite_seq == 0 && r.jury_seq == 0,
            r.pfe_seq == 0 && r.soutenance_seq == 0,
    {
        Database {
            users: Vec::new(),
            user_seq: 0,
            specialites: Vec::new(),
            specialite_seq: 0,
            classrooms: Vec::new(),
            classroom_seq: 0,
            etudiants: Vec::new(),
            etudiant_seq: 0,
            invites: Vec::new(),
            invite_seq: 0,
            juries: Vec::new(),
            jury_seq: 0,
            pfes: Vec::new(),
            pfe_seq: 0,
            soutenances: Vec::new(),
            soutenance_seq: 0,
            jury_soutenances: Vec::new(),
            invite_soutenances: Vec::new(),
        }
    }
}

} // verus!
