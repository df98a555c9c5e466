//! The rows every database starts with: an administrator account and the
//! fixed list of programs.
use vstd::prelude::*;
use crate::db::{Database, Tables};
use crate::specialite::Specialite;
use crate::table::{
    Contact, Row, email_used, find_email, has_key, keys_at_most, lemma_push_email, lemma_push_fresh,
    lemma_push_new_key, lookup, find_row,
};
use crate::user::{User, hash_password, password_hash};

verus! {

/// The name of the program seeded under id `k`, for `k` from 1 to 9.
pub open spec fn seed_name(k: i32) -> Seq<char> {
    if k == 1 {
        "Licence Génie Industriel"@
    } else if k == 2 {
        "Licence Génie Informatique"@
    } else if k == 3 {
        "Mastére Industrie v4.0"@
    } else if k == 4 {
        "Génie Civil"@
    } else if k == 5 {
        "Génie Procédés"@
    } else if k == 6 {
        "Génie Télécommunication"@
    } else if k == 7 {
        "Génie Industriel"@
    } else if k == 8 {
        "Génie Informatique"@
    } else {
        "Génie Mécanique"@
    }
}

/// Program `k` in `after` is the one in `before`, or, when `before` has no
/// program `k`, the seeded one.
pub open spec fn seeded(before: Seq<Specialite>, after: Seq<Specialite>, k: i32) -> bool {
    match lookup(after, k) {
        Some(s) => if has_key(before, k) {
            lookup(before, k) == Some(s)
        } else {
            s.id == k && s.name@ == seed_name(k)
        },
        None => false,
    }
}

/// The ids among 1 to `k - 1` that no program in `s` has, in increasing order.
pub open spec fn missing_ids(s: Seq<Specialite>, k: int) -> Seq<i32>
    decreases k,
{
    if k <= 1 {
        Seq::empty()
    } else {
        let m = missing_ids(s, k - 1);
        if has_key(s, (k - 1) as i32) {
            m
        } else {
            m.push((k - 1) as i32)
        }
    }
}

/// The last handed-out id after the ids `ids` are used, starting from `seq`.
pub open spec fn raised(seq: i32, ids: Seq<i32>) -> i32
    decreases ids.len(),
{
    if ids.len() == 0 {
        seq
    } else {
        let r = raised(seq, ids.drop_last());
        if r < ids.last() {
            ids.last()
        } else {
            r
        }
    }
}

/// `u` (with counter `useq`) is the programs `s` (with counter `seq`)
/// followed by the seeded program of each id from 1 to 9 that `s` lacks,
/// in id order.
pub open spec fn programs_seeded(s: Seq<Specialite>, seq: i32, u: Seq<Specialite>, useq: i32) -> bool {
    let m = missing_ids(s, 10);
    &&& u.len() == s.len() + m.len()
    &&& u.take(s.len() as int) == s
    &&& forall|i: int|
        s.len() <= i < u.len() ==> (#[trigger] u[i]).id == m[i - s.len()] && u[i].name@
            == seed_name(m[i - s.len()])
    &&& useq == raised(seq, m)
}

/// Seeding adds the administrator account.
pub open spec fn admin_added(t: Tables) -> bool {
    !email_used(t.users, "admin@example.com"@) && t.user_seq < i32::MAX
}

/// `u` is `t` after seeding: the administrator appended under the next id
/// when `admin_added(t)`, the accounts unchanged otherwise, the missing
/// programs appended, and every other table unchanged.
pub open spec fn seed_outcome(t: Tables, u: Tables) -> bool {
    &&& u == (Tables {
        users: u.users,
        user_seq: u.user_seq,
        specialites: u.specialites,
        specialite_seq: u.specialite_seq,
        ..t
    })
    &&& admin_added(t) ==> {
        let a = u.users.last();
        &&& u.users == t.users.push(a)
        &&& u.user_seq == t.user_seq + 1
        &&& a.id == t.user_seq + 1
        &&& a.name@ == "Admin"@
        &&& a.email@ == "admin@example.com"@
        &&& a.password@ == password_hash("admin"@)
    }
    &&& !admin_added(t) ==> u.users == t.users && u.user_seq == t.user_seq
    &&& programs_seeded(t.specialites, t.specialite_seq, u.specialites, u.specialite_seq)
}

proof fn lemma_none_missing(s: Seq<Specialite>, k: int)
    requires
        k <= 10,
        forall|j: i32| 1 <= j < k ==> #[trigger] has_key(s, j),
    ensures
        missing_ids(s, k) == Seq::<i32>::empty(),
    decreases k,
{
    if k > 1 {
        lemma_none_missing(s, k - 1);
        assert(has_key(s, (k - 1) as i32));
    }
}

proof fn lemma_missing_contains(s: Seq<Specialite>, k: int, j: i32)
    requires
        1 <= j < k <= 10,
        !has_key(s, j),
    ensures
        missing_ids(s, k).contains(j),
    decreases k,
{
    let m = missing_ids(s, k - 1);
    if j == k - 1 {
        assert(missing_ids(s, k) == m.push(j));
        assert(m.push(j)[m.len() as int] == j);
    } else {
        lemma_missing_contains(s, k - 1, j);
        let p = choose|p: int| 0 <= p < m.len() && m[p] == j;
        if !has_key(s, (k - 1) as i32) {
            assert(m.push((k - 1) as i32)[p] == j);
        }
    }
}

/// Seeding a second time changes nothing: every starting row is there
/// after the first time.
pub proof fn law_seed_twice_changes_nothing(a: Tables, b: Tables, c: Tables)
    requires
        seed_outcome(a, b),
        seed_outcome(b, c),
    ensures
        c == b,
{
    if admin_added(a) {
        let i = b.users.len() - 1;
        assert(b.users[i] == b.users.last());
        assert(b.users[i].contact_email() == "admin@example.com"@);
        assert(email_used(b.users, "admin@example.com"@));
    }
    assert(!admin_added(b));
    let sa = a.specialites;
    let sb = b.specialites;
    let ma = missing_ids(sa, 10);
    assert forall|j: i32| 1 <= j < 10 implies #[trigger] has_key(sb, j) by {
        if has_key(sa, j) {
            let i = choose|i: int| 0 <= i < sa.len() && #[trigger] sa[i].row_id() == j;
            assert(sb.take(sa.len() as int)[i] == sa[i]);
            assert(sb[i] == sa[i]);
        } else {
            lemma_missing_contains(sa, 10, j);
            let p = choose|p: int| 0 <= p < ma.len() && ma[p] == j;
            assert(sb[sa.len() + p].id == j);
            assert(sb[sa.len() + p].row_id() == j);
        }
    }
    lemma_none_missing(sb, 10);
    assert(c.specialites =~= c.specialites.take(sb.len() as int));
    assert(c.specialites == sb);
    assert(c.specialite_seq == b.specialite_seq);
}

fn seed_name_text(k: i32) -> (r: &'static str)
    ensures
        r@ == seed_name(k),
{
    if k == 1 {
        "Licence Génie Industriel"
    } else if k == 2 {
        "Licence Génie Informatique"
    } else if k == 3 {
        "Mastére Industrie v4.0"
    } else if k == 4 {
        "Génie Civil"
    } else if k == 5 {
        "Génie Procédés"
    } else if k == 6 {
        "Génie Télécommunication"
    } else if k == 7 {
        "Génie Industriel"
    } else if k == 8 {
        "Génie Informatique"
    } else {
        "Génie Mécanique"
    }
}

/// Adds what is missing of the starting rows: the account `Admin`
/// (admin@example.com, password `admin`) unless that email is taken, and
/// each program 1 to 9 under its fixed name unless its id is taken. Rows
/// already there are left as they are.
pub fn seed(db: &mut Database)
    requires
        old(db).wf(),
    ensures
        final(db).wf(),
        seed_outcome(old(db)@, final(db)@),
        forall|k: i32|
            1 <= k <= 9 ==> #[trigger] seeded(old(db)@.specialites, final(db)@.specialites, k),
        forall|k: i32|
            !(1 <= k <= 9) ==> #[trigger] lookup(final(db)@.specialites, k) == lookup(
                old(db)@.specialites,
                k,
            ),
{
    let admin_email = String::from_str("admin@example.com");
    if db.user_seq < i32::MAX && !find_email(&db.users, &admin_email, None) {
        let id = db.user_seq + 1;
        let row = User {
            id,
            name: String::from_str("Admin"),
            email: admin_email,
            password: hash_password("admin"),
        };
        proof {
            lemma_push_fresh(db@.users, db.user_seq, row);
            lemma_push_email(db@.users, row);
        }
        db.users.push(row);
        db.user_seq = id;
    }
    let ghost users = db@.users;
    let ghost user_seq = db.user_seq;
    let ghost s0 = old(db)@.specialites;
    let ghost seq0 = old(db).specialite_seq;
    proof {
        assert(db@.specialites.take(s0.len() as int) =~= s0);
    }
    let mut k: i32 = 1;
    while k <= 9
        invariant
            1 <= k <= 10,
            db.wf(),
            db@ == (Tables {
                specialites: db@.specialites,
                specialite_seq: db@.specialite_seq,
                users: users,
                user_seq: user_seq,
                ..old(db)@
            }),
            forall|j: i32|
                1 <= j < k ==> #[trigger] seeded(old(db)@.specialites, db@.specialites, j),
            forall|j: i32|
                !(1 <= j < k) ==> #[trigger] lookup(db@.specialites, j) == lookup(
                    old(db)@.specialites,
                    j,
                ),
            s0 == old(db)@.specialites,
            seq0 == old(db).specialite_seq,
            db@.specialites.len() == s0.len() + missing_ids(s0, k as int).len(),
            db@.specialites.take(s0.len() as int) == s0,
            forall|i: int|
                s0.len() <= i < db@.specialites.len() ==> (#[trigger] db@.specialites[i]).id
                    == missing_ids(s0, k as int)[i - s0.len()] && db@.specialites[i].name@
                    == seed_name(missing_ids(s0, k as int)[i - s0.len()]),
            db.specialite_seq == raised(seq0, missing_ids(s0, k as int)),
        decreases 10 - k,
    {
        let ghost before = db@.specialites;
        let ghost m = missing_ids(s0, k as int);
        let ghost before_seq = db.specialite_seq;
        assert(lookup(before, k) == lookup(old(db)@.specialites, k));
        if find_row(&db.specialites, k).is_none() {
            let row = Specialite { id: k, name: String::from_str(seed_name_text(k)) };
            proof {
                lemma_push_new_key(before, row);
            }
            db.specialites.push(row);
            if db.specialite_seq < k {
                db.specialite_seq = k;
            }
            proof {
                assert(keys_at_most(db@.specialites, db.specialite_seq)) by {
                    assert forall|i: int| 0 <= i < db@.specialites.len() implies #[trigger] db@.specialites[i].id <= db.specialite_seq by {
                        if i < before.len() {
                            assert(db@.specialites[i] == before[i]);
                            assert(before[i].row_id() <= before_seq);
                        } else {
                            assert(db@.specialites[i] == row);
                        }
                    }
                }
                assert(!has_key(old(db)@.specialites, k));
                assert(lookup(db@.specialites, k) == Some(row));
                assert(missing_ids(s0, k + 1) == m.push(k));
                assert(m.push(k).drop_last() =~= m);
                assert(db@.specialites.take(s0.len() as int) =~= before.take(s0.len() as int));
                assert forall|j: i32| j != k implies #[trigger] lookup(db@.specialites, j) == lookup(
                    before,
                    j,
                ) by {
                    assert(lookup(before.push(row), j) == lookup(before, j));
                }
            }
        }
        proof {
            if lookup(before, k) is Some {
                assert(has_key(s0, k));
                assert(missing_ids(s0, k + 1) == m);
            }
            assert forall|j: i32| 1 <= j < k + 1 implies #[trigger] seeded(
                old(db)@.specialites,
                db@.specialites,
                j,
            ) by {
                if j < k {
                    assert(lookup(db@.specialites, j) == lookup(before, j));
                    assert(seeded(old(db)@.specialites, before, j));
                }
            }
            assert forall|j: i32| !(1 <= j < k + 1) implies #[trigger] lookup(db@.specialites, j)
                == lookup(old(db)@.specialites, j) by {
                assert(lookup(db@.specialites, j) == lookup(before, j));
            }
        }
        k += 1;
    }
    proof {
        assert(db@.specialites.take(s0.len() as int) == s0);
    }
}

} // verus!
