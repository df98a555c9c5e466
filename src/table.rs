//! Generic helpers over a table whose rows carry an integer primary key.
use vstd::prelude::*;

verus! {

/// A row of a table keyed by an integer id.
pub trait Row: Sized {
    spec fn row_id(&self) -> i32;

    fn key(&self) -> (r: i32)
        ensures
            r == self.row_id(),
    ;

    fn copied(&self) -> (r: Self)
        ensures
            r == *self,
    ;
}

/// A row that carries an email address, unique within its table.
pub trait Contact: Row {
    spec fn contact_email(&self) -> Seq<char>;

    fn email_text(&self) -> (r: &String)
        ensures
            r@ == self.contact_email(),
    ;
}

/// No two rows share an email.
pub open spec fn emails_unique<T: Contact>(s: Seq<T>) -> bool {
    forall|i: int, j: int|
        0 <= i < s.len() && 0 <= j < s.len() && #[trigger] s[i].contact_email()
            == #[trigger] s[j].contact_email() ==> i == j
}

/// Some row whose id is not `id` has the email `email`.
pub open spec fn email_used_by_other<T: Contact>(s: Seq<T>, email: Seq<char>, id: i32) -> bool {
    exists|i: int| 0 <= i < s.len() && #[trigger] s[i].contact_email() == email && s[i].row_id() != id
}

/// Some row has the email `email`.
pub open spec fn email_used<T: Contact>(s: Seq<T>, email: Seq<char>) -> bool {
    exists|i: int| 0 <= i < s.len() && #[trigger] s[i].contact_email() == email
}

/// Searches for a row other than `id` with the given email; with `id` `None`, for any row.
pub fn find_email<T: Contact>(rows: &Vec<T>, email: &String, id: Option<i32>) -> (r: bool)
    ensures
        r == match id {
            Some(k) => email_used_by_other(rows@, email@, k),
            None => email_used(rows@, email@),
        },
{
    let mut i: usize = 0;
    while i < rows.len()
        invariant
            i <= rows.len(),
            forall|k: int|
                0 <= k < i ==> #[trigger] rows@[k].contact_email() != email@ || match id {
                    Some(x) => rows@[k].row_id() == x,
                    None => false,
                },
        decreases rows.len() - i,
    {
        let same = *rows[i].email_text() == *email;
        if same {
            match id {
                Some(x) => {
                    if rows[i].key() != x {
                        assert(rows@[i as int].contact_email() == email@);
                        return true;
                    }
                },
                None => {
                    assert(rows@[i as int].contact_email() == email@);
                    return true;
                },
            }
        }
        i += 1;
    }
    false
}

/// No two rows share an id.
pub open spec fn keys_unique<T: Row>(s: Seq<T>) -> bool {
    forall|i: int, j: int|
        0 <= i < s.len() && 0 <= j < s.len() && #[trigger] s[i].row_id() == #[trigger] s[j].row_id()
            ==> i == j
}

/// Every id is at most `seq`, the last id the table handed out.
pub open spec fn keys_at_most<T: Row>(s: Seq<T>, seq: i32) -> bool {
    forall|i: int| 0 <= i < s.len() ==> #[trigger] s[i].row_id() <= seq
}

pub open spec fn has_key<T: Row>(s: Seq<T>, id: i32) -> bool {
    exists|i: int| 0 <= i < s.len() && #[trigger] s[i].row_id() == id
}

/// The row with the given id, if any.
pub open spec fn lookup<T: Row>(s: Seq<T>, id: i32) -> Option<T> {
    if has_key(s, id) {
        Some(s[choose|i: int| 0 <= i < s.len() && #[trigger] s[i].row_id() == id])
    } else {
        None
    }
}

/// The table after every row with the id of `row` is overwritten by `row`.
pub open spec fn replace_row<T: Row>(s: Seq<T>, row: T) -> Seq<T> {
    s.map_values(|r: T| if r.row_id() == row.row_id() { row } else { r })
}

/// The table without the rows whose id is in `ids`.
pub open spec fn without_keys<T: Row>(s: Seq<T>, ids: Seq<i32>) -> Seq<T> {
    s.filter(|r: T| !ids.contains(r.row_id()))
}

pub proof fn lemma_lookup_at<T: Row>(s: Seq<T>, i: int)
    requires
        keys_unique(s),
        0 <= i < s.len(),
    ensures
        lookup(s, s[i].row_id()) == Some(s[i]),
{
    let id = s[i].row_id();
    assert(has_key(s, id));
    let j = choose|j: int| 0 <= j < s.len() && #[trigger] s[j].row_id() == id;
    assert(s[j].row_id() == s[i].row_id());
}

/// No two elements agree on `key`.
pub open spec fn distinct_by<A, K>(s: Seq<A>, key: spec_fn(A) -> K) -> bool {
    forall|i: int, j: int|
        0 <= i < s.len() && 0 <= j < s.len() && #[trigger] key(s[i]) == #[trigger] key(s[j]) ==> i
            == j
}

pub proof fn lemma_filter_distinct<A, K>(s: Seq<A>, key: spec_fn(A) -> K, p: spec_fn(A) -> bool)
    requires
        distinct_by(s, key),
    ensures
        distinct_by(s.filter(p), key),
        forall|k: int| 0 <= k < s.filter(p).len() ==> s.contains(#[trigger] s.filter(p)[k]),
    decreases s.len(),
{
    reveal(Seq::filter);
    if s.len() > 0 {
        let d = s.drop_last();
        assert(distinct_by(d, key)) by {
            assert forall|i: int, j: int|
                0 <= i < d.len() && 0 <= j < d.len() && #[trigger] key(d[i]) == #[trigger] key(
                    d[j],
                ) implies i == j by {
                assert(d[i] == s[i] && d[j] == s[j]);
            }
        }
        lemma_filter_distinct(d, key, p);
        let f = d.filter(p);
        assert forall|k: int| 0 <= k < s.filter(p).len() implies s.contains(
            #[trigger] s.filter(p)[k],
        ) by {
            if k < f.len() {
                let j = choose|j: int| 0 <= j < d.len() && d[j] == f[k];
                assert(s[j] == f[k]);
            } else {
                assert(s[s.len() - 1] == s.last());
            }
        }
        if p(s.last()) {
            let g = f.push(s.last());
            assert forall|i: int, j: int|
                0 <= i < g.len() && 0 <= j < g.len() && #[trigger] key(g[i]) == #[trigger] key(
                    g[j],
                ) implies i == j by {
                if i < f.len() && j == f.len() {
                    let a = choose|a: int| 0 <= a < d.len() && d[a] == f[i];
                    assert(key(s[a]) == key(s[s.len() - 1]));
                } else if j < f.len() && i == f.len() {
                    let a = choose|a: int| 0 <= a < d.len() && d[a] == f[j];
                    assert(key(s[a]) == key(s[s.len() - 1]));
                } else if i < f.len() && j < f.len() {
                    assert(key(f[i]) == key(f[j]));
                }
            }
        }
    }
}

pub open spec fn id_key<T: Row>() -> spec_fn(T) -> i32 {
    |r: T| r.row_id()
}

pub open spec fn email_key<T: Contact>() -> spec_fn(T) -> Seq<char> {
    |r: T| r.contact_email()
}

/// Deleting rows keeps ids unique and bounded, and emails unique.
pub proof fn lemma_without_keys_wf<T: Row>(s: Seq<T>, ids: Seq<i32>, seq: i32)
    requires
        keys_unique(s),
        keys_at_most(s, seq),
    ensures
        keys_unique(without_keys(s, ids)),
        keys_at_most(without_keys(s, ids), seq),
        forall|k: int|
            0 <= k < without_keys(s, ids).len() ==> s.contains(#[trigger] without_keys(s, ids)[k]),
{
    let key = id_key::<T>();
    let p = |r: T| !ids.contains(r.row_id());
    assert(distinct_by(s, key)) by {
        assert forall|i: int, j: int|
            0 <= i < s.len() && 0 <= j < s.len() && #[trigger] key(s[i]) == #[trigger] key(s[j])
            implies i == j by {
            assert(s[i].row_id() == s[j].row_id());
        }
    }
    lemma_filter_distinct(s, key, p);
    let f = s.filter(p);
    assert(keys_unique(f)) by {
        assert forall|i: int, j: int|
            0 <= i < f.len() && 0 <= j < f.len() && #[trigger] f[i].row_id() == #[trigger] f[j].row_id()
            implies i == j by {
            assert(key(f[i]) == key(f[j]));
        }
    }
    assert forall|k: int| 0 <= k < f.len() implies #[trigger] f[k].row_id() <= seq by {
        assert(s.contains(f[k]));
    }
}

pub proof fn lemma_without_keys_emails<T: Contact>(s: Seq<T>, ids: Seq<i32>)
    requires
        emails_unique(s),
    ensures
        emails_unique(without_keys(s, ids)),
{
    let key = email_key::<T>();
    let p = |r: T| !ids.contains(r.row_id());
    assert(distinct_by(s, key)) by {
        assert forall|i: int, j: int|
            0 <= i < s.len() && 0 <= j < s.len() && #[trigger] key(s[i]) == #[trigger] key(s[j])
            implies i == j by {
            assert(s[i].contact_email() == s[j].contact_email());
        }
    }
    lemma_filter_distinct(s, key, p);
    let f = s.filter(p);
    assert forall|i: int, j: int|
        0 <= i < f.len() && 0 <= j < f.len() && #[trigger] f[i].contact_email()
            == #[trigger] f[j].contact_email() implies i == j by {
        assert(key(f[i]) == key(f[j]));
    }
}

/// A row with a fresh id, one above every id in the table, keeps the table well formed.
pub proof fn lemma_push_fresh<T: Row>(s: Seq<T>, seq: i32, row: T)
    requires
        keys_unique(s),
        keys_at_most(s, seq),
        seq < i32::MAX,
        row.row_id() == seq + 1,
    ensures
        keys_unique(s.push(row)),
        keys_at_most(s.push(row), row.row_id()),
        !has_key(s, row.row_id()),
        lookup(s.push(row), row.row_id()) == Some(row),
        forall|id: i32| id != row.row_id() ==> lookup(#[trigger] s.push(row), id) == lookup(s, id),
{
    let t = s.push(row);
    assert forall|i: int| 0 <= i < t.len() implies #[trigger] t[i].row_id() <= row.row_id() by {
        if i < s.len() {
            assert(t[i] == s[i]);
        }
    }
    assert forall|i: int, j: int|
        0 <= i < t.len() && 0 <= j < t.len() && #[trigger] t[i].row_id() == #[trigger] t[j].row_id()
        implies i == j by {
        if i < s.len() {
            assert(t[i] == s[i]);
        }
        if j < s.len() {
            assert(t[j] == s[j]);
        }
    }
    assert(!has_key(s, row.row_id())) by {
        if has_key(s, row.row_id()) {
            let i = choose|i: int| 0 <= i < s.len() && #[trigger] s[i].row_id() == row.row_id();
        }
    }
    lemma_lookup_at(t, s.len() as int);
    assert forall|id: i32| id != row.row_id() implies lookup(#[trigger] s.push(row), id) == lookup(s, id) by {
        if has_key(s, id) {
            let i = choose|i: int| 0 <= i < s.len() && #[trigger] s[i].row_id() == id;
            lemma_lookup_at(s, i);
            assert(t[i] == s[i]);
            lemma_lookup_at(t, i);
        } else {
            assert(!has_key(t, id)) by {
                if has_key(t, id) {
                    let i = choose|i: int| 0 <= i < t.len() && #[trigger] t[i].row_id() == id;
                    assert(t[i] == s[i]);
                }
            }
        }
    }
}

/// A row under an id the table does not hold keeps ids unique, reads back
/// under its id, and leaves every other id as it was.
pub proof fn lemma_push_new_key<T: Row>(s: Seq<T>, row: T)
    requires
        keys_unique(s),
        !has_key(s, row.row_id()),
    ensures
        keys_unique(s.push(row)),
        lookup(s.push(row), row.row_id()) == Some(row),
        forall|id: i32| id != row.row_id() ==> lookup(#[trigger] s.push(row), id) == lookup(s, id),
        forall|id: i32| #[trigger] has_key(s.push(row), id) <==> has_key(s, id) || id == row.row_id(),
{
    let t = s.push(row);
    assert forall|i: int, j: int|
        0 <= i < t.len() && 0 <= j < t.len() && #[trigger] t[i].row_id() == #[trigger] t[j].row_id()
        implies i == j by {
        if i < s.len() {
            assert(t[i] == s[i]);
        }
        if j < s.len() {
            assert(t[j] == s[j]);
        }
    }
    lemma_lookup_at(t, s.len() as int);
    assert forall|id: i32| id != row.row_id() implies lookup(#[trigger] s.push(row), id) == lookup(s, id) by {
        if has_key(s, id) {
            let i = choose|i: int| 0 <= i < s.len() && #[trigger] s[i].row_id() == id;
            lemma_lookup_at(s, i);
            assert(t[i] == s[i]);
            lemma_lookup_at(t, i);
        } else {
            assert(!has_key(t, id)) by {
                if has_key(t, id) {
                    let i = choose|i: int| 0 <= i < t.len() && #[trigger] t[i].row_id() == id;
                    assert(t[i] == s[i]);
                }
            }
        }
    }
    assert forall|id: i32| #[trigger] has_key(s.push(row), id) <==> has_key(s, id) || id == row.row_id() by {
        if has_key(s, id) {
            let i = choose|i: int| 0 <= i < s.len() && #[trigger] s[i].row_id() == id;
            assert(t[i] == s[i]);
        }
        if has_key(t, id) && id != row.row_id() {
            let i = choose|i: int| 0 <= i < t.len() && #[trigger] t[i].row_id() == id;
            assert(t[i] == s[i]);
        }
        if id == row.row_id() {
            assert(t[s.len() as int] == row);
        }
    }
}

/// Overwriting the row of an id keeps ids unique and bounded, and the id then reads back the new row.
pub proof fn lemma_replace_wf<T: Row>(s: Seq<T>, seq: i32, row: T)
    requires
        keys_unique(s),
        keys_at_most(s, seq),
    ensures
        keys_unique(replace_row(s, row)),
        keys_at_most(replace_row(s, row), seq),
        has_key(s, row.row_id()) ==> lookup(replace_row(s, row), row.row_id()) == Some(row),
        !has_key(s, row.row_id()) ==> replace_row(s, row) == s,
{
    let t = replace_row(s, row);
    assert forall|i: int| 0 <= i < t.len() implies #[trigger] t[i].row_id() == s[i].row_id() by {}
    assert forall|i: int, j: int|
        0 <= i < t.len() && 0 <= j < t.len() && #[trigger] t[i].row_id() == #[trigger] t[j].row_id()
        implies i == j by {
        assert(t[i].row_id() == s[i].row_id() && t[j].row_id() == s[j].row_id());
    }
    assert forall|i: int| 0 <= i < t.len() implies #[trigger] t[i].row_id() <= seq by {
        assert(t[i].row_id() == s[i].row_id());
    }
    if has_key(s, row.row_id()) {
        let i = choose|i: int| 0 <= i < s.len() && #[trigger] s[i].row_id() == row.row_id();
        assert(t[i] == row);
        lemma_lookup_at(t, i);
    } else {
        assert(t =~= s);
    }
}

pub fn remove_key<T: Row>(rows: &mut Vec<T>, id: i32)
    ensures
        final(rows)@ == without_keys(old(rows)@, seq![id]),
{
    let ids = vec![id];
    assert(ids@ =~= seq![id]);
    remove_keys(rows, &ids);
}

/// A row whose email no other row has keeps emails unique.
pub proof fn lemma_push_email<T: Contact>(s: Seq<T>, row: T)
    requires
        emails_unique(s),
        !email_used(s, row.contact_email()),
    ensures
        emails_unique(s.push(row)),
{
    let t = s.push(row);
    assert forall|i: int, j: int|
        0 <= i < t.len() && 0 <= j < t.len() && #[trigger] t[i].contact_email()
            == #[trigger] t[j].contact_email() implies i == j by {
        if i < s.len() {
            assert(t[i] == s[i]);
        }
        if j < s.len() {
            assert(t[j] == s[j]);
        }
    }
}

/// Overwriting a row with an email that no other row has keeps emails unique.
pub proof fn lemma_replace_email<T: Contact>(s: Seq<T>, row: T)
    requires
        emails_unique(s),
        keys_unique(s),
        !email_used_by_other(s, row.contact_email(), row.row_id()),
    ensures
        emails_unique(replace_row(s, row)),
{
    let t = replace_row(s, row);
    assert forall|i: int, j: int|
        0 <= i < t.len() && 0 <= j < t.len() && #[trigger] t[i].contact_email()
            == #[trigger] t[j].contact_email() implies i == j by {
        if s[i].row_id() == row.row_id() && s[j].row_id() == row.row_id() {
        } else if s[i].row_id() == row.row_id() {
            assert(s[j].contact_email() == row.contact_email());
        } else if s[j].row_id() == row.row_id() {
            assert(s[i].contact_email() == row.contact_email());
        } else {
            assert(s[i].contact_email() == s[j].contact_email());
        }
    }
}

/// Overwriting the row of an id that no row has leaves a table as it was:
/// an update of a missing record changes nothing.
pub proof fn law_update_of_missing_id_changes_nothing<T: Row>(s: Seq<T>, row: T)
    requires
        !has_key(s, row.row_id()),
    ensures
        replace_row(s, row) == s,
{
    assert(replace_row(s, row) =~= s);
}

/// Deleting by an empty list of ids leaves a table as it was.
pub proof fn law_delete_of_no_ids_changes_nothing<T: Row>(s: Seq<T>, ids: Seq<i32>)
    requires
        ids.len() == 0,
    ensures
        without_keys(s, ids) == s,
    decreases s.len(),
{
    reveal(Seq::filter);
    if s.len() > 0 {
        law_delete_of_no_ids_changes_nothing(s.drop_last(), ids);
        assert(!ids.contains(s.last().row_id()));
        assert(s.drop_last().push(s.last()) =~= s);
    }
}

/// Whether ids are unique and at most `seq`.
pub fn check_keys<T: Row>(rows: &Vec<T>, seq: i32) -> (r: bool)
    ensures
        r == (keys_unique(rows@) && keys_at_most(rows@, seq)),
{
    let mut i: usize = 0;
    while i < rows.len()
        invariant
            i <= rows.len(),
            forall|a: int, b: int|
                0 <= a < i && 0 <= b < rows@.len() && #[trigger] rows@[a].row_id()
                    == #[trigger] rows@[b].row_id() ==> a == b,
            forall|a: int| 0 <= a < i ==> #[trigger] rows@[a].row_id() <= seq,
        decreases rows.len() - i,
    {
        let k = rows[i].key();
        if k > seq {
            return false;
        }
        let mut j: usize = 0;
        while j < rows.len()
            invariant
                i < rows.len(),
                j <= rows.len(),
                k == rows@[i as int].row_id(),
                forall|b: int| 0 <= b < j && b != i ==> #[trigger] rows@[b].row_id() != k,
            decreases rows.len() - j,
        {
            if j != i && rows[j].key() == k {
                assert(rows@[j as int].row_id() == rows@[i as int].row_id());
                return false;
            }
            j += 1;
        }
        i += 1;
    }
    true
}

/// Whether emails are unique.
pub fn check_emails<T: Contact>(rows: &Vec<T>) -> (r: bool)
    ensures
        r == emails_unique(rows@),
{
    let mut i: usize = 0;
    while i < rows.len()
        invariant
            i <= rows.len(),
            forall|a: int, b: int|
                0 <= a < i && 0 <= b < rows@.len() && #[trigger] rows@[a].contact_email()
                    == #[trigger] rows@[b].contact_email() ==> a == b,
        decreases rows.len() - i,
    {
        let mut j: usize = 0;
        while j < rows.len()
            invariant
                i < rows.len(),
                j <= rows.len(),
                forall|b: int|
                    0 <= b < j && b != i ==> #[trigger] rows@[b].contact_email() != rows@[i as int].contact_email(),
            decreases rows.len() - j,
        {
            if j != i && *rows[j].email_text() == *rows[i].email_text() {
                assert(rows@[j as int].contact_email() == rows@[i as int].contact_email());
                return false;
            }
            j += 1;
        }
        i += 1;
    }
    true
}

pub fn contains_id(ids: &Vec<i32>, id: i32) -> (r: bool)
    ensures
        r == ids@.contains(id),
{
    let mut i: usize = 0;
    while i < ids.len()
        invariant
            i <= ids.len(),
            forall|k: int| 0 <= k < i ==> ids@[k] != id,
        decreases ids.len() - i,
    {
        if ids[i] == id {
            assert(ids@[i as int] == id);
            return true;
        }
        i += 1;
    }
    false
}

pub fn find_row<T: Row>(rows: &Vec<T>, id: i32) -> (r: Option<T>)
    requires
        keys_unique(rows@),
    ensures
        r == lookup(rows@, id),
{
    let mut i: usize = 0;
    while i < rows.len()
        invariant
            i <= rows.len(),
            keys_unique(rows@),
            forall|k: int| 0 <= k < i ==> rows@[k].row_id() != id,
        decreases rows.len() - i,
    {
        if rows[i].key() == id {
            proof {
                lemma_lookup_at(rows@, i as int);
            }
            return Some(rows[i].copied());
        }
        i += 1;
    }
    None
}

pub fn replace_row_in<T: Row>(rows: &mut Vec<T>, row: &T)
    ensures
        final(rows)@ == replace_row(old(rows)@, *row),
{
    let ghost start = rows@;
    let id = row.key();
    let mut i: usize = 0;
    while i < rows.len()
        invariant
            rows@.len() == start.len(),
            i <= rows.len(),
            id == row.row_id(),
            forall|k: int|
                0 <= k < i ==> rows@[k] == (if start[k].row_id() == id { *row } else { start[k] }),
            forall|k: int| i <= k < rows@.len() ==> rows@[k] == start[k],
        decreases rows.len() - i,
    {
        if rows[i].key() == id {
            rows.set(i, row.copied());
        }
        i += 1;
    }
    assert(rows@ =~= replace_row(start, *row));
}

pub fn remove_keys<T: Row>(rows: &mut Vec<T>, ids: &Vec<i32>)
    ensures
        final(rows)@ == without_keys(old(rows)@, ids@),
{
    let ghost start = rows@;
    let ghost keep = |r: T| !ids@.contains(r.row_id());
    let mut kept: Vec<T> = Vec::new();
    proof {
        reveal(Seq::filter);
        assert(start.take(0).filter(keep) =~= Seq::<T>::empty());
    }
    let mut i: usize = 0;
    while i < rows.len()
        invariant
            i <= rows.len(),
            rows@ == start,
            keep == (|r: T| !ids@.contains(r.row_id())),
            kept@ == start.take(i as int).filter(keep),
        decreases rows.len() - i,
    {
        proof {
            reveal(Seq::filter);
            assert(start.take(i + 1).drop_last() =~= start.take(i as int));
        }
        if !contains_id(ids, rows[i].key()) {
            kept.push(rows[i].copied());
        }
        i += 1;
    }
    assert(start.take(i as int) =~= start);
    *rows = kept;
}

} // verus!
