//! Patient records: creation, persistence, deletion with its index
//! cascade, listing, and sharing.

use vstd::prelude::*;

use crate::ids::fresh_id;
use crate::store::Patient;
use crate::store::PatientModel;
use crate::store::Store;
use crate::store::StoreModel;
use crate::store::seq_remove;
use crate::store::seq_set_add;
use crate::store::lemma_seq_remove_contains;
use crate::store::lemma_seq_set_add_no_duplicates;
use crate::store::vec_contains_u64;

verus! {

// ---------------------------------------------------------------------------
// Model transformers
// ---------------------------------------------------------------------------

/// The store after `p` is saved: the record stored under its id, and the
/// id made a member of the creator's patient index.
pub open spec fn save_patient_m(s: StoreModel, p: PatientModel) -> StoreModel {
    s.with_patients(s.patients.insert(p.id, p)).with_owner_index(
        s.owner_index.insert(p.creator_user_id, seq_set_add(s.owner_seq(p.creator_user_id), p.id)),
    )
}

/// `u`'s member list rid of `pid`; an account with no index keeps none.
pub open spec fn remove_entry(m: Map<u64, Seq<u64>>, u: u64, pid: u64) -> Map<u64, Seq<u64>> {
    if m.contains_key(u) {
        m.insert(u, seq_remove(m[u], pid))
    } else {
        m
    }
}

/// `pid` removed from the member list of every account in `users`.
pub open spec fn remove_from_all(m: Map<u64, Seq<u64>>, users: Seq<u64>, pid: u64) -> Map<
    u64,
    Seq<u64>,
>
    decreases users.len(),
{
    if users.len() == 0 {
        m
    } else {
        remove_from_all(remove_entry(m, users[0], pid), users.skip(1), pid)
    }
}

/// The cascade set of a delete: the creator and every shared account,
/// read from the record being deleted.
pub open spec fn cascade_users(p: PatientModel) -> Seq<u64> {
    seq![p.creator_user_id] + p.shared_with
}

/// The store after `p` is deleted: the record gone, and `p.id` removed
/// from the patient index of the creator and of every shared account.
pub open spec fn delete_patient_m(s: StoreModel, p: PatientModel) -> StoreModel {
    s.with_patients(s.patients.remove(p.id)).with_owner_index(
        remove_from_all(s.owner_index, cascade_users(p), p.id),
    )
}

/// The patient after access is granted to `u`: appended to the shared
/// list unless `u` already has access.  Granting is idempotent and the
/// creator is never listed.
pub open spec fn share_patient_m(p: PatientModel, u: u64) -> PatientModel {
    if u == p.creator_user_id {
        p
    } else {
        PatientModel { shared_with: seq_set_add(p.shared_with, u), ..p }
    }
}

/// The store after access to `pid` (created by `creator`) is granted to
/// `u`: `pid` made a member of `u`'s patient index.
pub open spec fn share_store_m(s: StoreModel, pid: u64, creator: u64, u: u64) -> StoreModel {
    if u == creator {
        s
    } else {
        s.with_owner_index(s.owner_index.insert(u, seq_set_add(s.owner_seq(u), pid)))
    }
}

/// The records under `ids` that exist in the store, in index order;
/// identifiers whose record is missing are dropped.
pub open spec fn patients_of_ids(s: StoreModel, ids: Seq<u64>) -> Seq<PatientModel>
    decreases ids.len(),
{
    if ids.len() == 0 {
        Seq::empty()
    } else if s.patients.contains_key(ids.last()) {
        patients_of_ids(s, ids.drop_last()).push(s.patients[ids.last()])
    } else {
        patients_of_ids(s, ids.drop_last())
    }
}

/// What listing the patients of `user` yields.
pub open spec fn my_patients_m(s: StoreModel, user: u64) -> Seq<PatientModel> {
    patients_of_ids(s, s.owner_seq(user))
}

/// The views of a sequence of patient records.
pub open spec fn patient_views(ps: Seq<Patient>) -> Seq<PatientModel> {
    ps.map_values(|p: Patient| p@)
}

// ---------------------------------------------------------------------------
// Lemmas on the delete cascade
// ---------------------------------------------------------------------------

pub proof fn lemma_remove_from_all_snoc(m: Map<u64, Seq<u64>>, users: Seq<u64>, u: u64, pid: u64)
    ensures
        remove_from_all(m, users.push(u), pid) == remove_entry(
            remove_from_all(m, users, pid),
            u,
            pid,
        ),
    decreases users.len(),
{
    if users.len() == 0 {
        assert(users.push(u)[0] == u);
        assert(users.push(u).skip(1) =~= Seq::<u64>::empty());
        assert(remove_from_all(m, users.push(u), pid) == remove_from_all(
            remove_entry(m, u, pid),
            Seq::<u64>::empty(),
            pid,
        ));
        assert(remove_from_all(remove_entry(m, u, pid), Seq::<u64>::empty(), pid) == remove_entry(
            m,
            u,
            pid,
        ));
        assert(remove_from_all(m, users, pid) == m);
    } else {
        let m1 = remove_entry(m, users[0], pid);
        assert(users.push(u)[0] == users[0]);
        assert(users.push(u).skip(1) =~= users.skip(1).push(u));
        assert(remove_from_all(m, users, pid) == remove_from_all(m1, users.skip(1), pid));
        assert(remove_from_all(m, users.push(u), pid) == remove_from_all(
            m1,
            users.skip(1).push(u),
            pid,
        ));
        lemma_remove_from_all_snoc(m1, users.skip(1), u, pid);
    }
}

/// What the cascade does: an account in `users` keeps no member `pid`,
/// and every other account's member list stands as it was.
pub proof fn lemma_remove_from_all_entries(m: Map<u64, Seq<u64>>, users: Seq<u64>, pid: u64)
    ensures
        forall|u: u64|
            remove_from_all(m, users, pid).contains_key(u) == #[trigger] m.contains_key(u),
        forall|u: u64|
            !users.contains(u) && m.contains_key(u) ==> #[trigger] remove_from_all(m, users, pid)[u]
                == m[u],
        forall|u: u64|
            users.contains(u) && m.contains_key(u) ==> !#[trigger] remove_from_all(
                m,
                users,
                pid,
            )[u].contains(pid),
    decreases users.len(),
{
    if users.len() > 0 {
        let u0 = users[0];
        let m1 = remove_entry(m, u0, pid);
        let rest = users.skip(1);
        lemma_remove_from_all_entries(m1, rest, pid);
        let r = remove_from_all(m, users, pid);
        assert(r == remove_from_all(m1, rest, pid));
        assert forall|u: u64| r.contains_key(u) == #[trigger] m.contains_key(u) by {
            assert(r.contains_key(u) == m1.contains_key(u));
            assert(m1.contains_key(u) == m.contains_key(u));
        }
        assert forall|u: u64| users.contains(u) && m.contains_key(u) implies !(#[trigger] r[u]).contains(
            pid,
        ) by {
            if rest.contains(u) {
                assert(m1.contains_key(u));
                assert(!r[u].contains(pid));
            } else {
                assert(u == u0) by {
                    let i = choose|i: int| 0 <= i < users.len() && users[i] == u;
                    if i > 0 {
                        assert(rest[i - 1] == u);
                    }
                }
                assert(m1[u] == seq_remove(m[u], pid));
                lemma_seq_remove_contains(m[u], pid, pid);
                assert(m1.contains_key(u));
                assert(r[u] == m1[u]);
            }
        }
        assert forall|u: u64| !users.contains(u) && m.contains_key(u) implies #[trigger] r[u]
            == m[u] by {
            assert(u != u0) by {
                if u == u0 {
                    assert(users[0] == u);
                }
            }
            assert(!rest.contains(u)) by {
                if rest.contains(u) {
                    let i = choose|i: int| 0 <= i < rest.len() && rest[i] == u;
                    assert(users[i + 1] == u);
                }
            }
            assert(m1.contains_key(u));
            assert(m1[u] == m[u]);
            assert(r[u] == m1[u]);
        }
    }
}

/// Every record a listing yields exists in the store under its own
/// identifier.
pub proof fn lemma_patients_of_ids_member(s: StoreModel, ids: Seq<u64>)
    requires
        forall|k: u64| s.patients.contains_key(k) ==> (#[trigger] s.patients[k]).id == k,
    ensures
        forall|i: int|
            0 <= i < patients_of_ids(s, ids).len() ==> s.patients.contains_key(
                (#[trigger] patients_of_ids(s, ids)[i]).id,
            ),
    decreases ids.len(),
{
    if ids.len() > 0 {
        lemma_patients_of_ids_member(s, ids.drop_last());
        let prev = patients_of_ids(s, ids.drop_last());
        let whole = patients_of_ids(s, ids);
        assert forall|i: int| 0 <= i < whole.len() implies s.patients.contains_key(
            (#[trigger] whole[i]).id,
        ) by {
            if i < prev.len() {
                assert(whole[i] == prev[i]);
            }
        }
    }
}

// ---------------------------------------------------------------------------
// Laws
// ---------------------------------------------------------------------------

/// Sharing a patient with an account and then deleting the patient
/// removes its id from the patient index of the creator and of that
/// account, and listings for either no longer include the record.
pub proof fn lemma_share_then_delete(s: StoreModel, p: PatientModel, u: u64)
    requires
        s.inv(),
        p.wf(),
    ensures
        ({
            let p1 = share_patient_m(p, u);
            let s2 = delete_patient_m(
                save_patient_m(share_store_m(s, p.id, p.creator_user_id, u), p1),
                p1,
            );
            &&& !s2.owner_seq(p.creator_user_id).contains(p.id)
            &&& !s2.owner_seq(u).contains(p.id)
            &&& forall|i: int|
                0 <= i < my_patients_m(s2, p.creator_user_id).len() ==> (#[trigger] my_patients_m(
                    s2,
                    p.creator_user_id,
                )[i]).id != p.id
            &&& forall|i: int|
                0 <= i < my_patients_m(s2, u).len() ==> (#[trigger] my_patients_m(s2, u)[i]).id
                    != p.id
        }),
{
    let p1 = share_patient_m(p, u);
    let sa = share_store_m(s, p.id, p.creator_user_id, u);
    let s1 = save_patient_m(sa, p1);
    let s2 = delete_patient_m(s1, p1);
    assert(p1.id == p.id);
    assert(p1.creator_user_id == p.creator_user_id);
    let cascade = cascade_users(p1);
    lemma_remove_from_all_entries(s1.owner_index, cascade, p.id);
    assert(s2.owner_index == remove_from_all(s1.owner_index, cascade, p1.id));
    assert(cascade.contains(p.creator_user_id)) by {
        assert(cascade[0] == p1.creator_user_id);
    }
    assert(cascade.contains(u)) by {
        if u == p.creator_user_id {
            assert(cascade[0] == u);
        } else {
            lemma_seq_set_add_no_duplicates(p.shared_with, u);
            assert(p1.shared_with.contains(u));
            let j = choose|j: int| 0 <= j < p1.shared_with.len() && p1.shared_with[j] == u;
            assert(cascade[1 + j] == u);
        }
    }
    assert(!s2.owner_seq(p.creator_user_id).contains(p.id)) by {
        if s1.owner_index.contains_key(p.creator_user_id) {
            assert(!remove_from_all(s1.owner_index, cascade, p.id)[p.creator_user_id].contains(
                p.id,
            ));
        }
    }
    assert(!s2.owner_seq(u).contains(p.id)) by {
        if s1.owner_index.contains_key(u) {
            assert(!remove_from_all(s1.owner_index, cascade, p.id)[u].contains(p.id));
        }
    }
    assert(forall|k: u64| s2.patients.contains_key(k) ==> (#[trigger] s2.patients[k]).id == k) by {
        assert(forall|k: u64|
            s1.patients.contains_key(k) ==> (#[trigger] s1.patients[k]).id == k) by {
            assert(s1.patients == s.patients.insert(p.id, p1));
        }
    }
    assert(!s2.patients.contains_key(p.id));
    lemma_patients_of_ids_member(s2, s2.owner_seq(p.creator_user_id));
    lemma_patients_of_ids_member(s2, s2.owner_seq(u));
    assert forall|i: int| 0 <= i < my_patients_m(s2, p.creator_user_id).len() implies (
    #[trigger] my_patients_m(s2, p.creator_user_id)[i]).id != p.id by {
        if my_patients_m(s2, p.creator_user_id)[i].id == p.id {
            assert(s2.patients.contains_key(p.id));
        }
    }
    assert forall|i: int| 0 <= i < my_patients_m(s2, u).len() implies (#[trigger] my_patients_m(
        s2,
        u,
    )[i]).id != p.id by {
        if my_patients_m(s2, u)[i].id == p.id {
            assert(s2.patients.contains_key(p.id));
        }
    }
}

// ---------------------------------------------------------------------------
// Operations
// ---------------------------------------------------------------------------

impl Patient {
    /// A new patient named `name`, owned by `user_id`, under a fresh
    /// identifier, shared with nobody.
    pub fn new(name: String, user_id: u64) -> (r: Patient)
        ensures
            r@.name == name@,
            r@.creator_user_id == user_id,
            r@.shared_with == Seq::<u64>::empty(),
            r@.wf(),
    {
        Patient { id: fresh_id(), name, creator_user_id: user_id, shared_with: Vec::new() }
    }

    /// Persist the record and index it under the creator's account.
    pub fn save(&self, store: &mut Store)
        requires
            self@.wf(),
            old(store)@.inv(),
        ensures
            final(store)@ == save_patient_m(old(store)@, self@),
            final(store)@.inv(),
    {
        store.put_patient(self.clone());
        store.owner_index_add(self.creator_user_id, self.id);
    }

    /// Delete the record and remove its id from the patient index of the
    /// creator and of every account it was shared with.
    pub fn delete(&self, store: &mut Store)
        requires
            old(store)@.inv(),
        ensures
            final(store)@ == delete_patient_m(old(store)@, self@),
            final(store)@.inv(),
    {
        let ghost s0 = store@;
        let ghost cascade = cascade_users(self@);
        store.del_patient(self.id);
        store.owner_index_remove(self.creator_user_id, self.id);
        proof {
            assert(cascade.subrange(0, 1) =~= Seq::<u64>::empty().push(self@.creator_user_id));
            lemma_remove_from_all_snoc(s0.owner_index, Seq::<u64>::empty(), self@.creator_user_id, self@.id);
            assert(store@ == s0.with_patients(s0.patients.remove(self@.id)).with_owner_index(
                remove_from_all(s0.owner_index, cascade.subrange(0, 1), self@.id),
            ));
        }
        let mut i: usize = 0;
        while i < self.shared_with.len()
            invariant
                i <= self.shared_with@.len(),
                cascade == cascade_users(self@),
                cascade.len() == 1 + self.shared_with@.len(),
                store@.inv(),
                store@ == s0.with_patients(s0.patients.remove(self@.id)).with_owner_index(
                    remove_from_all(s0.owner_index, cascade.subrange(0, 1 + i as int), self@.id),
                ),
            decreases self.shared_with@.len() - i,
        {
            let ghost before = store@;
            let u = self.shared_with[i];
            store.owner_index_remove(u, self.id);
            proof {
                assert(cascade.subrange(0, 1 + i as int + 1) =~= cascade.subrange(
                    0,
                    1 + i as int,
                ).push(self.shared_with@[i as int]));
                lemma_remove_from_all_snoc(
                    s0.owner_index,
                    cascade.subrange(0, 1 + i as int),
                    self.shared_with@[i as int],
                    self@.id,
                );
                assert(store@ == before.with_owner_index(
                    remove_entry(before.owner_index, u, self@.id),
                ));
            }
            i += 1;
        }
        proof {
            assert(cascade.subrange(0, 1 + self.shared_with@.len() as int) =~= cascade);
        }
    }

    /// Fetch the patient stored under `patient_id`.
    pub fn get_by_id(patient_id: u64, store: &Store) -> (r: Option<Patient>)
        ensures
            match r {
                Some(p) => store@.patients.contains_key(patient_id) && p@
                    == store@.patients[patient_id],
                None => !store@.patients.contains_key(patient_id),
            },
    {
        store.get_patient(patient_id)
    }

    /// The patients of `user_id`'s index whose record exists, in index
    /// order; stale identifiers are silently dropped.
    pub fn get_my_patients(user_id: u64, store: &Store) -> (r: Vec<Patient>)
        ensures
            patient_views(r@) == my_patients_m(store@, user_id),
    {
        let ids = store.owner_index_members(user_id);
        let mut out: Vec<Patient> = Vec::new();
        let mut i: usize = 0;
        proof {
            assert(ids@.subrange(0, 0) =~= Seq::<u64>::empty());
            assert(patient_views(out@) =~= patients_of_ids(store@, ids@.subrange(0, 0)));
        }
        while i < ids.len()
            invariant
                i <= ids@.len(),
                ids@ == store@.owner_seq(user_id),
                patient_views(out@) == patients_of_ids(store@, ids@.subrange(0, i as int)),
            decreases ids@.len() - i,
        {
            proof {
                assert(ids@.subrange(0, i as int + 1).drop_last() =~= ids@.subrange(0, i as int));
                assert(ids@.subrange(0, i as int + 1).last() == ids@[i as int]);
            }
            match store.get_patient(ids[i]) {
                Some(p) => {
                    let ghost prev = out@;
                    let ghost psnap: Patient = p;
                    out.push(p);
                    proof {
                        assert(patient_views(prev.push(psnap)) =~= patient_views(prev).push(
                            psnap@,
                        ));
                    }
                },
                None => {},
            }
            i += 1;
        }
        proof {
            assert(ids@.subrange(0, i as int) =~= ids@);
        }
        out
    }

    /// Whether `user` may act on this patient: the creator always may,
    /// and so does every account in the shared list.
    pub fn has_access(&self, user: u64) -> (b: bool)
        ensures
            b == self@.has_access(user),
    {
        user == self.creator_user_id || vec_contains_u64(&self.shared_with, user)
    }

    /// Grant `telegram_user_id` access: record it in the shared list and
    /// index the patient under that account.  Granting to the creator or
    /// to an already-shared account changes nothing in the record.
    pub fn share(&mut self, telegram_user_id: u64, store: &mut Store)
        requires
            old(self)@.wf(),
            old(store)@.inv(),
        ensures
            final(self)@ == share_patient_m(old(self)@, telegram_user_id),
            final(self)@.wf(),
            final(self)@.id == old(self)@.id,
            final(store)@ == share_store_m(
                old(store)@,
                old(self)@.id,
                old(self)@.creator_user_id,
                telegram_user_id,
            ),
            final(store)@.inv(),
    {
        if telegram_user_id == self.creator_user_id {
            return ;
        }
        store.owner_index_add(telegram_user_id, self.id);
        proof {
            lemma_seq_set_add_no_duplicates(self.shared_with@, telegram_user_id);
        }
        if !vec_contains_u64(&self.shared_with, telegram_user_id) {
            self.shared_with.push(telegram_user_id);
        }
    }
}

} // verus!
