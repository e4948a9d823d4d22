//! The key-value repository: typed patient and medication records,
//! per-account and per-patient index sets, append-only intake logs, and
//! per-account timezone settings.
//!
//! The executable store is a set of hash maps keyed by numeric
//! identifiers; its mathematical model is a record of `Map`s over the
//! views of the stored values.

use vstd::prelude::*;
use std::collections::HashMap;

use crate::frequency::Frequency;

verus! {

// ---------------------------------------------------------------------------
// Records
// ---------------------------------------------------------------------------

/// A patient: owned by its creator account, optionally shared with others.
#[derive(Debug, PartialEq)]
pub struct Patient {
    pub id: u64,
    pub name: String,
    pub creator_user_id: u64,
    pub shared_with: Vec<u64>,
}

pub ghost struct PatientModel {
    pub id: u64,
    pub name: Seq<char>,
    pub creator_user_id: u64,
    pub shared_with: Seq<u64>,
}

impl View for Patient {
    type V = PatientModel;

    open spec fn view(&self) -> PatientModel {
        PatientModel {
            id: self.id,
            name: self.name@,
            creator_user_id: self.creator_user_id,
            shared_with: self.shared_with@,
        }
    }
}

impl PatientModel {
    /// The accounts granted access never repeat and never list the creator,
    /// who has access by construction.
    pub open spec fn wf(self) -> bool {
        &&& self.shared_with.no_duplicates()
        &&& !self.shared_with.contains(self.creator_user_id)
    }

    /// The accounts with access: the creator and everyone shared with.
    pub open spec fn has_access(self, user: u64) -> bool {
        user == self.creator_user_id || self.shared_with.contains(user)
    }
}

impl Clone for Patient {
    fn clone(&self) -> (r: Self)
        ensures
            r@ == self@,
    {
        Patient {
            id: self.id,
            name: self.name.clone(),
            creator_user_id: self.creator_user_id,
            shared_with: clone_copy_vec(&self.shared_with),
        }
    }
}

/// A dosing plan for one medicine of one patient.
#[derive(Debug, PartialEq)]
pub struct Medication {
    pub id: u64,
    pub patient_id: u64,
    pub medicine: String,
    pub dosage: String,
    pub frequency: Frequency,
    pub user_id: u64,
    pub last_taken: Option<i64>,
    pub patient_name: Option<String>,
}

pub ghost struct MedicationModel {
    pub id: u64,
    pub patient_id: u64,
    pub medicine: Seq<char>,
    pub dosage: Seq<char>,
    pub frequency: Frequency,
    pub user_id: u64,
    pub last_taken: Option<i64>,
    pub patient_name: Option<Seq<char>>,
}

impl View for Medication {
    type V = MedicationModel;

    open spec fn view(&self) -> MedicationModel {
        MedicationModel {
            id: self.id,
            patient_id: self.patient_id,
            medicine: self.medicine@,
            dosage: self.dosage@,
            frequency: self.frequency,
            user_id: self.user_id,
            last_taken: self.last_taken,
            patient_name: match self.patient_name {
                Some(ref n) => Some(n@),
                None => None,
            },
        }
    }
}

impl MedicationModel {
    pub open spec fn wf(self) -> bool {
        self.frequency.wf()
    }
}

impl Clone for Medication {
    fn clone(&self) -> (r: Self)
        ensures
            r@ == self@,
    {
        Medication {
            id: self.id,
            patient_id: self.patient_id,
            medicine: self.medicine.clone(),
            dosage: self.dosage.clone(),
            frequency: self.frequency,
            user_id: self.user_id,
            last_taken: self.last_taken,
            patient_name: match self.patient_name {
                Some(ref n) => Some(n.clone()),
                None => None,
            },
        }
    }
}

fn clone_copy_vec<T: Copy>(v: &Vec<T>) -> (r: Vec<T>)
    ensures
        r@ == v@,
{
    let mut r: Vec<T> = Vec::new();
    let mut i: usize = 0;
    while i < v.len()
        invariant
            i <= v@.len(),
            r@ == v@.subrange(0, i as int),
        decreases v@.len() - i,
    {
        r.push(v[i]);
        proof {
            assert(v@.subrange(0, i as int).push(v@[i as int]) =~= v@.subrange(0, i as int + 1));
        }
        i += 1;
    }
    proof {
        assert(v@.subrange(0, i as int) =~= v@);
    }
    r
}

/// Whether `v` holds `x`.
pub fn vec_contains_u64(v: &Vec<u64>, x: u64) -> (b: bool)
    ensures
        b == v@.contains(x),
{
    let mut i: usize = 0;
    while i < v.len()
        invariant
            i <= v@.len(),
            forall|j: int| 0 <= j < i ==> v@[j] != x,
        decreases v@.len() - i,
    {
        if v[i] == x {
            return true;
        }
        i += 1;
    }
    false
}

// ---------------------------------------------------------------------------
// Small sequence-as-set helpers
// ---------------------------------------------------------------------------

/// Add `x` to the member list `s` unless it is already there.
pub open spec fn seq_set_add(s: Seq<u64>, x: u64) -> Seq<u64> {
    if s.contains(x) {
        s
    } else {
        s.push(x)
    }
}

/// Drop every occurrence of `x` from `s`, keeping the order of the rest.
pub open spec fn seq_remove(s: Seq<u64>, x: u64) -> Seq<u64>
    decreases s.len(),
{
    if s.len() == 0 {
        Seq::empty()
    } else if s.last() == x {
        seq_remove(s.drop_last(), x)
    } else {
        seq_remove(s.drop_last(), x).push(s.last())
    }
}

pub proof fn lemma_seq_remove_contains(s: Seq<u64>, x: u64, y: u64)
    ensures
        seq_remove(s, x).contains(y) == (s.contains(y) && y != x),
    decreases s.len(),
{
    if s.len() == 0 {
    } else {
        lemma_seq_remove_contains(s.drop_last(), x, y);
        assert(s.contains(y) == (s.drop_last().contains(y) || s.last() == y)) by {
            if s.contains(y) {
                let i = choose|i: int| 0 <= i < s.len() && s[i] == y;
                if i < s.len() - 1 {
                    assert(s.drop_last()[i] == y);
                }
            }
            if s.drop_last().contains(y) {
                let i = choose|i: int| 0 <= i < s.drop_last().len() && s.drop_last()[i] == y;
                assert(s[i] == y);
            }
        }
        if s.last() != x {
            let r = seq_remove(s.drop_last(), x);
            assert(r.push(s.last()).contains(y) == (r.contains(y) || s.last() == y)) by {
                if r.contains(y) {
                    let i = choose|i: int| 0 <= i < r.len() && r[i] == y;
                    assert(r.push(s.last())[i] == y);
                }
                if s.last() == y {
                    assert(r.push(s.last())[r.len() as int] == y);
                }
                if r.push(s.last()).contains(y) {
                    let i = choose|i: int| 0 <= i < r.push(s.last()).len() && r.push(s.last())[i]
                        == y;
                    if i < r.len() {
                        assert(r[i] == y);
                    }
                }
            }
        }
    }
}

pub proof fn lemma_seq_remove_no_duplicates(s: Seq<u64>, x: u64)
    requires
        s.no_duplicates(),
    ensures
        seq_remove(s, x).no_duplicates(),
    decreases s.len(),
{
    if s.len() > 0 {
        assert(s.drop_last().no_duplicates());
        lemma_seq_remove_no_duplicates(s.drop_last(), x);
        if s.last() != x {
            let r = seq_remove(s.drop_last(), x);
            lemma_seq_remove_contains(s.drop_last(), x, s.last());
            assert(!s.drop_last().contains(s.last())) by {
                if s.drop_last().contains(s.last()) {
                    let i = choose|i: int|
                        0 <= i < s.drop_last().len() && s.drop_last()[i] == s.last();
                    assert(s[i] == s[s.len() - 1]);
                }
            }
            assert(!r.contains(s.last()));
            assert(r.push(s.last()).no_duplicates()) by {
                assert forall|i: int, j: int|
                    0 <= i < r.push(s.last()).len() && 0 <= j < r.push(s.last()).len() && i
                        != j implies r.push(s.last())[i] != r.push(s.last())[j] by {
                    if i < r.len() && j < r.len() {
                    } else if i < r.len() {
                        assert(r[i] == r.push(s.last())[i]);
                        if r[i] == s.last() {
                            assert(r.contains(s.last()));
                        }
                    } else if j < r.len() {
                        assert(r[j] == r.push(s.last())[j]);
                        if r[j] == s.last() {
                            assert(r.contains(s.last()));
                        }
                    }
                }
            }
        }
    }
}

pub proof fn lemma_seq_set_add_no_duplicates(s: Seq<u64>, x: u64)
    requires
        s.no_duplicates(),
    ensures
        seq_set_add(s, x).no_duplicates(),
        seq_set_add(s, x).contains(x),
        forall|y: u64| seq_set_add(s, x).contains(y) == (s.contains(y) || y == x),
{
    if s.contains(x) {
        assert(forall|y: u64| seq_set_add(s, x).contains(y) == (s.contains(y) || y == x));
    } else {
        let r = s.push(x);
        assert(r[s.len() as int] == x);
        assert forall|y: u64| r.contains(y) == (s.contains(y) || y == x) by {
            if s.contains(y) {
                let i = choose|i: int| 0 <= i < s.len() && s[i] == y;
                assert(r[i] == y);
            }
            if r.contains(y) && y != x {
                let i = choose|i: int| 0 <= i < r.len() && r[i] == y;
                assert(i < s.len());
                assert(s[i] == y);
            }
        }
        assert(r.no_duplicates()) by {
            assert forall|i: int, j: int|
                0 <= i < r.len() && 0 <= j < r.len() && i != j implies r[i] != r[j] by {
                if i < s.len() && j < s.len() {
                } else if i < s.len() {
                    if r[i] == x {
                        assert(s.contains(x)) by {
                            assert(s[i] == x);
                        }
                    }
                } else if j < s.len() {
                    if r[j] == x {
                        assert(s.contains(x)) by {
                            assert(s[j] == x);
                        }
                    }
                }
            }
        }
    }
}

// ---------------------------------------------------------------------------
// The store and its model
// ---------------------------------------------------------------------------

pub ghost struct StoreModel {
    pub patients: Map<u64, PatientModel>,
    pub medications: Map<u64, MedicationModel>,
    pub owner_index: Map<u64, Seq<u64>>,
    pub med_index: Map<u64, Seq<u64>>,
    pub intake_logs: Map<u64, Seq<i64>>,
    pub timezones: Map<u64, Seq<char>>,
}

/// The view of a map of viewable values.
pub open spec fn views_map<V: View>(m: Map<u64, V>) -> Map<u64, V::V> {
    m.map_values(|v: V| v@)
}

pub proof fn lemma_views_map_insert<V: View>(m: Map<u64, V>, k: u64, v: V)
    ensures
        views_map(m.insert(k, v)) == views_map(m).insert(k, v@),
{
    assert(views_map(m.insert(k, v)) =~= views_map(m).insert(k, v@));
}

pub proof fn lemma_views_map_remove<V: View>(m: Map<u64, V>, k: u64)
    ensures
        views_map(m.remove(k)) == views_map(m).remove(k),
{
    assert(views_map(m.remove(k)) =~= views_map(m).remove(k));
}

pub proof fn lemma_views_map_empty<V: View>()
    ensures
        views_map(Map::<u64, V>::empty()) == Map::<u64, V::V>::empty(),
{
    assert(views_map(Map::<u64, V>::empty()) =~= Map::<u64, V::V>::empty());
}

impl StoreModel {
    /// The member list of `user`'s patient index.
    pub open spec fn owner_seq(self, user: u64) -> Seq<u64> {
        if self.owner_index.contains_key(user) {
            self.owner_index[user]
        } else {
            Seq::empty()
        }
    }

    /// The member list of `patient`'s medication index.
    pub open spec fn med_seq(self, patient: u64) -> Seq<u64> {
        if self.med_index.contains_key(patient) {
            self.med_index[patient]
        } else {
            Seq::empty()
        }
    }

    /// The intake log of `medication`, oldest first.
    pub open spec fn log_seq(self, medication: u64) -> Seq<i64> {
        if self.intake_logs.contains_key(medication) {
            self.intake_logs[medication]
        } else {
            Seq::empty()
        }
    }

    /// The timezone setting of `user`, if any.
    pub open spec fn timezone_of(self, user: u64) -> Option<Seq<char>> {
        if self.timezones.contains_key(user) {
            Some(self.timezones[user])
        } else {
            None
        }
    }

    /// The model of a store with nothing in it.
    pub open spec fn empty() -> StoreModel {
        StoreModel {
            patients: Map::<u64, PatientModel>::empty(),
            medications: Map::<u64, MedicationModel>::empty(),
            owner_index: Map::<u64, Seq<u64>>::empty(),
            med_index: Map::<u64, Seq<u64>>::empty(),
            intake_logs: Map::<u64, Seq<i64>>::empty(),
            timezones: Map::<u64, Seq<char>>::empty(),
        }
    }

    pub open spec fn with_patients(self, m: Map<u64, PatientModel>) -> StoreModel {
        StoreModel { patients: m, ..self }
    }

    pub open spec fn with_medications(self, m: Map<u64, MedicationModel>) -> StoreModel {
        StoreModel { medications: m, ..self }
    }

    pub open spec fn with_owner_index(self, m: Map<u64, Seq<u64>>) -> StoreModel {
        StoreModel { owner_index: m, ..self }
    }

    pub open spec fn with_med_index(self, m: Map<u64, Seq<u64>>) -> StoreModel {
        StoreModel { med_index: m, ..self }
    }

    pub open spec fn with_intake_logs(self, m: Map<u64, Seq<i64>>) -> StoreModel {
        StoreModel { intake_logs: m, ..self }
    }

    pub open spec fn with_timezones(self, m: Map<u64, Seq<char>>) -> StoreModel {
        StoreModel { timezones: m, ..self }
    }

    /// Every record is keyed by its own identifier and well formed, and
    /// index member lists never repeat an entry.
    pub open spec fn inv(self) -> bool {
        &&& forall|k: u64|
            self.patients.contains_key(k) ==> (#[trigger] self.patients[k]).wf()
                && self.patients[k].id == k
        &&& forall|k: u64|
            self.medications.contains_key(k) ==> (#[trigger] self.medications[k]).wf()
                && self.medications[k].id == k
        &&& forall|k: u64| self.owner_index.contains_key(k) ==> (#[trigger] self.owner_index[k]).no_duplicates()
        &&& forall|k: u64| self.med_index.contains_key(k) ==> (#[trigger] self.med_index[k]).no_duplicates()
    }
}

/// The backing store: records, indexes, logs and settings.
pub struct Store {
    patients: HashMap<u64, Patient>,
    medications: HashMap<u64, Medication>,
    owner_index: HashMap<u64, Vec<u64>>,
    med_index: HashMap<u64, Vec<u64>>,
    intake_logs: HashMap<u64, Vec<i64>>,
    timezones: HashMap<u64, String>,
}

impl View for Store {
    type V = StoreModel;

    closed spec fn view(&self) -> StoreModel {
        StoreModel {
            patients: views_map(self.patients@),
            medications: views_map(self.medications@),
            owner_index: views_map(self.owner_index@),
            med_index: views_map(self.med_index@),
            intake_logs: views_map(self.intake_logs@),
            timezones: views_map(self.timezones@),
        }
    }
}

impl Store {
    /// An empty store.
    pub fn new() -> (r: Store)
        ensures
            r@ == StoreModel::empty(),
            r@.inv(),
    {
        let r = Store {
            patients: HashMap::new(),
            medications: HashMap::new(),
            owner_index: HashMap::new(),
            med_index: HashMap::new(),
            intake_logs: HashMap::new(),
            timezones: HashMap::new(),
        };
        proof {
            lemma_views_map_empty::<Patient>();
            lemma_views_map_empty::<Medication>();
            lemma_views_map_empty::<Vec<u64>>();
            lemma_views_map_empty::<Vec<i64>>();
            lemma_views_map_empty::<String>();
        }
        r
    }

    /// Fetch the patient record under `id`.
    pub fn get_patient(&self, id: u64) -> (r: Option<Patient>)
        ensures
            match r {
                Some(p) => self@.patients.contains_key(id) && p@ == self@.patients[id],
                None => !self@.patients.contains_key(id),
            },
    {
        match self.patients.get(&id) {
            Some(p) => Some(p.clone()),
            None => None,
        }
    }

    /// Store (or overwrite) the patient record under its own identifier.
    pub fn put_patient(&mut self, p: Patient)
        requires
            p@.wf(),
            old(self)@.inv(),
        ensures
            final(self)@ == old(self)@.with_patients(old(self)@.patients.insert(p.id, p@)),
            final(self)@.inv(),
    {
        let ghost om = self@;
        let ghost m = self.patients@;
        let ghost psnap: Patient = p;
        self.patients.insert(p.id, p);
        proof {
            lemma_views_map_insert(m, psnap.id, psnap);
            let newm = om.patients.insert(psnap.id, psnap@);
            assert forall|k: u64| newm.contains_key(k) implies (#[trigger] newm[k]).wf()
                && newm[k].id == k by {
                if k != psnap.id {
                    assert(om.patients.contains_key(k));
                    assert(newm[k] == om.patients[k]);
                }
            }
        }
    }

    /// Remove the patient record under `id`, if any.
    pub fn del_patient(&mut self, id: u64)
        requires
            old(self)@.inv(),
        ensures
            final(self)@ == old(self)@.with_patients(old(self)@.patients.remove(id)),
            final(self)@.inv(),
    {
        let ghost om = self@;
        let ghost m = self.patients@;
        self.patients.remove(&id);
        proof {
            lemma_views_map_remove(m, id);
            let newm = om.patients.remove(id);
            assert forall|k: u64| newm.contains_key(k) implies (#[trigger] newm[k]).wf()
                && newm[k].id == k by {
                assert(om.patients.contains_key(k));
                assert(newm[k] == om.patients[k]);
            }
        }
    }

    /// Fetch the medication record under `id`.
    pub fn get_medication(&self, id: u64) -> (r: Option<Medication>)
        ensures
            match r {
                Some(m) => self@.medications.contains_key(id) && m@ == self@.medications[id],
                None => !self@.medications.contains_key(id),
            },
    {
        match self.medications.get(&id) {
            Some(m) => Some(m.clone()),
            None => None,
        }
    }

    /// Store (or overwrite) the medication record under its own identifier.
    pub fn put_medication(&mut self, m: Medication)
        requires
            m@.wf(),
            old(self)@.inv(),
        ensures
            final(self)@ == old(self)@.with_medications(
                old(self)@.medications.insert(m.id, m@),
            ),
            final(self)@.inv(),
    {
        let ghost om = self@;
        let ghost mm = self.medications@;
        let ghost msnap: Medication = m;
        self.medications.insert(m.id, m);
        proof {
            lemma_views_map_insert(mm, msnap.id, msnap);
            let newm = om.medications.insert(msnap.id, msnap@);
            assert forall|k: u64| newm.contains_key(k) implies (#[trigger] newm[k]).wf()
                && newm[k].id == k by {
                if k != msnap.id {
                    assert(om.medications.contains_key(k));
                    assert(newm[k] == om.medications[k]);
                }
            }
            assert(self@ == om.with_medications(newm));
            assert(self@.inv());
        }
    }

    /// Add `pid` to `user`'s patient index, if it is not already a member.
    pub fn owner_index_add(&mut self, user: u64, pid: u64)
        requires
            old(self)@.inv(),
        ensures
            final(self)@ == old(self)@.with_owner_index(
                old(self)@.owner_index.insert(user, seq_set_add(old(self)@.owner_seq(user), pid)),
            ),
            final(self)@.inv(),
    {
        let ghost om = self@;
        let mut v: Vec<u64> = match self.owner_index.get(&user) {
            Some(x) => clone_copy_vec(x),
            None => Vec::new(),
        };
        if !vec_contains_u64(&v, pid) {
            v.push(pid);
        }
        proof {
            assert(v@ == seq_set_add(om.owner_seq(user), pid));
        }
        let ghost m = self.owner_index@;
        let ghost vsnap: Vec<u64> = v;
        self.owner_index.insert(user, v);
        proof {
            lemma_views_map_insert(m, user, vsnap);
            lemma_seq_set_add_no_duplicates(om.owner_seq(user), pid);
            let newm = om.owner_index.insert(user, seq_set_add(om.owner_seq(user), pid));
            assert forall|k: u64| newm.contains_key(k) implies (#[trigger] newm[k]).no_duplicates() by {
                if k != user {
                    assert(om.owner_index.contains_key(k));
                    assert(newm[k] == om.owner_index[k]);
                }
            }
            assert(self@ == om.with_owner_index(newm));
            assert(self@.inv());
        }
    }

    /// Remove `pid` from `user`'s patient index; absent indexes stay absent.
    pub fn owner_index_remove(&mut self, user: u64, pid: u64)
        requires
            old(self)@.inv(),
        ensures
            old(self)@.owner_index.contains_key(user) ==> final(self)@ == old(
                self,
            )@.with_owner_index(
                old(self)@.owner_index.insert(user, seq_remove(old(self)@.owner_seq(user), pid)),
            ),
            !old(self)@.owner_index.contains_key(user) ==> final(self)@ == old(self)@,
            final(self)@.inv(),
    {
        let ghost om = self@;
        let xs: Vec<u64> = match self.owner_index.get(&user) {
            Some(x) => clone_copy_vec(x),
            None => {
                return ;
            },
        };
        let out = remove_all_u64(&xs, pid);
        let ghost m = self.owner_index@;
        let ghost osnap: Vec<u64> = out;
        self.owner_index.insert(user, out);
        proof {
            lemma_views_map_insert(m, user, osnap);
            lemma_seq_remove_no_duplicates(om.owner_seq(user), pid);
            let newm = om.owner_index.insert(user, seq_remove(om.owner_seq(user), pid));
            assert forall|k: u64| newm.contains_key(k) implies (#[trigger] newm[k]).no_duplicates() by {
                if k != user {
                    assert(om.owner_index.contains_key(k));
                    assert(newm[k] == om.owner_index[k]);
                }
            }
            assert(self@ == om.with_owner_index(newm));
            assert(self@.inv());
        }
    }

    /// The member list of `user`'s patient index.
    pub fn owner_index_members(&self, user: u64) -> (r: Vec<u64>)
        ensures
            r@ == self@.owner_seq(user),
    {
        match self.owner_index.get(&user) {
            Some(x) => clone_copy_vec(x),
            None => Vec::new(),
        }
    }

    /// Add `mid` to `patient`'s medication index, if it is not already a member.
    pub fn med_index_add(&mut self, patient: u64, mid: u64)
        requires
            old(self)@.inv(),
        ensures
            final(self)@ == old(self)@.with_med_index(
                old(self)@.med_index.insert(patient, seq_set_add(old(self)@.med_seq(patient), mid)),
            ),
            final(self)@.inv(),
    {
        let ghost om = self@;
        let mut v: Vec<u64> = match self.med_index.get(&patient) {
            Some(x) => clone_copy_vec(x),
            None => Vec::new(),
        };
        if !vec_contains_u64(&v, mid) {
            v.push(mid);
        }
        proof {
            assert(v@ == seq_set_add(om.med_seq(patient), mid));
        }
        let ghost m = self.med_index@;
        let ghost vsnap: Vec<u64> = v;
        self.med_index.insert(patient, v);
        proof {
            lemma_views_map_insert(m, patient, vsnap);
            lemma_seq_set_add_no_duplicates(om.med_seq(patient), mid);
            let newm = om.med_index.insert(patient, seq_set_add(om.med_seq(patient), mid));
            assert forall|k: u64| newm.contains_key(k) implies (#[trigger] newm[k]).no_duplicates() by {
                if k != patient {
                    assert(om.med_index.contains_key(k));
                    assert(newm[k] == om.med_index[k]);
                }
            }
            assert(self@ == om.with_med_index(newm));
            assert(self@.inv());
        }
    }

    /// The member list of `patient`'s medication index.
    pub fn med_index_members(&self, patient: u64) -> (r: Vec<u64>)
        ensures
            r@ == self@.med_seq(patient),
    {
        match self.med_index.get(&patient) {
            Some(x) => clone_copy_vec(x),
            None => Vec::new(),
        }
    }

    /// Append `ts` to `medication`'s intake log.
    pub fn log_append(&mut self, medication: u64, ts: i64)
        requires
            old(self)@.inv(),
        ensures
            final(self)@ == old(self)@.with_intake_logs(
                old(self)@.intake_logs.insert(medication, old(self)@.log_seq(medication).push(ts)),
            ),
            final(self)@.inv(),
    {
        let mut v: Vec<i64> = match self.intake_logs.get(&medication) {
            Some(x) => clone_copy_vec(x),
            None => Vec::new(),
        };
        v.push(ts);
        let ghost om = self@;
        let ghost m = self.intake_logs@;
        let ghost vsnap: Vec<i64> = v;
        self.intake_logs.insert(medication, v);
        proof {
            lemma_views_map_insert(m, medication, vsnap);
            assert(self@ == om.with_intake_logs(om.intake_logs.insert(medication, vsnap@)));
            assert(self@.inv());
        }
    }

    /// The most recent entries of `medication`'s intake log, newest first,
    /// at most `limit` of them.
    pub fn log_read(&self, medication: u64, limit: usize) -> (r: Vec<i64>)
        ensures
            r@ == recent_log(self@.log_seq(medication), limit as int),
    {
        let xs: Vec<i64> = match self.intake_logs.get(&medication) {
            Some(x) => clone_copy_vec(x),
            None => Vec::new(),
        };
        let n = xs.len();
        let mut out: Vec<i64> = Vec::new();
        let mut k: usize = 0;
        while k < limit && k < n
            invariant
                k <= n,
                k <= limit,
                n == xs@.len(),
                out@.len() == k,
                forall|i: int| 0 <= i < k ==> out@[i] == xs@[xs@.len() - 1 - i],
            decreases n - k,
        {
            out.push(xs[n - 1 - k]);
            k += 1;
        }
        proof {
            assert(out@ =~= recent_log(xs@, limit as int));
        }
        out
    }

    /// The timezone setting of `user`, if one was stored.
    pub fn timezone_get(&self, user: u64) -> (r: Option<String>)
        ensures
            match r {
                Some(tz) => self@.timezone_of(user) == Some(tz@),
                None => self@.timezone_of(user) is None,
            },
    {
        match self.timezones.get(&user) {
            Some(tz) => Some(tz.clone()),
            None => None,
        }
    }

    /// Store `user`'s timezone setting.
    pub fn timezone_set(&mut self, user: u64, tz: String)
        requires
            old(self)@.inv(),
        ensures
            final(self)@ == old(self)@.with_timezones(old(self)@.timezones.insert(user, tz@)),
            final(self)@.inv(),
    {
        let ghost om = self@;
        let ghost m = self.timezones@;
        let ghost tsnap: String = tz;
        self.timezones.insert(user, tz);
        proof {
            lemma_views_map_insert(m, user, tsnap);
            assert(self@ == om.with_timezones(om.timezones.insert(user, tsnap@)));
            assert(self@.inv());
        }
    }
}

/// The most recent `limit` entries of `s`, newest first.
pub open spec fn recent_log(s: Seq<i64>, limit: int) -> Seq<i64> {
    let n = if limit <= s.len() {
        limit
    } else {
        s.len() as int
    };
    Seq::new(n as nat, |i: int| s[s.len() - 1 - i])
}

/// Every occurrence of `x` dropped from `v`.
fn remove_all_u64(v: &Vec<u64>, x: u64) -> (r: Vec<u64>)
    ensures
        r@ == seq_remove(v@, x),
{
    let mut r: Vec<u64> = Vec::new();
    let mut i: usize = 0;
    while i < v.len()
        invariant
            i <= v@.len(),
            r@ == seq_remove(v@.subrange(0, i as int), x),
        decreases v@.len() - i,
    {
        proof {
            assert(v@.subrange(0, i as int + 1).drop_last() =~= v@.subrange(0, i as int));
            assert(v@.subrange(0, i as int + 1).last() == v@[i as int]);
        }
        if v[i] != x {
            r.push(v[i]);
        }
        i += 1;
    }
    proof {
        assert(v@.subrange(0, i as int) =~= v@);
    }
    r
}

} // verus!
