//! Medication plans: creation, persistence, intake recording, the
//! intake log, dose eligibility, and the human-readable renderings.

use vstd::prelude::*;
use vstd::string::*;

use crate::frequency::Frequency;
use crate::ids::fresh_id;
use crate::store::Medication;
use crate::store::MedicationModel;
use crate::store::Store;
use crate::store::StoreModel;
use crate::store::recent_log;
use crate::store::seq_set_add;
use crate::text::dec_str;
use crate::text::u64_to_string;
use crate::time::format_in_zone;
use crate::time::now_seconds;
use crate::time::zone_rendered;

verus! {

// ---------------------------------------------------------------------------
// Eligibility and renderings, at the model
// ---------------------------------------------------------------------------

impl MedicationModel {
    /// Dose eligibility at `now`: no dose was taken yet, or the dosing
    /// interval has fully elapsed since the last one.
    pub open spec fn can_take_at(self, now: i64) -> bool {
        match self.last_taken {
            None => true,
            Some(lt) => now >= lt + self.frequency.spec_hours() * 3600,
        }
    }
}

/// The eligibility marker.
pub open spec fn emoji_text(m: MedicationModel, now: i64) -> Seq<char> {
    if m.can_take_at(now) {
        "\u{2705}"@
    } else {
        "\u{1f645}"@
    }
}

/// When the next dose is due: "Right now" when eligible, else the wait
/// in whole hours and minutes, or minutes alone under one hour.
pub open spec fn next_dose_text(m: MedicationModel, now: i64) -> Seq<char> {
    match m.last_taken {
        None => "Right now"@,
        Some(lt) => {
            if now >= lt + m.frequency.spec_hours() * 3600 {
                "Right now"@
            } else {
                let diff = lt + m.frequency.spec_hours() * 3600 - now;
                let hrs = diff / 3600;
                let mins = (diff % 3600) / 60;
                if hrs > 0 {
                    "in "@ + dec_str(hrs) + " hours and "@ + dec_str(mins) + " minutes"@
                } else {
                    "in "@ + dec_str(diff / 60) + " minutes"@
                }
            }
        },
    }
}

/// The humanized last-intake line: "Not yet" without one; relative
/// renderings under a day; otherwise the absolute timestamp in the
/// caller's timezone.
pub open spec fn last_taken_text(m: MedicationModel, now: i64, tz: Seq<char>) -> Seq<char> {
    match m.last_taken {
        None => "Not yet"@,
        Some(ts) => {
            let dif = now - ts;
            if 3600 <= dif < 86400 {
                dec_str(dif / 3600) + " hours ago"@
            } else if 60 <= dif < 3600 {
                dec_str(dif / 60) + " minutes ago"@
            } else if -60 < dif < 60 {
                "Just now"@
            } else {
                zone_rendered(ts, tz)
            }
        },
    }
}

/// The one-line listing of a plan.
pub open spec fn in_list_text(m: MedicationModel, now: i64, tz: Seq<char>) -> Seq<char> {
    m.medicine + " ("@ + m.dosage + ") - every "@ + dec_str(m.frequency.spec_hours() as int)
        + " hours. Last taken: "@ + last_taken_text(m, now, tz) + ". Can take next: "@
        + next_dose_text(m, now) + " "@ + emoji_text(m, now) + "."@
}

// ---------------------------------------------------------------------------
// Model transformers
// ---------------------------------------------------------------------------

/// `m` with its cached patient name refreshed from the store, where the
/// patient record exists; a missing record leaves the cache as it was.
pub open spec fn refreshed_m(s: StoreModel, m: MedicationModel) -> MedicationModel {
    if s.patients.contains_key(m.patient_id) {
        MedicationModel { patient_name: Some(s.patients[m.patient_id].name), ..m }
    } else {
        m
    }
}

/// The store after `m` is saved: the refreshed record stored under its
/// id, and the id made a member of its patient's medication index.
pub open spec fn save_medication_m(s: StoreModel, m: MedicationModel) -> StoreModel {
    s.with_medications(s.medications.insert(m.id, refreshed_m(s, m))).with_med_index(
        s.med_index.insert(m.patient_id, seq_set_add(s.med_seq(m.patient_id), m.id)),
    )
}

/// `m` marked as taken at `ts`.
pub open spec fn intake_marked(m: MedicationModel, ts: i64) -> MedicationModel {
    MedicationModel { last_taken: Some(ts), ..m }
}

/// The store after an intake of `m` at `ts`: the timestamp appended to
/// the intake log, and the marked record saved.
pub open spec fn record_intake_m(s: StoreModel, m: MedicationModel, ts: i64) -> StoreModel {
    save_medication_m(
        s.with_intake_logs(s.intake_logs.insert(m.id, s.log_seq(m.id).push(ts))),
        intake_marked(m, ts),
    )
}

/// The records under `ids` that exist in the store, in index order;
/// identifiers whose record is missing are dropped.
pub open spec fn meds_of_ids(s: StoreModel, ids: Seq<u64>) -> Seq<MedicationModel>
    decreases ids.len(),
{
    if ids.len() == 0 {
        Seq::empty()
    } else if s.medications.contains_key(ids.last()) {
        meds_of_ids(s, ids.drop_last()).push(s.medications[ids.last()])
    } else {
        meds_of_ids(s, ids.drop_last())
    }
}

/// What listing the medications of `patient_id` yields.
pub open spec fn patient_meds_m(s: StoreModel, patient_id: u64) -> Seq<MedicationModel> {
    meds_of_ids(s, s.med_seq(patient_id))
}

/// The views of a sequence of medication records.
pub open spec fn med_views(ms: Seq<Medication>) -> Seq<MedicationModel> {
    ms.map_values(|m: Medication| m@)
}

/// Every record a listing yields out of a well-formed store is itself
/// well formed.
pub proof fn lemma_meds_of_ids_wf(s: StoreModel, ids: Seq<u64>)
    requires
        s.inv(),
    ensures
        forall|t: int|
            0 <= t < meds_of_ids(s, ids).len() ==> (#[trigger] meds_of_ids(s, ids)[t]).wf(),
    decreases ids.len(),
{
    if ids.len() > 0 {
        lemma_meds_of_ids_wf(s, ids.drop_last());
        let prev = meds_of_ids(s, ids.drop_last());
        let whole = meds_of_ids(s, ids);
        assert forall|t: int| 0 <= t < whole.len() implies (#[trigger] whole[t]).wf() by {
            if t < prev.len() {
                assert(whole[t] == prev[t]);
            }
        }
    }
}

// ---------------------------------------------------------------------------
// Laws
// ---------------------------------------------------------------------------

/// The dosing-window boundary: with a last intake at `t` and an
/// interval of `h` hours, a dose is refused one second before
/// `t + h*3600` and allowed exactly at it, for every `h >= 1` whose
/// boundary is a representable time.
pub proof fn lemma_dose_window_boundary(m: MedicationModel, t: i64, h: i64)
    requires
        m.last_taken == Some(t),
        m.frequency.spec_hours() == h,
        h >= 1,
        t + h * 3600 <= i64::MAX,
    ensures
        !m.can_take_at((t + h * 3600 - 1) as i64),
        m.can_take_at((t + h * 3600) as i64),
{
}

/// Creating a plan for a patient that has none, then listing that
/// patient's medications, yields exactly the one record that was saved.
pub proof fn lemma_create_then_list(s: StoreModel, m: MedicationModel)
    requires
        s.med_seq(m.patient_id).len() == 0,
    ensures
        patient_meds_m(save_medication_m(s, m), m.patient_id) == seq![refreshed_m(s, m)],
{
    let s1 = save_medication_m(s, m);
    assert(seq_set_add(s.med_seq(m.patient_id), m.id) =~= seq![m.id]) by {
        assert(!s.med_seq(m.patient_id).contains(m.id));
    }
    assert(s1.med_seq(m.patient_id) == seq![m.id]);
    assert(s1.medications[m.id] == refreshed_m(s, m));
    let ids = seq![m.id];
    assert(ids.drop_last() =~= Seq::<u64>::empty());
    assert(meds_of_ids(s1, Seq::<u64>::empty()) =~= Seq::<MedicationModel>::empty());
    assert(ids.last() == m.id);
    assert(meds_of_ids(s1, ids) =~= seq![refreshed_m(s, m)]);
}

/// Two intakes append their two timestamps to the intake log in call
/// order, and the stored record's last intake is the second timestamp.
pub proof fn lemma_two_intakes(s: StoreModel, m: MedicationModel, t1: i64, t2: i64)
    ensures
        ({
            let s1 = record_intake_m(s, m, t1);
            let m1 = refreshed_m(s, intake_marked(m, t1));
            let s2 = record_intake_m(s1, m1, t2);
            &&& s2.log_seq(m.id) == s.log_seq(m.id).push(t1).push(t2)
            &&& s2.medications.contains_key(m.id)
            &&& s2.medications[m.id].last_taken == Some(t2)
        }),
{
    let s1 = record_intake_m(s, m, t1);
    let m1 = refreshed_m(s, intake_marked(m, t1));
    let s2 = record_intake_m(s1, m1, t2);
    assert(m1.id == m.id);
    assert(s1.log_seq(m.id) == s.log_seq(m.id).push(t1));
    assert(s2.log_seq(m.id) == s.log_seq(m.id).push(t1).push(t2));
    assert(s2.medications[m.id].last_taken == Some(t2));
}

// ---------------------------------------------------------------------------
// Operations
// ---------------------------------------------------------------------------

impl Medication {
    /// A new plan under a fresh identifier, not yet taken, with no
    /// cached patient name.
    pub fn new(
        patient_id: u64,
        medicine: String,
        dosage: String,
        frequency: Frequency,
        user_id: u64,
    ) -> (r: Medication)
        requires
            frequency.wf(),
        ensures
            r@.patient_id == patient_id,
            r@.medicine == medicine@,
            r@.dosage == dosage@,
            r@.frequency == frequency,
            r@.user_id == user_id,
            r@.last_taken is None,
            r@.patient_name is None,
            r@.wf(),
    {
        Medication {
            id: fresh_id(),
            patient_id,
            medicine,
            dosage,
            frequency,
            user_id,
            last_taken: None,
            patient_name: None,
        }
    }

    /// Persist the record, refreshing its cached patient name from the
    /// patient record (best effort), and index it under its patient.
    pub fn save(&mut self, store: &mut Store)
        requires
            old(self)@.wf(),
            old(store)@.inv(),
        ensures
            final(self)@ == refreshed_m(old(store)@, old(self)@),
            final(store)@ == save_medication_m(old(store)@, old(self)@),
            final(store)@.inv(),
    {
        match store.get_patient(self.patient_id) {
            Some(p) => {
                self.patient_name = Some(p.name);
            },
            None => {},
        }
        store.put_medication(self.clone());
        store.med_index_add(self.patient_id, self.id);
    }

    /// Record an intake at `ts`: mark the record, append to the intake
    /// log, and save.
    pub fn set_taken_at(&mut self, ts: i64, store: &mut Store)
        requires
            old(self)@.wf(),
            old(store)@.inv(),
        ensures
            final(self)@ == refreshed_m(old(store)@, intake_marked(old(self)@, ts)),
            final(store)@ == record_intake_m(old(store)@, old(self)@, ts),
            final(store)@.inv(),
    {
        self.last_taken = Some(ts);
        store.log_append(self.id, ts);
        self.save(store);
    }

    /// Record an intake at the present moment.
    pub fn set_taken_now(&mut self, store: &mut Store)
        requires
            old(self)@.wf(),
            old(store)@.inv(),
        ensures
            match final(self)@.last_taken {
                Some(ts) => final(self)@ == refreshed_m(old(store)@, intake_marked(old(self)@, ts))
                    && final(store)@ == record_intake_m(old(store)@, old(self)@, ts),
                None => false,
            },
            final(store)@.inv(),
    {
        let ts = now_seconds();
        self.set_taken_at(ts, store);
    }

    /// The most recent intake timestamps, newest first.
    pub fn get_medication_log(&self, store: &Store) -> (r: Vec<i64>)
        ensures
            r@ == recent_log(store@.log_seq(self@.id), 11),
    {
        store.log_read(self.id, 11)
    }

    /// Dose eligibility at `now`.
    pub fn can_take(&self, now: i64) -> (r: bool)
        ensures
            r == self@.can_take_at(now),
    {
        match self.last_taken {
            None => true,
            Some(lt) => {
                let threshold: i128 = lt as i128 + (self.frequency.get_hours() as i128) * 3600;
                (now as i128) >= threshold
            },
        }
    }

    /// The eligibility marker for listings and keyboards.
    pub fn can_take_emoji(&self, now: i64) -> (r: String)
        ensures
            r@ == emoji_text(self@, now),
    {
        if self.can_take(now) {
            String::from_str("\u{2705}")
        } else {
            String::from_str("\u{1f645}")
        }
    }

    /// When the next dose is due, as text.
    fn print_can_take_next(&self, now: i64) -> (r: String)
        ensures
            r@ == next_dose_text(self@, now),
    {
        match self.last_taken {
            None => String::from_str("Right now"),
            Some(lt) => {
                let threshold: i128 = lt as i128 + (self.frequency.get_hours() as i128) * 3600;
                if (now as i128) >= threshold {
                    String::from_str("Right now")
                } else {
                    let diff: i128 = threshold - (now as i128);
                    let hrs: i128 = diff / 3600;
                    let mins: i128 = (diff % 3600) / 60;
                    proof {
                        assert(diff < 3600 * 0x10000000000000000);
                        assert(hrs < 0x10000000000000000);
                    }
                    if hrs > 0 {
                        let mut s = String::from_str("in ");
                        s.append(u64_to_string(hrs as u64).as_str());
                        s.append(" hours and ");
                        s.append(u64_to_string(mins as u64).as_str());
                        s.append(" minutes");
                        proof {
                            assert(s@ =~= next_dose_text(self@, now));
                        }
                        s
                    } else {
                        let mut s = String::from_str("in ");
                        s.append(u64_to_string((diff / 60) as u64).as_str());
                        s.append(" minutes");
                        proof {
                            assert(s@ =~= next_dose_text(self@, now));
                        }
                        s
                    }
                }
            },
        }
    }

    /// The humanized last-intake line, in the caller's timezone.
    pub fn print_last_taken(&self, now: i64, tz: &str) -> (r: String)
        ensures
            r@ == last_taken_text(self@, now, tz@),
    {
        match self.last_taken {
            None => String::from_str("Not yet"),
            Some(ts) => {
                let dif: i128 = now as i128 - ts as i128;
                if 3600 <= dif && dif < 86400 {
                    let mut s = u64_to_string((dif / 3600) as u64);
                    s.append(" hours ago");
                    s
                } else if 60 <= dif && dif < 3600 {
                    let mut s = u64_to_string((dif / 60) as u64);
                    s.append(" minutes ago");
                    s
                } else if -60 < dif && dif < 60 {
                    String::from_str("Just now")
                } else {
                    format_in_zone(ts, tz)
                }
            },
        }
    }

    /// The one-line listing of the plan, in the caller's timezone.
    pub fn print_in_list(&self, now: i64, tz: &str) -> (r: String)
        requires
            self@.wf(),
        ensures
            r@ == in_list_text(self@, now, tz@),
    {
        let mut s = self.medicine.clone();
        s.append(" (");
        s.append(self.dosage.as_str());
        s.append(") - every ");
        s.append(u64_to_string(self.frequency.get_hours() as u64).as_str());
        s.append(" hours. Last taken: ");
        s.append(self.print_last_taken(now, tz).as_str());
        s.append(". Can take next: ");
        s.append(self.print_can_take_next(now).as_str());
        s.append(" ");
        s.append(self.can_take_emoji(now).as_str());
        s.append(".");
        proof {
            assert(s@ =~= in_list_text(self@, now, tz@));
        }
        s
    }

    /// Fetch the medication stored under `id`.
    pub fn get_by_id(id: u64, store: &Store) -> (r: Option<Medication>)
        ensures
            match r {
                Some(m) => store@.medications.contains_key(id) && m@ == store@.medications[id],
                None => !store@.medications.contains_key(id),
            },
    {
        store.get_medication(id)
    }

    /// The medications of `patient_id`'s index whose record exists, in
    /// index order; stale identifiers are silently dropped.
    pub fn get_all_by_patient_id(patient_id: u64, store: &Store) -> (r: Vec<Medication>)
        ensures
            med_views(r@) == patient_meds_m(store@, patient_id),
    {
        let ids = store.med_index_members(patient_id);
        let mut out: Vec<Medication> = Vec::new();
        let mut i: usize = 0;
        proof {
            assert(ids@.subrange(0, 0) =~= Seq::<u64>::empty());
            assert(med_views(out@) =~= meds_of_ids(store@, ids@.subrange(0, 0)));
        }
        while i < ids.len()
            invariant
                i <= ids@.len(),
                ids@ == store@.med_seq(patient_id),
                med_views(out@) == meds_of_ids(store@, ids@.subrange(0, i as int)),
            decreases ids@.len() - i,
        {
            proof {
                assert(ids@.subrange(0, i as int + 1).drop_last() =~= ids@.subrange(0, i as int));
                assert(ids@.subrange(0, i as int + 1).last() == ids@[i as int]);
            }
            match store.get_medication(ids[i]) {
                Some(m) => {
                    let ghost prev = out@;
                    let ghost msnap: Medication = m;
                    out.push(m);
                    proof {
                        assert(med_views(prev.push(msnap)) =~= med_views(prev).push(msnap@));
                    }
                },
                None => {},
            }
            i += 1;
        }
        proof {
            assert(ids@.subrange(0, i as int) =~= ids@);
        }
        out
    }
}

} // verus!
