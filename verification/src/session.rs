//! The per-chat session state machine: events in, a next state and a
//! list of transport effects out.  Also the keyboards the machine
//! offers: grids of labelled payloads, chunked into short rows, with a
//! terminal cancel row and, where creation is offered, an add-new row.

use vstd::prelude::*;
use vstd::string::*;

use crate::medication::emoji_text;
use crate::medication::in_list_text;
use crate::medication::lemma_meds_of_ids_wf;
use crate::medication::med_views;
use crate::medication::patient_meds_m;
use crate::medication::record_intake_m;
use crate::medication::save_medication_m;
use crate::patient::delete_patient_m;
use crate::patient::save_patient_m;
use crate::patient::share_patient_m;
use crate::patient::share_store_m;
use crate::time::format_in_zone;
use crate::time::zone_rendered;
use crate::frequency::spec_parse;
use crate::frequency::Frequency;
use crate::text::digits_val;
use crate::text::is_number;
use crate::text::parse_user_id;
use crate::patient::my_patients_m;
use crate::patient::patient_views;
use crate::store::Medication;
use crate::store::MedicationModel;
use crate::store::Patient;
use crate::store::PatientModel;
use crate::store::Store;
use crate::store::StoreModel;
use crate::text::dec_str;
use crate::text::u64_to_string;
use crate::user::get_user_timezone;
use crate::user::tz_text;
use crate::Command;
use crate::State;
use crate::StateModel;

verus! {

/// A selection payload: one of the option values the core itself put on
/// a keyboard.
#[derive(Debug, Clone, Copy, PartialEq, Eq, Structural)]
pub enum Payload {
    Cancel,
    AddNew,
    Take,
    SharePatient,
    DeletePatient,
    ListMedication,
    MedicationLog,
    Patient(u64),
    Medication(u64),
}

/// An inbound event: free text, or a selection among offered options.
#[derive(Debug, Clone, PartialEq)]
pub enum Event {
    Text(String),
    Select(Payload),
}

/// The mathematical shadow of `Event`.
pub ghost enum EventModel {
    Text(Seq<char>),
    Select(Payload),
}

impl View for Event {
    type V = EventModel;

    open spec fn view(&self) -> EventModel {
        match self {
            Event::Text(t) => EventModel::Text(t@),
            Event::Select(p) => EventModel::Select(*p),
        }
    }
}

/// One labelled choice on a keyboard.
#[derive(Debug, PartialEq)]
pub struct Button {
    pub label: String,
    pub payload: Payload,
}

pub ghost struct ButtonModel {
    pub label: Seq<char>,
    pub payload: Payload,
}

impl View for Button {
    type V = ButtonModel;

    open spec fn view(&self) -> ButtonModel {
        ButtonModel { label: self.label@, payload: self.payload }
    }
}

impl Clone for Button {
    fn clone(&self) -> (r: Self)
        ensures
            r@ == self@,
    {
        Button { label: self.label.clone(), payload: self.payload }
    }
}

/// What the core asks the transport to do after a step.
#[derive(Debug, PartialEq)]
pub enum Effect {
    /// Send a fresh message into the chat.
    Send { text: String, keyboard: Option<Vec<Vec<Button>>> },
    /// Edit the message whose selection triggered the step.
    Edit { text: String, keyboard: Option<Vec<Vec<Button>>> },
    /// Push a best-effort notification to another account.
    Notify { user_id: u64, text: String },
}

/// The mathematical shadow of `Effect`.
pub ghost enum EffectModel {
    Send { text: Seq<char>, keyboard: Option<Seq<Seq<ButtonModel>>> },
    Edit { text: Seq<char>, keyboard: Option<Seq<Seq<ButtonModel>>> },
    Notify { user_id: u64, text: Seq<char> },
}

/// The views of one keyboard row.
pub open spec fn row_views(row: Seq<Button>) -> Seq<ButtonModel> {
    row.map_values(|b: Button| b@)
}

/// The views of a whole keyboard.
pub open spec fn keyboard_views(rows: Seq<Vec<Button>>) -> Seq<Seq<ButtonModel>> {
    rows.map_values(|row: Vec<Button>| row_views(row@))
}

impl View for Effect {
    type V = EffectModel;

    open spec fn view(&self) -> EffectModel {
        match self {
            Effect::Send { text, keyboard } => EffectModel::Send {
                text: text@,
                keyboard: match keyboard {
                    Some(rows) => Some(keyboard_views(rows@)),
                    None => None,
                },
            },
            Effect::Edit { text, keyboard } => EffectModel::Edit {
                text: text@,
                keyboard: match keyboard {
                    Some(rows) => Some(keyboard_views(rows@)),
                    None => None,
                },
            },
            Effect::Notify { user_id, text } => EffectModel::Notify {
                user_id: *user_id,
                text: text@,
            },
        }
    }
}

/// The views of a list of effects.
pub open spec fn effect_views(es: Seq<Effect>) -> Seq<EffectModel> {
    es.map_values(|e: Effect| e@)
}

// ---------------------------------------------------------------------------
// Keyboards
// ---------------------------------------------------------------------------

pub open spec fn cancel_button_m() -> ButtonModel {
    ButtonModel { label: "Cancel"@, payload: Payload::Cancel }
}

pub open spec fn add_button_m() -> ButtonModel {
    ButtonModel { label: "Add new patient..."@, payload: Payload::AddNew }
}

/// One button per patient: the name as label, the id as payload.
pub open spec fn patient_buttons_m(ps: Seq<PatientModel>) -> Seq<ButtonModel> {
    ps.map_values(|p: PatientModel| ButtonModel { label: p.name, payload: Payload::Patient(p.id) })
}

/// One button per medication: eligibility marker, medicine and dosage
/// as label, the id as payload.
pub open spec fn med_button_m(m: MedicationModel, now: i64) -> ButtonModel {
    ButtonModel {
        label: emoji_text(m, now) + " "@ + m.medicine + " ("@ + m.dosage + ")"@,
        payload: Payload::Medication(m.id),
    }
}

pub open spec fn med_buttons_m(ms: Seq<MedicationModel>, now: i64) -> Seq<ButtonModel> {
    ms.map_values(|m: MedicationModel| med_button_m(m, now))
}

/// `bs` chunked into rows of at most `k` buttons, in order.
pub open spec fn rows_of(bs: Seq<ButtonModel>, k: int) -> Seq<Seq<ButtonModel>>
    decreases bs.len() when k >= 1
{
    if bs.len() == 0 {
        Seq::empty()
    } else if bs.len() <= k {
        seq![bs]
    } else {
        seq![bs.take(k)] + rows_of(bs.skip(k), k)
    }
}

/// The patient picker of `user`: patients three to a row, an add-new
/// row where creation is offered, and a cancel row last.
pub open spec fn patient_keyboard_m(s: StoreModel, user: u64, show_add: bool) -> Seq<
    Seq<ButtonModel>,
> {
    rows_of(patient_buttons_m(my_patients_m(s, user)), 3) + (if show_add {
        seq![seq![add_button_m()]]
    } else {
        Seq::<Seq<ButtonModel>>::empty()
    }) + seq![seq![cancel_button_m()]]
}

/// The medicine picker of `patient`: medications two to a row, and a
/// cancel row last.
pub open spec fn med_keyboard_m(s: StoreModel, patient: u64, now: i64) -> Seq<Seq<ButtonModel>> {
    rows_of(med_buttons_m(patient_meds_m(s, patient), now), 2) + seq![seq![cancel_button_m()]]
}

fn cancel_button() -> (b: Button)
    ensures
        b@ == cancel_button_m(),
{
    Button { label: String::from_str("Cancel"), payload: Payload::Cancel }
}

/// Chunk `buttons` into rows of at most `k`.
#[verifier::loop_isolation(false)]
fn chunk_rows(buttons: Vec<Button>, k: usize) -> (rows: Vec<Vec<Button>>)
    requires
        k >= 1,
    ensures
        keyboard_views(rows@) == rows_of(row_views(buttons@), k as int),
{
    let n = buttons.len();
    let mut rows: Vec<Vec<Button>> = Vec::new();
    let mut i: usize = 0;
    proof {
        assert(row_views(buttons@).skip(0) =~= row_views(buttons@));
        assert(keyboard_views(rows@) + rows_of(row_views(buttons@), k as int) =~= rows_of(
            row_views(buttons@),
            k as int,
        ));
    }
    while i < n
        invariant
            i <= n,
            n == buttons@.len(),
            k >= 1,
            rows_of(row_views(buttons@), k as int) == keyboard_views(rows@) + rows_of(
                row_views(buttons@).skip(i as int),
                k as int,
            ),
        decreases n - i,
    {
        let end = if n - i > k {
            i + k
        } else {
            n
        };
        let mut row: Vec<Button> = Vec::new();
        let mut j = i;
        proof {
            assert(row_views(row@) =~= row_views(buttons@).subrange(i as int, i as int));
        }
        while j < end
            invariant
                i <= j <= end,
                end <= n,
                n == buttons@.len(),
                row_views(row@) == row_views(buttons@).subrange(i as int, j as int),
            decreases end - j,
        {
            let ghost prev = row@;
            row.push(buttons[j].clone());
            proof {
                assert(row_views(row@) =~~= row_views(buttons@).subrange(i as int, j as int + 1));
            }
            j += 1;
        }
        let ghost prev_rows = rows@;
        let ghost rsnap: Vec<Button> = row;
        rows.push(row);
        proof {
            let bs = row_views(buttons@);
            assert(keyboard_views(prev_rows.push(rsnap)) =~= keyboard_views(prev_rows) + seq![
                row_views(rsnap@),
            ]);
            if bs.skip(i as int).len() <= k as int {
                assert(end == n);
                assert(row_views(rsnap@) =~= bs.skip(i as int));
                assert(bs.skip(end as int) =~= Seq::<ButtonModel>::empty());
                assert(rows_of(bs.skip(end as int), k as int) == Seq::<Seq<ButtonModel>>::empty());
                assert((keyboard_views(prev_rows) + seq![row_views(rsnap@)]) + Seq::<
                    Seq<ButtonModel>,
                >::empty() =~= keyboard_views(prev_rows) + seq![bs.skip(i as int)]);
                assert(rows_of(bs.skip(i as int), k as int) == seq![bs.skip(i as int)]);
            } else {
                assert(end == i + k);
                assert(row_views(rsnap@) =~= bs.skip(i as int).take(k as int));
                assert(bs.skip(i as int).skip(k as int) =~= bs.skip(end as int));
                assert(rows_of(bs.skip(i as int), k as int) == seq![bs.skip(i as int).take(
                    k as int,
                )] + rows_of(bs.skip(end as int), k as int));
                assert((keyboard_views(prev_rows) + seq![row_views(rsnap@)]) + rows_of(
                    bs.skip(end as int),
                    k as int,
                ) =~= keyboard_views(prev_rows) + (seq![bs.skip(i as int).take(k as int)] + rows_of(
                    bs.skip(end as int),
                    k as int,
                )));
            }
        }
        i = end;
    }
    proof {
        assert(row_views(buttons@).skip(i as int) =~= Seq::<ButtonModel>::empty());
        assert(rows_of(row_views(buttons@).skip(i as int), k as int) == Seq::<
            Seq<ButtonModel>,
        >::empty());
        assert(keyboard_views(rows@) + Seq::<Seq<ButtonModel>>::empty() =~= keyboard_views(rows@));
    }
    rows
}

impl Patient {
    /// The patient picker offered to `user_id`.
    #[verifier::loop_isolation(false)]
    pub fn generate_patient_keyboard(store: &Store, user_id: u64, show_add: bool) -> (kb: Vec<
        Vec<Button>,
    >)
        ensures
            keyboard_views(kb@) == patient_keyboard_m(store@, user_id, show_add),
    {
        let ps = Patient::get_my_patients(user_id, store);
        let mut buttons: Vec<Button> = Vec::new();
        let mut i: usize = 0;
        proof {
            assert(row_views(buttons@) =~= patient_buttons_m(
                patient_views(ps@).subrange(0, 0),
            ));
        }
        while i < ps.len()
            invariant
                i <= ps@.len(),
                row_views(buttons@) == patient_buttons_m(patient_views(ps@).subrange(0, i as int)),
            decreases ps@.len() - i,
        {
            let b = Button {
                label: ps[i].name.clone(),
                payload: Payload::Patient(ps[i].id),
            };
            let ghost prev = buttons@;
            let ghost bsnap: Button = b;
            buttons.push(b);
            proof {
                let pv = patient_views(ps@);
                let lhs = row_views(buttons@);
                let rhs = patient_buttons_m(pv.subrange(0, i as int + 1));
                assert(bsnap@ == (ButtonModel { label: ps@[i as int]@.name, payload: Payload::Patient(ps@[i as int]@.id) }));
                assert forall|t: int| 0 <= t < lhs.len() implies lhs[t] == rhs[t] by {
                    assert(lhs[t] == buttons@[t]@);
                    assert(rhs[t] == (ButtonModel { label: pv.subrange(0, i as int + 1)[t].name, payload: Payload::Patient(pv.subrange(0, i as int + 1)[t].id) }));
                    if t < i {
                        assert(buttons@[t] == prev[t]);
                        assert(row_views(prev)[t] == patient_buttons_m(pv.subrange(0, i as int))[t]);
                    } else {
                        assert(buttons@[t] == bsnap);
                        assert(pv.subrange(0, i as int + 1)[t] == ps@[i as int]@);
                    }
                }
                assert(lhs =~= rhs);
            }
            i += 1;
        }
        proof {
            assert(patient_views(ps@).subrange(0, i as int) =~= patient_views(ps@));
        }
        let mut kb = chunk_rows(buttons, 3);
        if show_add {
            let mut row: Vec<Button> = Vec::new();
            row.push(
                Button { label: String::from_str("Add new patient..."), payload: Payload::AddNew },
            );
            let ghost prev = kb@;
            let ghost rsnap: Vec<Button> = row;
            kb.push(row);
            proof {
                assert(row_views(rsnap@) =~= seq![add_button_m()]);
                assert(keyboard_views(prev.push(rsnap)) =~= keyboard_views(prev) + seq![
                    row_views(rsnap@),
                ]);
            }
        }
        let mut crow: Vec<Button> = Vec::new();
        crow.push(cancel_button());
        let ghost prev = kb@;
        let ghost csnap: Vec<Button> = crow;
        kb.push(crow);
        proof {
            assert(row_views(csnap@) =~= seq![cancel_button_m()]);
            assert(keyboard_views(prev.push(csnap)) =~= keyboard_views(prev) + seq![
                row_views(csnap@),
            ]);
            assert(keyboard_views(kb@) =~= patient_keyboard_m(store@, user_id, show_add));
        }
        kb
    }
}

impl Medication {
    /// The medicine picker of `patient_id`, marked for eligibility at `now`.
    #[verifier::loop_isolation(false)]
    pub fn generate_medication_keyboard(patient_id: u64, store: &Store, now: i64) -> (kb: Vec<
        Vec<Button>,
    >)
        ensures
            keyboard_views(kb@) == med_keyboard_m(store@, patient_id, now),
    {
        let ms = Medication::get_all_by_patient_id(patient_id, store);
        let mut buttons: Vec<Button> = Vec::new();
        let mut i: usize = 0;
        proof {
            assert(row_views(buttons@) =~= med_buttons_m(med_views(ms@).subrange(0, 0), now));
        }
        while i < ms.len()
            invariant
                i <= ms@.len(),
                row_views(buttons@) == med_buttons_m(med_views(ms@).subrange(0, i as int), now),
            decreases ms@.len() - i,
        {
            let mut label = ms[i].can_take_emoji(now);
            label.append(" ");
            label.append(ms[i].medicine.as_str());
            label.append(" (");
            label.append(ms[i].dosage.as_str());
            label.append(")");
            let b = Button { label, payload: Payload::Medication(ms[i].id) };
            let ghost prev = buttons@;
            let ghost bsnap: Button = b;
            buttons.push(b);
            proof {
                let mv = med_views(ms@);
                let lhs = row_views(buttons@);
                let rhs = med_buttons_m(mv.subrange(0, i as int + 1), now);
                assert(bsnap@.label =~= med_button_m(mv[i as int], now).label);
                assert(bsnap@ == med_button_m(mv[i as int], now));
                assert forall|t: int| 0 <= t < lhs.len() implies lhs[t] == rhs[t] by {
                    assert(lhs[t] == buttons@[t]@);
                    assert(rhs[t] == med_button_m(mv.subrange(0, i as int + 1)[t], now));
                    if t < i {
                        assert(buttons@[t] == prev[t]);
                        assert(row_views(prev)[t] == med_buttons_m(mv.subrange(0, i as int), now)[t]);
                        assert(med_buttons_m(mv.subrange(0, i as int), now)[t] == med_button_m(mv.subrange(0, i as int)[t], now));
                    } else {
                        assert(buttons@[t] == bsnap);
                        assert(mv.subrange(0, i as int + 1)[t] == mv[i as int]);
                    }
                }
                assert(lhs =~= rhs);
            }
            i += 1;
        }
        proof {
            assert(med_views(ms@).subrange(0, i as int) =~= med_views(ms@));
        }
        let mut kb = chunk_rows(buttons, 2);
        let mut crow: Vec<Button> = Vec::new();
        crow.push(cancel_button());
        let ghost prev = kb@;
        let ghost csnap: Vec<Button> = crow;
        kb.push(crow);
        proof {
            assert(row_views(csnap@) =~= seq![cancel_button_m()]);
            assert(keyboard_views(prev.push(csnap)) =~= keyboard_views(prev) + seq![
                row_views(csnap@),
            ]);
            assert(keyboard_views(kb@) =~= med_keyboard_m(store@, patient_id, now));
        }
        kb
    }
}

// ---------------------------------------------------------------------------
// Sorting plans by recency
// ---------------------------------------------------------------------------

/// The order of optional last-intake timestamps: never-taken sorts
/// lowest, otherwise by the timestamp.
pub open spec fn opt_le(a: Option<i64>, b: Option<i64>) -> bool {
    match (a, b) {
        (Option::None, _) => true,
        (Option::Some(x), Option::Some(y)) => x <= y,
        (Option::Some(_), Option::None) => false,
    }
}

/// Most recently taken first.
pub open spec fn sorted_desc(ms: Seq<MedicationModel>) -> bool {
    forall|i: int, j: int|
        0 <= i <= j < ms.len() ==> opt_le(
            (#[trigger] ms[j]).last_taken,
            (#[trigger] ms[i]).last_taken,
        )
}

fn opt_le_exec(a: Option<i64>, b: Option<i64>) -> (r: bool)
    ensures
        r == opt_le(a, b),
{
    match (a, b) {
        (Option::None, _) => true,
        (Option::Some(x), Option::Some(y)) => x <= y,
        (Option::Some(_), Option::None) => false,
    }
}

/// The plans of `v` ordered most recently taken first.
#[verifier::loop_isolation(false)]
pub fn sort_meds_desc(v: Vec<Medication>) -> (r: Vec<Medication>)
    ensures
        med_views(r@).to_multiset() == med_views(v@).to_multiset(),
        sorted_desc(med_views(r@)),
        forall|t: int| 0 <= t < r@.len() ==> med_views(v@).contains((#[trigger] r@[t])@),
{
    broadcast use vstd::seq_lib::group_to_multiset_ensures;

    let mut src = v;
    let mut out: Vec<Medication> = Vec::new();
    proof {
        assert(med_views(out@) =~= Seq::<MedicationModel>::empty());
        assert(med_views(out@).to_multiset().add(med_views(src@).to_multiset()) =~= med_views(
            v@,
        ).to_multiset());
        assert forall|t: int| 0 <= t < src@.len() implies med_views(v@).contains(
            (#[trigger] src@[t])@,
        ) by {
            assert(med_views(v@)[t] == src@[t]@);
        }
    }
    while src.len() > 0
        invariant
            med_views(out@).to_multiset().add(med_views(src@).to_multiset()) == med_views(
                v@,
            ).to_multiset(),
            sorted_desc(med_views(out@)),
            forall|a: int, b: int|
                0 <= a < out@.len() && 0 <= b < src@.len() ==> opt_le(
                    (#[trigger] src@[b])@.last_taken,
                    (#[trigger] out@[a])@.last_taken,
                ),
            forall|t: int| 0 <= t < out@.len() ==> med_views(v@).contains((#[trigger] out@[t])@),
            forall|t: int| 0 <= t < src@.len() ==> med_views(v@).contains((#[trigger] src@[t])@),
        decreases src@.len(),
    {
        let mut best: usize = 0;
        let mut t: usize = 1;
        while t < src.len()
            invariant
                0 < src@.len(),
                best < t,
                t <= src@.len(),
                forall|q: int|
                    0 <= q < t ==> opt_le(
                        (#[trigger] src@[q])@.last_taken,
                        src@[best as int]@.last_taken,
                    ),
            decreases src@.len() - t,
        {
            if !opt_le_exec(src[t].last_taken, src[best].last_taken) {
                best = t;
            }
            t += 1;
        }
        let ghost old_src = src@;
        let ghost old_out = out@;
        let m = src.remove(best);
        let ghost msnap: Medication = m;
        out.push(m);
        proof {
            assert(med_views(old_src.remove(best as int)) =~= med_views(old_src).remove(
                best as int,
            ));
            assert(med_views(old_out.push(msnap)) =~= med_views(old_out).push(msnap@));
            assert(med_views(old_src)[best as int] == msnap@);
            assert(med_views(old_src).remove(best as int).to_multiset() == med_views(
                old_src,
            ).to_multiset().remove(msnap@));
            assert(med_views(old_out).push(msnap@).to_multiset() == med_views(
                old_out,
            ).to_multiset().insert(msnap@));
            assert(med_views(old_src).to_multiset().count(msnap@) >= 1) by {
                assert(med_views(old_src).contains(msnap@)) by {
                    assert(med_views(old_src)[best as int] == msnap@);
                }
            }
            assert(med_views(out@).to_multiset().add(med_views(src@).to_multiset()) =~= med_views(
                old_out,
            ).to_multiset().add(med_views(old_src).to_multiset()));
            assert forall|a: int, b: int|
                0 <= a < out@.len() && 0 <= b < src@.len() implies opt_le(
                (#[trigger] src@[b])@.last_taken,
                (#[trigger] out@[a])@.last_taken,
            ) by {
                if b < best {
                    assert(src@[b] == old_src[b]);
                } else {
                    assert(src@[b] == old_src[b + 1]);
                }
                if a < old_out.len() {
                    assert(out@[a] == old_out[a]);
                } else {
                    assert(out@[a] == msnap);
                }
            }
            assert forall|t: int| 0 <= t < out@.len() implies med_views(v@).contains(
                (#[trigger] out@[t])@,
            ) by {
                if t < old_out.len() {
                    assert(out@[t] == old_out[t]);
                } else {
                    assert(out@[t] == msnap);
                    assert(med_views(v@).contains(old_src[best as int]@));
                }
            }
            assert forall|t: int| 0 <= t < src@.len() implies med_views(v@).contains(
                (#[trigger] src@[t])@,
            ) by {
                if t < best {
                    assert(src@[t] == old_src[t]);
                } else {
                    assert(src@[t] == old_src[t + 1]);
                }
            }
        }
    }
    proof {
        assert(med_views(src@) =~= Seq::<MedicationModel>::empty());
        assert(med_views(out@).to_multiset().add(med_views(src@).to_multiset()) =~= med_views(
            out@,
        ).to_multiset());
    }
    out
}

// ---------------------------------------------------------------------------
// Small text pieces
// ---------------------------------------------------------------------------

/// Identifiers joined with a comma and a space.
pub open spec fn ids_text(ids: Seq<u64>) -> Seq<char>
    decreases ids.len(),
{
    if ids.len() == 0 {
        Seq::empty()
    } else if ids.len() == 1 {
        dec_str(ids[0] as int)
    } else {
        ids_text(ids.drop_last()) + ", "@ + dec_str(ids.last() as int)
    }
}

#[verifier::loop_isolation(false)]
fn ids_string(ids: &Vec<u64>) -> (r: String)
    ensures
        r@ == ids_text(ids@),
{
    let mut s = String::new();
    let mut i: usize = 0;
    proof {
        assert(ids@.subrange(0, 0) =~= Seq::<u64>::empty());
        assert(s@ =~= ids_text(ids@.subrange(0, 0)));
    }
    while i < ids.len()
        invariant
            i <= ids@.len(),
            s@ == ids_text(ids@.subrange(0, i as int)),
        decreases ids@.len() - i,
    {
        proof {
            assert(ids@.subrange(0, i as int + 1).drop_last() =~= ids@.subrange(0, i as int));
            assert(ids@.subrange(0, i as int + 1).last() == ids@[i as int]);
        }
        if i > 0 {
            s.append(", ");
        }
        s.append(u64_to_string(ids[i]).as_str());
        proof {
            assert(s@ =~= ids_text(ids@.subrange(0, i as int + 1)));
        }
        i += 1;
    }
    proof {
        assert(ids@.subrange(0, i as int) =~= ids@);
    }
    s
}

/// The notifications an intake fans out: one per shared account, in
/// list order, skipping the acting account.
pub open spec fn notify_effects_m(shared: Seq<u64>, caller: u64, text: Seq<char>) -> Seq<
    EffectModel,
>
    decreases shared.len(),
{
    if shared.len() == 0 {
        Seq::empty()
    } else {
        notify_effects_m(shared.drop_last(), caller, text) + (if shared.last() != caller {
            seq![EffectModel::Notify { user_id: shared.last(), text }]
        } else {
            Seq::empty()
        })
    }
}

#[verifier::loop_isolation(false)]
fn push_notifications(effs: &mut Vec<Effect>, shared: &Vec<u64>, caller: u64, text: &str)
    ensures
        effect_views(final(effs)@) == effect_views(old(effs)@) + notify_effects_m(
            shared@,
            caller,
            text@,
        ),
{
    let mut i: usize = 0;
    proof {
        assert(shared@.subrange(0, 0) =~= Seq::<u64>::empty());
        assert(effect_views(effs@) =~= effect_views(effs@) + notify_effects_m(
            shared@.subrange(0, 0),
            caller,
            text@,
        ));
    }
    while i < shared.len()
        invariant
            i <= shared@.len(),
            effect_views(effs@) == effect_views(old(effs)@) + notify_effects_m(
                shared@.subrange(0, i as int),
                caller,
                text@,
            ),
        decreases shared@.len() - i,
    {
        proof {
            assert(shared@.subrange(0, i as int + 1).drop_last() =~= shared@.subrange(
                0,
                i as int,
            ));
            assert(shared@.subrange(0, i as int + 1).last() == shared@[i as int]);
        }
        if shared[i] != caller {
            let ghost prev = effs@;
            let e = Effect::Notify { user_id: shared[i], text: String::from_str(text) };
            let ghost esnap: Effect = e;
            effs.push(e);
            proof {
                assert(effect_views(prev.push(esnap)) =~= effect_views(prev) + seq![esnap@]);
                assert(effect_views(effs@) =~= effect_views(old(effs)@) + notify_effects_m(
                    shared@.subrange(0, i as int + 1),
                    caller,
                    text@,
                ));
            }
        } else {
            proof {
                assert(effect_views(effs@) =~= effect_views(old(effs)@) + notify_effects_m(
                    shared@.subrange(0, i as int + 1),
                    caller,
                    text@,
                ));
            }
        }
        i += 1;
    }
    proof {
        assert(shared@.subrange(0, i as int) =~= shared@);
    }
}

/// The view of an optional keyboard.
pub open spec fn opt_kb_views(kb: Option<Vec<Vec<Button>>>) -> Option<Seq<Seq<ButtonModel>>> {
    match kb {
        Option::Some(rows) => Option::Some(keyboard_views(rows@)),
        Option::None => Option::None,
    }
}

/// A single sent message.
fn one_send(text: String, kb: Option<Vec<Vec<Button>>>) -> (e: Vec<Effect>)
    ensures
        effect_views(e@) == seq![
            EffectModel::Send { text: text@, keyboard: opt_kb_views(kb) },
        ],
{
    let ghost tsnap = text@;
    let ghost ksnap = opt_kb_views(kb);
    let mut e: Vec<Effect> = Vec::new();
    e.push(Effect::Send { text, keyboard: kb });
    proof {
        assert(effect_views(e@) =~= seq![EffectModel::Send { text: tsnap, keyboard: ksnap }]);
    }
    e
}

/// A single edited message.
fn one_edit(text: String, kb: Option<Vec<Vec<Button>>>) -> (e: Vec<Effect>)
    ensures
        effect_views(e@) == seq![
            EffectModel::Edit { text: text@, keyboard: opt_kb_views(kb) },
        ],
{
    let ghost tsnap = text@;
    let ghost ksnap = opt_kb_views(kb);
    let mut e: Vec<Effect> = Vec::new();
    e.push(Effect::Edit { text, keyboard: kb });
    proof {
        assert(effect_views(e@) =~= seq![EffectModel::Edit { text: tsnap, keyboard: ksnap }]);
    }
    e
}

// ---------------------------------------------------------------------------
// Commands
// ---------------------------------------------------------------------------

/// One listing line per plan, in order.
pub open spec fn med_lines_m(ms: Seq<MedicationModel>, now: i64, tz: Seq<char>) -> Seq<char>
    decreases ms.len(),
{
    if ms.len() == 0 {
        Seq::empty()
    } else {
        med_lines_m(ms.drop_last(), now, tz) + in_list_text(ms.last(), now, tz) + "\n"@
    }
}

/// One block per patient: the name, then the plan lines or a
/// no-medications line.
pub open spec fn overview_m(s: StoreModel, ps: Seq<PatientModel>, now: i64, tz: Seq<char>) -> Seq<
    char,
>
    decreases ps.len(),
{
    if ps.len() == 0 {
        Seq::empty()
    } else {
        overview_m(s, ps.drop_last(), now, tz) + "*"@ + ps.last().name + "*\n"@ + (if patient_meds_m(
            s,
            ps.last().id,
        ).len() == 0 {
            " - No medications taken yet.\n"@
        } else {
            med_lines_m(patient_meds_m(s, ps.last().id), now, tz)
        }) + "\n"@
    }
}

/// What the overview command answers.
pub open spec fn get_all_text_m(s: StoreModel, caller: u64, now: i64) -> Seq<char> {
    let body = overview_m(s, my_patients_m(s, caller), now, tz_text(s, caller));
    if body.len() == 0 {
        "No medications added yet - try /addmedication to start."@
    } else {
        body
    }
}

/// What a command does: the reply it sends and the state it leads to.
/// No command touches the store.
pub open spec fn command_post(
    s: StoreModel,
    st: StateModel,
    cmd: Command,
    caller: u64,
    now: i64,
    st1: StateModel,
    effs: Seq<EffectModel>,
) -> bool {
    match cmd {
        Command::Start => st1 == st && effs == seq![
            EffectModel::Send {
                text:
                    "*Welcome to \u{1f48a} MediBot\\! \u{1f489}*\nI'll remind you of when to take your meds\\.\n\nAdd patients and medication plans with /addmedication\\. Register an intake with /take\\.\n\nType /help to see all available commands\\."@,
                keyboard: Option::None,
            },
        ],
        Command::Help => st1 == st && effs == seq![
            EffectModel::Send {
                text:
                    "These commands are supported:\n/start - start interacting with the bot.\n/help - display this text.\n/patients - manage my patients.\n/addmedication - add a new medication plan.\n/addpatient - add a new patient.\n/take - register a medicine being taken.\n/getall - gets all the patients and meds you have access to.\n/sharepatient - share access to a patient.\n/cancel - cancel the current operation."@,
                keyboard: Option::None,
            },
        ],
        Command::Cancel => st1 == StateModel::Start && effs == seq![
            EffectModel::Send {
                text: "Cancelling the current operation."@,
                keyboard: Option::None,
            },
        ],
        Command::GetAll => st1 == st && effs == seq![
            EffectModel::Send { text: get_all_text_m(s, caller, now), keyboard: Option::None },
        ],
        Command::Patients => st1 == StateModel::SelectPatient && effs == seq![
            EffectModel::Send {
                text:
                    "\u{1f912} Here are the patients you have access to\\. \u{1f915}\n\nSelect one for more options or add a new one below:"@,
                keyboard: Option::Some(patient_keyboard_m(s, caller, true)),
            },
        ],
        Command::AddMedication => st1 == StateModel::ReceiveName && effs == seq![
            EffectModel::Send {
                text:
                    "\u{1f48a} *Adding a new medication plan\\.* \u{1f48a} \n\n Please start by selecting the patient\\:"@,
                keyboard: Option::Some(patient_keyboard_m(s, caller, true)),
            },
        ],
        Command::Take => st1 == StateModel::TakeMedicine && effs == seq![
            EffectModel::Send {
                text:
                    "\u{1f489}*Time to take some meds\\!* \u{1f912} \n\n Please start by selecting the patient\\:"@,
                keyboard: Option::Some(patient_keyboard_m(s, caller, false)),
            },
        ],
        Command::AddPatient => st1 == StateModel::ReceivePatientName && effs == seq![
            EffectModel::Send {
                text: "Ok, adding a new patient. Please tell me what's their name:"@,
                keyboard: Option::None,
            },
        ],
        Command::SharePatient => st1 == StateModel::SelectPatient && effs == seq![
            EffectModel::Send {
                text:
                    "Please select the patient you'd like to share access to with another Telegram user:"@,
                keyboard: Option::Some(patient_keyboard_m(s, caller, false)),
            },
        ],
    }
}

/// The overview the /getall command renders.
#[verifier::loop_isolation(false)]
fn render_get_all(store: &Store, caller: u64, now: i64) -> (r: String)
    requires
        store@.inv(),
    ensures
        r@ == get_all_text_m(store@, caller, now),
{
    let tzs = get_user_timezone(store, caller);
    let ps = Patient::get_my_patients(caller, store);
    let mut body = String::new();
    let mut i: usize = 0;
    proof {
        assert(patient_views(ps@).subrange(0, 0) =~= Seq::<PatientModel>::empty());
        assert(body@ =~= overview_m(store@, patient_views(ps@).subrange(0, 0), now, tzs@));
    }
    while i < ps.len()
        invariant
            i <= ps@.len(),
            body@ == overview_m(store@, patient_views(ps@).subrange(0, i as int), now, tzs@),
        decreases ps@.len() - i,
    {
        proof {
            assert(patient_views(ps@).subrange(0, i as int + 1).drop_last() =~= patient_views(
                ps@,
            ).subrange(0, i as int));
            assert(patient_views(ps@).subrange(0, i as int + 1).last() == ps@[i as int]@);
        }
        body.append("*");
        body.append(ps[i].name.as_str());
        body.append("*\n");
        let meds = Medication::get_all_by_patient_id(ps[i].id, store);
        proof {
            lemma_meds_of_ids_wf(store@, store@.med_seq(ps@[i as int]@.id));
        }
        if meds.len() == 0 {
            body.append(" - No medications taken yet.\n");
        } else {
            let mut j: usize = 0;
            let ghost block_start = body@;
            proof {
                assert(med_views(meds@).subrange(0, 0) =~= Seq::<MedicationModel>::empty());
                assert(body@ =~= block_start + med_lines_m(
                    med_views(meds@).subrange(0, 0),
                    now,
                    tzs@,
                ));
            }
            while j < meds.len()
                invariant
                    j <= meds@.len(),
                    body@ == block_start + med_lines_m(
                        med_views(meds@).subrange(0, j as int),
                        now,
                        tzs@,
                    ),
                decreases meds@.len() - j,
            {
                proof {
                    assert(med_views(meds@).subrange(0, j as int + 1).drop_last() =~= med_views(
                        meds@,
                    ).subrange(0, j as int));
                    assert(med_views(meds@).subrange(0, j as int + 1).last() == meds@[j as int]@);
                    assert(meds@[j as int]@.wf());
                }
                body.append(meds[j].print_in_list(now, tzs.as_str()).as_str());
                body.append("\n");
                proof {
                    assert(body@ =~= block_start + med_lines_m(
                        med_views(meds@).subrange(0, j as int + 1),
                        now,
                        tzs@,
                    ));
                }
                j += 1;
            }
            proof {
                assert(med_views(meds@).subrange(0, j as int) =~= med_views(meds@));
            }
        }
        body.append("\n");
        proof {
            assert(body@ =~= overview_m(
                store@,
                patient_views(ps@).subrange(0, i as int + 1),
                now,
                tzs@,
            ));
        }
        i += 1;
    }
    proof {
        assert(patient_views(ps@).subrange(0, i as int) =~= patient_views(ps@));
    }
    if body.as_str().is_empty() {
        String::from_str("No medications added yet - try /addmedication to start.")
    } else {
        body
    }
}

/// Drive a command: each command is a transition taken from `Start`,
/// and a `cancel` ends whatever flow was under way.  Commands never
/// touch the store.
pub fn handle_command(store: &Store, state: State, cmd: Command, caller: u64, now: i64) -> (r: (
    State,
    Vec<Effect>,
))
    requires
        store@.inv(),
    ensures
        command_post(store@, state@, cmd, caller, now, r.0@, effect_views(r.1@)),
{
    match cmd {
        Command::Start => {
            let e = one_send(
                String::from_str(
                    "*Welcome to \u{1f48a} MediBot\\! \u{1f489}*\nI'll remind you of when to take your meds\\.\n\nAdd patients and medication plans with /addmedication\\. Register an intake with /take\\.\n\nType /help to see all available commands\\.",
                ),
                None,
            );
            (state, e)
        },
        Command::Help => {
            let e = one_send(
                String::from_str(
                    "These commands are supported:\n/start - start interacting with the bot.\n/help - display this text.\n/patients - manage my patients.\n/addmedication - add a new medication plan.\n/addpatient - add a new patient.\n/take - register a medicine being taken.\n/getall - gets all the patients and meds you have access to.\n/sharepatient - share access to a patient.\n/cancel - cancel the current operation.",
                ),
                None,
            );
            (state, e)
        },
        Command::Cancel => {
            let e = one_send(String::from_str("Cancelling the current operation."), None);
            (State::Start, e)
        },
        Command::GetAll => {
            let e = one_send(render_get_all(store, caller, now), None);
            (state, e)
        },
        Command::Patients => {
            let kb = Patient::generate_patient_keyboard(store, caller, true);
            let e = one_send(
                String::from_str(
                    "\u{1f912} Here are the patients you have access to\\. \u{1f915}\n\nSelect one for more options or add a new one below:",
                ),
                Some(kb),
            );
            (State::SelectPatient, e)
        },
        Command::AddMedication => {
            let kb = Patient::generate_patient_keyboard(store, caller, true);
            let e = one_send(
                String::from_str(
                    "\u{1f48a} *Adding a new medication plan\\.* \u{1f48a} \n\n Please start by selecting the patient\\:",
                ),
                Some(kb),
            );
            (State::ReceiveName, e)
        },
        Command::Take => {
            let kb = Patient::generate_patient_keyboard(store, caller, false);
            let e = one_send(
                String::from_str(
                    "\u{1f489}*Time to take some meds\\!* \u{1f912} \n\n Please start by selecting the patient\\:",
                ),
                Some(kb),
            );
            (State::TakeMedicine, e)
        },
        Command::AddPatient => {
            let e = one_send(
                String::from_str("Ok, adding a new patient. Please tell me what's their name:"),
                None,
            );
            (State::ReceivePatientName, e)
        },
        Command::SharePatient => {
            let kb = Patient::generate_patient_keyboard(store, caller, false);
            let e = one_send(
                String::from_str(
                    "Please select the patient you'd like to share access to with another Telegram user:",
                ),
                Some(kb),
            );
            (State::SelectPatient, e)
        },
    }
}

// ---------------------------------------------------------------------------
// The transition function
// ---------------------------------------------------------------------------

pub open spec fn send1(text: Seq<char>) -> Seq<EffectModel> {
    seq![EffectModel::Send { text, keyboard: Option::None }]
}

pub open spec fn edit1(text: Seq<char>) -> Seq<EffectModel> {
    seq![EffectModel::Edit { text, keyboard: Option::None }]
}

pub open spec fn edit_kb(text: Seq<char>, kb: Seq<Seq<ButtonModel>>) -> Seq<EffectModel> {
    seq![EffectModel::Edit { text, keyboard: Option::Some(kb) }]
}

/// Free text where a selection was expected: a generic help reply, the
/// state kept.
pub open spec fn stray_text_post(
    s0: StoreModel,
    st: StateModel,
    s1: StoreModel,
    st1: StateModel,
    effs: Seq<EffectModel>,
) -> bool {
    &&& s1 == s0
    &&& st1 == st
    &&& effs == send1("Didn't quite get that. Try /addmedication, /patients or /help!"@)
}

/// A selection where text was expected: ignored, the state kept.
pub open spec fn stray_select_post(
    s0: StoreModel,
    st: StateModel,
    s1: StoreModel,
    st1: StateModel,
    effs: Seq<EffectModel>,
) -> bool {
    &&& s1 == s0
    &&& st1 == st
    &&& effs == Seq::<EffectModel>::empty()
}

/// A selection that names no offered option: an apology, the state kept.
pub open spec fn sorry_post(
    s0: StoreModel,
    st: StateModel,
    s1: StoreModel,
    st1: StateModel,
    effs: Seq<EffectModel>,
) -> bool {
    &&& s1 == s0
    &&& st1 == st
    &&& effs == edit1("Didn't quite get that, sorry."@)
}

/// A stale patient reference: the flow is cancelled with a message, the
/// store untouched.
pub open spec fn patient_gone_post(
    s0: StoreModel,
    s1: StoreModel,
    st1: StateModel,
    effs: Seq<EffectModel>,
    edited: bool,
) -> bool {
    &&& s1 == s0
    &&& st1 == StateModel::Start
    &&& effs == (if edited {
        edit1("That patient no longer exists - cancelling."@)
    } else {
        send1("That patient no longer exists - cancelling."@)
    })
}

/// A caller without access: the flow is cancelled with a message, the
/// store untouched.
pub open spec fn denied_post(
    s0: StoreModel,
    s1: StoreModel,
    st1: StateModel,
    effs: Seq<EffectModel>,
    edited: bool,
) -> bool {
    &&& s1 == s0
    &&& st1 == StateModel::Start
    &&& effs == (if edited {
        edit1("Sorry, you don't have access to that patient."@)
    } else {
        send1("Sorry, you don't have access to that patient."@)
    })
}

/// The prompt after a patient is picked (or created) in the
/// add-medication flow.
pub open spec fn ask_medicine_text(name: Seq<char>) -> Seq<char> {
    "Great. Now what's the name of the medicine "@ + name + " is going to be taking?"@
}

/// The per-patient-ops menu: a static grid of operation tags.
pub open spec fn ops_keyboard_m() -> Seq<Seq<ButtonModel>> {
    seq![
        seq![ButtonModel { label: "Register medicine intake "@, payload: Payload::Take }],
        seq![
            ButtonModel { label: "All medications"@, payload: Payload::ListMedication },
            ButtonModel { label: "Intake log"@, payload: Payload::MedicationLog },
        ],
        seq![
            ButtonModel { label: "Share"@, payload: Payload::SharePatient },
            ButtonModel { label: "Delete"@, payload: Payload::DeletePatient },
        ],
        seq![cancel_button_m()],
    ]
}

/// The heading shown over the patient-ops menu: who the patient is
/// shared with, then the prompt.
pub open spec fn ops_text(p: PatientModel) -> Seq<char> {
    (if p.shared_with.len() > 0 {
        "Patient shared with accounts: "@ + ids_text(p.shared_with) + "\\.\n\n"@
    } else {
        Seq::<char>::empty()
    }) + "Select an option for "@ + p.name + ":"@
}

/// One log line per intake, oldest of the listed ones first.
pub open spec fn log_lines_m(log: Seq<i64>, tz: Seq<char>) -> Seq<char>
    decreases log.len(),
{
    if log.len() == 0 {
        Seq::empty()
    } else {
        log_lines_m(log.drop_last(), tz) + " - "@ + zone_rendered(log.last(), tz) + "\n"@
    }
}

/// What one step of the machine does, for every state and event: how
/// the store changes, which state comes next, and what is sent back.
/// A `cancel` selection is honoured first, from every state, and never
/// touches the store.
pub open spec fn step_post(
    s0: StoreModel,
    st: StateModel,
    ev: EventModel,
    caller: u64,
    now: i64,
    s1: StoreModel,
    st1: StateModel,
    effs: Seq<EffectModel>,
) -> bool {
    if ev == EventModel::Select(Payload::Cancel) {
        &&& s1 == s0
        &&& st1 == StateModel::Start
        &&& effs == edit1("Cancelling the current operation."@)
    } else {
        match st {
            StateModel::Start => match ev {
                EventModel::Text(_) => stray_text_post(s0, st, s1, st1, effs),
                EventModel::Select(_) => stray_select_post(s0, st, s1, st1, effs),
            },
            StateModel::ReceiveName => match ev {
                EventModel::Text(name) => {
                    &&& (exists|pid: u64|
                        {
                            &&& st1 == StateModel::ReceiveMedicine { patient_id: pid }
                            &&& s1 == save_patient_m(
                                s0,
                                PatientModel {
                                    id: pid,
                                    name: name,
                                    creator_user_id: caller,
                                    shared_with: Seq::empty(),
                                },
                            )
                        })
                    &&& effs == send1(ask_medicine_text(name))
                },
                EventModel::Select(Payload::Patient(pid)) => {
                    if !s0.patients.contains_key(pid) {
                        patient_gone_post(s0, s1, st1, effs, true)
                    } else if !s0.patients[pid].has_access(caller) {
                        denied_post(s0, s1, st1, effs, true)
                    } else {
                        &&& s1 == s0
                        &&& st1 == StateModel::ReceiveMedicine { patient_id: pid }
                        &&& effs == edit1(ask_medicine_text(s0.patients[pid].name))
                    }
                },
                EventModel::Select(Payload::AddNew) => {
                    &&& s1 == s0
                    &&& st1 == StateModel::ReceiveName
                    &&& effs == edit1("Ok, tell me what's the new patient's name."@)
                },
                EventModel::Select(_) => sorry_post(s0, st, s1, st1, effs),
            },
            StateModel::ReceiveMedicine { patient_id } => match ev {
                EventModel::Text(t) => {
                    &&& s1 == s0
                    &&& st1 == StateModel::ReceiveDosage { patient_id, medicine: t }
                    &&& effs == send1("And what's the dosage?"@)
                },
                EventModel::Select(_) => stray_select_post(s0, st, s1, st1, effs),
            },
            StateModel::ReceiveDosage { patient_id, medicine } => match ev {
                EventModel::Text(t) => {
                    &&& s1 == s0
                    &&& st1 == StateModel::ReceiveFrequency { patient_id, medicine, dosage: t }
                    &&& effs == send1(
                        "Finally, what's the medication frequency? \\(e\\.g\\., `every 6 hours`, or `3 times a day`\\)"@,
                    )
                },
                EventModel::Select(_) => stray_select_post(s0, st, s1, st1, effs),
            },
            StateModel::ReceiveFrequency { patient_id, medicine, dosage } => match ev {
                EventModel::Text(t) => {
                    match spec_parse(t) {
                        Option::None => {
                            &&& s1 == s0
                            &&& st1 == st
                            &&& effs == send1(
                                "Didn't quite get that. Can you try again? (ie, every 6 hours, 3 times a day,...)"@,
                            )
                        },
                        Option::Some(h) => {
                            if !s0.patients.contains_key(patient_id) {
                                patient_gone_post(s0, s1, st1, effs, false)
                            } else {
                                &&& (exists|mid: u64, f: Frequency|
                                    {
                                        &&& f.spec_hours() as int == h
                                        &&& f.spec_start_time() is None
                                        &&& s1 == save_medication_m(
                                            s0,
                                            MedicationModel {
                                                id: mid,
                                                patient_id,
                                                medicine,
                                                dosage,
                                                frequency: f,
                                                user_id: caller,
                                                last_taken: Option::None,
                                                patient_name: Option::None,
                                            },
                                        )
                                    })
                                &&& st1 == StateModel::Start
                                &&& effs == send1(
                                    "\nGot it\\. Adding a new plan of `"@ + medicine + "` to `"@
                                        + s0.patients[patient_id].name + "`'s plan: `"@ + dosage
                                        + "`, `"@ + t + "`\\.\n\nWhen giving the first dose, run /take\\.\n"@,
                                )
                            }
                        },
                    }
                },
                EventModel::Select(_) => stray_select_post(s0, st, s1, st1, effs),
            },
            StateModel::ReceivePatientName => match ev {
                EventModel::Text(name) => {
                    &&& (exists|pid: u64|
                        s1 == save_patient_m(
                            s0,
                            PatientModel {
                                id: pid,
                                name: name,
                                creator_user_id: caller,
                                shared_with: Seq::empty(),
                            },
                        ))
                    &&& st1 == StateModel::Start
                    &&& effs == send1(
                        "Added patient "@ + name + ". You might want to /addmedication next."@,
                    )
                },
                EventModel::Select(_) => stray_select_post(s0, st, s1, st1, effs),
            },
            StateModel::SelectPatient => match ev {
                EventModel::Text(_) => stray_text_post(s0, st, s1, st1, effs),
                EventModel::Select(Payload::AddNew) => {
                    &&& s1 == s0
                    &&& st1 == StateModel::ReceivePatientName
                    &&& effs == edit1(
                        "Ok, adding a new patient. Please tell me what's their name:"@,
                    )
                },
                EventModel::Select(Payload::Patient(pid)) => {
                    if !s0.patients.contains_key(pid) {
                        patient_gone_post(s0, s1, st1, effs, true)
                    } else if !s0.patients[pid].has_access(caller) {
                        denied_post(s0, s1, st1, effs, true)
                    } else {
                        &&& s1 == s0
                        &&& st1 == StateModel::PatientOps { patient_id: pid }
                        &&& effs == edit_kb(ops_text(s0.patients[pid]), ops_keyboard_m())
                    }
                },
                EventModel::Select(_) => sorry_post(s0, st, s1, st1, effs),
            },
            StateModel::PatientOps { patient_id } => match ev {
                EventModel::Text(_) => stray_text_post(s0, st, s1, st1, effs),
                EventModel::Select(op) => {
                    if !s0.patients.contains_key(patient_id) {
                        patient_gone_post(s0, s1, st1, effs, true)
                    } else if !s0.patients[patient_id].has_access(caller) {
                        denied_post(s0, s1, st1, effs, true)
                    } else {
                        let p = s0.patients[patient_id];
                        match op {
                            Payload::Take => {
                                &&& s1 == s0
                                &&& st1 == StateModel::TakeMedicineFinal { patient_id }
                                &&& effs == edit_kb(
                                    "Great, now the name of the medicine?"@,
                                    med_keyboard_m(s0, patient_id, now),
                                )
                            },
                            Payload::MedicationLog => {
                                &&& s1 == s0
                                &&& st1 == StateModel::MedicineLog { patient_id }
                                &&& effs == edit_kb(
                                    "Great, getting the log for which medicine?"@,
                                    med_keyboard_m(s0, patient_id, now),
                                )
                            },
                            Payload::SharePatient => {
                                &&& s1 == s0
                                &&& st1 == StateModel::ReceiveUserForSharePatient { patient_id }
                                &&& effs == send1(
                                    "Great. Now please enter the Telegram User ID you'll be sharing patient "@
                                        + p.name + " with, or /cancel."@,
                                )
                            },
                            Payload::DeletePatient => {
                                &&& s1 == delete_patient_m(s0, p)
                                &&& st1 == StateModel::Start
                                &&& effs == edit1("Patient "@ + p.name + " deleted."@)
                            },
                            Payload::ListMedication => {
                                &&& s1 == s0
                                &&& st1 == StateModel::Start
                                &&& (if patient_meds_m(s0, patient_id).len() == 0 {
                                    effs == edit1(
                                        "No medications added yet for "@ + p.name
                                            + ", add one with /addmedication."@,
                                    )
                                } else {
                                    exists|sorted: Seq<MedicationModel>|
                                        {
                                            &&& sorted.to_multiset() == patient_meds_m(
                                                s0,
                                                patient_id,
                                            ).to_multiset()
                                            &&& sorted_desc(sorted)
                                            &&& effs == edit1(
                                                med_lines_m(sorted, now, tz_text(s0, caller))
                                                    + "\nRegister a taken dosage by running /take."@,
                                            )
                                        }
                                })
                            },
                            _ => sorry_post(s0, st, s1, st1, effs),
                        }
                    }
                },
            },
            StateModel::TakeMedicine => match ev {
                EventModel::Text(_) => stray_text_post(s0, st, s1, st1, effs),
                EventModel::Select(Payload::Patient(pid)) => {
                    if !s0.patients.contains_key(pid) {
                        patient_gone_post(s0, s1, st1, effs, true)
                    } else if !s0.patients[pid].has_access(caller) {
                        denied_post(s0, s1, st1, effs, true)
                    } else if patient_meds_m(s0, pid).len() == 0 {
                        &&& s1 == s0
                        &&& st1 == StateModel::Start
                        &&& effs == edit1(
                            "Sorry you haven't added any medication plans for "@
                                + s0.patients[pid].name + " yet, try /addmedication."@,
                        )
                    } else {
                        &&& s1 == s0
                        &&& st1 == StateModel::TakeMedicineFinal { patient_id: pid }
                        &&& effs == edit_kb(
                            "Great, now the name of the medicine?"@,
                            med_keyboard_m(s0, pid, now),
                        )
                    }
                },
                EventModel::Select(_) => sorry_post(s0, st, s1, st1, effs),
            },
            StateModel::TakeMedicineFinal { patient_id } => match ev {
                EventModel::Text(_) => stray_text_post(s0, st, s1, st1, effs),
                EventModel::Select(Payload::Medication(mid)) => {
                    if !s0.patients.contains_key(patient_id) {
                        patient_gone_post(s0, s1, st1, effs, true)
                    } else if !s0.patients[patient_id].has_access(caller) {
                        denied_post(s0, s1, st1, effs, true)
                    } else if !s0.medications.contains_key(mid) {
                        &&& s1 == s0
                        &&& st1 == StateModel::Start
                        &&& effs == edit1("That medication no longer exists - cancelling."@)
                    } else {
                        let p = s0.patients[patient_id];
                        let m = s0.medications[mid];
                        &&& s1 == record_intake_m(s0, m, now)
                        &&& st1 == StateModel::Start
                        &&& effs == edit1(
                            p.name + " has just taken "@ + m.medicine + " ("@ + m.dosage
                                + "). All the best for them."@,
                        ) + notify_effects_m(
                            p.shared_with,
                            caller,
                            p.name + " just taken "@ + m.medicine + " ("@ + m.dosage + "). FYI!"@,
                        )
                    }
                },
                EventModel::Select(_) => sorry_post(s0, st, s1, st1, effs),
            },
            StateModel::MedicineLog { patient_id } => match ev {
                EventModel::Text(_) => stray_text_post(s0, st, s1, st1, effs),
                EventModel::Select(Payload::Medication(mid)) => {
                    if !s0.patients.contains_key(patient_id) {
                        patient_gone_post(s0, s1, st1, effs, true)
                    } else if !s0.patients[patient_id].has_access(caller) {
                        denied_post(s0, s1, st1, effs, true)
                    } else if !s0.medications.contains_key(mid) {
                        &&& s1 == s0
                        &&& st1 == StateModel::Start
                        &&& effs == edit1("That medication no longer exists - cancelling."@)
                    } else {
                        let p = s0.patients[patient_id];
                        let m = s0.medications[mid];
                        let log = crate::store::recent_log(s0.log_seq(mid), 11);
                        let header = "Log for "@ + p.name + " administration of "@ + m.medicine
                            + " ("@ + m.dosage + "):\n"@;
                        &&& s1 == s0
                        &&& st1 == StateModel::Start
                        &&& effs == edit1(
                            header + "\n"@ + (if log.len() == 0 {
                                " - Patient hasn't taken this medicine yet."@
                            } else {
                                log_lines_m(log, tz_text(s0, caller))
                            }),
                        )
                    }
                },
                EventModel::Select(_) => sorry_post(s0, st, s1, st1, effs),
            },
            StateModel::ReceiveUserForSharePatient { patient_id } => match ev {
                EventModel::Text(t) => {
                    if !is_number(t) || digits_val(t) > u64::MAX {
                        &&& s1 == s0
                        &&& st1 == st
                        &&& effs == send1(
                            "That doesn't look like a Telegram User ID (should be a number). Please try again or /cancel."@,
                        )
                    } else if !s0.patients.contains_key(patient_id) {
                        patient_gone_post(s0, s1, st1, effs, false)
                    } else if !s0.patients[patient_id].has_access(caller) {
                        denied_post(s0, s1, st1, effs, false)
                    } else {
                        let p = s0.patients[patient_id];
                        let target = digits_val(t) as u64;
                        &&& s1 == save_patient_m(
                            share_store_m(s0, patient_id, p.creator_user_id, target),
                            share_patient_m(p, target),
                        )
                        &&& st1 == StateModel::Start
                        &&& effs == send1("Patient "@ + p.name + " shared."@)
                    }
                },
                EventModel::Select(_) => stray_select_post(s0, st, s1, st1, effs),
            },
        }
    }
}

fn no_effects() -> (e: Vec<Effect>)
    ensures
        effect_views(e@) == Seq::<EffectModel>::empty(),
{
    let e: Vec<Effect> = Vec::new();
    proof {
        assert(effect_views(e@) =~= Seq::<EffectModel>::empty());
    }
    e
}

/// The static per-patient operations menu.
fn ops_keyboard() -> (kb: Vec<Vec<Button>>)
    ensures
        keyboard_views(kb@) == ops_keyboard_m(),
{
    let mut kb: Vec<Vec<Button>> = Vec::new();
    let mut r1: Vec<Button> = Vec::new();
    r1.push(
        Button { label: String::from_str("Register medicine intake "), payload: Payload::Take },
    );
    let mut r2: Vec<Button> = Vec::new();
    r2.push(
        Button { label: String::from_str("All medications"), payload: Payload::ListMedication },
    );
    r2.push(Button { label: String::from_str("Intake log"), payload: Payload::MedicationLog });
    let mut r3: Vec<Button> = Vec::new();
    r3.push(Button { label: String::from_str("Share"), payload: Payload::SharePatient });
    r3.push(Button { label: String::from_str("Delete"), payload: Payload::DeletePatient });
    let mut r4: Vec<Button> = Vec::new();
    r4.push(cancel_button());
    proof {
        assert(row_views(r1@) =~= ops_keyboard_m()[0]);
        assert(row_views(r2@) =~= ops_keyboard_m()[1]);
        assert(row_views(r3@) =~= ops_keyboard_m()[2]);
        assert(row_views(r4@) =~= ops_keyboard_m()[3]);
    }
    let ghost g1: Vec<Button> = r1;
    let ghost g2: Vec<Button> = r2;
    let ghost g3: Vec<Button> = r3;
    let ghost g4: Vec<Button> = r4;
    kb.push(r1);
    kb.push(r2);
    kb.push(r3);
    kb.push(r4);
    proof {
        assert(kb@ =~= Seq::<Vec<Button>>::empty().push(g1).push(g2).push(g3).push(g4));
        assert(keyboard_views(kb@) =~= ops_keyboard_m());
    }
    kb
}

/// The intake-log lines, through the caller's timezone.
#[verifier::loop_isolation(false)]
fn render_log_lines(log: &Vec<i64>, tz: &str) -> (r: String)
    ensures
        r@ == log_lines_m(log@, tz@),
{
    let mut s = String::new();
    let mut i: usize = 0;
    proof {
        assert(log@.subrange(0, 0) =~= Seq::<i64>::empty());
        assert(s@ =~= log_lines_m(log@.subrange(0, 0), tz@));
    }
    while i < log.len()
        invariant
            i <= log@.len(),
            s@ == log_lines_m(log@.subrange(0, i as int), tz@),
        decreases log@.len() - i,
    {
        proof {
            assert(log@.subrange(0, i as int + 1).drop_last() =~= log@.subrange(0, i as int));
            assert(log@.subrange(0, i as int + 1).last() == log@[i as int]);
        }
        s.append(" - ");
        s.append(format_in_zone(log[i], tz).as_str());
        s.append("\n");
        proof {
            assert(s@ =~= log_lines_m(log@.subrange(0, i as int + 1), tz@));
        }
        i += 1;
    }
    proof {
        assert(log@.subrange(0, i as int) =~= log@);
    }
    s
}

/// The listing the list-medications operation renders, most recently
/// taken first.
#[verifier::loop_isolation(false)]
fn render_sorted_list(meds: Vec<Medication>, now: i64, tz: &str) -> (r: String)
    requires
        forall|t: int| 0 <= t < meds@.len() ==> (#[trigger] meds@[t])@.wf(),
    ensures
        r@ == med_lines_m(med_views(meds@), now, tz@),
{
    let mut s = String::new();
    let mut i: usize = 0;
    proof {
        assert(med_views(meds@).subrange(0, 0) =~= Seq::<MedicationModel>::empty());
        assert(s@ =~= med_lines_m(med_views(meds@).subrange(0, 0), now, tz@));
    }
    while i < meds.len()
        invariant
            i <= meds@.len(),
            s@ == med_lines_m(med_views(meds@).subrange(0, i as int), now, tz@),
        decreases meds@.len() - i,
    {
        proof {
            assert(med_views(meds@).subrange(0, i as int + 1).drop_last() =~= med_views(
                meds@,
            ).subrange(0, i as int));
            assert(med_views(meds@).subrange(0, i as int + 1).last() == meds@[i as int]@);
        }
        s.append(meds[i].print_in_list(now, tz).as_str());
        s.append("\n");
        proof {
            assert(s@ =~= med_lines_m(med_views(meds@).subrange(0, i as int + 1), now, tz@));
        }
        i += 1;
    }
    proof {
        assert(med_views(meds@).subrange(0, i as int) =~= med_views(meds@));
    }
    s
}

/// Drive one inbound event against the session's current state: the
/// store is updated, and the next state and the replies come back.
pub fn step(store: &mut Store, state: State, event: Event, caller: u64, now: i64) -> (r: (
    State,
    Vec<Effect>,
))
    requires
        old(store)@.inv(),
    ensures
        step_post(old(store)@, state@, event@, caller, now, final(store)@, r.0@, effect_views(r.1@)),
        final(store)@.inv(),
{
    let ghost s0 = store@;
    match &event {
        Event::Select(p) => {
            if *p == Payload::Cancel {
                return (
                    State::Start,
                    one_edit(String::from_str("Cancelling the current operation."), None),
                );
            }
        },
        _ => {},
    }
    match (state, event) {
        (State::Start, Event::Text(_)) => {
            (
                State::Start,
                one_send(
                    String::from_str("Didn't quite get that. Try /addmedication, /patients or /help!"),
                    None,
                ),
            )
        },
        (State::Start, Event::Select(_)) => (State::Start, no_effects()),
        (State::ReceiveName, Event::Text(name)) => {
            let p = Patient::new(name, caller);
            p.save(store);
            let mut t = String::from_str("Great. Now what's the name of the medicine ");
            t.append(p.name.as_str());
            t.append(" is going to be taking?");
            proof {
                assert(t@ =~= ask_medicine_text(p@.name));
                assert(p@ == (PatientModel {
                    id: p.id,
                    name: p@.name,
                    creator_user_id: caller,
                    shared_with: Seq::<u64>::empty(),
                }));
            }
            (State::ReceiveMedicine { patient_id: p.id }, one_send(t, None))
        },
        (State::ReceiveName, Event::Select(pl)) => {
            match pl {
                Payload::Patient(pid) => {
                    match Patient::get_by_id(pid, store) {
                        None => {
                            (
                                State::Start,
                                one_edit(
                                    String::from_str("That patient no longer exists - cancelling."),
                                    None,
                                ),
                            )
                        },
                        Some(pat) => {
                            if !pat.has_access(caller) {
                                (
                                    State::Start,
                                    one_edit(
                                        String::from_str(
                                            "Sorry, you don't have access to that patient.",
                                        ),
                                        None,
                                    ),
                                )
                            } else {
                                let mut t = String::from_str(
                                    "Great. Now what's the name of the medicine ",
                                );
                                t.append(pat.name.as_str());
                                t.append(" is going to be taking?");
                                proof {
                                    assert(t@ =~= ask_medicine_text(s0.patients[pid].name));
                                }
                                (State::ReceiveMedicine { patient_id: pid }, one_edit(t, None))
                            }
                        },
                    }
                },
                Payload::AddNew => {
                    (
                        State::ReceiveName,
                        one_edit(
                            String::from_str("Ok, tell me what's the new patient's name."),
                            None,
                        ),
                    )
                },
                _ => {
                    (
                        State::ReceiveName,
                        one_edit(String::from_str("Didn't quite get that, sorry."), None),
                    )
                },
            }
        },
        (State::ReceiveMedicine { patient_id }, Event::Text(t)) => {
            (
                State::ReceiveDosage { patient_id, medicine: t },
                one_send(String::from_str("And what's the dosage?"), None),
            )
        },
        (State::ReceiveMedicine { patient_id }, Event::Select(_)) => {
            (State::ReceiveMedicine { patient_id }, no_effects())
        },
        (State::ReceiveDosage { patient_id, medicine }, Event::Text(t)) => {
            (
                State::ReceiveFrequency { patient_id, medicine, dosage: t },
                one_send(
                    String::from_str(
                        "Finally, what's the medication frequency? \\(e\\.g\\., `every 6 hours`, or `3 times a day`\\)",
                    ),
                    None,
                ),
            )
        },
        (State::ReceiveDosage { patient_id, medicine }, Event::Select(_)) => {
            (State::ReceiveDosage { patient_id, medicine }, no_effects())
        },
        (State::ReceiveFrequency { patient_id, medicine, dosage }, Event::Text(t)) => {
            match Frequency::parse(t.as_str()) {
                None => {
                    (
                        State::ReceiveFrequency { patient_id, medicine, dosage },
                        one_send(
                            String::from_str(
                                "Didn't quite get that. Can you try again? (ie, every 6 hours, 3 times a day,...)",
                            ),
                            None,
                        ),
                    )
                },
                Some(f) => {
                    match Patient::get_by_id(patient_id, store) {
                        None => {
                            (
                                State::Start,
                                one_send(
                                    String::from_str("That patient no longer exists - cancelling."),
                                    None,
                                ),
                            )
                        },
                        Some(pat) => {
                            let mut med = Medication::new(patient_id, medicine, dosage, f, caller);
                            let ghost m0 = med@;
                            let mut msg = String::from_str("\nGot it\\. Adding a new plan of `");
                            msg.append(med.medicine.as_str());
                            msg.append("` to `");
                            msg.append(pat.name.as_str());
                            msg.append("`'s plan: `");
                            msg.append(med.dosage.as_str());
                            msg.append("`, `");
                            msg.append(t.as_str());
                            msg.append("`\\.\n\nWhen giving the first dose, run /take\\.\n");
                            med.save(store);
                            proof {
                                assert(m0 == (MedicationModel {
                                    id: m0.id,
                                    patient_id,
                                    medicine: m0.medicine,
                                    dosage: m0.dosage,
                                    frequency: f,
                                    user_id: caller,
                                    last_taken: Option::None,
                                    patient_name: Option::None,
                                }));
                                assert(msg@ =~= "\nGot it\\. Adding a new plan of `"@ + m0.medicine
                                    + "` to `"@ + s0.patients[patient_id].name + "`'s plan: `"@
                                    + m0.dosage + "`, `"@ + t@
                                    + "`\\.\n\nWhen giving the first dose, run /take\\.\n"@);
                            }
                            (State::Start, one_send(msg, None))
                        },
                    }
                },
            }
        },
        (State::ReceiveFrequency { patient_id, medicine, dosage }, Event::Select(_)) => {
            (State::ReceiveFrequency { patient_id, medicine, dosage }, no_effects())
        },
        (State::ReceivePatientName, Event::Text(name)) => {
            let p = Patient::new(name, caller);
            p.save(store);
            let mut t = String::from_str("Added patient ");
            t.append(p.name.as_str());
            t.append(". You might want to /addmedication next.");
            proof {
                assert(t@ =~= "Added patient "@ + p@.name
                    + ". You might want to /addmedication next."@);
                assert(p@ == (PatientModel {
                    id: p.id,
                    name: p@.name,
                    creator_user_id: caller,
                    shared_with: Seq::<u64>::empty(),
                }));
            }
            (State::Start, one_send(t, None))
        },
        (State::ReceivePatientName, Event::Select(_)) => (State::ReceivePatientName, no_effects()),
        (State::SelectPatient, Event::Text(_)) => {
            (
                State::SelectPatient,
                one_send(
                    String::from_str("Didn't quite get that. Try /addmedication, /patients or /help!"),
                    None,
                ),
            )
        },
        (State::SelectPatient, Event::Select(pl)) => {
            match pl {
                Payload::AddNew => {
                    (
                        State::ReceivePatientName,
                        one_edit(
                            String::from_str(
                                "Ok, adding a new patient. Please tell me what's their name:",
                            ),
                            None,
                        ),
                    )
                },
                Payload::Patient(pid) => {
                    match Patient::get_by_id(pid, store) {
                        None => {
                            (
                                State::Start,
                                one_edit(
                                    String::from_str("That patient no longer exists - cancelling."),
                                    None,
                                ),
                            )
                        },
                        Some(pat) => {
                            if !pat.has_access(caller) {
                                (
                                    State::Start,
                                    one_edit(
                                        String::from_str(
                                            "Sorry, you don't have access to that patient.",
                                        ),
                                        None,
                                    ),
                                )
                            } else {
                                let mut t = String::new();
                                if pat.shared_with.len() > 0 {
                                    t.append("Patient shared with accounts: ");
                                    t.append(ids_string(&pat.shared_with).as_str());
                                    t.append("\\.\n\n");
                                }
                                t.append("Select an option for ");
                                t.append(pat.name.as_str());
                                t.append(":");
                                proof {
                                    assert(t@ =~= ops_text(s0.patients[pid]));
                                }
                                (
                                    State::PatientOps { patient_id: pid },
                                    one_edit(t, Some(ops_keyboard())),
                                )
                            }
                        },
                    }
                },
                _ => {
                    (
                        State::SelectPatient,
                        one_edit(String::from_str("Didn't quite get that, sorry."), None),
                    )
                },
            }
        },
        (State::PatientOps { patient_id }, Event::Text(_)) => {
            (
                State::PatientOps { patient_id },
                one_send(
                    String::from_str("Didn't quite get that. Try /addmedication, /patients or /help!"),
                    None,
                ),
            )
        },
        (State::PatientOps { patient_id }, Event::Select(op)) => {
            match Patient::get_by_id(patient_id, store) {
                None => {
                    (
                        State::Start,
                        one_edit(
                            String::from_str("That patient no longer exists - cancelling."),
                            None,
                        ),
                    )
                },
                Some(pat) => {
                    if !pat.has_access(caller) {
                        (
                            State::Start,
                            one_edit(
                                String::from_str("Sorry, you don't have access to that patient."),
                                None,
                            ),
                        )
                    } else {
                        match op {
                            Payload::Take => {
                                let kb = Medication::generate_medication_keyboard(
                                    patient_id,
                                    store,
                                    now,
                                );
                                (
                                    State::TakeMedicineFinal { patient_id },
                                    one_edit(
                                        String::from_str("Great, now the name of the medicine?"),
                                        Some(kb),
                                    ),
                                )
                            },
                            Payload::MedicationLog => {
                                let kb = Medication::generate_medication_keyboard(
                                    patient_id,
                                    store,
                                    now,
                                );
                                (
                                    State::MedicineLog { patient_id },
                                    one_edit(
                                        String::from_str(
                                            "Great, getting the log for which medicine?",
                                        ),
                                        Some(kb),
                                    ),
                                )
                            },
                            Payload::SharePatient => {
                                let mut t = String::from_str(
                                    "Great. Now please enter the Telegram User ID you'll be sharing patient ",
                                );
                                t.append(pat.name.as_str());
                                t.append(" with, or /cancel.");
                                proof {
                                    assert(t@
                                        =~= "Great. Now please enter the Telegram User ID you'll be sharing patient "@
                                        + s0.patients[patient_id].name + " with, or /cancel."@);
                                }
                                (
                                    State::ReceiveUserForSharePatient { patient_id },
                                    one_send(t, None),
                                )
                            },
                            Payload::DeletePatient => {
                                pat.delete(store);
                                let mut t = String::from_str("Patient ");
                                t.append(pat.name.as_str());
                                t.append(" deleted.");
                                proof {
                                    assert(t@ =~= "Patient "@ + s0.patients[patient_id].name
                                        + " deleted."@);
                                }
                                (State::Start, one_edit(t, None))
                            },
                            Payload::ListMedication => {
                                let meds = Medication::get_all_by_patient_id(patient_id, store);
                                if meds.len() == 0 {
                                    let mut t = String::from_str("No medications added yet for ");
                                    t.append(pat.name.as_str());
                                    t.append(", add one with /addmedication.");
                                    proof {
                                        assert(t@ =~= "No medications added yet for "@
                                            + s0.patients[patient_id].name
                                            + ", add one with /addmedication."@);
                                    }
                                    (State::Start, one_edit(t, None))
                                } else {
                                    let sorted = sort_meds_desc(meds);
                                    proof {
                                        lemma_meds_of_ids_wf(
                                            store@,
                                            store@.med_seq(patient_id),
                                        );
                                        broadcast use vstd::seq_lib::group_to_multiset_ensures;

                                        assert forall|q: int|
                                            0 <= q < sorted@.len() implies (
                                        #[trigger] sorted@[q])@.wf() by {
                                            let x = sorted@[q]@;
                                            let pm = patient_meds_m(store@, patient_id);
                                            assert(pm.contains(x));
                                            let w = choose|w: int| 0 <= w < pm.len() && pm[w] == x;
                                            assert(pm[w].wf());
                                        }
                                    }
                                    let tzs = get_user_timezone(store, caller);
                                    let mut t = render_sorted_list(sorted, now, tzs.as_str());
                                    t.append("\nRegister a taken dosage by running /take.");
                                    (State::Start, one_edit(t, None))
                                }
                            },
                            _ => {
                                (
                                    State::PatientOps { patient_id },
                                    one_edit(
                                        String::from_str("Didn't quite get that, sorry."),
                                        None,
                                    ),
                                )
                            },
                        }
                    }
                },
            }
        },
        (State::TakeMedicine, Event::Text(_)) => {
            (
                State::TakeMedicine,
                one_send(
                    String::from_str("Didn't quite get that. Try /addmedication, /patients or /help!"),
                    None,
                ),
            )
        },
        (State::TakeMedicine, Event::Select(pl)) => {
            match pl {
                Payload::Patient(pid) => {
                    match Patient::get_by_id(pid, store) {
                        None => {
                            (
                                State::Start,
                                one_edit(
                                    String::from_str("That patient no longer exists - cancelling."),
                                    None,
                                ),
                            )
                        },
                        Some(pat) => {
                            if !pat.has_access(caller) {
                                (
                                    State::Start,
                                    one_edit(
                                        String::from_str(
                                            "Sorry, you don't have access to that patient.",
                                        ),
                                        None,
                                    ),
                                )
                            } else {
                                let meds = Medication::get_all_by_patient_id(pid, store);
                                if meds.len() == 0 {
                                    let mut t = String::from_str(
                                        "Sorry you haven't added any medication plans for ",
                                    );
                                    t.append(pat.name.as_str());
                                    t.append(" yet, try /addmedication.");
                                    proof {
                                        assert(t@
                                            =~= "Sorry you haven't added any medication plans for "@
                                            + s0.patients[pid].name + " yet, try /addmedication."@);
                                    }
                                    (State::Start, one_edit(t, None))
                                } else {
                                    let kb = Medication::generate_medication_keyboard(
                                        pid,
                                        store,
                                        now,
                                    );
                                    (
                                        State::TakeMedicineFinal { patient_id: pid },
                                        one_edit(
                                            String::from_str(
                                                "Great, now the name of the medicine?",
                                            ),
                                            Some(kb),
                                        ),
                                    )
                                }
                            }
                        },
                    }
                },
                _ => {
                    (
                        State::TakeMedicine,
                        one_edit(String::from_str("Didn't quite get that, sorry."), None),
                    )
                },
            }
        },
        (State::TakeMedicineFinal { patient_id }, Event::Text(_)) => {
            (
                State::TakeMedicineFinal { patient_id },
                one_send(
                    String::from_str("Didn't quite get that. Try /addmedication, /patients or /help!"),
                    None,
                ),
            )
        },
        (State::TakeMedicineFinal { patient_id }, Event::Select(pl)) => {
            match pl {
                Payload::Medication(mid) => {
                    match Patient::get_by_id(patient_id, store) {
                        None => {
                            (
                                State::Start,
                                one_edit(
                                    String::from_str("That patient no longer exists - cancelling."),
                                    None,
                                ),
                            )
                        },
                        Some(pat) => {
                            if !pat.has_access(caller) {
                                (
                                    State::Start,
                                    one_edit(
                                        String::from_str(
                                            "Sorry, you don't have access to that patient.",
                                        ),
                                        None,
                                    ),
                                )
                            } else {
                                match Medication::get_by_id(mid, store) {
                                    None => {
                                        (
                                            State::Start,
                                            one_edit(
                                                String::from_str(
                                                    "That medication no longer exists - cancelling.",
                                                ),
                                                None,
                                            ),
                                        )
                                    },
                                    Some(mut med) => {
                                        let mut t1 = String::new();
                                        t1.append(pat.name.as_str());
                                        t1.append(" has just taken ");
                                        t1.append(med.medicine.as_str());
                                        t1.append(" (");
                                        t1.append(med.dosage.as_str());
                                        t1.append("). All the best for them.");
                                        let mut t2 = String::new();
                                        t2.append(pat.name.as_str());
                                        t2.append(" just taken ");
                                        t2.append(med.medicine.as_str());
                                        t2.append(" (");
                                        t2.append(med.dosage.as_str());
                                        t2.append("). FYI!");
                                        proof {
                                            let p = s0.patients[patient_id];
                                            let m = s0.medications[mid];
                                            assert(t1@ =~= p.name + " has just taken "@ + m.medicine
                                                + " ("@ + m.dosage + "). All the best for them."@);
                                            assert(t2@ =~= p.name + " just taken "@ + m.medicine
                                                + " ("@ + m.dosage + "). FYI!"@);
                                        }
                                        med.set_taken_at(now, store);
                                        let mut effs = one_edit(t1, None);
                                        push_notifications(
                                            &mut effs,
                                            &pat.shared_with,
                                            caller,
                                            t2.as_str(),
                                        );
                                        (State::Start, effs)
                                    },
                                }
                            }
                        },
                    }
                },
                _ => {
                    (
                        State::TakeMedicineFinal { patient_id },
                        one_edit(String::from_str("Didn't quite get that, sorry."), None),
                    )
                },
            }
        },
        (State::MedicineLog { patient_id }, Event::Text(_)) => {
            (
                State::MedicineLog { patient_id },
                one_send(
                    String::from_str("Didn't quite get that. Try /addmedication, /patients or /help!"),
                    None,
                ),
            )
        },
        (State::MedicineLog { patient_id }, Event::Select(pl)) => {
            match pl {
                Payload::Medication(mid) => {
                    match Patient::get_by_id(patient_id, store) {
                        None => {
                            (
                                State::Start,
                                one_edit(
                                    String::from_str("That patient no longer exists - cancelling."),
                                    None,
                                ),
                            )
                        },
                        Some(pat) => {
                            if !pat.has_access(caller) {
                                (
                                    State::Start,
                                    one_edit(
                                        String::from_str(
                                            "Sorry, you don't have access to that patient.",
                                        ),
                                        None,
                                    ),
                                )
                            } else {
                                match Medication::get_by_id(mid, store) {
                                    None => {
                                        (
                                            State::Start,
                                            one_edit(
                                                String::from_str(
                                                    "That medication no longer exists - cancelling.",
                                                ),
                                                None,
                                            ),
                                        )
                                    },
                                    Some(med) => {
                                        let log = med.get_medication_log(store);
                                        let mut t = String::from_str("Log for ");
                                        t.append(pat.name.as_str());
                                        t.append(" administration of ");
                                        t.append(med.medicine.as_str());
                                        t.append(" (");
                                        t.append(med.dosage.as_str());
                                        t.append("):\n");
                                        t.append("\n");
                                        if log.len() == 0 {
                                            t.append(
                                                " - Patient hasn't taken this medicine yet.",
                                            );
                                        } else {
                                            let tzs = get_user_timezone(store, caller);
                                            t.append(render_log_lines(&log, tzs.as_str()).as_str());
                                        }
                                        proof {
                                            let p = s0.patients[patient_id];
                                            let m = s0.medications[mid];
                                            let lg = crate::store::recent_log(
                                                s0.log_seq(mid),
                                                11,
                                            );
                                            let header = "Log for "@ + p.name
                                                + " administration of "@ + m.medicine + " ("@
                                                + m.dosage + "):\n"@;
                                            assert(t@ =~= header + "\n"@ + (if lg.len() == 0 {
                                                " - Patient hasn't taken this medicine yet."@
                                            } else {
                                                log_lines_m(lg, tz_text(s0, caller))
                                            }));
                                        }
                                        (State::Start, one_edit(t, None))
                                    },
                                }
                            }
                        },
                    }
                },
                _ => {
                    (
                        State::MedicineLog { patient_id },
                        one_edit(String::from_str("Didn't quite get that, sorry."), None),
                    )
                },
            }
        },
        (State::ReceiveUserForSharePatient { patient_id }, Event::Text(t)) => {
            match parse_user_id(t.as_str()) {
                None => {
                    (
                        State::ReceiveUserForSharePatient { patient_id },
                        one_send(
                            String::from_str(
                                "That doesn't look like a Telegram User ID (should be a number). Please try again or /cancel.",
                            ),
                            None,
                        ),
                    )
                },
                Some(target) => {
                    match Patient::get_by_id(patient_id, store) {
                        None => {
                            (
                                State::Start,
                                one_send(
                                    String::from_str("That patient no longer exists - cancelling."),
                                    None,
                                ),
                            )
                        },
                        Some(mut pat) => {
                            if !pat.has_access(caller) {
                                (
                                    State::Start,
                                    one_send(
                                        String::from_str(
                                            "Sorry, you don't have access to that patient.",
                                        ),
                                        None,
                                    ),
                                )
                            } else {
                                let mut msg = String::from_str("Patient ");
                                msg.append(pat.name.as_str());
                                msg.append(" shared.");
                                pat.share(target, store);
                                pat.save(store);
                                proof {
                                    assert(msg@ =~= "Patient "@ + s0.patients[patient_id].name
                                        + " shared."@);
                                }
                                (State::Start, one_send(msg, None))
                            }
                        },
                    }
                },
            }
        },
        (State::ReceiveUserForSharePatient { patient_id }, Event::Select(_)) => {
            (State::ReceiveUserForSharePatient { patient_id }, no_effects())
        },
    }
}

/// Drive one inbound event at the present moment: what `step` does,
/// for whatever the clock read.
pub fn handle_event(store: &mut Store, state: State, event: Event, caller: u64) -> (r: (
    State,
    Vec<Effect>,
))
    requires
        old(store)@.inv(),
    ensures
        exists|now: i64|
            step_post(
                old(store)@,
                state@,
                event@,
                caller,
                now,
                final(store)@,
                r.0@,
                effect_views(r.1@),
            ),
        final(store)@.inv(),
{
    let now = crate::time::now_seconds();
    let ghost s0 = store@;
    let ghost stv = state@;
    let ghost evv = event@;
    let r = step(store, state, event, caller, now);
    proof {
        assert(step_post(s0, stv, evv, caller, now, store@, r.0@, effect_views(r.1@)));
    }
    r
}

/// The `cancel` command resets every session to `Start`; commands
/// cannot touch the store at all.
pub proof fn lemma_cancel_command(
    s: StoreModel,
    st: StateModel,
    caller: u64,
    now: i64,
    st1: StateModel,
    effs: Seq<EffectModel>,
)
    requires
        command_post(s, st, Command::Cancel, caller, now, st1, effs),
    ensures
        st1 == StateModel::Start,
{
}

/// A `cancel` selection resets every session to `Start` and leaves the
/// store exactly as it was: no record, index, log or setting changes.
pub proof fn lemma_cancel_resets(
    s0: StoreModel,
    st: StateModel,
    caller: u64,
    now: i64,
    s1: StoreModel,
    st1: StateModel,
    effs: Seq<EffectModel>,
)
    requires
        step_post(s0, st, EventModel::Select(Payload::Cancel), caller, now, s1, st1, effs),
    ensures
        s1 == s0,
        st1 == StateModel::Start,
{
}

} // verus!

