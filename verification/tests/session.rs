//! The session state machine: the add-medication happy path, universal
//! cancel, access control, stale references, and intake fan-out.

use medibot::handle_command;
use medibot::step;
use medibot::Command;
use medibot::Effect;
use medibot::Event;
use medibot::Medication;
use medibot::Patient;
use medibot::Payload;
use medibot::State;
use medibot::Store;

const NOW: i64 = 1_000_000;

fn text(s: &str) -> Event {
    Event::Text(s.to_string())
}

#[test]
fn add_medication_happy_path() {
    let caller: u64 = 42;
    let mut store = Store::new();

    let (state, _) = handle_command(&store, State::Start, Command::AddMedication, caller, NOW);
    assert_eq!(state, State::ReceiveName);

    let (state, _) = step(&mut store, state, Event::Select(Payload::AddNew), caller, NOW);
    assert_eq!(state, State::ReceiveName);

    let (state, _) = step(&mut store, state, text("Alice"), caller, NOW);
    let pid = match state {
        State::ReceiveMedicine { patient_id } => patient_id,
        ref other => panic!("unexpected state {:?}", other),
    };

    let (state, _) = step(&mut store, state, text("Ibuprofen"), caller, NOW);
    assert_eq!(
        state,
        State::ReceiveDosage { patient_id: pid, medicine: "Ibuprofen".to_string() }
    );

    let (state, _) = step(&mut store, state, text("200mg"), caller, NOW);
    assert_eq!(
        state,
        State::ReceiveFrequency {
            patient_id: pid,
            medicine: "Ibuprofen".to_string(),
            dosage: "200mg".to_string(),
        }
    );

    let (state, _) = step(&mut store, state, text("every 6 hours"), caller, NOW);
    assert_eq!(state, State::Start);

    let patients = Patient::get_my_patients(caller, &store);
    assert_eq!(patients.len(), 1);
    assert_eq!(patients[0].name, "Alice");
    assert_eq!(patients[0].id, pid);

    let meds = Medication::get_all_by_patient_id(pid, &store);
    assert_eq!(meds.len(), 1);
    assert_eq!(meds[0].medicine, "Ibuprofen");
    assert_eq!(meds[0].dosage, "200mg");
    assert_eq!(meds[0].frequency.get_hours(), 6);
    assert_eq!(meds[0].patient_name, Some("Alice".to_string()));
}

#[test]
fn rejected_frequency_reprompts_in_place() {
    let caller: u64 = 42;
    let mut store = Store::new();
    let patient = Patient::new("Bob".to_string(), caller);
    patient.save(&mut store);

    let state = State::ReceiveFrequency {
        patient_id: patient.id,
        medicine: "syrup".to_string(),
        dosage: "5ml".to_string(),
    };
    let (state2, effects) = step(&mut store, state.clone(), text("whenever"), caller, NOW);
    assert_eq!(state2, state);
    assert_eq!(effects.len(), 1);
    assert!(Medication::get_all_by_patient_id(patient.id, &store).is_empty());
}

#[test]
fn cancel_resets_every_state_and_leaves_store_alone() {
    let caller: u64 = 42;
    let mut store = Store::new();
    let mut patient = Patient::new("Cara".to_string(), caller);
    patient.save(&mut store);
    patient.share(77, &mut store);
    patient.save(&mut store);
    let mut med = Medication::new(
        patient.id,
        "pill".to_string(),
        "1".to_string(),
        medibot::Frequency::new(6),
        caller,
    );
    med.save(&mut store);
    med.set_taken_at(NOW - 10, &mut store);

    let pid = patient.id;
    let states = vec![
        State::ReceiveName,
        State::ReceiveMedicine { patient_id: pid },
        State::ReceiveDosage { patient_id: pid, medicine: "m".to_string() },
        State::ReceiveFrequency {
            patient_id: pid,
            medicine: "m".to_string(),
            dosage: "d".to_string(),
        },
        State::ReceivePatientName,
        State::SelectPatient,
        State::PatientOps { patient_id: pid },
        State::TakeMedicine,
        State::TakeMedicineFinal { patient_id: pid },
        State::MedicineLog { patient_id: pid },
        State::ReceiveUserForSharePatient { patient_id: pid },
    ];

    for st in states {
        let (next, effects) = step(&mut store, st, Event::Select(Payload::Cancel), caller, NOW);
        assert_eq!(next, State::Start);
        assert_eq!(effects.len(), 1);
        // The domain store is untouched: same records, indexes and log.
        let ps = Patient::get_my_patients(caller, &store);
        assert_eq!(ps.len(), 1);
        assert_eq!(ps[0].shared_with, vec![77]);
        let ms = Medication::get_all_by_patient_id(pid, &store);
        assert_eq!(ms.len(), 1);
        assert_eq!(ms[0].last_taken, Some(NOW - 10));
        assert_eq!(ms[0].get_medication_log(&store), vec![NOW - 10]);
    }

    // The cancel command does the same from within a flow.
    let (next, _) = handle_command(
        &store,
        State::ReceiveMedicine { patient_id: pid },
        Command::Cancel,
        caller,
        NOW,
    );
    assert_eq!(next, State::Start);
}

#[test]
fn intake_notifies_other_shared_accounts_only() {
    let creator: u64 = 1;
    let second: u64 = 2;
    let third: u64 = 3;
    let mut store = Store::new();
    let mut patient = Patient::new("Dana".to_string(), creator);
    patient.save(&mut store);
    patient.share(second, &mut store);
    patient.share(third, &mut store);
    patient.save(&mut store);

    let mut med = Medication::new(
        patient.id,
        "drops".to_string(),
        "2".to_string(),
        medibot::Frequency::new(4),
        creator,
    );
    med.save(&mut store);

    // The second account registers the intake.
    let (next, effects) = step(
        &mut store,
        State::TakeMedicineFinal { patient_id: patient.id },
        Event::Select(Payload::Medication(med.id)),
        second,
        NOW,
    );
    assert_eq!(next, State::Start);

    let notified: Vec<u64> = effects
        .iter()
        .filter_map(|e| match e {
            Effect::Notify { user_id, .. } => Some(*user_id),
            _ => None,
        })
        .collect();
    assert_eq!(notified, vec![third]);

    let stored = Medication::get_by_id(med.id, &store).unwrap();
    assert_eq!(stored.last_taken, Some(NOW));
    assert_eq!(stored.get_medication_log(&store), vec![NOW]);
}

#[test]
fn stale_patient_reference_cancels_the_flow() {
    let caller: u64 = 5;
    let mut store = Store::new();
    let (next, effects) = step(
        &mut store,
        State::PatientOps { patient_id: 12345 },
        Event::Select(Payload::DeletePatient),
        caller,
        NOW,
    );
    assert_eq!(next, State::Start);
    match &effects[0] {
        Effect::Edit { text, .. } => {
            assert_eq!(text, "That patient no longer exists - cancelling.")
        },
        other => panic!("unexpected effect {:?}", other),
    }
}

#[test]
fn foreign_patient_is_refused() {
    let owner: u64 = 6;
    let intruder: u64 = 66;
    let mut store = Store::new();
    let patient = Patient::new("Eve".to_string(), owner);
    patient.save(&mut store);

    let (next, effects) = step(
        &mut store,
        State::SelectPatient,
        Event::Select(Payload::Patient(patient.id)),
        intruder,
        NOW,
    );
    assert_eq!(next, State::Start);
    match &effects[0] {
        Effect::Edit { text, .. } => {
            assert_eq!(text, "Sorry, you don't have access to that patient.")
        },
        other => panic!("unexpected effect {:?}", other),
    }
    // The record still stands, untouched.
    assert!(Patient::get_by_id(patient.id, &store).is_some());
}

#[test]
fn delete_via_patient_ops_removes_everything() {
    let caller: u64 = 8;
    let mut store = Store::new();
    let patient = Patient::new("Finn".to_string(), caller);
    patient.save(&mut store);

    let (next, _) = step(
        &mut store,
        State::PatientOps { patient_id: patient.id },
        Event::Select(Payload::DeletePatient),
        caller,
        NOW,
    );
    assert_eq!(next, State::Start);
    assert!(Patient::get_by_id(patient.id, &store).is_none());
    assert!(Patient::get_my_patients(caller, &store).is_empty());
}

#[test]
fn share_flow_accepts_digits_and_rejects_other_text() {
    let caller: u64 = 9;
    let friend: u64 = 910;
    let mut store = Store::new();
    let patient = Patient::new("Gil".to_string(), caller);
    patient.save(&mut store);

    let st = State::ReceiveUserForSharePatient { patient_id: patient.id };
    let (next, _) = step(&mut store, st.clone(), text("not a number"), caller, NOW);
    assert_eq!(next, st);

    let (next, effects) = step(&mut store, st, text("910"), caller, NOW);
    assert_eq!(next, State::Start);
    match &effects[0] {
        Effect::Send { text, .. } => assert_eq!(text, "Patient Gil shared."),
        other => panic!("unexpected effect {:?}", other),
    }
    let stored = Patient::get_by_id(patient.id, &store).unwrap();
    assert_eq!(stored.shared_with, vec![friend]);
    assert_eq!(Patient::get_my_patients(friend, &store).len(), 1);
}

#[test]
fn patients_command_offers_keyboard_and_selection_opens_ops() {
    let caller: u64 = 10;
    let mut store = Store::new();
    let patient = Patient::new("Hana".to_string(), caller);
    patient.save(&mut store);

    let (state, effects) = handle_command(&store, State::Start, Command::Patients, caller, NOW);
    assert_eq!(state, State::SelectPatient);
    match &effects[0] {
        Effect::Send { keyboard: Some(rows), .. } => {
            // One patient row, an add-new row, and the cancel row.
            assert_eq!(rows.len(), 3);
            assert_eq!(rows[0][0].label, "Hana");
            assert_eq!(rows[0][0].payload, Payload::Patient(patient.id));
            assert_eq!(rows[1][0].payload, Payload::AddNew);
            assert_eq!(rows[2][0].payload, Payload::Cancel);
        },
        other => panic!("unexpected effect {:?}", other),
    }

    let (state, _) = step(
        &mut store,
        state,
        Event::Select(Payload::Patient(patient.id)),
        caller,
        NOW,
    );
    assert_eq!(state, State::PatientOps { patient_id: patient.id });
}

#[test]
fn intake_log_is_rendered_with_the_timezone() {
    let caller: u64 = 12;
    let mut store = Store::new();
    let patient = Patient::new("Iris".to_string(), caller);
    patient.save(&mut store);
    let mut med = Medication::new(
        patient.id,
        "tonic".to_string(),
        "3ml".to_string(),
        medibot::Frequency::new(8),
        caller,
    );
    med.save(&mut store);
    med.set_taken_at(0, &mut store);

    let (next, effects) = step(
        &mut store,
        State::MedicineLog { patient_id: patient.id },
        Event::Select(Payload::Medication(med.id)),
        caller,
        NOW,
    );
    assert_eq!(next, State::Start);
    match &effects[0] {
        Effect::Edit { text, .. } => {
            assert_eq!(
                text,
                "Log for Iris administration of tonic (3ml):\n\n - 1970-01-01 00:00:00 UTC\n"
            );
        },
        other => panic!("unexpected effect {:?}", other),
    }
}

#[test]
fn get_all_renders_the_overview() {
    let caller: u64 = 21;
    let store = Store::new();
    let (state, effects) = handle_command(&store, State::Start, Command::GetAll, caller, NOW);
    assert_eq!(state, State::Start);
    match &effects[0] {
        Effect::Send { text, .. } => {
            assert_eq!(text, "No medications added yet - try /addmedication to start.")
        },
        other => panic!("unexpected effect {:?}", other),
    }

    let mut store = Store::new();
    let patient = Patient::new("xavi".to_string(), caller);
    patient.save(&mut store);
    let mut med = Medication::new(
        patient.id,
        "nurofen".to_string(),
        "5ml".to_string(),
        medibot::Frequency::new(3),
        caller,
    );
    med.save(&mut store);

    let (_, effects) = handle_command(&store, State::Start, Command::GetAll, caller, NOW);
    match &effects[0] {
        Effect::Send { text, .. } => {
            assert_eq!(
                text,
                "*xavi*\nnurofen (5ml) - every 3 hours. Last taken: Not yet. Can take next: Right now \u{2705}.\n\n"
            );
        },
        other => panic!("unexpected effect {:?}", other),
    }
}

#[test]
fn list_medication_orders_most_recent_first() {
    let caller: u64 = 13;
    let mut store = Store::new();
    let patient = Patient::new("Juno".to_string(), caller);
    patient.save(&mut store);
    let mut a = Medication::new(
        patient.id,
        "alpha".to_string(),
        "1".to_string(),
        medibot::Frequency::new(6),
        caller,
    );
    let mut b = Medication::new(
        patient.id,
        "beta".to_string(),
        "2".to_string(),
        medibot::Frequency::new(6),
        caller,
    );
    a.save(&mut store);
    b.save(&mut store);
    a.set_taken_at(100, &mut store);
    b.set_taken_at(200, &mut store);

    let (next, effects) = step(
        &mut store,
        State::PatientOps { patient_id: patient.id },
        Event::Select(Payload::ListMedication),
        caller,
        NOW,
    );
    assert_eq!(next, State::Start);
    match &effects[0] {
        Effect::Edit { text, .. } => {
            let beta = text.find("beta").unwrap();
            let alpha = text.find("alpha").unwrap();
            assert!(beta < alpha, "most recently taken must come first");
            assert!(text.ends_with("\nRegister a taken dosage by running /take."));
        },
        other => panic!("unexpected effect {:?}", other),
    }
}
