//! The domain engine against an in-memory store: saving, listing,
//! sharing, the delete cascade, intakes, and timezone settings.

use medibot::user::get_user_timezone;
use medibot::user::set_timezone;
use medibot::Frequency;
use medibot::Medication;
use medibot::Patient;
use medibot::Store;

#[test]
fn test_create_patient() {
    let user_id: u64 = 4242;
    let patient = Patient::new("xavi".to_string(), user_id);

    let mut store = Store::new();
    patient.save(&mut store);

    let saved_patient = Patient::get_by_id(patient.id, &store).unwrap();
    assert_eq!(patient, saved_patient);
    assert_eq!(store.owner_index_members(user_id).len(), 1);
}

#[test]
fn test_create_save_medication() {
    let user_id: u64 = 4242;
    let patient = Patient::new("xavi".to_string(), user_id);

    let mut medication = Medication::new(
        patient.id,
        "nurofen".to_string(),
        "5ml".to_string(),
        Frequency::new(3),
        user_id,
    );

    let mut store = Store::new();
    medication.save(&mut store);

    let saved_medication = Medication::get_by_id(medication.id, &store).unwrap();
    assert_eq!(saved_medication, medication);
    assert_eq!(store.med_index_members(patient.id).len(), 1);
}

#[test]
fn test_get_all() {
    let user_id: u64 = 4242;
    let patient = Patient::new("xavi".to_string(), user_id);

    let mut medication = Medication::new(
        patient.id,
        "nurofen".to_string(),
        "5ml".to_string(),
        Frequency::new(3),
        user_id,
    );

    let mut store = Store::new();
    patient.save(&mut store);
    medication.save(&mut store);

    let all_records = Medication::get_all_by_patient_id(patient.id, &store);
    assert_eq!(all_records.len(), 1);

    let other_records = Medication::get_all_by_patient_id(patient.id.wrapping_add(1), &store);
    assert_eq!(other_records.len(), 0);
}

#[test]
fn save_refreshes_cached_patient_name() {
    let user_id: u64 = 7;
    let patient = Patient::new("Maria".to_string(), user_id);
    let mut store = Store::new();
    patient.save(&mut store);

    let mut medication = Medication::new(
        patient.id,
        "aspirin".to_string(),
        "100mg".to_string(),
        Frequency::new(24),
        user_id,
    );
    assert_eq!(medication.patient_name, None);
    medication.save(&mut store);
    assert_eq!(medication.patient_name, Some("Maria".to_string()));

    let listed = Medication::get_all_by_patient_id(patient.id, &store);
    assert_eq!(listed.len(), 1);
    assert_eq!(listed[0], medication);
}

#[test]
fn share_then_delete_cascades_both_indexes() {
    let creator: u64 = 1;
    let friend: u64 = 2;
    let mut store = Store::new();
    let mut patient = Patient::new("Leo".to_string(), creator);
    patient.save(&mut store);

    patient.share(friend, &mut store);
    patient.save(&mut store);
    assert_eq!(store.owner_index_members(creator), vec![patient.id]);
    assert_eq!(store.owner_index_members(friend), vec![patient.id]);

    let fetched = Patient::get_by_id(patient.id, &store).unwrap();
    fetched.delete(&mut store);

    assert_eq!(store.owner_index_members(creator).len(), 0);
    assert_eq!(store.owner_index_members(friend).len(), 0);
    assert!(Patient::get_my_patients(creator, &store).is_empty());
    assert!(Patient::get_my_patients(friend, &store).is_empty());
    assert!(Patient::get_by_id(patient.id, &store).is_none());
}

#[test]
fn share_is_idempotent_and_skips_creator() {
    let creator: u64 = 1;
    let friend: u64 = 2;
    let mut store = Store::new();
    let mut patient = Patient::new("Leo".to_string(), creator);
    patient.save(&mut store);

    patient.share(friend, &mut store);
    patient.share(friend, &mut store);
    patient.share(creator, &mut store);
    patient.save(&mut store);

    let fetched = Patient::get_by_id(patient.id, &store).unwrap();
    assert_eq!(fetched.shared_with, vec![friend]);
    assert_eq!(store.owner_index_members(creator), vec![patient.id]);
}

#[test]
fn listing_drops_stale_index_entries() {
    let creator: u64 = 9;
    let mut store = Store::new();
    let p = Patient::new("one".to_string(), creator);
    p.save(&mut store);
    // An index member whose record never existed must be filtered out,
    // not surfaced as an error.
    store.owner_index_add(creator, p.id.wrapping_add(1));
    assert_eq!(store.owner_index_members(creator).len(), 2);

    let mine = Patient::get_my_patients(creator, &store);
    assert_eq!(mine.len(), 1);
    assert_eq!(mine[0].name, "one");
}

#[test]
fn two_intakes_append_in_call_order() {
    let user_id: u64 = 3;
    let patient = Patient::new("Ana".to_string(), user_id);
    let mut store = Store::new();
    patient.save(&mut store);

    let mut medication = Medication::new(
        patient.id,
        "ibuprofen".to_string(),
        "200mg".to_string(),
        Frequency::new(6),
        user_id,
    );
    medication.save(&mut store);

    medication.set_taken_at(1_000, &mut store);
    medication.set_taken_at(2_000, &mut store);

    assert_eq!(medication.last_taken, Some(2_000));
    // The log reads back newest first.
    assert_eq!(medication.get_medication_log(&store), vec![2_000, 1_000]);

    let stored = Medication::get_by_id(medication.id, &store).unwrap();
    assert_eq!(stored.last_taken, Some(2_000));
}

#[test]
fn log_read_is_capped() {
    let user_id: u64 = 3;
    let mut store = Store::new();
    let mut medication = Medication::new(
        77,
        "drops".to_string(),
        "1".to_string(),
        Frequency::new(1),
        user_id,
    );
    medication.save(&mut store);
    for ts in 0..20i64 {
        medication.set_taken_at(ts, &mut store);
    }
    let log = medication.get_medication_log(&store);
    assert_eq!(log.len(), 11);
    assert_eq!(log[0], 19);
    assert_eq!(log[10], 9);
}

#[test]
fn can_take_window_boundary() {
    let user_id: u64 = 5;
    let mut store = Store::new();
    let mut medication = Medication::new(
        50,
        "syrup".to_string(),
        "10ml".to_string(),
        Frequency::new(2),
        user_id,
    );
    assert!(medication.can_take(0));
    medication.set_taken_at(1_000, &mut store);
    assert!(!medication.can_take(1_000 + 2 * 3600 - 1));
    assert!(medication.can_take(1_000 + 2 * 3600));
}

#[test]
fn timezone_setting_is_validated_at_write_time() {
    let user_id: u64 = 11;
    let mut store = Store::new();
    assert_eq!(get_user_timezone(&store, user_id), "UTC");

    assert!(set_timezone(&mut store, user_id, "Europe/Madrid".to_string()));
    assert_eq!(get_user_timezone(&store, user_id), "Europe/Madrid");

    assert!(!set_timezone(&mut store, user_id, "Nowhere/Xyz".to_string()));
    assert_eq!(get_user_timezone(&store, user_id), "Europe/Madrid");
}

#[test]
fn error_handler_carries_its_text() {
    let h = medibot::err_handling::MyErrorHandler::new();
    assert_eq!(h.text, "Error");
    let c = medibot::err_handling::MyErrorHandler::with_custom_text("boom".to_string());
    assert_eq!(c.text, "boom");
}
