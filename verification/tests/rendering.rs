//! The human-readable renderings: eligibility, relative and absolute
//! last-intake lines, and the one-line plan listing.

use medibot::Frequency;
use medibot::Medication;

fn plan(last_taken: Option<i64>, hours: i64) -> Medication {
    Medication {
        id: 1,
        patient_id: 2,
        medicine: "nurofen".to_string(),
        dosage: "5ml".to_string(),
        frequency: Frequency::new(hours),
        user_id: 3,
        last_taken,
        patient_name: None,
    }
}

#[test]
fn last_taken_not_yet() {
    assert_eq!(plan(None, 6).print_last_taken(1_000_000, "UTC"), "Not yet");
}

#[test]
fn last_taken_hours_ago() {
    let now: i64 = 1_000_000;
    let m = plan(Some(now - 2 * 3600), 6);
    assert_eq!(m.print_last_taken(now, "UTC"), "2 hours ago");
}

#[test]
fn last_taken_minutes_ago() {
    let now: i64 = 1_000_000;
    let m = plan(Some(now - 300), 6);
    assert_eq!(m.print_last_taken(now, "UTC"), "5 minutes ago");
}

#[test]
fn last_taken_just_now() {
    let now: i64 = 1_000_000;
    let m = plan(Some(now - 30), 6);
    assert_eq!(m.print_last_taken(now, "UTC"), "Just now");
}

#[test]
fn last_taken_absolute_after_a_day() {
    let now: i64 = 10 * 24 * 3600;
    let m = plan(Some(0), 6);
    assert_eq!(m.print_last_taken(now, "UTC"), "1970-01-01 00:00:00 UTC");
    assert_eq!(
        m.print_last_taken(now, "Europe/Madrid"),
        "1970-01-01 01:00:00 CET"
    );
    // An invalid zone setting would fall back to UTC; it is rejected at
    // write time, so it can only come from outside the library.
    assert_eq!(m.print_last_taken(now, "Nowhere/Xyz"), "1970-01-01 00:00:00 UTC");
}

#[test]
fn can_take_emoji_marks_eligibility() {
    let now: i64 = 1_000_000;
    assert_eq!(plan(None, 6).can_take_emoji(now), "\u{2705}");
    assert_eq!(plan(Some(now - 60), 6).can_take_emoji(now), "\u{1f645}");
    assert_eq!(plan(Some(now - 7 * 3600), 6).can_take_emoji(now), "\u{2705}");
}

#[test]
fn print_in_list_fresh_plan() {
    let now: i64 = 1_000_000;
    assert_eq!(
        plan(None, 6).print_in_list(now, "UTC"),
        "nurofen (5ml) - every 6 hours. Last taken: Not yet. Can take next: Right now \u{2705}."
    );
}

#[test]
fn print_in_list_waiting_plan() {
    let now: i64 = 1_000_000;
    let m = plan(Some(now - 3600), 6);
    assert_eq!(
        m.print_in_list(now, "UTC"),
        "nurofen (5ml) - every 6 hours. Last taken: 1 hours ago. Can take next: in 5 hours and 0 minutes \u{1f645}."
    );
}

#[test]
fn print_in_list_minutes_only_wait() {
    let now: i64 = 1_000_000;
    let m = plan(Some(now - 3600 + 600), 1);
    // Fifty minutes into a one-hour interval: ten minutes to wait.
    assert_eq!(
        m.print_in_list(now, "UTC"),
        "nurofen (5ml) - every 1 hours. Last taken: 50 minutes ago. Can take next: in 10 minutes \u{1f645}."
    );
}
