//! Core of a caregiver's medication-tracking chat assistant.
//!
//! The library holds the verified logic: the frequency parser, the dosing
//! schedule computations, the key-value repository model with its indexing
//! scheme, the patient/medication domain rules including sharing, and the
//! per-chat session state machine.  The chat transport and the backing
//! store live outside the library and talk to it through plain values:
//! identifiers are numbers, free text is strings, and the machine answers
//! with a next state and a list of effects to perform.

use vstd::prelude::*;

pub mod err_handling;
pub mod frequency;
mod ids;
pub mod medication;
pub mod patient;
pub mod session;
pub mod store;
pub mod text;
pub mod time;
pub mod user;

pub use frequency::Frequency;
pub use session::handle_command;
pub use session::handle_event;
pub use session::step;
pub use session::Button;
pub use session::Effect;
pub use session::Event;
pub use session::Payload;
pub use store::Medication;
pub use store::Patient;
pub use store::Store;

verus! {

/// The per-chat conversational position: which event shape is expected
/// next, and what was gathered so far.  `Start` is both the initial
/// state and, reached again, the end of every flow.
#[derive(Debug, Clone, PartialEq)]
pub enum State {
    Start,
    ReceiveName,
    ReceiveMedicine { patient_id: u64 },
    ReceiveDosage { patient_id: u64, medicine: String },
    ReceiveFrequency { patient_id: u64, medicine: String, dosage: String },
    ReceivePatientName,
    SelectPatient,
    PatientOps { patient_id: u64 },
    TakeMedicine,
    TakeMedicineFinal { patient_id: u64 },
    MedicineLog { patient_id: u64 },
    ReceiveUserForSharePatient { patient_id: u64 },
}

/// The mathematical shadow of `State`, with text as character sequences.
pub ghost enum StateModel {
    Start,
    ReceiveName,
    ReceiveMedicine { patient_id: u64 },
    ReceiveDosage { patient_id: u64, medicine: Seq<char> },
    ReceiveFrequency { patient_id: u64, medicine: Seq<char>, dosage: Seq<char> },
    ReceivePatientName,
    SelectPatient,
    PatientOps { patient_id: u64 },
    TakeMedicine,
    TakeMedicineFinal { patient_id: u64 },
    MedicineLog { patient_id: u64 },
    ReceiveUserForSharePatient { patient_id: u64 },
}

impl View for State {
    type V = StateModel;

    open spec fn view(&self) -> StateModel {
        match self {
            State::Start => StateModel::Start,
            State::ReceiveName => StateModel::ReceiveName,
            State::ReceiveMedicine { patient_id } => StateModel::ReceiveMedicine {
                patient_id: *patient_id,
            },
            State::ReceiveDosage { patient_id, medicine } => StateModel::ReceiveDosage {
                patient_id: *patient_id,
                medicine: medicine@,
            },
            State::ReceiveFrequency { patient_id, medicine, dosage } => StateModel::ReceiveFrequency {
                patient_id: *patient_id,
                medicine: medicine@,
                dosage: dosage@,
            },
            State::ReceivePatientName => StateModel::ReceivePatientName,
            State::SelectPatient => StateModel::SelectPatient,
            State::PatientOps { patient_id } => StateModel::PatientOps { patient_id: *patient_id },
            State::TakeMedicine => StateModel::TakeMedicine,
            State::TakeMedicineFinal { patient_id } => StateModel::TakeMedicineFinal {
                patient_id: *patient_id,
            },
            State::MedicineLog { patient_id } => StateModel::MedicineLog {
                patient_id: *patient_id,
            },
            State::ReceiveUserForSharePatient { patient_id } => StateModel::ReceiveUserForSharePatient {
                patient_id: *patient_id,
            },
        }
    }
}

/// The command surface: each command is a transition taken from `Start`.
#[derive(Debug, Clone, Copy, PartialEq, Eq, Structural)]
pub enum Command {
    Start,
    Help,
    Patients,
    AddMedication,
    AddPatient,
    Take,
    Cancel,
    GetAll,
    SharePatient,
}

} // verus!
