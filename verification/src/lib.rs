//! Client-side logic for the Zermelo scheduling API: parsing of the
//! appointment envelope and of the token-exchange response, the appointment
//! data model, and the ordering of fetched appointments by start time.
//!
//! Network transport is not part of this crate's verified surface; an
//! embedding application performs the two HTTP calls and hands the status
//! code and body text to the functions here.

pub mod appointment;
pub mod json;
pub mod schedule;
pub mod sort;
pub mod text;

pub use appointment::Appointment;
pub use appointment::AppointmentType;
pub use json::JsonValue;
pub use schedule::AuthError;
pub use schedule::FetchError;
pub use schedule::Malformed;
pub use schedule::Schedule;
