//! Logic behind the credential views.

pub mod calendar;
pub mod digital_passport;
