//! The Global Symbol Stream and the Public Symbol Index that points into it.

pub mod gss;
pub mod psi;
