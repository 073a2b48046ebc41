//! Data carried between the web layer and the library: form payloads,
//! page templates, and the per-child records.

pub mod doctor;

pub mod register;

pub mod school;

pub mod structure;

pub mod templates;
