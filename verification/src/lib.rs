//! Detection of poisoned writes to an agent's memory store, and the alerts that
//! follow from them.
//!
//! An event goes through [`poison::PoisonAnalyzer`], which tags writes that
//! carry a signature, and past [`alert::AlertSink`], which makes an alert of
//! each tagged event. [`flusher::Flusher`] gathers alerts into batches, and
//! [`delivery::flush_alerts`] says what is sent for a batch. Reading files and
//! sending requests are left to the caller.
pub mod alert;
pub mod clock;
pub mod delivery;
pub mod delivery_laws;
pub mod event;
pub mod flusher;
pub mod json;
pub mod matching;
pub mod poison;
pub mod poison_laws;
pub mod rules;
pub mod tagging;
pub mod text;
pub mod text_laws;
pub mod unicode;
pub mod url;
