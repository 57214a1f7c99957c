//! A collector of page events: the events that a front end submits and their
//! JSON form, the decision of what to store for a submission, and the
//! statistics over the stored events that are served back.

pub mod api;
pub mod calendar;
pub mod catchers;
pub mod ingest;
pub mod json;
pub mod json_text;
pub mod response;
pub mod stats;
pub mod store;
