//! A calendar command-line tool's logic: natural-language date parsing, event filtering,
//! free-slot search, input validation and the undo/template state machine.
pub mod text;
pub mod time;
pub mod dateparse;
pub mod error;
pub mod cli;
pub mod events;
pub mod store;
pub mod search;
pub mod free;
pub mod slots;
pub mod update;
pub mod duplicate;
pub mod state;
pub mod validate;
pub mod agenda;
pub mod next;
pub mod delete;
pub mod template;
pub mod table;
pub mod listing;
pub mod select;
pub mod undo;
pub mod doctor;
pub mod plan;
pub mod ics;
