//! A todo.txt engine: parsing and writing of task lines, a total order on
//! tasks, filters, recurrence rules, and a list that keeps itself sorted
//! and filtered.

pub mod text;
pub mod date;
pub mod todo;
pub mod order;
pub mod recurrence;
pub mod config;
pub mod app;
pub mod handler;
pub mod widgets;
pub mod ui;
