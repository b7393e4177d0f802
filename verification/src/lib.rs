pub mod text;
pub mod assoc;
pub mod value;
pub mod comparison;
pub mod eligibility;
pub mod students;
pub mod exports;
pub mod forms;
pub mod loaner;
pub mod service;
pub mod schedule;
pub mod reactive;
pub mod archive;
pub mod laws;
