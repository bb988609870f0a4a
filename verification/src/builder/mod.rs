//! Builders: each takes a chain of steps and reports the first that
//! failed, once, at the end.

pub mod defaultmodbuilder;
pub mod entrybuilder;
pub mod tabledatabuilder;
pub mod tabledatamapbuilder;

pub use defaultmodbuilder::DefaultModBuilder;
pub use entrybuilder::EntryBuilder;
pub use tabledatabuilder::TableDataBuilder;
pub use tabledatamapbuilder::TableDataMapBuilder;
