//! Typed game data that mods can override.
//!
//! A game has tables of records. The schema of a table ([`TableData`])
//! names and types its columns; a record ([`Entry`]) holds one value
//! ([`EntryValue`]) for each column. A mod ([`ModRead`], [`ModWrite`],
//! [`DefaultMod`]) holds records of its own and marks on the records that
//! it removes, each under a table and an identifier ([`ID`]). A stack of
//! mods ([`ModPack`]) is read as one: a mod nearer the front outweighs
//! those behind it.
//!
//! The modules stand in the order in which they build on each other.

pub mod errors;
pub mod text;
pub mod id;
pub mod idset;
pub mod entryvalue;
pub mod entrydata;
pub mod tabledata;
pub mod entry;
pub mod tabledatamap;
pub mod metadata;
pub mod mods;
pub mod game;
mod records;
mod marks;
pub mod defaultmod;
pub mod modpack;
pub mod builder;
pub mod gui;
pub mod cmdgui;

pub use cmdgui::CMDGUI;
pub use defaultmod::DefaultMod;
pub use entry::Entry;
pub use entrydata::{EntryData, EntryDataView, EntryType};
pub use entryvalue::{EntryValue, ValueView};
pub use errors::{Error, ErrorKind, Layer, StackError};
pub use game::Game;
pub use id::{IdView, ID};
pub use idset::IdSet;
pub use metadata::{LicensePermission, Metadata};
pub use modpack::ModPack;
pub use mods::{ModRead, ModWrite};
pub use tabledata::{ColumnView, TableData};
pub use tabledatamap::TableDataMap;
