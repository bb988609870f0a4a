//! Building a mod.

use std::sync::Arc;
use vstd::prelude::*;

use crate::defaultmod::{
    insert_result, insert_step, remove_step, DefaultMod, Modified, Removed,
};
use crate::entry::Entry;
use crate::errors::Error;
use crate::id::ID;
use crate::metadata::Metadata;
use crate::mods::{ModRead, ModWrite};
use crate::tabledatamap::TableDataMap;

verus! {

/// Builds a mod, write by write. Once a write has failed, the writes
/// after it do nothing, and the end reports that first failure.
#[must_use]
pub enum DefaultModBuilder {
    Mod(DefaultMod),
    Broken(Error),
}

impl DefaultModBuilder {
    /// The first failure, if a write failed.
    pub open spec fn broken(self) -> Option<Error> {
        match self {
            DefaultModBuilder::Mod(_) => None,
            DefaultModBuilder::Broken(e) => Some(e),
        }
    }

    /// The mod as built so far, where no write failed.
    pub open spec fn built(self) -> DefaultMod {
        self->Mod_0
    }

    /// Starts from a mod without records or marks.
    pub fn new(metadata: Metadata, tabledatamap: Arc<TableDataMap>) -> (r: DefaultModBuilder)
        ensures
            r.broken() is None,
            r.built().metadata() == metadata,
            r.built().schema() == tabledatamap@,
            r.built().modified() == Modified::empty(),
            r.built().removed() == Removed::empty(),
    {
        DefaultModBuilder::Mod(DefaultMod::new(metadata, tabledatamap))
    }

    /// Puts a record into the mod, as the mod's `insert` does.
    pub fn insert(self, table: String, id: ID, value: Entry) -> (r: DefaultModBuilder)
        ensures
            self.broken() is Some ==> r.broken() == self.broken(),
            self.broken() is None ==> match insert_result(
                self.built().schema(),
                table@,
                value@,
            ) {
                Err(e) => r.broken() == Some(e),
                Ok(()) => r.broken() is None && insert_step(
                    &self.built(),
                    &r.built(),
                    table@,
                    id@,
                    value@,
                    Ok(()),
                ),
            },
    {
        match self {
            DefaultModBuilder::Mod(mut actual_mod) => {
                match actual_mod.insert(table, id, value) {
                    Err(err) => DefaultModBuilder::Broken(err),
                    Ok(()) => DefaultModBuilder::Mod(actual_mod),
                }
            },
            DefaultModBuilder::Broken(err) => DefaultModBuilder::Broken(err),
        }
    }

    /// Marks a record as removed, as the mod's `remove` does.
    pub fn remove(self, table: String, id: ID) -> (r: DefaultModBuilder)
        ensures
            r.broken() == self.broken(),
            self.broken() is None ==> remove_step(&self.built(), &r.built(), table@, id@),
    {
        match self {
            DefaultModBuilder::Mod(mut actual_mod) => {
                match actual_mod.remove(table, id) {
                    Err(err) => DefaultModBuilder::Broken(err),
                    Ok(()) => DefaultModBuilder::Mod(actual_mod),
                }
            },
            DefaultModBuilder::Broken(err) => DefaultModBuilder::Broken(err),
        }
    }

    /// The mod that was built, or the first failure.
    pub fn get(self) -> (r: Result<DefaultMod, Error>)
        ensures
            match r {
                Ok(built) => self.broken() is None && built == self.built(),
                Err(e) => self.broken() == Some(e),
            },
    {
        match self {
            DefaultModBuilder::Mod(actual_mod) => Ok(actual_mod),
            DefaultModBuilder::Broken(err) => Err(err),
        }
    }

    /// The mod that was built, where no write failed.
    pub fn unwrap(self) -> (r: DefaultMod)
        requires
            self.broken() is None,
        ensures
            r == self.built(),
    {
        match self {
            DefaultModBuilder::Mod(actual_mod) => actual_mod,
            DefaultModBuilder::Broken(_) => vstd::pervasive::unreached(),
        }
    }
}

} // verus!
