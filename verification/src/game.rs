//! What a game provides.

use std::sync::Arc;
use vstd::prelude::*;

use crate::mods::ModRead;
use crate::tabledata::ColumnView;
use crate::tabledatamap::TableDataMap;

verus! {

/// A game: its schema, and the mod that holds its own records, on which
/// every other mod builds. Both stay as they are for as long as the game
/// is in use.
pub trait Game {
    /// The kind of mod that holds the game's own records.
    type Base: ModRead;

    /// The mod that holds the game's own records.
    open spec fn base(&self) -> Self::Base {
        arbitrary()
    }

    /// The schema of the game.
    open spec fn schema(&self) -> Map<Seq<char>, Seq<ColumnView>> {
        arbitrary()
    }

    /// The mod that holds the game's own records.
    fn base_mod(&self) -> (r: Arc<Self::Base>)
        ensures
            *r == self.base(),
    ;

    /// The schema of the game.
    fn get_tabledatamap(&self) -> (r: Arc<TableDataMap>)
        ensures
            r@ == self.schema(),
    ;
}

} // verus!
