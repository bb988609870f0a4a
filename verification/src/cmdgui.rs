//! What a console front end keeps between two questions.

use vstd::prelude::*;

verus! {

/// What a console front end keeps between two questions: the name of the
/// game, once it was given one.
pub struct CMDGUI {
    _game_name: Option<String>,
}

impl CMDGUI {
    /// The name of the game, if one was set.
    pub closed spec fn game_name(&self) -> Option<Seq<char>> {
        match self._game_name {
            Some(name) => Some(name@),
            None => None,
        }
    }

    /// A front end that has no name for the game yet.
    pub fn init() -> (r: Self)
        ensures
            r.game_name() is None,
    {
        CMDGUI { _game_name: None }
    }

    /// Sets the name of the game, in place of an earlier one.
    pub fn set_game_name(&mut self, game_name: String)
        ensures
            final(self).game_name() == Some(game_name@),
    {
        self._game_name = Some(game_name);
    }

    /// The name of the game, if one was set.
    pub fn get_game_name(&self) -> (r: Option<&String>)
        ensures
            match r {
                Some(name) => self.game_name() == Some(name@),
                None => self.game_name() is None,
            },
    {
        match &self._game_name {
            Some(name) => Some(name),
            None => None,
        }
    }
}

} // verus!
