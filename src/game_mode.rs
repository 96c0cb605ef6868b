use vstd::prelude::*;

verus! {

/// The choices made before a game: how many players (0 when the player quit) and
/// whether the board's edges are walls.
pub struct GameMode {
    pub players: u8,
    pub borders: bool,
}

impl GameMode {
    /// One player on a board without walls.
    pub fn new() -> (m: Self)
        ensures
            m.players == 1,
            !m.borders,
    {
        GameMode { players: 1, borders: false }
    }

    /// Reads a key of the first menu: `1` or `2` players, or `q` / `Q` to quit
    /// (zero players). Returns whether the key settled the choice; another key
    /// changes nothing.
    pub fn choose_players(&mut self, key: char) -> (settled: bool)
        ensures
            settled == (key == '1' || key == '2' || key == 'q' || key == 'Q'),
            final(self).players == if key == '1' {
                1
            } else if key == '2' {
                2
            } else if key == 'q' || key == 'Q' {
                0
            } else {
                old(self).players
            },
            final(self).borders == old(self).borders,
    {
        if key == '1' {
            self.players = 1;
            true
        } else if key == '2' {
            self.players = 2;
            true
        } else if key == 'q' || key == 'Q' {
            self.players = 0;
            true
        } else {
            false
        }
    }

    /// Reads a key of the second menu: `1` for no walls, `2` for walls, or `q` / `Q`
    /// to quit (zero players). Returns whether the key settled the choice; another
    /// key changes nothing.
    pub fn choose_borders(&mut self, key: char) -> (settled: bool)
        ensures
            settled == (key == '1' || key == '2' || key == 'q' || key == 'Q'),
            final(self).borders == if key == '1' {
                false
            } else if key == '2' {
                true
            } else {
                old(self).borders
            },
            final(self).players == if key == 'q' || key == 'Q' {
                0
            } else {
                old(self).players
            },
    {
        if key == '1' {
            self.borders = false;
            true
        } else if key == '2' {
            self.borders = true;
            true
        } else if key == 'q' || key == 'Q' {
            self.players = 0;
            true
        } else {
            false
        }
    }
}

} // verus!
