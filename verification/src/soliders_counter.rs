//! Per-player remaining-piece tallies, decremented only on capture and
//! restored on reset.

use vstd::prelude::*;
use crate::INITIAL_SOLDIERS;
use crate::cell::Player;

verus! {

/// How many soldiers each player still has on the board.
pub struct SolidersCounter {
    p1: usize,
    p2: usize,
}

impl View for SolidersCounter {
    type V = (nat, nat);

    closed spec fn view(&self) -> (nat, nat) {
        (self.p1 as nat, self.p2 as nat)
    }
}

impl SolidersCounter {
    /// The tally of the given player.
    pub open spec fn spec_get(&self, player: Player) -> nat {
        match player {
            Player::One => self@.0,
            Player::Two => self@.1,
        }
    }

    /// Both players start with the full initial tally.
    pub fn new() -> (s: SolidersCounter)
        ensures
            s@ == (INITIAL_SOLDIERS as nat, INITIAL_SOLDIERS as nat),
    {
        SolidersCounter { p1: INITIAL_SOLDIERS, p2: INITIAL_SOLDIERS }
    }

    /// Restores both tallies to the initial per-player count.
    pub fn reset(&mut self)
        ensures
            final(self)@ == (INITIAL_SOLDIERS as nat, INITIAL_SOLDIERS as nat),
    {
        self.p1 = INITIAL_SOLDIERS;
        self.p2 = INITIAL_SOLDIERS;
    }

    /// Reads the tally of the given player.
    pub fn get(&self, player: Player) -> (r: usize)
        ensures
            r as nat == self.spec_get(player),
    {
        match player {
            Player::One => self.p1,
            Player::Two => self.p2,
        }
    }

    /// Takes one soldier from the given player, on a capture.
    pub fn decrement(&mut self, player: Player)
        requires
            old(self).spec_get(player) >= 1,
        ensures
            final(self).spec_get(player) == old(self).spec_get(player) - 1,
            final(self).spec_get(player.opposite()) == old(self).spec_get(player.opposite()),
    {
        match player {
            Player::One => {
                self.p1 = self.p1 - 1;
            },
            Player::Two => {
                self.p2 = self.p2 - 1;
            },
        }
    }
}

} // verus!
