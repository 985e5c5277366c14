use vstd::prelude::*;
use crate::action::End;

verus! {

/// Outcomes over many games.
#[derive(Clone, Copy, Debug, PartialEq, Eq, Structural)]
pub struct Statistic {
    pub win_game: u32,
    pub lose_game: u32,
    /// Games that ended in a win or a loss.
    pub success_game: u32,
    /// All games run, including those ended by a refused decision.
    pub total_game: u32,
    /// Doors open at the end, summed over all games.
    pub opened: u32,
}

impl Statistic {
    pub fn new() -> (r: Statistic)
        ensures
            r == (Statistic { win_game: 0, lose_game: 0, success_game: 0, total_game: 0, opened: 0 }),
    {
        Statistic { win_game: 0, lose_game: 0, success_game: 0, total_game: 0, opened: 0 }
    }

    pub open spec fn can_record(&self, opened: usize) -> bool {
        &&& self.win_game < u32::MAX
        &&& self.lose_game < u32::MAX
        &&& self.success_game < u32::MAX
        &&& self.total_game < u32::MAX
        &&& self.opened + opened <= u32::MAX
    }

    /// Counts one finished game: its end and the doors open at that point.
    pub fn record(&mut self, end: &End, opened: usize)
        requires
            old(self).can_record(opened),
        ensures
            final(self).win_game == old(self).win_game + if *end == End::Win { 1int } else { 0 },
            final(self).lose_game == old(self).lose_game + if *end == End::Lose { 1int } else { 0 },
            final(self).success_game == old(self).success_game + if end.spec_is_outcome() {
                1int
            } else {
                0
            },
            final(self).total_game == old(self).total_game + 1,
            final(self).opened == old(self).opened + opened,
    {
        match end {
            End::Win => {
                self.win_game = self.win_game + 1;
                self.success_game = self.success_game + 1;
            },
            End::Lose => {
                self.lose_game = self.lose_game + 1;
                self.success_game = self.success_game + 1;
            },
            End::BadParameter => {},
        }
        self.total_game = self.total_game + 1;
        self.opened = self.opened + opened as u32;
    }

    pub open spec fn can_add(&self, other: &Statistic) -> bool {
        &&& self.win_game + other.win_game <= u32::MAX
        &&& self.lose_game + other.lose_game <= u32::MAX
        &&& self.success_game + other.success_game <= u32::MAX
        &&& self.total_game + other.total_game <= u32::MAX
        &&& self.opened + other.opened <= u32::MAX
    }

    /// Field-by-field sum of two statistics.
    pub fn add(self, other: Statistic) -> (r: Statistic)
        requires
            self.can_add(&other),
        ensures
            r.win_game == self.win_game + other.win_game,
            r.lose_game == self.lose_game + other.lose_game,
            r.success_game == self.success_game + other.success_game,
            r.total_game == self.total_game + other.total_game,
            r.opened == self.opened + other.opened,
    {
        Statistic {
            win_game: self.win_game + other.win_game,
            lose_game: self.lose_game + other.lose_game,
            success_game: self.success_game + other.success_game,
            total_game: self.total_game + other.total_game,
            opened: self.opened + other.opened,
        }
    }
}

} // verus!
