use vstd::prelude::*;

use crate::death_cause::{sum_counts, DeathCauseDb, CAUSE_COUNT};
use crate::frag_tally::FragTally;

verus! {

/// The running totals of one match, as values.
pub ghost struct MatchView {
    pub game_number: int,
    pub total_kills: int,
    pub kills: Map<Seq<u8>, int>,
    pub means: Seq<u16>,
}

impl MatchView {
    /// The totals hold together: one count per cause, the counts sum to the
    /// kills, and no player's net score exceeds the kills in size.
    pub open spec fn consistent(self) -> bool {
        &&& 0 <= self.game_number <= u16::MAX
        &&& 0 <= self.total_kills <= u16::MAX
        &&& self.means.len() == CAUSE_COUNT
        &&& sum_counts(self.means) == self.total_kills
        &&& forall|p: Seq<u8>| #[trigger] self.kills.contains_key(p) ==> -self.total_kills <= self.kills[p] <= self.total_kills
    }
}

/// What a match came to when it closed.
pub struct Report {
    pub game_number: u16,
    pub total_kills: u16,
    pub kills: FragTally,
    pub means: DeathCauseDb,
}

impl View for Report {
    type V = MatchView;

    open spec fn view(&self) -> MatchView {
        MatchView {
            game_number: self.game_number as int,
            total_kills: self.total_kills as int,
            kills: self.kills@,
            means: self.means@,
        }
    }
}

impl Report {
    pub open spec fn wf(&self) -> bool {
        self.kills.wf() && self@.consistent()
    }
}

} // verus!
