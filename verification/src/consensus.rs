//! The votes of the verifier panel.
//!
//! Each of the three decisions on a tournament has a mask of 64 bits, one for
//! each position of the panel. A decision is carried once the votes cast,
//! taken in basis points of the size of the panel, reach the platform's rate.

use vstd::prelude::*;
use crate::data::{Consensus, BASIS_POINTS};
use crate::error::TournamentError;

verus! {

/// The largest panel that a vote mask can hold.
pub const MAX_VERIFIERS_COUNT: usize = 64;

/// A decision that the panel takes on a tournament.
#[derive(Clone, Copy, Debug, PartialEq, Eq, Structural)]
pub enum Decision {
    Start,
    Cancel,
    Finish,
}

/// Whether the verifier at position `index` has voted in `mask`.
pub open spec fn has_voted(mask: u64, index: nat) -> bool {
    index < 64 && (mask >> (index as u64)) & 1 == 1
}

/// `mask` with the vote of the verifier at position `index` added.
pub open spec fn with_vote(mask: u64, index: nat) -> u64 {
    mask | (1u64 << (index as u64))
}

/// The number of votes in `mask` from the positions below `n`.
pub open spec fn votes_below(mask: u64, n: nat) -> nat
    decreases n,
{
    if n == 0 {
        0
    } else {
        votes_below(mask, (n - 1) as nat) + if has_voted(mask, (n - 1) as nat) {
            1nat
        } else {
            0nat
        }
    }
}

/// The number of votes in `mask`.
pub open spec fn vote_count(mask: u64) -> nat {
    votes_below(mask, 64)
}

/// Whether `votes` out of a panel of `panel_size` reach `rate`, a share in
/// basis points. The comparison is exact: nothing is rounded.
pub open spec fn threshold_reached(votes: nat, panel_size: nat, rate: nat) -> bool {
    votes * BASIS_POINTS >= panel_size * rate
}

/// Adding a vote changes the bit of its position and no other.
pub proof fn lemma_with_vote_bits(mask: u64, index: nat, other: nat)
    requires
        index < 64,
    ensures
        has_voted(with_vote(mask, index), other) == (has_voted(mask, other) || other == index),
{
    if other < 64 {
        let i = index as u64;
        let j = other as u64;
        assert(((mask | (1u64 << i)) >> j) & 1 == (if i == j {
            1u64
        } else {
            (mask >> j) & 1
        })) by (bit_vector)
            requires
                i < 64,
                j < 64,
        ;
        assert((mask >> j) & 1 == 0 || (mask >> j) & 1 == 1) by (bit_vector);
    }
}

/// Adding a vote does not change the count below its position, and raises the
/// count from there on by one if the verifier had not voted.
pub proof fn lemma_with_vote_below(mask: u64, index: nat, n: nat)
    requires
        index < 64,
        n <= 64,
    ensures
        votes_below(with_vote(mask, index), n) == votes_below(mask, n) + if n > index && !has_voted(
            mask,
            index,
        ) {
            1nat
        } else {
            0nat
        },
    decreases n,
{
    if n > 0 {
        lemma_with_vote_below(mask, index, (n - 1) as nat);
        lemma_with_vote_bits(mask, index, (n - 1) as nat);
    }
}

/// A first vote raises the count by one; a repeated vote changes nothing.
pub proof fn lemma_with_vote_count(mask: u64, index: nat)
    requires
        index < 64,
    ensures
        has_voted(with_vote(mask, index), index),
        !has_voted(mask, index) ==> vote_count(with_vote(mask, index)) == vote_count(mask) + 1,
        has_voted(mask, index) ==> with_vote(mask, index) == mask,
{
    lemma_with_vote_bits(mask, index, index);
    lemma_with_vote_below(mask, index, 64);
    let i = index as u64;
    assert((mask >> i) & 1 == 1 ==> mask | (1u64 << i) == mask) by (bit_vector)
        requires
            i < 64,
    ;
}

/// The number of votes in `mask`.
pub fn count_votes(mask: u64) -> (count: u32)
    ensures
        count == vote_count(mask),
        count <= 64,
{
    let mut count: u32 = 0;
    let mut i: u32 = 0;
    while i < 64
        invariant
            i <= 64,
            count == votes_below(mask, i as nat),
            count <= i,
        decreases 64 - i,
    {
        if (mask >> (i as u64)) & 1 == 1 {
            count += 1;
        }
        i += 1;
    }
    count
}

/// Whether `votes` out of a panel of `panel_size` reach `rate`.
pub fn is_threshold_reached(votes: u32, panel_size: usize, rate: u64) -> (reached: bool)
    requires
        panel_size <= MAX_VERIFIERS_COUNT,
    ensures
        reached == threshold_reached(votes as nat, panel_size as nat, rate as nat),
{
    let lhs: u128 = (votes as u128) * (BASIS_POINTS as u128);
    assert(panel_size * rate <= 64 * 0xffff_ffff_ffff_ffff) by (nonlinear_arith)
        requires
            panel_size <= 64,
            rate <= 0xffff_ffff_ffff_ffff,
    ;
    let rhs: u128 = (panel_size as u128) * (rate as u128);
    lhs >= rhs
}

impl Consensus {
    /// A record without votes.
    pub fn new(tournament_id: u32) -> (consensus: Consensus)
        ensures
            consensus == (Consensus {
                tournament_id,
                start_votes: 0,
                cancel_votes: 0,
                finish_votes: 0,
            }),
    {
        Consensus { tournament_id, start_votes: 0, cancel_votes: 0, finish_votes: 0 }
    }

    /// The mask of the votes on `decision`.
    pub open spec fn votes(&self, decision: Decision) -> u64 {
        match decision {
            Decision::Start => self.start_votes,
            Decision::Cancel => self.cancel_votes,
            Decision::Finish => self.finish_votes,
        }
    }

    /// This record with the mask of `decision` replaced by `mask`.
    pub open spec fn with_votes(&self, decision: Decision, mask: u64) -> Consensus {
        match decision {
            Decision::Start => Consensus { start_votes: mask, ..*self },
            Decision::Cancel => Consensus { cancel_votes: mask, ..*self },
            Decision::Finish => Consensus { finish_votes: mask, ..*self },
        }
    }

    /// Records the vote of the verifier at position `verifier_index` of a
    /// panel of `panel_size` on `decision`, and tells whether the votes on
    /// that decision, this one included, reach `rate`.
    ///
    /// A verifier votes once on each decision: a second vote is rejected with
    /// `AlreadyVoted`. The votes on the other decisions are not touched.
    pub fn cast_vote(
        &mut self,
        decision: Decision,
        verifier_index: usize,
        panel_size: usize,
        rate: u64,
    ) -> (result: Result<bool, TournamentError>)
        requires
            verifier_index < panel_size,
            panel_size <= MAX_VERIFIERS_COUNT,
        ensures
            match result {
                Ok(reached) => {
                    &&& !has_voted(old(self).votes(decision), verifier_index as nat)
                    &&& *final(self) == old(self).with_votes(
                        decision,
                        with_vote(old(self).votes(decision), verifier_index as nat),
                    )
                    &&& vote_count(final(self).votes(decision)) == vote_count(
                        old(self).votes(decision),
                    ) + 1
                    &&& reached == threshold_reached(
                        vote_count(final(self).votes(decision)),
                        panel_size as nat,
                        rate as nat,
                    )
                },
                Err(e) => {
                    &&& e == TournamentError::AlreadyVoted
                    &&& has_voted(old(self).votes(decision), verifier_index as nat)
                    &&& *final(self) == *old(self)
                },
            },
    {
        let mask = match decision {
            Decision::Start => self.start_votes,
            Decision::Cancel => self.cancel_votes,
            Decision::Finish => self.finish_votes,
        };
        let shift = verifier_index as u64;
        if (mask >> shift) & 1 != 0 {
            proof {
                assert((mask >> shift) & 1 == 0 || (mask >> shift) & 1 == 1) by (bit_vector);
            }
            return Err(TournamentError::AlreadyVoted);
        }
        let voted = mask | (1u64 << shift);
        proof {
            lemma_with_vote_count(mask, verifier_index as nat);
        }
        match decision {
            Decision::Start => {
                self.start_votes = voted;
            },
            Decision::Cancel => {
                self.cancel_votes = voted;
            },
            Decision::Finish => {
                self.finish_votes = voted;
            },
        }
        let votes = count_votes(voted);
        Ok(is_threshold_reached(votes, panel_size, rate))
    }
}

} // verus!
