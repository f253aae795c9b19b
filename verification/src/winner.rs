//! Who wins a tournament.
//!
//! Each finish vote names the captain of a team. The winner is the captain
//! named most often. Where several captains are named equally often, the one
//! among them who was named first wins.

use vstd::prelude::*;
use crate::pubkey::Pubkey;

verus! {

/// How often `captain` is named in `votes`.
pub open spec fn votes_for(votes: Seq<Pubkey>, captain: Pubkey) -> nat
    decreases votes.len(),
{
    if votes.len() == 0 {
        0
    } else {
        votes_for(votes.drop_last(), captain) + if votes.last() == captain {
            1nat
        } else {
            0nat
        }
    }
}

/// Whether the vote at position `k` names the winner: no captain is named
/// more often, and every captain named before it is named less often.
pub open spec fn is_winning_vote(votes: Seq<Pubkey>, k: int) -> bool {
    &&& 0 <= k < votes.len()
    &&& forall|j: int|
        0 <= j < votes.len() ==> votes_for(votes, #[trigger] votes[j]) <= votes_for(votes, votes[k])
    &&& forall|j: int|
        0 <= j < k ==> votes_for(votes, #[trigger] votes[j]) < votes_for(votes, votes[k])
}

/// Whether `captain` wins on `votes`.
pub open spec fn is_winner(votes: Seq<Pubkey>, captain: Pubkey) -> bool {
    exists|k: int| is_winning_vote(votes, k) && votes[k] == captain
}

/// At most one captain wins.
pub proof fn lemma_winner_unique(votes: Seq<Pubkey>, a: Pubkey, b: Pubkey)
    requires
        is_winner(votes, a),
        is_winner(votes, b),
    ensures
        a == b,
{
    let i = choose|k: int| is_winning_vote(votes, k) && votes[k] == a;
    let j = choose|k: int| is_winning_vote(votes, k) && votes[k] == b;
    if i < j {
        assert(votes_for(votes, votes[i]) < votes_for(votes, votes[j]));
        assert(votes_for(votes, votes[j]) <= votes_for(votes, votes[i]));
    } else if j < i {
        assert(votes_for(votes, votes[j]) < votes_for(votes, votes[i]));
        assert(votes_for(votes, votes[i]) <= votes_for(votes, votes[j]));
    }
}

/// The winner is named at least once, and no captain more often.
pub proof fn lemma_winner_has_most_votes(votes: Seq<Pubkey>, winner: Pubkey, other: Pubkey)
    requires
        is_winner(votes, winner),
    ensures
        votes_for(votes, winner) >= 1,
        votes_for(votes, other) <= votes_for(votes, winner),
{
    let k = choose|k: int| is_winning_vote(votes, k) && votes[k] == winner;
    lemma_named_is_counted(votes, k);
    if votes_for(votes, other) > 0 {
        let j = lemma_counted_is_named(votes, other);
        assert(votes_for(votes, votes[j]) <= votes_for(votes, votes[k]));
    }
}

/// A captain who is named is counted.
pub proof fn lemma_named_is_counted(votes: Seq<Pubkey>, k: int)
    requires
        0 <= k < votes.len(),
    ensures
        votes_for(votes, votes[k]) >= 1,
    decreases votes.len(),
{
    if k < votes.len() - 1 {
        lemma_named_is_counted(votes.drop_last(), k);
    }
}

/// A captain who is counted is named somewhere.
pub proof fn lemma_counted_is_named(votes: Seq<Pubkey>, captain: Pubkey) -> (k: int)
    requires
        votes_for(votes, captain) > 0,
    ensures
        0 <= k < votes.len(),
        votes[k] == captain,
    decreases votes.len(),
{
    if votes.last() == captain {
        votes.len() - 1
    } else {
        lemma_counted_is_named(votes.drop_last(), captain)
    }
}

/// How often `captain` is named in `votes`.
pub fn count_votes_for(votes: &Vec<Pubkey>, captain: &Pubkey) -> (count: usize)
    ensures
        count == votes_for(votes@, *captain),
        count <= votes.len(),
{
    let mut count: usize = 0;
    let mut i: usize = 0;
    while i < votes.len()
        invariant
            i <= votes.len(),
            count <= i,
            count == votes_for(votes@.take(i as int), *captain),
        decreases votes.len() - i,
    {
        proof {
            assert(votes@.take(i + 1).drop_last() == votes@.take(i as int));
        }
        if votes[i] == *captain {
            count += 1;
        }
        i += 1;
    }
    proof {
        assert(votes@.take(votes.len() as int) == votes@);
    }
    count
}

/// The captain who wins on `votes`, of which there is at least one.
pub fn plurality(votes: &Vec<Pubkey>) -> (winner: Pubkey)
    requires
        votes@.len() > 0,
    ensures
        is_winner(votes@, winner),
{
    let mut best: usize = 0;
    let mut best_count: usize = count_votes_for(votes, &votes[0]);
    let mut i: usize = 1;
    while i < votes.len()
        invariant
            1 <= i <= votes.len(),
            best < i,
            best_count == votes_for(votes@, votes@[best as int]),
            forall|j: int|
                0 <= j < i ==> votes_for(votes@, #[trigger] votes@[j]) <= best_count,
            forall|j: int|
                0 <= j < best ==> votes_for(votes@, #[trigger] votes@[j]) < best_count,
        decreases votes.len() - i,
    {
        let count = count_votes_for(votes, &votes[i]);
        if count > best_count {
            best = i;
            best_count = count;
        }
        i += 1;
    }
    proof {
        assert(is_winning_vote(votes@, best as int));
    }
    votes[best]
}

/// The captain who wins on `votes`, if there is any vote.
pub fn resolve_winner(votes: &Vec<Pubkey>) -> (winner: Option<Pubkey>)
    ensures
        match winner {
            Some(captain) => is_winner(votes@, captain),
            None => votes@.len() == 0,
        },
{
    if votes.len() == 0 {
        None
    } else {
        Some(plurality(votes))
    }
}

} // verus!
