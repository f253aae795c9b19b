//! Paying out of the pool of a tournament.
//!
//! Once a tournament is finished, each member of the winning team claims
//! their reward. Once it is canceled, everyone claims their entry fee back,
//! and the sponsor their pool; a team that was not complete when the
//! tournament started claims its entry fees back from then on. Nobody is paid
//! twice.

use vstd::prelude::*;
use crate::data::{FinishMetaData, RefundClaimed, RewardClaimed, Tournament, TournamentStatus};
use crate::error::TournamentError;
use crate::escrow::entry_fees;
use crate::pubkey::Pubkey;
use crate::team::{lemma_member_has_position, Team};

verus! {

/// Whether entry fees are paid back to a team in this phase: to every team
/// once the tournament is canceled, and to a team that is not complete once
/// registration is closed.
pub open spec fn refund_open(status: TournamentStatus, completed: bool) -> bool {
    status != TournamentStatus::New && (status == TournamentStatus::Canceled || !completed)
}

/// Pays a participant back, once: marks them on the roster of their team,
/// and returns the amount to move from the pool to them, which is the entry
/// fee times the number of entry fees that they are owed (see
/// `Team::refund_participant`).
///
/// Rejected with `InvalidStatus` unless entry fees are paid back to the team
/// (see `refund_open`), else with `ParticipantNotFound` if the participant is
/// not on the roster, else with `AlreadyClaimed` if they have claimed before.
pub fn handle_claim_refund(
    tournament: &Tournament,
    team: &mut Team,
    participant: &Pubkey,
    tournament_id: u32,
) -> (result: Result<RefundClaimed, TournamentError>)
    requires
        refund_open(tournament.status, old(team)@.completed) ==> forall|i: int| #[trigger]
            old(team)@.is_position_of(i, *participant) && !old(team)@.participants[i].claimed
                ==> entry_fees(
                tournament.config.entry_fee as nat,
                old(team)@.refund_multiplier(i),
            ) <= u64::MAX,
    ensures
        old(team)@.wf() ==> final(team)@.wf(),
        !refund_open(tournament.status, old(team)@.completed) ==> result == Err::<
            RefundClaimed,
            TournamentError,
        >(TournamentError::InvalidStatus) && final(team)@ == old(team)@,
        refund_open(tournament.status, old(team)@.completed) && !old(team)@.has_member(
            *participant,
        ) ==> result == Err::<RefundClaimed, TournamentError>(
            TournamentError::ParticipantNotFound,
        ) && final(team)@ == old(team)@,
        refund_open(tournament.status, old(team)@.completed) ==> forall|i: int| #[trigger]
            old(team)@.is_position_of(i, *participant) ==> if old(team)@.participants[i].claimed {
                &&& result == Err::<RefundClaimed, TournamentError>(
                    TournamentError::AlreadyClaimed,
                )
                &&& final(team)@ == old(team)@
            } else {
                &&& result matches Ok(refund) && refund.tournament_id == tournament_id
                    && refund.participant == *participant && refund.amount == entry_fees(
                    tournament.config.entry_fee as nat,
                    old(team)@.refund_multiplier(i),
                )
                &&& final(team)@ == old(team)@.claimed_at(i)
            },
{
    if tournament.status == TournamentStatus::New || (tournament.status
        != TournamentStatus::Canceled && team.completed) {
        return Err(TournamentError::InvalidStatus);
    }
    proof {
        if team@.has_member(*participant) {
            lemma_member_has_position(team@, *participant);
        }
    }
    let count = team.refund_participant(participant)?;
    let amount = tournament.config.entry_fee * (count as u64);
    Ok(RefundClaimed { tournament_id, participant: *participant, amount })
}

/// Pays a member of the winning team their reward, once: marks them on the
/// roster of their team, and returns the amount to move from the pool to
/// them, which is the reward recorded when the tournament finished.
///
/// Rejected with `InvalidStatus` unless the tournament is finished, else with
/// `NotWinner` unless `team` is the team of the winning captain, else with
/// `ParticipantNotFound` if the participant is not on the roster, else with
/// `AlreadyClaimed` if they have claimed before.
pub fn handle_claim_reward(
    tournament: &Tournament,
    team: &mut Team,
    finish_meta_data: &FinishMetaData,
    participant: &Pubkey,
    tournament_id: u32,
) -> (result: Result<RewardClaimed, TournamentError>)
    ensures
        old(team)@.wf() ==> final(team)@.wf(),
        tournament.status != TournamentStatus::Finished ==> result == Err::<
            RewardClaimed,
            TournamentError,
        >(TournamentError::InvalidStatus) && final(team)@ == old(team)@,
        tournament.status == TournamentStatus::Finished && finish_meta_data.captain_winner
            != old(team).captain ==> result == Err::<RewardClaimed, TournamentError>(
            TournamentError::NotWinner,
        ) && final(team)@ == old(team)@,
        tournament.status == TournamentStatus::Finished && finish_meta_data.captain_winner == old(
            team,
        ).captain ==> {
            &&& !old(team)@.has_member(*participant) ==> result == Err::<
                RewardClaimed,
                TournamentError,
            >(TournamentError::ParticipantNotFound) && final(team)@ == old(team)@
            &&& forall|i: int| #[trigger]
                old(team)@.is_position_of(i, *participant) ==> if old(
                    team,
                )@.participants[i].claimed {
                    &&& result == Err::<RewardClaimed, TournamentError>(
                        TournamentError::AlreadyClaimed,
                    )
                    &&& final(team)@ == old(team)@
                } else {
                    &&& result == Ok::<RewardClaimed, TournamentError>(
                        RewardClaimed {
                            tournament_id,
                            participant: *participant,
                            amount: finish_meta_data.reward,
                        },
                    )
                    &&& final(team)@ == old(team)@.claimed_at(i)
                }
        },
{
    if tournament.status != TournamentStatus::Finished {
        return Err(TournamentError::InvalidStatus);
    }
    if finish_meta_data.captain_winner != team.captain {
        return Err(TournamentError::NotWinner);
    }
    team.reward_participant(participant)?;
    Ok(RewardClaimed { tournament_id, participant: *participant, amount: finish_meta_data.reward })
}

/// What a reclaim of the sponsor pool by `sponsor` ends in, where `refunded`
/// tells whether the pool has been paid back before and `balance` is what
/// the pool of the tournament holds: the amount to pay, or the first reason
/// against paying.
pub open spec fn sponsor_reclaim(
    tournament: Tournament,
    sponsor: Pubkey,
    refunded: bool,
    balance: u64,
) -> Result<u64, TournamentError> {
    if sponsor != tournament.config.sponsor {
        Err(TournamentError::NotAllowed)
    } else if tournament.status != TournamentStatus::Canceled {
        Err(TournamentError::InvalidStatus)
    } else if refunded {
        Err(TournamentError::AlreadyClaimed)
    } else if balance < tournament.config.sponsor_pool {
        Err(TournamentError::InsufficientFunds)
    } else {
        Ok(tournament.config.sponsor_pool)
    }
}

/// Pays the sponsor pool of a canceled tournament back, once: records the
/// reclaim, and returns the amount to move from the pool, whose balance is
/// `reward_pool_balance`, to the sponsor.
///
/// Rejected with `NotAllowed` unless `sponsor` is the sponsor of the
/// tournament, else with `InvalidStatus` unless the tournament is canceled,
/// else with `AlreadyClaimed` if the sponsor pool has been paid back before,
/// else with `InsufficientFunds` if the balance is less than the sponsor
/// pool.
pub fn handle_claim_sponsor_funds(
    tournament: &Tournament,
    finish_meta_data: &mut FinishMetaData,
    sponsor: &Pubkey,
    reward_pool_balance: u64,
) -> (result: Result<u64, TournamentError>)
    ensures
        final(finish_meta_data).finish_votes@ == old(finish_meta_data).finish_votes@,
        final(finish_meta_data).captain_winner == old(finish_meta_data).captain_winner,
        final(finish_meta_data).reward == old(finish_meta_data).reward,
        result == sponsor_reclaim(
            *tournament,
            *sponsor,
            old(finish_meta_data).sponsor_refunded,
            reward_pool_balance,
        ),
        final(finish_meta_data).sponsor_refunded == (old(finish_meta_data).sponsor_refunded
            || result is Ok),
{
    if *sponsor != tournament.config.sponsor {
        return Err(TournamentError::NotAllowed);
    }
    if tournament.status != TournamentStatus::Canceled {
        return Err(TournamentError::InvalidStatus);
    }
    if finish_meta_data.sponsor_refunded {
        return Err(TournamentError::AlreadyClaimed);
    }
    if reward_pool_balance < tournament.config.sponsor_pool {
        return Err(TournamentError::InsufficientFunds);
    }
    finish_meta_data.sponsor_refunded = true;
    Ok(tournament.config.sponsor_pool)
}

/// The sponsor pool is paid back once: after a reclaim is recorded, every
/// further reclaim is rejected, whatever the balance of the pool.
pub proof fn lemma_sponsor_reclaims_once(
    tournament: Tournament,
    sponsor: Pubkey,
    refunded: bool,
    balance: u64,
)
    requires
        refunded,
    ensures
        sponsor_reclaim(tournament, sponsor, refunded, balance) is Err,
{
}

} // verus!
