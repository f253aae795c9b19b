//! The lifecycle of a tournament.
//!
//! A tournament is `New` while teams register, `Started` while it is played,
//! and then `Finished` or `Canceled` for good. The panel moves it from one
//! phase to the next by voting; it never moves back. Each operation below
//! takes the records that it reads and changes, checks the request against
//! them, and either rejects it and changes nothing, or changes the records
//! and returns what the caller has to do: the amounts to move and the event
//! to announce.

use vstd::prelude::*;
use growable_bloom_filter::GrowableBloom;
use crate::bloom::{
    accepts, bloom_check, bloom_is_sound, bloom_members, bloom_with_all, checked, items_count,
    none_present, participants_capacity,
};
use crate::consensus::{
    has_voted, threshold_reached, vote_count, with_vote, Decision, MAX_VERIFIERS_COUNT,
};
use crate::data::{
    Consensus, FinishMetaData, GenomeSingleConfig, RegisterParams, Role, RoleInfo, RoleList,
    TokenInfo, Tournament, TournamentCanceled, TournamentConfig, TournamentCreated,
    TournamentFinished, TournamentStarted, TournamentStatus, BASIS_POINTS,
};
use crate::error::TournamentError;
use crate::escrow::{
    checked_reward_pool, distribute, organizer_reward, pool_of, entry_fees, reward_per_winner,
    reward_pool,
};
use crate::pubkey::Pubkey;
use crate::team::{captain_paid, distinct, new_member, Team, TeamView};
use crate::winner::{is_winner, plurality};

verus! {

impl TournamentStatus {
    /// Whether the panel may vote on `decision` in this phase: on the start
    /// while registration is open, on the finish while the tournament is
    /// played, on the cancellation until the tournament is over.
    pub open spec fn admits(self, decision: Decision) -> bool {
        match decision {
            Decision::Start => self == TournamentStatus::New,
            Decision::Cancel => self == TournamentStatus::New || self == TournamentStatus::Started,
            Decision::Finish => self == TournamentStatus::Started,
        }
    }

    /// The phase that a carried `decision` leads to.
    pub open spec fn decided(decision: Decision) -> TournamentStatus {
        match decision {
            Decision::Start => TournamentStatus::Started,
            Decision::Cancel => TournamentStatus::Canceled,
            Decision::Finish => TournamentStatus::Finished,
        }
    }

    /// How far the tournament has come: registration, play, the end.
    pub open spec fn rank(self) -> nat {
        match self {
            TournamentStatus::New => 0,
            TournamentStatus::Started => 1,
            TournamentStatus::Finished => 2,
            TournamentStatus::Canceled => 2,
        }
    }

    /// Whether the panel may vote on `decision` in this phase.
    pub fn is_open_for(&self, decision: Decision) -> (open: bool)
        ensures
            open == self.admits(decision),
    {
        match decision {
            Decision::Start => *self == TournamentStatus::New,
            Decision::Cancel => *self == TournamentStatus::New || *self
                == TournamentStatus::Started,
            Decision::Finish => *self == TournamentStatus::Started,
        }
    }
}

/// A carried decision is carried once: the phase that it leads to admits no
/// further vote on it, and lies further on than the phase in which it was
/// taken, so that a tournament never moves back.
pub proof fn lemma_decided_once(status: TournamentStatus, decision: Decision)
    requires
        status.admits(decision),
    ensures
        !TournamentStatus::decided(decision).admits(decision),
        status.rank() < TournamentStatus::decided(decision).rank(),
{
}

/// A tournament that is over admits no vote.
pub proof fn lemma_terminal_is_final(status: TournamentStatus, decision: Decision)
    requires
        status.is_terminal(),
    ensures
        !status.admits(decision),
{
}

impl Tournament {
    /// The reward pool of the tournament: the sponsor pool and one entry fee
    /// for each complete team.
    pub open spec fn reward_pool(&self) -> nat {
        reward_pool(
            self.config.sponsor_pool as nat,
            self.config.entry_fee as nat,
            self.team_count as nat,
        )
    }

    /// Whether the reward pool can be divided: the teams have members, the
    /// organizer's fee is no more than the whole, and the pool is an amount
    /// of 64 bits.
    pub open spec fn can_pay_out(&self) -> bool {
        &&& self.config.team_size > 0
        &&& self.config.organizer_fee <= BASIS_POINTS
        &&& self.reward_pool() <= u64::MAX
    }

    /// Whether the reward pool can be divided.
    pub fn is_payable(&self) -> (payable: bool)
        ensures
            payable == self.can_pay_out(),
    {
        self.config.team_size > 0 && self.config.organizer_fee <= BASIS_POINTS
            && checked_reward_pool(
            self.config.sponsor_pool,
            self.config.entry_fee,
            self.team_count,
        ).is_some()
    }

    /// This tournament in another phase.
    pub open spec fn with_status(&self, status: TournamentStatus) -> Tournament {
        Tournament { status, ..*self }
    }
}

/// What the caller does when a tournament has finished.
#[derive(Clone, Copy, Debug, PartialEq, Eq)]
pub struct FinishOutcome {
    /// The amount to move from the pool to the organizer.
    pub organizer_reward: u64,
    /// The event to announce.
    pub event: TournamentFinished,
}

/// Records the vote of a verifier that the tournament is finished and that
/// the team of `captain_winner` has won it.
///
/// The vote is rejected with `NotAllowed` if the voter is no verifier, else
/// with `InvalidStatus` unless the tournament is being played, else with
/// `AlreadyVoted` if the verifier has voted on the finish before. A vote that
/// is not rejected is counted, the captain that it names is put behind those
/// named before, and the verifier earns the verifier fee.
///
/// If the votes now reach the platform's rate, the tournament is finished:
/// the winner is the captain whom the votes name most often (of several such
/// captains, the one named first), the organizer's share of the reward pool
/// is returned to be paid, and the share of each member of the winning team
/// is recorded for them to claim.
pub fn handle_finish_tournament(
    config: &GenomeSingleConfig,
    role_info: &mut RoleInfo,
    verifier_list: &RoleList,
    consensus: &mut Consensus,
    tournament: &mut Tournament,
    finish_meta: &mut FinishMetaData,
    verifier_index: usize,
    tournament_id: u32,
    captain_winner: Pubkey,
) -> (result: Result<Option<FinishOutcome>, TournamentError>)
    requires
        verifier_index < verifier_list.accounts@.len() <= MAX_VERIFIERS_COUNT,
        old(role_info).has_role(Role::Verifier) && old(tournament).status.admits(Decision::Finish)
            && !has_voted(old(consensus).finish_votes, verifier_index as nat) ==> old(
            role_info,
        ).claim + config.verifier_fee <= u64::MAX,
        old(tournament).status == TournamentStatus::Started ==> old(tournament).can_pay_out(),
    ensures
        final(role_info).roles@ == old(role_info).roles@,
        final(finish_meta).sponsor_refunded == old(finish_meta).sponsor_refunded,
        match result {
            Err(e) => {
                &&& final(role_info).claim == old(role_info).claim
                &&& *final(consensus) == *old(consensus)
                &&& *final(tournament) == *old(tournament)
                &&& final(finish_meta).finish_votes@ == old(finish_meta).finish_votes@
                &&& final(finish_meta).captain_winner == old(finish_meta).captain_winner
                &&& final(finish_meta).reward == old(finish_meta).reward
                &&& e == if !old(role_info).has_role(Role::Verifier) {
                    TournamentError::NotAllowed
                } else if !old(tournament).status.admits(Decision::Finish) {
                    TournamentError::InvalidStatus
                } else {
                    TournamentError::AlreadyVoted
                }
                &&& !old(role_info).has_role(Role::Verifier) || !old(tournament).status.admits(
                    Decision::Finish,
                ) || has_voted(old(consensus).finish_votes, verifier_index as nat)
            },
            Ok(outcome) => {
                &&& old(role_info).has_role(Role::Verifier)
                &&& old(tournament).status.admits(Decision::Finish)
                &&& !has_voted(old(consensus).finish_votes, verifier_index as nat)
                &&& *final(consensus) == old(consensus).with_votes(
                    Decision::Finish,
                    with_vote(old(consensus).finish_votes, verifier_index as nat),
                )
                &&& final(role_info).claim == old(role_info).claim + config.verifier_fee
                &&& final(finish_meta).finish_votes@ == old(finish_meta).finish_votes@.push(
                    captain_winner,
                )
                &&& if threshold_reached(
                    vote_count(final(consensus).finish_votes),
                    verifier_list.accounts@.len(),
                    config.consensus_rate as nat,
                ) {
                    &&& *final(tournament) == old(tournament).with_status(
                        TournamentStatus::Finished,
                    )
                    &&& is_winner(final(finish_meta).finish_votes@, final(finish_meta).captain_winner)
                    &&& final(finish_meta).reward == reward_per_winner(
                        old(tournament).reward_pool(),
                        old(tournament).config.organizer_fee as nat,
                        old(tournament).config.team_size as nat,
                    )
                    &&& outcome matches Some(payout) && payout.organizer_reward
                        == organizer_reward(
                        old(tournament).reward_pool(),
                        old(tournament).config.organizer_fee as nat,
                    ) && payout.event == (TournamentFinished {
                        tournament_id,
                        winner: final(finish_meta).captain_winner,
                    })
                } else {
                    &&& *final(tournament) == *old(tournament)
                    &&& final(finish_meta).captain_winner == old(finish_meta).captain_winner
                    &&& final(finish_meta).reward == old(finish_meta).reward
                    &&& outcome is None
                }
            },
        },
{
    if !role_info.holds(Role::Verifier) {
        return Err(TournamentError::NotAllowed);
    }
    if !tournament.status.is_open_for(Decision::Finish) {
        return Err(TournamentError::InvalidStatus);
    }
    let reached = consensus.cast_vote(
        Decision::Finish,
        verifier_index,
        verifier_list.accounts.len(),
        config.consensus_rate,
    )?;
    finish_meta.finish_votes.push(captain_winner);
    role_info.claim = role_info.claim + config.verifier_fee;
    if !reached {
        return Ok(None);
    }
    let winner = plurality(&finish_meta.finish_votes);
    let pool = pool_of(
        tournament.config.sponsor_pool,
        tournament.config.entry_fee,
        tournament.team_count,
    );
    let shares = distribute(pool, tournament.config.organizer_fee, tournament.config.team_size);
    finish_meta.captain_winner = winner;
    finish_meta.reward = shares.reward_per_winner;
    tournament.status = TournamentStatus::Finished;
    Ok(
        Some(
            FinishOutcome {
                organizer_reward: shares.organizer_reward,
                event: TournamentFinished { tournament_id, winner },
            },
        ),
    )
}

/// Records the vote of a verifier to start the tournament.
///
/// The vote is rejected with `NotAllowed` if the voter is no verifier, else
/// with `InvalidStatus` unless registration is open, else with
/// `NoCompletedTeams` if no team is complete, else with `AlreadyVoted` if the
/// verifier has voted on the start before. A vote that is not rejected is
/// counted, and the verifier earns the verifier fee. If the votes now reach
/// the platform's rate, the tournament is started.
pub fn handle_start_tournament(
    config: &GenomeSingleConfig,
    role_info: &mut RoleInfo,
    verifier_list: &RoleList,
    consensus: &mut Consensus,
    tournament: &mut Tournament,
    verifier_index: usize,
    tournament_id: u32,
) -> (result: Result<Option<TournamentStarted>, TournamentError>)
    requires
        verifier_index < verifier_list.accounts@.len() <= MAX_VERIFIERS_COUNT,
        old(role_info).has_role(Role::Verifier) && old(tournament).status.admits(Decision::Start)
            && old(tournament).team_count > 0 && !has_voted(
            old(consensus).start_votes,
            verifier_index as nat,
        ) ==> old(role_info).claim + config.verifier_fee <= u64::MAX,
    ensures
        final(role_info).roles@ == old(role_info).roles@,
        match result {
            Err(e) => {
                &&& final(role_info).claim == old(role_info).claim
                &&& *final(consensus) == *old(consensus)
                &&& *final(tournament) == *old(tournament)
                &&& e == if !old(role_info).has_role(Role::Verifier) {
                    TournamentError::NotAllowed
                } else if !old(tournament).status.admits(Decision::Start) {
                    TournamentError::InvalidStatus
                } else if old(tournament).team_count == 0 {
                    TournamentError::NoCompletedTeams
                } else {
                    TournamentError::AlreadyVoted
                }
                &&& !old(role_info).has_role(Role::Verifier) || !old(tournament).status.admits(
                    Decision::Start,
                ) || old(tournament).team_count == 0 || has_voted(
                    old(consensus).start_votes,
                    verifier_index as nat,
                )
            },
            Ok(outcome) => {
                &&& old(role_info).has_role(Role::Verifier)
                &&& old(tournament).status.admits(Decision::Start)
                &&& old(tournament).team_count > 0
                &&& !has_voted(old(consensus).start_votes, verifier_index as nat)
                &&& *final(consensus) == old(consensus).with_votes(
                    Decision::Start,
                    with_vote(old(consensus).start_votes, verifier_index as nat),
                )
                &&& final(role_info).claim == old(role_info).claim + config.verifier_fee
                &&& if threshold_reached(
                    vote_count(final(consensus).start_votes),
                    verifier_list.accounts@.len(),
                    config.consensus_rate as nat,
                ) {
                    &&& *final(tournament) == old(tournament).with_status(
                        TournamentStatus::Started,
                    )
                    &&& outcome == Some(TournamentStarted { tournament_id })
                } else {
                    &&& *final(tournament) == *old(tournament)
                    &&& outcome is None
                }
            },
        },
{
    if !role_info.holds(Role::Verifier) {
        return Err(TournamentError::NotAllowed);
    }
    if !tournament.status.is_open_for(Decision::Start) {
        return Err(TournamentError::InvalidStatus);
    }
    if tournament.team_count == 0 {
        return Err(TournamentError::NoCompletedTeams);
    }
    let reached = consensus.cast_vote(
        Decision::Start,
        verifier_index,
        verifier_list.accounts.len(),
        config.consensus_rate,
    )?;
    role_info.claim = role_info.claim + config.verifier_fee;
    if !reached {
        return Ok(None);
    }
    tournament.status = TournamentStatus::Started;
    Ok(Some(TournamentStarted { tournament_id }))
}

/// Records the vote of a verifier to call the tournament off.
///
/// The vote is rejected with `NotAllowed` if the voter is no verifier, else
/// with `InvalidStatus` if the tournament is over, else with `NotAllowed` if
/// `role_info_org` is not the record of an organizer, else with
/// `AlreadyVoted` if the verifier has voted on the cancellation before. A
/// vote that is not rejected is counted, and the verifier earns the verifier
/// fee. If the votes now reach the platform's rate, the tournament is
/// canceled, and the organizer is owed the platform fee again.
pub fn handle_cancel_tournament(
    config: &GenomeSingleConfig,
    role_info_ver: &mut RoleInfo,
    verifier_list: &RoleList,
    consensus: &mut Consensus,
    tournament: &mut Tournament,
    role_info_org: &mut RoleInfo,
    verifier_index: usize,
    tournament_id: u32,
) -> (result: Result<Option<TournamentCanceled>, TournamentError>)
    requires
        verifier_index < verifier_list.accounts@.len() <= MAX_VERIFIERS_COUNT,
        old(role_info_ver).has_role(Role::Verifier) && old(tournament).status.admits(
            Decision::Cancel,
        ) && old(role_info_org).has_role(Role::Organizer) && !has_voted(
            old(consensus).cancel_votes,
            verifier_index as nat,
        ) ==> {
            &&& old(role_info_ver).claim + config.verifier_fee <= u64::MAX
            &&& threshold_reached(
                vote_count(with_vote(old(consensus).cancel_votes, verifier_index as nat)),
                verifier_list.accounts@.len(),
                config.consensus_rate as nat,
            ) ==> old(role_info_org).claim + config.platform_fee <= u64::MAX
        },
    ensures
        final(role_info_ver).roles@ == old(role_info_ver).roles@,
        final(role_info_org).roles@ == old(role_info_org).roles@,
        match result {
            Err(e) => {
                &&& final(role_info_ver).claim == old(role_info_ver).claim
                &&& final(role_info_org).claim == old(role_info_org).claim
                &&& *final(consensus) == *old(consensus)
                &&& *final(tournament) == *old(tournament)
                &&& e == if !old(role_info_ver).has_role(Role::Verifier) {
                    TournamentError::NotAllowed
                } else if !old(tournament).status.admits(Decision::Cancel) {
                    TournamentError::InvalidStatus
                } else if !old(role_info_org).has_role(Role::Organizer) {
                    TournamentError::NotAllowed
                } else {
                    TournamentError::AlreadyVoted
                }
                &&& !old(role_info_ver).has_role(Role::Verifier) || !old(tournament).status.admits(
                    Decision::Cancel,
                ) || !old(role_info_org).has_role(Role::Organizer) || has_voted(
                    old(consensus).cancel_votes,
                    verifier_index as nat,
                )
            },
            Ok(outcome) => {
                &&& old(role_info_ver).has_role(Role::Verifier)
                &&& old(tournament).status.admits(Decision::Cancel)
                &&& old(role_info_org).has_role(Role::Organizer)
                &&& !has_voted(old(consensus).cancel_votes, verifier_index as nat)
                &&& *final(consensus) == old(consensus).with_votes(
                    Decision::Cancel,
                    with_vote(old(consensus).cancel_votes, verifier_index as nat),
                )
                &&& final(role_info_ver).claim == old(role_info_ver).claim + config.verifier_fee
                &&& if threshold_reached(
                    vote_count(final(consensus).cancel_votes),
                    verifier_list.accounts@.len(),
                    config.consensus_rate as nat,
                ) {
                    &&& *final(tournament) == old(tournament).with_status(
                        TournamentStatus::Canceled,
                    )
                    &&& final(role_info_org).claim == old(role_info_org).claim
                        + config.platform_fee
                    &&& outcome == Some(TournamentCanceled { tournament_id })
                } else {
                    &&& *final(tournament) == *old(tournament)
                    &&& final(role_info_org).claim == old(role_info_org).claim
                    &&& outcome is None
                }
            },
        },
{
    if !role_info_ver.holds(Role::Verifier) {
        return Err(TournamentError::NotAllowed);
    }
    if !tournament.status.is_open_for(Decision::Cancel) {
        return Err(TournamentError::InvalidStatus);
    }
    if !role_info_org.holds(Role::Organizer) {
        return Err(TournamentError::NotAllowed);
    }
    let reached = consensus.cast_vote(
        Decision::Cancel,
        verifier_index,
        verifier_list.accounts.len(),
        config.consensus_rate,
    )?;
    role_info_ver.claim = role_info_ver.claim + config.verifier_fee;
    if !reached {
        return Ok(None);
    }
    role_info_org.claim = role_info_org.claim + config.platform_fee;
    tournament.status = TournamentStatus::Canceled;
    Ok(Some(TournamentCanceled { tournament_id }))
}

/// The first rule that the configuration of a tournament breaks, if it
/// breaks one: the organizer fee is at most the platform's maximum; the entry
/// fee and the sponsor pool are at least the minimums for the asset; the
/// expiration time is not before `now`; the bounds on the number of teams lie
/// within the platform's.
pub open spec fn config_error(
    params: TournamentConfig,
    config: GenomeSingleConfig,
    token_info: TokenInfo,
    now: u64,
) -> Option<TournamentError> {
    if params.organizer_fee > config.max_organizer_fee {
        Some(TournamentError::InvalidOrganizerFee)
    } else if params.entry_fee < token_info.min_entry_fee {
        Some(TournamentError::InvalidEntryFee)
    } else if params.sponsor_pool < token_info.min_sponsor_pool {
        Some(TournamentError::InvalidSponsorPool)
    } else if params.expiration_time < now {
        Some(TournamentError::InvalidExpirationTime)
    } else if params.min_teams < config.min_teams || params.max_teams > config.max_teams {
        Some(TournamentError::InvalidTeamsCount)
    } else {
        None
    }
}

/// Checks the configuration of a tournament against the platform's settings,
/// the minimums for its asset, and the time `now`.
pub fn validate_params(
    params: &TournamentConfig,
    config: &GenomeSingleConfig,
    token_info: &TokenInfo,
    now: u64,
) -> (result: Result<(), TournamentError>)
    ensures
        result == match config_error(*params, *config, *token_info, now) {
            Some(e) => Err::<(), TournamentError>(e),
            None => Ok::<(), TournamentError>(()),
        },
{
    if params.organizer_fee > config.max_organizer_fee {
        return Err(TournamentError::InvalidOrganizerFee);
    }
    if params.entry_fee < token_info.min_entry_fee {
        return Err(TournamentError::InvalidEntryFee);
    }
    if params.sponsor_pool < token_info.min_sponsor_pool {
        return Err(TournamentError::InvalidSponsorPool);
    }
    if params.expiration_time < now {
        return Err(TournamentError::InvalidExpirationTime);
    }
    if params.min_teams < config.min_teams || params.max_teams > config.max_teams {
        return Err(TournamentError::InvalidTeamsCount);
    }
    Ok(())
}

/// What the caller does when a tournament has been created.
#[derive(Clone, Copy, Debug, PartialEq, Eq)]
pub struct CreateOutcome {
    /// The amount to move from the sponsor to the pool.
    pub sponsor_transfer: u64,
    /// The amount to move from the organizer to the platform.
    pub platform_fee_transfer: u64,
    /// The event to announce.
    pub event: TournamentCreated,
}

/// Creates a tournament in the record `tournament`, with the next identifier
/// of the platform, open for registration and without teams.
///
/// Rejected with `NotAllowed` if `role_info` is not the record of an
/// organizer, else with `MaxPlayersExceeded` if the registry would have to
/// hold more participants than `max_participants_count`, the most that fit
/// its storage budget, else for the first rule that the configuration
/// breaks (see `config_error`).
///
/// The sponsor pool is to be moved into the pool of the tournament. The
/// platform fee is taken off what the platform owes the organizer if that
/// covers it, and is else to be moved from the organizer to the platform.
pub fn handle_create_tournament(
    config: &mut GenomeSingleConfig,
    role_info: &mut RoleInfo,
    token_info: &TokenInfo,
    tournament: &mut Tournament,
    organizer: Pubkey,
    tournament_config: TournamentConfig,
    now: u64,
    max_participants_count: u32,
) -> (result: Result<CreateOutcome, TournamentError>)
    requires
        old(config).tournament_nonce < u32::MAX,
    ensures
        final(role_info).roles@ == old(role_info).roles@,
        match result {
            Err(e) => {
                &&& *final(config) == *old(config)
                &&& final(role_info).claim == old(role_info).claim
                &&& *final(tournament) == *old(tournament)
                &&& e == if !old(role_info).has_role(Role::Organizer) {
                    TournamentError::NotAllowed
                } else if participants_capacity(tournament_config) > max_participants_count {
                    TournamentError::MaxPlayersExceeded
                } else {
                    config_error(tournament_config, *old(config), *token_info, now)->0
                }
                &&& !old(role_info).has_role(Role::Organizer) || participants_capacity(
                    tournament_config,
                ) > max_participants_count || config_error(
                    tournament_config,
                    *old(config),
                    *token_info,
                    now,
                ) is Some
            },
            Ok(outcome) => {
                &&& old(role_info).has_role(Role::Organizer)
                &&& participants_capacity(tournament_config) <= max_participants_count
                &&& config_error(tournament_config, *old(config), *token_info, now) is None
                &&& *final(config) == (GenomeSingleConfig {
                    tournament_nonce: (old(config).tournament_nonce + 1) as u32,
                    ..*old(config)
                })
                &&& *final(tournament) == (Tournament {
                    id: old(config).tournament_nonce,
                    organizer,
                    team_count: 0,
                    config: tournament_config,
                    status: TournamentStatus::New,
                })
                &&& outcome.sponsor_transfer == tournament_config.sponsor_pool
                &&& outcome.event == TournamentCreated {
                    id: old(config).tournament_nonce,
                    config: tournament_config,
                }
                &&& if old(role_info).claim >= old(config).platform_fee {
                    &&& final(role_info).claim == old(role_info).claim - old(config).platform_fee
                    &&& outcome.platform_fee_transfer == 0
                } else {
                    &&& final(role_info).claim == old(role_info).claim
                    &&& outcome.platform_fee_transfer == old(config).platform_fee
                }
            },
        },
{
    if !role_info.holds(Role::Organizer) {
        return Err(TournamentError::NotAllowed);
    }
    if items_count(&tournament_config) > max_participants_count {
        return Err(TournamentError::MaxPlayersExceeded);
    }
    validate_params(&tournament_config, config, token_info, now)?;
    let id = config.tournament_nonce;
    tournament.initialize(id, organizer, tournament_config);
    tournament.team_count = 0;
    tournament.status = TournamentStatus::New;
    config.tournament_nonce = id + 1;
    let platform_fee_transfer = if role_info.claim >= config.platform_fee {
        role_info.claim = role_info.claim - config.platform_fee;
        0
    } else {
        config.platform_fee
    };
    Ok(
        CreateOutcome {
            sponsor_transfer: tournament_config.sponsor_pool,
            platform_fee_transfer,
            event: TournamentCreated { id, config: tournament_config },
        },
    )
}

/// Why a registration is rejected, if it is: registration is not open; else
/// the registry does not take the participant and the teammates (see
/// `accepts`); else the roster has no room for them; else, for someone who
/// joins a team, they are on its roster.
pub open spec fn registration_error(
    tournament: Tournament,
    team: TeamView,
    bloom: GrowableBloom,
    params: RegisterParams,
) -> Option<TournamentError> {
    if tournament.status != TournamentStatus::New {
        Some(TournamentError::InvalidStatus)
    } else if !accepts(bloom, params.keys()) {
        Some(TournamentError::AlreadyRegistered)
    } else if params.participant == params.captain {
        if params.keys().len() > tournament.config.team_size {
            Some(TournamentError::MaxPlayersExceeded)
        } else {
            None
        }
    } else if !team.has_room(1) {
        Some(TournamentError::MaxPlayersExceeded)
    } else if team.has_member(params.participant) {
        Some(TournamentError::AlreadyRegistered)
    } else {
        None
    }
}

/// The team after a registration: a captain, who registers under their own
/// name, founds a team of the tournament's team size with themselves and
/// their teammates on its roster, in this order, all paid for by the captain;
/// anyone else joins `team` and paid their own entry fee.
pub open spec fn registered_team(
    tournament: Tournament,
    team: TeamView,
    params: RegisterParams,
) -> TeamView {
    if params.participant == params.captain {
        TeamView::empty(params.participant, tournament.config.team_size as nat).joined(
            captain_paid(params.keys()),
        )
    } else {
        team.joined(seq![new_member(params.participant, false)])
    }
}

/// What a registration pays into the pool: a captain one entry fee for
/// themselves and each teammate, anyone else their own.
pub open spec fn registration_fee(tournament: Tournament, params: RegisterParams) -> nat {
    if params.participant == params.captain {
        entry_fees(tournament.config.entry_fee as nat, params.keys().len())
    } else {
        tournament.config.entry_fee as nat
    }
}

/// Registers a participant, and the teammates whom a captain pays for, for
/// the tournament, and returns the registry with them in it and the amount
/// that the participant has to pay into the pool.
///
/// The registration is rejected for the first reason that
/// `registration_error` finds, and is accepted if it finds none. A captain,
/// who registers under their own name, founds the team; anyone else joins
/// `team`, the team of their captain (see `registered_team`). A team that is
/// complete with this registration is counted as a team of the tournament.
///
/// Nobody registers twice: a registration is rejected with
/// `AlreadyRegistered` if the registry reports the participant as present,
/// and a registration that is rejected for want of room on the roster held
/// nobody whom the registry reported as present, and nobody twice.
///
/// A rejected registration leaves the tournament and the team as they were;
/// the registry handed in is gone, and the caller keeps the form they stored.
pub fn handle_register_tournament(
    tournament: &mut Tournament,
    team: &mut Team,
    bloom: GrowableBloom,
    register_params: &RegisterParams,
) -> (result: Result<(GrowableBloom, u64), TournamentError>)
    requires
        bloom_is_sound(bloom),
        registration_error(*old(tournament), old(team)@, bloom, *register_params) is None ==> {
            &&& registration_fee(*old(tournament), *register_params) <= u64::MAX
            &&& registered_team(*old(tournament), old(team)@, *register_params).completed ==> old(
                tournament,
            ).team_count < u32::MAX
        },
    ensures
        old(team)@.wf() ==> final(team)@.wf(),
        old(tournament).status == TournamentStatus::New && bloom_members(bloom).contains(
            register_params.participant@,
        ) ==> result matches Err(TournamentError::AlreadyRegistered),
        match result {
            Err(e) => {
                &&& registration_error(*old(tournament), old(team)@, bloom, *register_params)
                    == Some(e)
                &&& *final(tournament) == *old(tournament)
                &&& final(team)@ == old(team)@
                &&& e == TournamentError::MaxPlayersExceeded ==> none_present(
                    bloom,
                    register_params.keys(),
                ) && distinct(register_params.keys())
            },
            Ok((filter, amount)) => {
                &&& registration_error(*old(tournament), old(team)@, bloom, *register_params)
                    is None
                &&& filter == bloom_with_all(bloom, register_params.keys())
                &&& checked(bloom, register_params.keys(), filter, Ok(()))
                &&& final(team)@ == registered_team(
                    *old(tournament),
                    old(team)@,
                    *register_params,
                )
                &&& amount == registration_fee(*old(tournament), *register_params)
                &&& *final(tournament) == (Tournament {
                    team_count: if final(team)@.completed {
                        (old(tournament).team_count + 1) as u32
                    } else {
                        old(tournament).team_count
                    },
                    ..*old(tournament)
                })
            },
        },
{
    if tournament.status != TournamentStatus::New {
        return Err(TournamentError::InvalidStatus);
    }
    proof {
        assert(register_params.keys()[0] == register_params.participant);
    }
    let mut bloom = bloom;
    bloom_check(register_params, &mut bloom)?;
    let amount: u64;
    if register_params.participant == register_params.captain {
        let mut all_participants: Vec<Pubkey> = Vec::new();
        all_participants.push(register_params.participant);
        let mut k: usize = 0;
        while k < register_params.teammates.len()
            invariant
                k <= register_params.teammates.len(),
                all_participants@ == register_params.keys().take(k + 1),
            decreases register_params.teammates.len() - k,
        {
            all_participants.push(register_params.teammates[k]);
            proof {
                assert(all_participants@ == register_params.keys().take(k + 2));
            }
            k += 1;
        }
        proof {
            assert(register_params.keys().take(register_params.teammates.len() + 1)
                == register_params.keys());
        }
        let count = all_participants.len();
        let mut founded = Team::new(register_params.participant, tournament.config.team_size);
        founded.add_participants_by_captain(all_participants)?;
        assert(count * tournament.config.entry_fee == tournament.config.entry_fee * count)
            by (nonlinear_arith);
        amount = (count as u64) * tournament.config.entry_fee;
        proof {
            assert(founded@.participants == captain_paid(register_params.keys()));
        }
        *team = founded;
    } else {
        team.add_participant(register_params.participant)?;
        amount = tournament.config.entry_fee;
    }
    if team.completed {
        tournament.team_count = tournament.team_count + 1;
    }
    Ok((bloom, amount))
}

} // verus!
