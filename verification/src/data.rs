//! The records of the platform and of one tournament.

use vstd::prelude::*;
use crate::pubkey::Pubkey;

verus! {

/// A fee or a threshold of 100%, in basis points.
pub const BASIS_POINTS: u64 = 10000;

/// The platform's settings for tournaments on a single chain.
#[derive(Clone, Copy, Debug, PartialEq, Eq)]
pub struct GenomeSingleConfig {
    pub admin: Pubkey,
    pub platform_wallet: Pubkey,
    pub nome_mint: Pubkey,
    /// What a verifier earns with each vote.
    pub verifier_fee: u64,
    /// The identifier that the next tournament gets.
    pub tournament_nonce: u32,
    /// The share of the panel, in basis points, whose votes carry a decision.
    pub consensus_rate: u64,
    /// The target false-positive rate of the registry of participants.
    pub false_precision: u64,
    /// What an organizer pays to create a tournament.
    pub platform_fee: u64,
    /// The highest organizer fee, in basis points, that a tournament may set.
    pub max_organizer_fee: u64,
    pub min_teams: u16,
    pub max_teams: u16,
}

/// The platform's settings for the bridge to other chains.
#[derive(Clone, Copy, Debug, PartialEq, Eq)]
pub struct GenomeOmniConfig {
    pub admin: Pubkey,
    pub uts_program: Pubkey,
    pub bridge_fee: u64,
    pub genome_chain_id: u64,
}

/// What an organizer chooses for a tournament. It never changes afterwards.
#[derive(Clone, Copy, Debug, PartialEq, Eq)]
pub struct TournamentConfig {
    /// The organizer's share of the reward pool, in basis points.
    pub organizer_fee: u64,
    pub expiration_time: u64,
    pub sponsor_pool: u64,
    pub entry_fee: u64,
    pub team_size: u16,
    pub min_teams: u16,
    pub max_teams: u16,
    pub sponsor: Pubkey,
    pub asset_mint: Pubkey,
}

/// The phase of a tournament.
#[derive(Clone, Copy, Debug, PartialEq, Eq, Structural)]
pub enum TournamentStatus {
    /// Registration is open.
    New,
    /// The competition is running.
    Started,
    /// The winners are known. Terminal.
    Finished,
    /// The tournament was called off. Terminal.
    Canceled,
}

impl TournamentStatus {
    /// A terminal phase is never left.
    pub open spec fn is_terminal(self) -> bool {
        self == TournamentStatus::Finished || self == TournamentStatus::Canceled
    }
}

/// One tournament.
#[derive(Clone, Copy, Debug, PartialEq, Eq)]
pub struct Tournament {
    pub id: u32,
    pub organizer: Pubkey,
    /// The number of complete teams.
    pub team_count: u32,
    pub config: TournamentConfig,
    pub status: TournamentStatus,
}

impl Tournament {
    /// Sets the identifier, the organizer and the configuration of a fresh
    /// record, and leaves the count of teams and the phase as they are.
    pub fn initialize(&mut self, id: u32, organizer: Pubkey, tournament_config: TournamentConfig)
        ensures
            *final(self) == (Tournament {
                id,
                organizer,
                config: tournament_config,
                team_count: old(self).team_count,
                status: old(self).status,
            }),
    {
        self.id = id;
        self.organizer = organizer;
        self.config = tournament_config;
    }
}

impl Default for Tournament {
    /// A blank record: no team, registration open, every other field zero.
    fn default() -> (t: Tournament)
        ensures
            t.id == 0,
            t.team_count == 0,
            t.status == TournamentStatus::New,
            t.config.organizer_fee == 0,
            t.config.expiration_time == 0,
            t.config.sponsor_pool == 0,
            t.config.entry_fee == 0,
            t.config.team_size == 0,
            t.config.min_teams == 0,
            t.config.max_teams == 0,
            t.organizer.is_zero(),
            t.config.sponsor.is_zero(),
            t.config.asset_mint.is_zero(),
    {
        let zero = Pubkey::default();
        Tournament {
            id: 0,
            organizer: zero,
            team_count: 0,
            config: TournamentConfig {
                organizer_fee: 0,
                expiration_time: 0,
                sponsor_pool: 0,
                entry_fee: 0,
                team_size: 0,
                min_teams: 0,
                max_teams: 0,
                sponsor: zero,
                asset_mint: zero,
            },
            status: TournamentStatus::New,
        }
    }
}

/// What is fixed when a tournament ends.
#[derive(Clone, Debug, PartialEq, Eq)]
pub struct FinishMetaData {
    /// The captain that each finish vote named, in the order of the votes.
    pub finish_votes: Vec<Pubkey>,
    /// The captain of the winning team, once the tournament has finished.
    pub captain_winner: Pubkey,
    /// What each member of the winning team may claim.
    pub reward: u64,
    /// Whether the sponsor has taken the sponsor pool back.
    pub sponsor_refunded: bool,
}

impl FinishMetaData {
    /// A record without votes.
    pub fn new() -> (meta: FinishMetaData)
        ensures
            meta.finish_votes@ == Seq::<Pubkey>::empty(),
            meta.reward == 0,
            meta.captain_winner.is_zero(),
            !meta.sponsor_refunded,
    {
        FinishMetaData {
            finish_votes: Vec::new(),
            captain_winner: Pubkey::default(),
            reward: 0,
            sponsor_refunded: false,
        }
    }
}

/// The minimums that the platform sets for tournaments in one asset.
#[derive(Clone, Copy, Debug, PartialEq, Eq)]
pub struct TokenInfo {
    pub asset_mint: Pubkey,
    pub min_sponsor_pool: u64,
    pub min_entry_fee: u64,
}

/// What an account may do on the platform.
#[derive(Clone, Copy, Debug, PartialEq, Eq, Structural)]
pub enum Role {
    Operator,
    Verifier,
    Organizer,
}

/// The roles of one account, and what the platform owes it.
#[derive(Clone, Debug, PartialEq, Eq)]
pub struct RoleInfo {
    pub roles: Vec<Role>,
    /// The balance that the account may claim from the platform.
    pub claim: u64,
}

/// The accounts that hold one role, in the order in which they got it.
#[derive(Clone, Debug, PartialEq, Eq)]
pub struct RoleList {
    pub accounts: Vec<Pubkey>,
}

/// The votes of the panel on the three decisions of one tournament: bit `i`
/// of a mask is the vote of the verifier at position `i` of the panel.
#[derive(Clone, Copy, Debug, PartialEq, Eq)]
pub struct Consensus {
    pub tournament_id: u32,
    pub start_votes: u64,
    pub cancel_votes: u64,
    pub finish_votes: u64,
}

/// The stored form of a tournament's registry of participants.
#[derive(Clone, Debug, PartialEq, Eq)]
pub struct BloomFilter {
    pub data: Vec<u8>,
}

/// A registration: `participant` joins the team of `captain`. A captain
/// registers themselves together with the teammates they pay for.
#[derive(Clone, Debug, PartialEq, Eq)]
pub struct RegisterParams {
    pub tournament_id: u32,
    pub participant: Pubkey,
    pub captain: Pubkey,
    pub teammates: Vec<Pubkey>,
}

/// A tournament was created.
#[derive(Clone, Copy, Debug, PartialEq, Eq)]
pub struct TournamentCreated {
    pub id: u32,
    pub config: TournamentConfig,
}

/// A participant joined a team.
#[derive(Clone, Copy, Debug, PartialEq, Eq)]
pub struct ParticipantRegistered {
    pub participant: Pubkey,
    pub captain: Pubkey,
}

/// A tournament started.
#[derive(Clone, Copy, Debug, PartialEq, Eq, Structural)]
pub struct TournamentStarted {
    pub tournament_id: u32,
}

/// A tournament was called off.
#[derive(Clone, Copy, Debug, PartialEq, Eq, Structural)]
pub struct TournamentCanceled {
    pub tournament_id: u32,
}

/// A tournament finished.
#[derive(Clone, Copy, Debug, PartialEq, Eq)]
pub struct TournamentFinished {
    pub tournament_id: u32,
    pub winner: Pubkey,
}

/// Entry fees were paid back.
#[derive(Clone, Copy, Debug, PartialEq, Eq)]
pub struct RefundClaimed {
    pub tournament_id: u32,
    pub participant: Pubkey,
    pub amount: u64,
}

/// A winner was paid.
#[derive(Clone, Copy, Debug, PartialEq, Eq)]
pub struct RewardClaimed {
    pub tournament_id: u32,
    pub participant: Pubkey,
    pub amount: u64,
}

/// The platform's income was withdrawn.
#[derive(Clone, Copy, Debug, PartialEq, Eq)]
pub struct PlatformFeeWithdrawn {
    pub amount: u64,
    pub admin: Pubkey,
}

} // verus!
