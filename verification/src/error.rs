//! The reasons for which an operation is rejected.

use vstd::prelude::*;

verus! {

/// Why an operation was rejected. A rejected operation changes nothing.
#[derive(Clone, Copy, Debug, PartialEq, Eq, Structural)]
pub enum TournamentError {
    /// A roster, or the registry of participants, has no room for the request.
    MaxPlayersExceeded,
    /// The panel of verifiers is full.
    MaxVerifiersExceeded,
    /// The identity is not on the roster.
    ParticipantNotFound,
    /// The entry fee is below the minimum for the asset.
    InvalidEntryFee,
    /// The sponsor pool is below the minimum for the asset.
    InvalidSponsorPool,
    /// The bounds on the number of teams leave the platform's bounds.
    InvalidTeamsCount,
    /// The false-positive precision is out of range.
    InvalidPrecision,
    /// The organizer fee is above the platform's maximum.
    InvalidOrganizerFee,
    /// The expiration time lies in the past.
    InvalidExpirationTime,
    /// The platform token is not the configured one.
    InvalidNome,
    /// The asset is not the tournament's.
    InvalidToken,
    /// The account already holds the role.
    RoleAlreadyGranted,
    /// The account does not hold the role.
    RoleNotFound,
    /// The verifier has already voted on this decision.
    AlreadyVoted,
    /// The caller lacks the role or the identity that the operation asks for.
    NotAllowed,
    /// The tournament is in the wrong phase for the operation.
    InvalidStatus,
    /// A derived address does not match.
    InvalidPda,
    /// The identity is, or is reported to be, registered already.
    AlreadyRegistered,
    /// The team did not win the tournament.
    NotWinner,
    /// The participant has already been paid.
    AlreadyClaimed,
    /// No team of the tournament is complete yet.
    NoCompletedTeams,
    /// The balance does not cover the amount.
    InsufficientFunds,
}

impl TournamentError {
    /// The name of the variant, as callers report it.
    pub open spec fn spec_name(self) -> Seq<char> {
        match self {
            TournamentError::MaxPlayersExceeded => "MaxPlayersExceeded"@,
            TournamentError::MaxVerifiersExceeded => "MaxVerifiersExceeded"@,
            TournamentError::ParticipantNotFound => "ParticipantNotFound"@,
            TournamentError::InvalidEntryFee => "InvalidEntryFee"@,
            TournamentError::InvalidSponsorPool => "InvalidSponsorPool"@,
            TournamentError::InvalidTeamsCount => "InvalidTeamsCount"@,
            TournamentError::InvalidPrecision => "InvalidPrecision"@,
            TournamentError::InvalidOrganizerFee => "InvalidOrganizerFee"@,
            TournamentError::InvalidExpirationTime => "InvalidExpirationTime"@,
            TournamentError::InvalidNome => "InvalidNome"@,
            TournamentError::InvalidToken => "InvalidToken"@,
            TournamentError::RoleAlreadyGranted => "RoleAlreadyGranted"@,
            TournamentError::RoleNotFound => "RoleNotFound"@,
            TournamentError::AlreadyVoted => "AlreadyVoted"@,
            TournamentError::NotAllowed => "NotAllowed"@,
            TournamentError::InvalidStatus => "InvalidStatus"@,
            TournamentError::InvalidPda => "InvalidPda"@,
            TournamentError::AlreadyRegistered => "AlreadyRegistered"@,
            TournamentError::NotWinner => "NotWinner"@,
            TournamentError::AlreadyClaimed => "AlreadyClaimed"@,
            TournamentError::NoCompletedTeams => "NoCompletedTeams"@,
            TournamentError::InsufficientFunds => "InsufficientFunds"@,
        }
    }

    /// The message shown for the variant.
    pub open spec fn spec_message(self) -> Seq<char> {
        match self {
            TournamentError::MaxPlayersExceeded => "Max players exceeded"@,
            TournamentError::MaxVerifiersExceeded => "Max verifiers exceeded"@,
            TournamentError::ParticipantNotFound => "Participant not found"@,
            TournamentError::InvalidEntryFee => "Invalid entry fee"@,
            TournamentError::InvalidSponsorPool => "Invalid sponsor pool"@,
            TournamentError::InvalidTeamsCount => "Invalid teams count"@,
            TournamentError::InvalidPrecision => "Invalid false precision"@,
            TournamentError::InvalidOrganizerFee => "Invalid organizer fee"@,
            TournamentError::InvalidExpirationTime => "Expiration time is in the past"@,
            TournamentError::InvalidNome => "Invalid nome mint"@,
            TournamentError::InvalidToken => "Invalid tournament mint"@,
            TournamentError::RoleAlreadyGranted => "Role already granted"@,
            TournamentError::RoleNotFound => "Role not found"@,
            TournamentError::AlreadyVoted => "Verifier already voted"@,
            TournamentError::NotAllowed => "Not allowed"@,
            TournamentError::InvalidStatus => "Invalid tournament status"@,
            TournamentError::InvalidPda => "Invalid Pda"@,
            TournamentError::AlreadyRegistered => "Participant already registered"@,
            TournamentError::NotWinner => "Captain is not winner"@,
            TournamentError::AlreadyClaimed => "Participant already claimed"@,
            TournamentError::NoCompletedTeams => "The tournament doesn't have any completed teams yet."@,
            TournamentError::InsufficientFunds => "Insufficient funds"@,
        }
    }

    /// The name of the variant.
    pub fn name(&self) -> (s: &'static str)
        ensures
            s@ == self.spec_name(),
    {
        match self {
            TournamentError::MaxPlayersExceeded => "MaxPlayersExceeded",
            TournamentError::MaxVerifiersExceeded => "MaxVerifiersExceeded",
            TournamentError::ParticipantNotFound => "ParticipantNotFound",
            TournamentError::InvalidEntryFee => "InvalidEntryFee",
            TournamentError::InvalidSponsorPool => "InvalidSponsorPool",
            TournamentError::InvalidTeamsCount => "InvalidTeamsCount",
            TournamentError::InvalidPrecision => "InvalidPrecision",
            TournamentError::InvalidOrganizerFee => "InvalidOrganizerFee",
            TournamentError::InvalidExpirationTime => "InvalidExpirationTime",
            TournamentError::InvalidNome => "InvalidNome",
            TournamentError::InvalidToken => "InvalidToken",
            TournamentError::RoleAlreadyGranted => "RoleAlreadyGranted",
            TournamentError::RoleNotFound => "RoleNotFound",
            TournamentError::AlreadyVoted => "AlreadyVoted",
            TournamentError::NotAllowed => "NotAllowed",
            TournamentError::InvalidStatus => "InvalidStatus",
            TournamentError::InvalidPda => "InvalidPda",
            TournamentError::AlreadyRegistered => "AlreadyRegistered",
            TournamentError::NotWinner => "NotWinner",
            TournamentError::AlreadyClaimed => "AlreadyClaimed",
            TournamentError::NoCompletedTeams => "NoCompletedTeams",
            TournamentError::InsufficientFunds => "InsufficientFunds",
        }
    }

    /// The message shown for the variant.
    pub fn message(&self) -> (s: &'static str)
        ensures
            s@ == self.spec_message(),
    {
        match self {
            TournamentError::MaxPlayersExceeded => "Max players exceeded",
            TournamentError::MaxVerifiersExceeded => "Max verifiers exceeded",
            TournamentError::ParticipantNotFound => "Participant not found",
            TournamentError::InvalidEntryFee => "Invalid entry fee",
            TournamentError::InvalidSponsorPool => "Invalid sponsor pool",
            TournamentError::InvalidTeamsCount => "Invalid teams count",
            TournamentError::InvalidPrecision => "Invalid false precision",
            TournamentError::InvalidOrganizerFee => "Invalid organizer fee",
            TournamentError::InvalidExpirationTime => "Expiration time is in the past",
            TournamentError::InvalidNome => "Invalid nome mint",
            TournamentError::InvalidToken => "Invalid tournament mint",
            TournamentError::RoleAlreadyGranted => "Role already granted",
            TournamentError::RoleNotFound => "Role not found",
            TournamentError::AlreadyVoted => "Verifier already voted",
            TournamentError::NotAllowed => "Not allowed",
            TournamentError::InvalidStatus => "Invalid tournament status",
            TournamentError::InvalidPda => "Invalid Pda",
            TournamentError::AlreadyRegistered => "Participant already registered",
            TournamentError::NotWinner => "Captain is not winner",
            TournamentError::AlreadyClaimed => "Participant already claimed",
            TournamentError::NoCompletedTeams => "The tournament doesn't have any completed teams yet.",
            TournamentError::InsufficientFunds => "Insufficient funds",
        }
    }
}

} // verus!
