//! Teams and what their members have paid and claimed.
//!
//! A team has a captain, a size, and a roster in the order in which its
//! members joined. Nobody is on a roster twice. Each member either paid their
//! own entry fee or was paid for by the captain, and is paid back, or
//! rewarded, once.

use vstd::prelude::*;
use crate::error::TournamentError;
use crate::pubkey::Pubkey;

verus! {

/// One member of a team.
#[derive(Clone, Copy, Debug, PartialEq, Eq)]
pub struct ParticipantInfo {
    pub pubkey: Pubkey,
    /// Whether the captain paid the entry fee of this member.
    pub paid_by_captain: bool,
    /// Whether this member has been paid back or rewarded.
    pub claimed: bool,
}

/// What a second refund of the same member does.
#[derive(Clone, Copy, Debug, PartialEq, Eq, Structural)]
pub enum RepeatedRefund {
    /// It is rejected with `AlreadyClaimed`.
    Rejected,
    /// It succeeds and pays nothing.
    PaysNothing,
}

/// A team of a tournament.
#[derive(Clone, Debug, PartialEq, Eq)]
pub struct Team {
    pub captain: Pubkey,
    pub participants: Vec<ParticipantInfo>,
    pub team_size: u16,
    /// Whether the roster is full.
    pub completed: bool,
}

/// A team as a mathematical value.
pub struct TeamView {
    pub captain: Pubkey,
    pub participants: Seq<ParticipantInfo>,
    pub team_size: nat,
    pub completed: bool,
}

impl View for Team {
    type V = TeamView;

    open spec fn view(&self) -> TeamView {
        TeamView {
            captain: self.captain,
            participants: self.participants@,
            team_size: self.team_size as nat,
            completed: self.completed,
        }
    }
}

/// The roster entry of a member who has not claimed anything yet.
pub open spec fn new_member(pubkey: Pubkey, paid_by_captain: bool) -> ParticipantInfo {
    ParticipantInfo { pubkey, paid_by_captain, claimed: false }
}

/// The roster entries of members whom the captain pays for.
pub open spec fn captain_paid(keys: Seq<Pubkey>) -> Seq<ParticipantInfo> {
    Seq::new(keys.len(), |i: int| new_member(keys[i], true))
}

/// Whether no identity occurs twice in `keys`.
pub open spec fn distinct(keys: Seq<Pubkey>) -> bool {
    forall|i: int, j: int| 0 <= i < j < keys.len() ==> keys[i] != keys[j]
}

/// How many of `roster` the captain paid for and have not claimed yet.
pub open spec fn owed_to_captain(roster: Seq<ParticipantInfo>) -> nat
    decreases roster.len(),
{
    if roster.len() == 0 {
        0
    } else {
        owed_to_captain(roster.drop_last()) + if roster.last().paid_by_captain
            && !roster.last().claimed {
            1nat
        } else {
            0nat
        }
    }
}

/// How many of `roster` paid their own entry fee and have not claimed yet.
pub open spec fn self_paid_unclaimed(roster: Seq<ParticipantInfo>) -> nat
    decreases roster.len(),
{
    if roster.len() == 0 {
        0
    } else {
        self_paid_unclaimed(roster.drop_last()) + if !roster.last().paid_by_captain
            && !roster.last().claimed {
            1nat
        } else {
            0nat
        }
    }
}

impl TeamView {
    /// A team without members.
    pub open spec fn empty(captain: Pubkey, team_size: nat) -> TeamView {
        TeamView { captain, participants: Seq::empty(), team_size, completed: false }
    }

    /// The invariant of a team: the roster fits the team, nobody is on it
    /// twice, and the team is complete exactly when a roster of at least one
    /// member is full.
    pub open spec fn wf(self) -> bool {
        &&& self.participants.len() <= self.team_size
        &&& self.completed <==> (self.participants.len() == self.team_size && self.team_size > 0)
        &&& forall|i: int, j: int|
            0 <= i < j < self.participants.len() ==> self.participants[i].pubkey
                != self.participants[j].pubkey
    }

    /// Whether `key` is on the roster.
    pub open spec fn has_member(self, key: Pubkey) -> bool {
        exists|i: int| 0 <= i < self.participants.len() && self.participants[i].pubkey == key
    }

    /// Whether `i` is the first position of the roster that holds `key`. On
    /// a well-formed team it is the only one.
    pub open spec fn is_position_of(self, i: int, key: Pubkey) -> bool {
        &&& 0 <= i < self.participants.len()
        &&& self.participants[i].pubkey == key
        &&& forall|j: int| 0 <= j < i ==> self.participants[j].pubkey != key
    }

    /// Whether the roster has room for `count` more members.
    pub open spec fn has_room(self, count: nat) -> bool {
        self.participants.len() + count <= self.team_size
    }

    /// Whether none of `keys` is on the roster.
    pub open spec fn all_new(self, keys: Seq<Pubkey>) -> bool {
        forall|k: int| 0 <= k < keys.len() ==> !self.has_member(#[trigger] keys[k])
    }

    /// The team after `members` joined: they stand at the end of the roster,
    /// in their order, and the team becomes complete if they fill the roster.
    pub open spec fn joined(self, members: Seq<ParticipantInfo>) -> TeamView {
        let participants = self.participants + members;
        TeamView {
            participants,
            completed: self.completed || (members.len() > 0 && participants.len()
                == self.team_size),
            ..self
        }
    }

    /// The team after the member at position `i` claimed.
    pub open spec fn claimed_at(self, i: int) -> TeamView {
        TeamView {
            participants: self.participants.update(
                i,
                ParticipantInfo { claimed: true, ..self.participants[i] },
            ),
            ..self
        }
    }

    /// Whether the captain is on the roster as a member whom the captain paid
    /// for, and has not claimed yet.
    pub open spec fn captain_is_owed(self) -> bool {
        exists|i: int|
            self.is_position_of(i, self.captain) && self.participants[i].paid_by_captain
                && !self.participants[i].claimed
    }

    /// The number of entry fees that refunds can still pay back to the team:
    /// one for each member who paid their own and has not claimed, and, while
    /// the captain is owed, one for each member whom the captain paid for and
    /// who has not claimed.
    pub open spec fn refundable(self) -> nat {
        self_paid_unclaimed(self.participants) + if self.captain_is_owed() {
            owed_to_captain(self.participants)
        } else {
            0
        }
    }

    /// How many entry fees are paid back when the member at position `i`, who
    /// has not claimed yet, asks for a refund: one if the member paid their
    /// own fee; for the captain, one for each member whom the captain paid
    /// for and who has not claimed, the captain included; nothing for another
    /// member whom the captain paid for.
    pub open spec fn refund_multiplier(self, i: int) -> nat {
        let member = self.participants[i];
        if !member.paid_by_captain {
            1
        } else if member.pubkey == self.captain {
            owed_to_captain(self.participants)
        } else {
            0
        }
    }
}

impl Default for Team {
    /// A blank record: a team of size zero, which takes nobody.
    fn default() -> (team: Team)
        ensures
            team.captain.is_zero(),
            team@.participants == Seq::<ParticipantInfo>::empty(),
            team@.team_size == 0,
            !team@.completed,
            team@.wf(),
    {
        Team { captain: Pubkey::default(), participants: Vec::new(), team_size: 0, completed: false }
    }
}

impl Team {
    /// A team of `team_size` members without anyone on its roster.
    pub fn new(captain: Pubkey, team_size: u16) -> (team: Team)
        ensures
            team@ == TeamView::empty(captain, team_size as nat),
            team@.wf(),
    {
        Team { captain, participants: Vec::new(), team_size, completed: false }
    }

    /// A team of `team_size` members whose roster holds the captain, as a
    /// member whom the captain paid for.
    pub fn with_captain(captain: Pubkey, team_size: u16) -> (team: Team)
        requires
            team_size >= 1,
        ensures
            team@ == TeamView::empty(captain, team_size as nat).joined(
                seq![new_member(captain, true)],
            ),
            team@.wf(),
    {
        let mut participants: Vec<ParticipantInfo> = Vec::new();
        participants.push(ParticipantInfo { pubkey: captain, paid_by_captain: true, claimed: false });
        let team = Team { captain, participants, team_size, completed: team_size == 1 };
        proof {
            assert(team@.participants == Seq::<ParticipantInfo>::empty() + seq![
                new_member(captain, true),
            ]);
        }
        team
    }

    /// The number of members on the roster.
    pub fn len(&self) -> (n: usize)
        ensures
            n == self@.participants.len(),
    {
        self.participants.len()
    }

    /// The first position of the roster that holds `participant`.
    pub fn position_of(&self, participant: &Pubkey) -> (position: Option<usize>)
        ensures
            match position {
                Some(i) => self@.is_position_of(i as int, *participant),
                None => !self@.has_member(*participant),
            },
    {
        let mut i: usize = 0;
        while i < self.participants.len()
            invariant
                i <= self.participants.len(),
                forall|j: int| 0 <= j < i ==> self.participants@[j].pubkey != *participant,
            decreases self.participants.len() - i,
        {
            if self.participants[i].pubkey == *participant {
                return Some(i);
            }
            i += 1;
        }
        None
    }

    /// The roster entry of `participant`, if they are on the roster.
    pub fn get(&self, participant: &Pubkey) -> (info: Option<ParticipantInfo>)
        ensures
            match info {
                Some(member) => exists|i: int|
                    self@.is_position_of(i, *participant) && self@.participants[i] == member,
                None => !self@.has_member(*participant),
            },
    {
        match self.position_of(participant) {
            Some(i) => Some(self.participants[i]),
            None => None,
        }
    }

    /// Puts a member at the end of the roster.
    fn join(&mut self, participant: Pubkey, paid_by_captain: bool) -> (result: Result<
        (),
        TournamentError,
    >)
        ensures
            old(self)@.wf() ==> final(self)@.wf(),
            match result {
                Ok(()) => {
                    &&& old(self)@.has_room(1)
                    &&& !old(self)@.has_member(participant)
                    &&& final(self)@ == old(self)@.joined(
                        seq![new_member(participant, paid_by_captain)],
                    )
                },
                Err(e) => {
                    &&& final(self)@ == old(self)@
                    &&& e == if !old(self)@.has_room(1) {
                        TournamentError::MaxPlayersExceeded
                    } else {
                        TournamentError::AlreadyRegistered
                    }
                    &&& !old(self)@.has_room(1) || old(self)@.has_member(participant)
                },
            },
    {
        if self.participants.len() >= self.team_size as usize {
            return Err(TournamentError::MaxPlayersExceeded);
        }
        if self.position_of(&participant).is_some() {
            return Err(TournamentError::AlreadyRegistered);
        }
        self.participants.push(
            ParticipantInfo { pubkey: participant, paid_by_captain, claimed: false },
        );
        if self.participants.len() == self.team_size as usize {
            self.completed = true;
        }
        proof {
            let member = new_member(participant, paid_by_captain);
            assert(final(self)@.participants == old(self)@.participants + seq![member]);
            if old(self)@.wf() {
                assert forall|i: int, j: int|
                    0 <= i < j < self@.participants.len() implies self@.participants[i].pubkey
                    != self@.participants[j].pubkey by {
                    if j == old(self)@.participants.len() {
                        assert(old(self)@.participants[i].pubkey != participant);
                    }
                }
            }
        }
        Ok(())
    }

    /// Adds `participant`, who paid their own entry fee, to the roster.
    ///
    /// Rejected with `MaxPlayersExceeded` if the roster is full, else with
    /// `AlreadyRegistered` if `participant` is on the roster.
    pub fn add_participant(&mut self, participant: Pubkey) -> (result: Result<(), TournamentError>)
        ensures
            old(self)@.wf() ==> final(self)@.wf(),
            match result {
                Ok(()) => {
                    &&& old(self)@.has_room(1)
                    &&& !old(self)@.has_member(participant)
                    &&& final(self)@ == old(self)@.joined(seq![new_member(participant, false)])
                },
                Err(e) => {
                    &&& final(self)@ == old(self)@
                    &&& e == if !old(self)@.has_room(1) {
                        TournamentError::MaxPlayersExceeded
                    } else {
                        TournamentError::AlreadyRegistered
                    }
                    &&& !old(self)@.has_room(1) || old(self)@.has_member(participant)
                },
            },
    {
        self.join(participant, false)
    }

    /// Adds `participant`, whose entry fee the captain paid, to the roster.
    ///
    /// Rejected with `MaxPlayersExceeded` if the roster is full, else with
    /// `AlreadyRegistered` if `participant` is on the roster.
    pub fn add_participant_by_captain(&mut self, participant: Pubkey) -> (result: Result<
        (),
        TournamentError,
    >)
        ensures
            old(self)@.wf() ==> final(self)@.wf(),
            match result {
                Ok(()) => {
                    &&& old(self)@.has_room(1)
                    &&& !old(self)@.has_member(participant)
                    &&& final(self)@ == old(self)@.joined(seq![new_member(participant, true)])
                },
                Err(e) => {
                    &&& final(self)@ == old(self)@
                    &&& e == if !old(self)@.has_room(1) {
                        TournamentError::MaxPlayersExceeded
                    } else {
                        TournamentError::AlreadyRegistered
                    }
                    &&& !old(self)@.has_room(1) || old(self)@.has_member(participant)
                },
            },
    {
        self.join(participant, true)
    }

    /// Whether `keys[k]` also stands at an earlier position of `keys`.
    fn occurs_before(keys: &Vec<Pubkey>, k: usize) -> (found: bool)
        requires
            k < keys.len(),
        ensures
            found == exists|j: int| 0 <= j < k && keys@[j] == keys@[k as int],
    {
        let mut j: usize = 0;
        while j < k
            invariant
                j <= k,
                k < keys.len(),
                forall|m: int| 0 <= m < j ==> keys@[m] != keys@[k as int],
            decreases k - j,
        {
            if keys[j] == keys[k] {
                return true;
            }
            j += 1;
        }
        false
    }

    /// Whether `keys` holds nobody twice and nobody who is on the roster.
    fn admits(&self, keys: &Vec<Pubkey>) -> (ok: bool)
        ensures
            ok == (distinct(keys@) && self@.all_new(keys@)),
    {
        let mut k: usize = 0;
        while k < keys.len()
            invariant
                k <= keys.len(),
                distinct(keys@.take(k as int)),
                self@.all_new(keys@.take(k as int)),
            decreases keys.len() - k,
        {
            if self.position_of(&keys[k]).is_some() {
                proof {
                    assert(self@.has_member(keys@[k as int]));
                }
                return false;
            }
            if Self::occurs_before(keys, k) {
                return false;
            }
            proof {
                let next = keys@.take(k + 1);
                assert forall|i: int, j: int| 0 <= i < j < next.len() implies next[i]
                    != next[j] by {
                    if j < k {
                        assert(keys@.take(k as int)[i] != keys@.take(k as int)[j]);
                    }
                }
                assert forall|m: int| 0 <= m < next.len() implies !self@.has_member(
                    #[trigger] next[m],
                ) by {
                    if m < k {
                        assert(!self@.has_member(keys@.take(k as int)[m]));
                    }
                }
            }
            k += 1;
        }
        proof {
            assert(keys@.take(keys.len() as int) == keys@);
        }
        true
    }

    /// Adds `participants`, whose entry fees the captain paid, to the roster,
    /// all of them or none.
    ///
    /// Rejected with `MaxPlayersExceeded` if the roster has no room for all
    /// of them, else with `AlreadyRegistered` if one of them is on the roster
    /// or occurs twice among them.
    pub fn add_participants_by_captain(&mut self, participants: Vec<Pubkey>) -> (result: Result<
        (),
        TournamentError,
    >)
        ensures
            old(self)@.wf() ==> final(self)@.wf(),
            match result {
                Ok(()) => {
                    &&& old(self)@.has_room(participants@.len())
                    &&& distinct(participants@)
                    &&& old(self)@.all_new(participants@)
                    &&& final(self)@ == old(self)@.joined(captain_paid(participants@))
                },
                Err(e) => {
                    &&& final(self)@ == old(self)@
                    &&& e == if !old(self)@.has_room(participants@.len()) {
                        TournamentError::MaxPlayersExceeded
                    } else {
                        TournamentError::AlreadyRegistered
                    }
                    &&& !old(self)@.has_room(participants@.len()) || !distinct(participants@)
                        || !old(self)@.all_new(participants@)
                },
            },
    {
        let size = self.team_size as usize;
        if self.participants.len() > size || participants.len() > size - self.participants.len() {
            return Err(TournamentError::MaxPlayersExceeded);
        }
        if !self.admits(&participants) {
            return Err(TournamentError::AlreadyRegistered);
        }
        let mut k: usize = 0;
        while k < participants.len()
            invariant
                k <= participants.len(),
                self.captain == old(self).captain,
                self.team_size == old(self).team_size,
                self.completed == old(self).completed,
                self.participants@ == old(self).participants@ + captain_paid(
                    participants@.take(k as int),
                ),
            decreases participants.len() - k,
        {
            self.participants.push(
                ParticipantInfo { pubkey: participants[k], paid_by_captain: true, claimed: false },
            );
            proof {
                assert(self.participants@ == old(self).participants@ + captain_paid(
                    participants@.take(k + 1),
                ));
            }
            k += 1;
        }
        proof {
            assert(participants@.take(participants.len() as int) == participants@);
        }
        if participants.len() > 0 && self.participants.len() == size {
            self.completed = true;
        }
        proof {
            if old(self)@.wf() {
                let before = old(self)@.participants;
                let roster = self@.participants;
                assert forall|i: int, j: int| 0 <= i < j < roster.len() implies roster[i].pubkey
                    != roster[j].pubkey by {
                    if j >= before.len() {
                        let key = participants@[j - before.len()];
                        assert(roster[j].pubkey == key);
                        if i < before.len() {
                            assert(!old(self)@.has_member(key));
                        } else {
                            assert(roster[i].pubkey == participants@[i - before.len()]);
                        }
                    }
                }
            }
        }
        Ok(())
    }

    /// How many members the captain paid for and have not claimed yet.
    pub fn count_owed_to_captain(&self) -> (count: usize)
        ensures
            count == owed_to_captain(self@.participants),
            count <= self@.participants.len(),
    {
        let mut count: usize = 0;
        let mut i: usize = 0;
        while i < self.participants.len()
            invariant
                i <= self.participants.len(),
                count <= i,
                count == owed_to_captain(self.participants@.take(i as int)),
            decreases self.participants.len() - i,
        {
            proof {
                assert(self.participants@.take(i + 1).drop_last() == self.participants@.take(
                    i as int,
                ));
            }
            if self.participants[i].paid_by_captain && !self.participants[i].claimed {
                count += 1;
            }
            i += 1;
        }
        proof {
            assert(self.participants@.take(self.participants.len() as int) == self.participants@);
        }
        count
    }

    /// Marks the member at position `i` as having claimed.
    fn mark_claimed(&mut self, i: usize)
        requires
            i < old(self).participants.len(),
        ensures
            final(self)@ == old(self)@.claimed_at(i as int),
            old(self)@.wf() ==> final(self)@.wf(),
    {
        let member = self.participants[i];
        self.participants.set(
            i,
            ParticipantInfo {
                pubkey: member.pubkey,
                paid_by_captain: member.paid_by_captain,
                claimed: true,
            },
        );
    }

    /// Pays back `participant`, once: marks them as having claimed and
    /// returns the number of entry fees that they are owed.
    ///
    /// A member who paid their own fee is owed one. The captain is owed one
    /// for each member whom the captain paid for and who has not claimed yet,
    /// the captain included. Another member whom the captain paid for is owed
    /// nothing. Rejected with `ParticipantNotFound` if `participant` is not
    /// on the roster, and with `AlreadyClaimed` if they have claimed before.
    pub fn refund_participant(&mut self, participant: &Pubkey) -> (result: Result<
        usize,
        TournamentError,
    >)
        ensures
            old(self)@.wf() ==> final(self)@.wf(),
            !old(self)@.has_member(*participant) ==> result == Err::<usize, TournamentError>(
                TournamentError::ParticipantNotFound,
            ) && final(self)@ == old(self)@,
            forall|i: int| #[trigger]
                old(self)@.is_position_of(i, *participant) ==> if old(self)@.participants[i].claimed {
                    &&& result == Err::<usize, TournamentError>(TournamentError::AlreadyClaimed)
                    &&& final(self)@ == old(self)@
                } else {
                    &&& result matches Ok(multiplier) && multiplier == old(
                        self,
                    )@.refund_multiplier(i)
                    &&& final(self)@ == old(self)@.claimed_at(i)
                },
    {
        self.refund_participant_with(participant, RepeatedRefund::Rejected)
    }

    /// Pays back `participant` as `refund_participant` does, with the choice
    /// of what a repeated refund does: it is rejected with `AlreadyClaimed`,
    /// or it succeeds and pays nothing. Either way it changes nothing.
    pub fn refund_participant_with(&mut self, participant: &Pubkey, repeated: RepeatedRefund) -> (result:
        Result<usize, TournamentError>)
        ensures
            old(self)@.wf() ==> final(self)@.wf(),
            !old(self)@.has_member(*participant) ==> result == Err::<usize, TournamentError>(
                TournamentError::ParticipantNotFound,
            ) && final(self)@ == old(self)@,
            forall|i: int| #[trigger]
                old(self)@.is_position_of(i, *participant) ==> if old(self)@.participants[i].claimed {
                    &&& result == match repeated {
                        RepeatedRefund::Rejected => Err::<usize, TournamentError>(
                            TournamentError::AlreadyClaimed,
                        ),
                        RepeatedRefund::PaysNothing => Ok::<usize, TournamentError>(0),
                    }
                    &&& final(self)@ == old(self)@
                } else {
                    &&& result matches Ok(multiplier) && multiplier == old(
                        self,
                    )@.refund_multiplier(i)
                    &&& final(self)@ == old(self)@.claimed_at(i)
                },
    {
        let i = match self.position_of(participant) {
            Some(i) => i,
            None => {
                return Err(TournamentError::ParticipantNotFound);
            },
        };
        let member = self.participants[i];
        if member.claimed {
            return match repeated {
                RepeatedRefund::Rejected => Err(TournamentError::AlreadyClaimed),
                RepeatedRefund::PaysNothing => Ok(0),
            };
        }
        let multiplier: usize = if !member.paid_by_captain {
            1
        } else if *participant == self.captain {
            self.count_owed_to_captain()
        } else {
            0
        };
        self.mark_claimed(i);
        Ok(multiplier)
    }

    /// Records that `participant` was paid their reward.
    ///
    /// Rejected with `ParticipantNotFound` if `participant` is not on the
    /// roster, and with `AlreadyClaimed` if they have claimed before.
    pub fn reward_participant(&mut self, participant: &Pubkey) -> (result: Result<
        (),
        TournamentError,
    >)
        ensures
            old(self)@.wf() ==> final(self)@.wf(),
            !old(self)@.has_member(*participant) ==> result == Err::<(), TournamentError>(
                TournamentError::ParticipantNotFound,
            ) && final(self)@ == old(self)@,
            forall|i: int| #[trigger]
                old(self)@.is_position_of(i, *participant) ==> if old(self)@.participants[i].claimed {
                    &&& result == Err::<(), TournamentError>(TournamentError::AlreadyClaimed)
                    &&& final(self)@ == old(self)@
                } else {
                    &&& result == Ok::<(), TournamentError>(())
                    &&& final(self)@ == old(self)@.claimed_at(i)
                },
    {
        let i = match self.position_of(participant) {
            Some(i) => i,
            None => {
                return Err(TournamentError::ParticipantNotFound);
            },
        };
        if self.participants[i].claimed {
            return Err(TournamentError::AlreadyClaimed);
        }
        self.mark_claimed(i);
        Ok(())
    }

    /// The account to pay `participant` back to, which is their own: marks
    /// them as having claimed. Rejected with `ParticipantNotFound` if they
    /// are not on the roster or have claimed before.
    pub fn get_refund_account(&mut self, participant: &Pubkey) -> (result: Result<
        Pubkey,
        TournamentError,
    >)
        ensures
            old(self)@.wf() ==> final(self)@.wf(),
            !old(self)@.has_member(*participant) ==> result == Err::<Pubkey, TournamentError>(
                TournamentError::ParticipantNotFound,
            ) && final(self)@ == old(self)@,
            forall|i: int| #[trigger]
                old(self)@.is_position_of(i, *participant) ==> if old(self)@.participants[i].claimed {
                    &&& result == Err::<Pubkey, TournamentError>(
                        TournamentError::ParticipantNotFound,
                    )
                    &&& final(self)@ == old(self)@
                } else {
                    &&& result == Ok::<Pubkey, TournamentError>(*participant)
                    &&& final(self)@ == old(self)@.claimed_at(i)
                },
    {
        let i = match self.position_of(participant) {
            Some(i) => i,
            None => {
                return Err(TournamentError::ParticipantNotFound);
            },
        };
        if self.participants[i].claimed {
            return Err(TournamentError::ParticipantNotFound);
        }
        self.mark_claimed(i);
        Ok(*participant)
    }
}

/// The captain is owed one entry fee for each member they paid for, as long
/// as none of them has claimed.
pub proof fn lemma_owed_for_captain_paid(keys: Seq<Pubkey>)
    ensures
        owed_to_captain(captain_paid(keys)) == keys.len(),
    decreases keys.len(),
{
    if keys.len() > 0 {
        lemma_owed_for_captain_paid(keys.drop_last());
        assert(captain_paid(keys).drop_last() == captain_paid(keys.drop_last()));
    }
}

/// A team becomes complete once, when its roster fills up: joining makes a
/// team complete exactly if it fills the roster, nobody can join a complete
/// team, and a claim does not change whether a team is complete.
pub proof fn lemma_completed_once(team: TeamView, members: Seq<ParticipantInfo>, i: int)
    requires
        team.wf(),
    ensures
        team.completed && members.len() > 0 ==> !team.has_room(members.len()),
        team.has_room(members.len()) ==> (team.joined(members).completed <==> team.joined(
            members,
        ).participants.len() == team.team_size && team.team_size > 0),
        team.has_room(members.len()) ==> (!team.completed && team.joined(members).completed <==>
            members.len() > 0 && team.participants.len() + members.len() == team.team_size),
        team.claimed_at(i).completed == team.completed,
        0 <= i < team.participants.len() ==> team.claimed_at(i).participants.len()
            == team.participants.len(),
{
}

/// One team, however its members joined: joining in two steps gives the same
/// roster as joining in one.
pub proof fn lemma_joined_twice(
    team: TeamView,
    first: Seq<ParticipantInfo>,
    second: Seq<ParticipantInfo>,
)
    requires
        team.wf(),
        team.has_room(first.len() + second.len()),
    ensures
        team.joined(first).joined(second) == team.joined(first + second),
{
    assert((team.participants + first) + second == team.participants + (first + second));
}

/// Whoever joined is on the roster, and so is whoever was on it before.
pub proof fn lemma_joined_is_member(team: TeamView, members: Seq<ParticipantInfo>, key: Pubkey)
    requires
        team.has_member(key) || exists|k: int| 0 <= k < members.len() && members[k].pubkey == key,
    ensures
        team.joined(members).has_member(key),
{
    let after = team.joined(members);
    if team.has_member(key) {
        let i = choose|i: int| 0 <= i < team.participants.len() && team.participants[i].pubkey == key;
        assert(after.participants[i].pubkey == key);
    } else {
        let k = choose|k: int| 0 <= k < members.len() && members[k].pubkey == key;
        assert(after.participants[team.participants.len() + k].pubkey == key);
    }
}

/// A captain who registered together with the teammates they paid for is
/// paid back for all of them and for themselves: the captain stands first on
/// the roster, and their refund is one entry fee more than they have
/// teammates.
pub proof fn lemma_captain_refund_covers_batch(captain: Pubkey, team_size: nat, mates: Seq<Pubkey>)
    requires
        distinct(seq![captain] + mates),
        1 + mates.len() <= team_size,
    ensures
        ({
            let team = TeamView::empty(captain, team_size).joined(
                captain_paid(seq![captain] + mates),
            );
            &&& team.wf()
            &&& team.is_position_of(0, captain)
            &&& !team.participants[0].claimed
            &&& team.refund_multiplier(0) == mates.len() + 1
        }),
{
    let keys = seq![captain] + mates;
    let team = TeamView::empty(captain, team_size).joined(captain_paid(keys));
    assert(team.participants == captain_paid(keys));
    lemma_owed_for_captain_paid(keys);
    assert forall|i: int, j: int| 0 <= i < j < team.participants.len() implies team.participants[i].pubkey
        != team.participants[j].pubkey by {
        assert(keys[i] != keys[j]);
    }
    assert(team.participants[0].pubkey == keys[0]);
}

/// A member who has claimed stays where they are on the roster and stays
/// marked, whoever claims afterwards: no refund is paid twice.
pub proof fn lemma_claim_is_final(team: TeamView, i: int, j: int, key: Pubkey)
    requires
        0 <= i < team.participants.len(),
        0 <= j < team.participants.len(),
    ensures
        team.claimed_at(i).participants[i].claimed,
        team.is_position_of(i, key) <==> team.claimed_at(j).is_position_of(i, key),
        team.participants[i].claimed ==> team.claimed_at(j).participants[i].claimed,
        team.wf() ==> team.claimed_at(j).wf(),
{
    let after = team.claimed_at(j);
    assert forall|k: int| 0 <= k < team.participants.len() implies after.participants[k].pubkey
        == team.participants[k].pubkey by {}
}

/// A claim takes the member out of the count that they were in, and changes
/// no other count.
pub proof fn lemma_counts_after_claim(roster: Seq<ParticipantInfo>, i: int)
    requires
        0 <= i < roster.len(),
        !roster[i].claimed,
    ensures
        ({
            let after = roster.update(i, ParticipantInfo { claimed: true, ..roster[i] });
            &&& owed_to_captain(after) + (if roster[i].paid_by_captain {
                1nat
            } else {
                0nat
            }) == owed_to_captain(roster)
            &&& self_paid_unclaimed(after) + (if roster[i].paid_by_captain {
                0nat
            } else {
                1nat
            }) == self_paid_unclaimed(roster)
        }),
    decreases roster.len(),
{
    let after = roster.update(i, ParticipantInfo { claimed: true, ..roster[i] });
    if i == roster.len() - 1 {
        assert(after.drop_last() == roster.drop_last());
    } else {
        lemma_counts_after_claim(roster.drop_last(), i);
        assert(after.drop_last() == roster.drop_last().update(
            i,
            ParticipantInfo { claimed: true, ..roster[i] },
        ));
    }
}

/// No more refunds are owed than the roster has members.
pub proof fn lemma_counts_within_roster(roster: Seq<ParticipantInfo>)
    ensures
        self_paid_unclaimed(roster) + owed_to_captain(roster) <= roster.len(),
    decreases roster.len(),
{
    if roster.len() > 0 {
        lemma_counts_within_roster(roster.drop_last());
    }
}

/// Refunds never pay back more entry fees than were paid: what a refund pays
/// is taken off what the team can still be paid back, which is at most one
/// entry fee for each member.
pub proof fn lemma_refund_within_budget(team: TeamView, i: int)
    requires
        team.wf(),
        0 <= i < team.participants.len(),
        !team.participants[i].claimed,
    ensures
        team.refund_multiplier(i) + team.claimed_at(i).refundable() <= team.refundable(),
        team.refundable() <= team.participants.len(),
{
    let after = team.claimed_at(i);
    let member = team.participants[i];
    lemma_counts_after_claim(team.participants, i);
    lemma_counts_within_roster(team.participants);
    assert forall|k: int| team.is_position_of(k, team.captain) == after.is_position_of(
        k,
        team.captain,
    ) by {
        assert forall|j: int| 0 <= j < team.participants.len() implies after.participants[j].pubkey
            == team.participants[j].pubkey by {}
    }
    if member.paid_by_captain && member.pubkey == team.captain {
        assert(team.is_position_of(i, team.captain));
        assert(team.captain_is_owed());
        if after.captain_is_owed() {
            let k = choose|k: int|
                after.is_position_of(k, after.captain) && after.participants[k].paid_by_captain
                    && !after.participants[k].claimed;
            assert(team.is_position_of(k, team.captain));
            assert(k == i);
        }
    } else {
        if after.captain_is_owed() {
            let k = choose|k: int|
                after.is_position_of(k, after.captain) && after.participants[k].paid_by_captain
                    && !after.participants[k].claimed;
            assert(team.is_position_of(k, team.captain));
            assert(k != i);
            assert(team.participants[k] == after.participants[k]);
            assert(team.captain_is_owed());
        }
    }
}

/// Whoever is on the roster has a first position on it.
pub proof fn lemma_member_has_position(team: TeamView, key: Pubkey)
    requires
        team.has_member(key),
    ensures
        exists|i: int| team.is_position_of(i, key),
{
    let j = choose|j: int| 0 <= j < team.participants.len() && team.participants[j].pubkey == key;
    lemma_position_at_or_before(team, key, j);
}

/// Whoever stands at position `j` of the roster has a first position on it.
proof fn lemma_position_at_or_before(team: TeamView, key: Pubkey, j: int)
    requires
        0 <= j < team.participants.len(),
        team.participants[j].pubkey == key,
    ensures
        exists|i: int| team.is_position_of(i, key),
    decreases j,
{
    if exists|k: int| 0 <= k < j && team.participants[k].pubkey == key {
        let k = choose|k: int| 0 <= k < j && team.participants[k].pubkey == key;
        lemma_position_at_or_before(team, key, k);
    } else {
        assert(team.is_position_of(j, key));
    }
}

} // verus!
