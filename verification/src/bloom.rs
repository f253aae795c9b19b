//! The registry of participants.
//!
//! A tournament remembers who has registered in a Bloom filter of a fixed
//! storage budget, not in a list. The filter never forgets an identity that
//! was put into it, so nobody registers twice. It may take an identity that
//! was never put into it for a known one; such a registration is rejected
//! like a repeated one, and nothing tells the two apart.
//!
//! The filter is `growable_bloom_filter::GrowableBloom`, and `bincode` gives
//! it its stored form. An identity goes into the filter as the platform's own
//! identity type, so that a registry reads alike whoever wrote it. What this
//! module says of either crate is taken on trust from their sources, and
//! marked as such below.

use vstd::prelude::*;
use growable_bloom_filter::GrowableBloom;
use crate::data::{BloomFilter, RegisterParams, TournamentConfig};
use crate::error::TournamentError;
use crate::pubkey::Pubkey;
use crate::team::distinct;

verus! {

/// The most bytes that the stored form of a registry may take.
pub const MAX_MEMORY: usize = 8156;

/// The bytes that the stored form of a registry takes besides its bit buffer.
pub const BLOOM_OVERHEAD: usize = 76;

/// `growable_bloom_filter::GrowableBloom`, of which nothing is known here but
/// what the functions below state.
#[verifier::external_type_specification]
#[verifier::external_body]
pub struct ExGrowableBloom(GrowableBloom);

/// `bincode::ErrorKind`, the error of `bincode`, which is only passed on.
#[verifier::external_type_specification]
#[verifier::external_body]
pub struct ExBincodeErrorKind(bincode::ErrorKind);

/// The identities, as byte strings, that `filter` reports as present: those
/// for which `GrowableBloom::contains` returns `true`. Every identity that
/// was inserted is among them, and others may be.
pub uninterp spec fn bloom_members(filter: GrowableBloom) -> Set<Seq<u8>>;

/// Whether `filter` is in a state from which `GrowableBloom::insert` returns:
/// it expects at least one item, its error rate lies strictly between 0 and 1
/// and is large enough for a filter to be sized for it, and each of its
/// constituent filters has at least one bit for each of its slices. A filter
/// that `GrowableBloom::new` made for at least one item and such a rate is in
/// such a state, and stays in it when it is inserted into, copied, or stored
/// and loaded. On any other value `GrowableBloom::insert` may panic.
pub uninterp spec fn bloom_is_sound(filter: GrowableBloom) -> bool;

/// The filter that `GrowableBloom::insert` leaves when it is called on
/// `filter` with the identity whose bytes are `key`.
pub uninterp spec fn bloom_with(filter: GrowableBloom, key: Seq<u8>) -> GrowableBloom;

/// The filter that `bincode::deserialize` reads from `data`, if it reads one.
pub uninterp spec fn bloom_decoding(data: Seq<u8>) -> Option<GrowableBloom>;

/// The bytes that `bincode::serialize` writes for `filter`.
pub uninterp spec fn bloom_encoding(filter: GrowableBloom) -> Seq<u8>;

/// Calls `GrowableBloom::insert` with `key`, as the identity type of the
/// platform, which is hashed by its bytes alone.
///
/// Trusted: the filter that the call leaves depends on the filter and the
/// key alone. The call returns whether `key` was not reported as present
/// before; afterwards `key` is reported as present, and so is every identity
/// that was before.
#[verifier::external_body]
fn insert_key(filter: &mut GrowableBloom, key: &Pubkey) -> (added: bool)
    requires
        bloom_is_sound(*old(filter)),
    ensures
        *final(filter) == bloom_with(*old(filter), key@),
        bloom_is_sound(*final(filter)),
        added == !bloom_members(*old(filter)).contains(key@),
        bloom_members(*final(filter)).contains(key@),
        bloom_members(*old(filter)).subset_of(bloom_members(*final(filter))),
{
    filter.insert(anchor_lang::prelude::Pubkey::new_from_array(key.bytes))
}

/// Calls `bincode::deserialize` to read a filter from `data`.
///
/// Trusted: the result depends on `data` alone.
#[verifier::external_body]
fn decode_bloom(data: &Vec<u8>) -> (result: Result<GrowableBloom, Box<bincode::ErrorKind>>)
    ensures
        match result {
            Ok(filter) => bloom_decoding(data@) == Some(filter),
            Err(_) => bloom_decoding(data@) is None,
        },
{
    bincode::deserialize(data.as_slice())
}

/// Calls `bincode::serialize` to write `filter` as bytes.
///
/// Trusted: the call succeeds, since it sets no size limit, every sequence
/// in a filter has a length, and it writes into a vector. The bytes depend on
/// `filter` alone, and are read back as the same filter.
#[verifier::external_body]
fn encode_bloom(filter: &GrowableBloom) -> (result: Result<Vec<u8>, Box<bincode::ErrorKind>>)
    ensures
        match result {
            Ok(data) => data@ == bloom_encoding(*filter) && bloom_decoding(data@) == Some(*filter),
            Err(_) => false,
        },
{
    bincode::serialize(filter)
}

impl RegisterParams {
    /// Everyone whom this registration registers: the participant, then the
    /// teammates.
    pub open spec fn keys(&self) -> Seq<Pubkey> {
        seq![self.participant] + self.teammates@
    }
}

/// Whether `filter` reports every one of `keys` as present.
pub open spec fn all_present(filter: GrowableBloom, keys: Seq<Pubkey>) -> bool {
    forall|k: int| 0 <= k < keys.len() ==> bloom_members(filter).contains(#[trigger] keys[k]@)
}

/// Whether `filter` reports none of `keys` as present.
pub open spec fn none_present(filter: GrowableBloom, keys: Seq<Pubkey>) -> bool {
    forall|k: int| 0 <= k < keys.len() ==> !bloom_members(filter).contains(#[trigger] keys[k]@)
}

/// The registry after all of `keys` were put into `filter`, in their order.
pub open spec fn bloom_with_all(filter: GrowableBloom, keys: Seq<Pubkey>) -> GrowableBloom
    decreases keys.len(),
{
    if keys.len() == 0 {
        filter
    } else {
        bloom_with_all(bloom_with(filter, keys[0]@), keys.skip(1))
    }
}

/// Whether `filter` takes all of `keys`, put into it in their order: it does
/// not report the first as present, and with the first in it, it takes the
/// rest.
pub open spec fn accepts(filter: GrowableBloom, keys: Seq<Pubkey>) -> bool
    decreases keys.len(),
{
    keys.len() == 0 || (!bloom_members(filter).contains(keys[0]@) && accepts(
        bloom_with(filter, keys[0]@),
        keys.skip(1),
    ))
}

/// What a check of `keys` against the registry `before` may end in: the
/// registry `after` and the `result`.
///
/// The registry stays sound and forgets nobody. If the check succeeds, the
/// registry did not report any of `keys` as present before, no two of them
/// are the same, and it reports all of them as present afterwards. If it
/// fails, it fails with `AlreadyRegistered`. A check of one identity alone
/// succeeds exactly if the registry does not report it as present.
pub open spec fn checked(
    before: GrowableBloom,
    keys: Seq<Pubkey>,
    after: GrowableBloom,
    result: Result<(), TournamentError>,
) -> bool {
    &&& bloom_is_sound(after)
    &&& bloom_members(before).subset_of(bloom_members(after))
    &&& match result {
        Ok(()) => {
            &&& none_present(before, keys)
            &&& distinct(keys)
            &&& all_present(after, keys)
        },
        Err(e) => e == TournamentError::AlreadyRegistered,
    }
    &&& keys.len() == 1 ==> (result is Ok <==> !bloom_members(before).contains(keys[0]@))
}

/// Nobody registers twice: once a check of `keys` has succeeded, every later
/// check that holds one of them fails with `AlreadyRegistered`, whatever was
/// put into the registry in between.
pub proof fn lemma_no_double_registration(
    first: GrowableBloom,
    keys: Seq<Pubkey>,
    second: GrowableBloom,
    later: GrowableBloom,
    again: Seq<Pubkey>,
    last: GrowableBloom,
    result: Result<(), TournamentError>,
    i: int,
    j: int,
)
    requires
        checked(first, keys, second, Ok(())),
        bloom_members(second).subset_of(bloom_members(later)),
        checked(later, again, last, result),
        0 <= i < keys.len(),
        0 <= j < again.len(),
        keys[i] == again[j],
    ensures
        result == Err::<(), TournamentError>(TournamentError::AlreadyRegistered),
{
    assert(bloom_members(second).contains(keys[i]@));
    assert(bloom_members(later).contains(again[j]@));
}

/// Puts the participant and the teammates of a registration into the
/// registry, in this order, until one of them is reported as present.
///
/// The registration is accepted exactly if the registry takes all of them
/// (see `accepts`), and is else rejected with `AlreadyRegistered`. Nobody
/// registers twice: it is rejected if the registry reports one of them as
/// present, or if one of them occurs twice in the registration. It is also
/// rejected where the registry mistakes a teammate for a member, once it
/// holds those before them.
///
/// Whatever the outcome, the registry keeps those that were put into it.
pub fn bloom_check(register_params: &RegisterParams, bloom: &mut GrowableBloom) -> (result: Result<
    (),
    TournamentError,
>)
    requires
        bloom_is_sound(*old(bloom)),
    ensures
        checked(*old(bloom), register_params.keys(), *final(bloom), result),
        result is Ok <==> accepts(*old(bloom), register_params.keys()),
        result is Ok ==> *final(bloom) == bloom_with_all(*old(bloom), register_params.keys()),
{
    let ghost keys = register_params.keys();
    proof {
        assert(keys[0] == register_params.participant);
    }
    if !insert_key(bloom, &register_params.participant) {
        return Err(TournamentError::AlreadyRegistered);
    }
    proof {
        assert(keys.skip(0) == keys);
    }
    let mut k: usize = 0;
    while k < register_params.teammates.len()
        invariant
            k <= register_params.teammates.len(),
            keys == register_params.keys(),
            bloom_is_sound(*bloom),
            accepts(*old(bloom), keys) == accepts(*bloom, keys.skip(k + 1)),
            bloom_with_all(*old(bloom), keys) == bloom_with_all(*bloom, keys.skip(k + 1)),
            bloom_members(*old(bloom)).subset_of(bloom_members(*bloom)),
            none_present(*old(bloom), keys.take(k + 1)),
            distinct(keys.take(k + 1)),
            all_present(*bloom, keys.take(k + 1)),
        decreases register_params.teammates.len() - k,
    {
        let ghost before = *bloom;
        proof {
            assert(keys.skip(k + 1)[0] == register_params.teammates@[k as int]);
            assert(keys.skip(k + 1).skip(1) == keys.skip(k + 2));
        }
        let added = insert_key(bloom, &register_params.teammates[k]);
        if !added {
            return Err(TournamentError::AlreadyRegistered);
        }
        proof {
            let key = register_params.teammates@[k as int];
            let seen = keys.take(k + 1);
            let next = keys.take(k + 2);
            assert(next[k + 1] == key);
            assert forall|j: int| 0 <= j < next.len() implies !bloom_members(*old(bloom)).contains(
                #[trigger] next[j]@,
            ) by {
                if j <= k {
                    assert(seen[j] == next[j]);
                }
            }
            assert forall|i: int, j: int| 0 <= i < j < next.len() implies next[i] != next[j] by {
                if j <= k {
                    assert(seen[i] != seen[j]);
                } else {
                    assert(bloom_members(before).contains(seen[i]@));
                }
            }
            assert forall|j: int| 0 <= j < next.len() implies bloom_members(*bloom).contains(
                #[trigger] next[j]@,
            ) by {
                if j <= k {
                    assert(bloom_members(before).contains(seen[j]@));
                }
            }
        }
        k += 1;
    }
    proof {
        assert(keys.take(register_params.teammates.len() + 1) == keys);
    }
    Ok(())
}

impl BloomFilter {
    /// The registry that these bytes are the stored form of, if they are the
    /// stored form of one.
    pub open spec fn filter(&self) -> Option<GrowableBloom> {
        bloom_decoding(self.data@)
    }

    /// Reads the registry from its stored form. `None` if the bytes are not
    /// the stored form of a registry.
    pub fn load(&self) -> (filter: Option<GrowableBloom>)
        ensures
            filter == self.filter(),
    {
        match decode_bloom(&self.data) {
            Ok(filter) => Some(filter),
            Err(_) => None,
        }
    }

    /// Replaces the stored form by the bytes that `filter` is written as. The
    /// registry read back from them is `filter`.
    pub fn store(&mut self, filter: &GrowableBloom)
        ensures
            final(self).data@ == bloom_encoding(*filter),
            final(self).filter() == Some(*filter),
    {
        match encode_bloom(filter) {
            Ok(data) => {
                self.data = data;
            },
            Err(_) => {},
        }
    }
}

/// The number of participants that the registry of a tournament is made for:
/// every team of the most teams allowed, full.
pub open spec fn participants_capacity(config: TournamentConfig) -> nat {
    (config.max_teams * config.team_size) as nat
}

/// The bytes that the stored form of a registry takes whose buffer has
/// `num_slices` slices of `slice_len_bits` bits: the overhead, and the buffer
/// rounded up to whole bytes.
pub open spec fn bloom_memory(num_slices: nat, slice_len_bits: nat) -> nat {
    BLOOM_OVERHEAD as nat + (num_slices * slice_len_bits + 7) / 8
}

/// The number of participants that the registry of a tournament is made for.
pub fn items_count(tournament_config: &TournamentConfig) -> (count: u32)
    ensures
        count == participants_capacity(*tournament_config),
{
    assert(tournament_config.max_teams * tournament_config.team_size <= 0xffff * 0xffff)
        by (nonlinear_arith)
        requires
            tournament_config.max_teams <= 0xffff,
            tournament_config.team_size <= 0xffff,
    ;
    (tournament_config.max_teams as u32) * (tournament_config.team_size as u32)
}

/// The bytes that the stored form of a registry for `participants_count`
/// participants takes, given the shape of its buffer.
///
/// Rejected with `MaxPlayersExceeded` if that is more participants than
/// `max_participants_count`, the most that fit the storage budget at the
/// platform's false-positive rate.
pub fn calculate_bloom_memory(
    participants_count: u32,
    max_participants_count: u32,
    num_slices: u32,
    slice_len_bits: u32,
) -> (result: Result<u64, TournamentError>)
    ensures
        match result {
            Ok(memory) => participants_count <= max_participants_count && memory == bloom_memory(
                num_slices as nat,
                slice_len_bits as nat,
            ),
            Err(e) => participants_count > max_participants_count && e
                == TournamentError::MaxPlayersExceeded,
        },
{
    if participants_count > max_participants_count {
        return Err(TournamentError::MaxPlayersExceeded);
    }
    assert(num_slices * slice_len_bits <= 0xffff_ffff * 0xffff_ffff) by (nonlinear_arith)
        requires
            num_slices <= 0xffff_ffff,
            slice_len_bits <= 0xffff_ffff,
    ;
    let total_bits: u64 = (num_slices as u64) * (slice_len_bits as u64);
    let buffer_bytes: u64 = (total_bits + 7) / 8;
    Ok(BLOOM_OVERHEAD as u64 + buffer_bytes)
}

} // verus!
