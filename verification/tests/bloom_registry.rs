use genome::bloom::{bloom_check, calculate_bloom_memory, items_count, BLOOM_OVERHEAD};
use genome::data::{BloomFilter, RegisterParams, TournamentConfig};
use genome::error::TournamentError;
use genome::pubkey::Pubkey;
use anchor_lang::prelude::Pubkey as Address;
use growable_bloom_filter::GrowableBloom;

const SIZE: usize = 3200;
const FALSE_PRECISION: f64 = 0.000065;

fn new_unique(n: u64) -> Pubkey {
    let mut bytes = [0u8; 32];
    bytes[0..8].copy_from_slice(&n.to_be_bytes());
    Pubkey::new_from_array(bytes)
}

fn address(key: Pubkey) -> Address {
    Address::new_from_array(key.to_bytes())
}

fn alone(participant: Pubkey) -> RegisterParams {
    RegisterParams { tournament_id: 0, participant, captain: participant, teammates: vec![] }
}

#[test]
fn test_bloom_serialization_deserialization() {
    let unique = new_unique(1);
    let mut bloom = GrowableBloom::new(FALSE_PRECISION, SIZE);
    assert!(bloom_check(&alone(unique), &mut bloom).is_ok());

    let mut account = BloomFilter { data: vec![] };
    account.store(&bloom);
    let deserialized: GrowableBloom = account.load().unwrap();

    assert!(deserialized.contains(&address(unique)));
}

#[test]
fn test_bloom_filter_account_insertion() {
    let bloom = GrowableBloom::new(FALSE_PRECISION, SIZE);
    let mut bloom_filter_account = BloomFilter { data: vec![] };
    bloom_filter_account.store(&bloom);

    let mut bloom_loaded: GrowableBloom = bloom_filter_account.load().unwrap();

    let test_key = new_unique(1);
    assert!(!bloom_loaded.contains(&address(test_key)));

    let inserted = bloom_check(&alone(test_key), &mut bloom_loaded).is_ok();
    assert!(inserted);

    bloom_filter_account.store(&bloom_loaded);

    let bloom_checked: GrowableBloom = bloom_filter_account.load().unwrap();
    assert!(bloom_checked.contains(&address(test_key)));
}

#[test]
fn test_bloom_filter_account_false_positive_rate() {
    let mut bloom = GrowableBloom::new(FALSE_PRECISION, SIZE);

    for n in 0..SIZE {
        let _ = bloom_check(&alone(new_unique(1 + n as u64)), &mut bloom);
    }

    let mut account = BloomFilter { data: vec![] };
    account.store(&bloom);
    let bloom_loaded: GrowableBloom = account.load().unwrap();

    let test_count = 1000;
    let mut false_positives = 0;
    for n in 0..test_count {
        if bloom_loaded.contains(&address(new_unique(1_000_000 + n as u64))) {
            false_positives += 1;
        }
    }
    let observed_fp_rate = false_positives as f64 / test_count as f64;
    assert!(observed_fp_rate < FALSE_PRECISION);
}

#[test]
fn second_insert_of_the_same_identity_is_rejected() {
    let mut bloom = GrowableBloom::new(FALSE_PRECISION, SIZE);
    let key = new_unique(7);
    assert_eq!(bloom_check(&alone(key), &mut bloom), Ok(()));
    assert_eq!(bloom_check(&alone(key), &mut bloom), Err(TournamentError::AlreadyRegistered));
    assert!(bloom.contains(&address(key)));
    assert_eq!(bloom.len(), 1);
}

#[test]
fn a_registration_puts_everyone_into_the_registry() {
    let mut bloom = GrowableBloom::new(FALSE_PRECISION, SIZE);
    let params = RegisterParams {
        tournament_id: 0,
        participant: new_unique(1),
        captain: new_unique(1),
        teammates: vec![new_unique(2), new_unique(3)],
    };
    assert!(!bloom.contains(&address(new_unique(1))));
    assert_eq!(bloom_check(&params, &mut bloom), Ok(()));
    assert!(bloom.contains(&address(new_unique(1))));
    assert!(bloom.contains(&address(new_unique(2))));
    assert!(bloom.contains(&address(new_unique(3))));
    assert!(!bloom.contains(&address(new_unique(4))));
    assert_eq!(bloom.len(), 3);
}

#[test]
fn a_teammate_named_twice_or_known_is_rejected() {
    let mut bloom = GrowableBloom::new(FALSE_PRECISION, SIZE);
    let twice = RegisterParams {
        tournament_id: 0,
        participant: new_unique(1),
        captain: new_unique(1),
        teammates: vec![new_unique(2), new_unique(2)],
    };
    assert_eq!(bloom_check(&twice, &mut bloom), Err(TournamentError::AlreadyRegistered));

    let mut bloom = GrowableBloom::new(FALSE_PRECISION, SIZE);
    assert_eq!(bloom_check(&alone(new_unique(5)), &mut bloom), Ok(()));
    let known = RegisterParams {
        tournament_id: 0,
        participant: new_unique(6),
        captain: new_unique(6),
        teammates: vec![new_unique(5)],
    };
    assert_eq!(bloom_check(&known, &mut bloom), Err(TournamentError::AlreadyRegistered));

    let mut bloom = GrowableBloom::new(FALSE_PRECISION, SIZE);
    let captain_twice = RegisterParams {
        tournament_id: 0,
        participant: new_unique(1),
        captain: new_unique(1),
        teammates: vec![new_unique(1)],
    };
    assert_eq!(bloom_check(&captain_twice, &mut bloom), Err(TournamentError::AlreadyRegistered));
}

#[test]
fn bytes_that_are_no_registry_are_not_loaded() {
    let account = BloomFilter { data: vec![1, 2, 3] };
    assert!(account.load().is_none());
    let account = BloomFilter { data: vec![] };
    assert!(account.load().is_none());
}

#[test]
fn stored_form_is_read_back_as_the_same_registry() {
    let mut bloom = GrowableBloom::new(FALSE_PRECISION, 10);
    for n in 1000..1025 {
        assert!(bloom_check(&alone(new_unique(n)), &mut bloom).is_ok());
    }
    let mut account = BloomFilter { data: vec![9, 9] };
    account.store(&bloom);
    assert_ne!(account.data, vec![9, 9]);
    assert_eq!(account.load(), Some(bloom));
}

fn config(max_teams: u16, team_size: u16) -> TournamentConfig {
    TournamentConfig {
        organizer_fee: 0,
        expiration_time: 0,
        sponsor_pool: 0,
        entry_fee: 0,
        team_size,
        min_teams: 0,
        max_teams,
        sponsor: new_unique(0),
        asset_mint: new_unique(0),
    }
}

#[test]
fn capacity_is_most_teams_times_team_size() {
    assert_eq!(items_count(&config(5, 2)), 10);
    assert_eq!(items_count(&config(0, 9)), 0);
    assert_eq!(items_count(&config(65535, 65535)), 4294836225);
}

#[test]
fn memory_is_overhead_plus_buffer_in_whole_bytes() {
    assert_eq!(BLOOM_OVERHEAD, 76);
    assert_eq!(calculate_bloom_memory(3200, 4000, 14, 4617), Ok(76 + 8080));
    assert_eq!(calculate_bloom_memory(1, 1, 1, 1), Ok(77));
    assert_eq!(calculate_bloom_memory(0, 0, 14, 0), Ok(76));
    assert_eq!(calculate_bloom_memory(10, 10, 3, 3), Ok(78));
    assert_eq!(
        calculate_bloom_memory(4001, 4000, 14, 5773),
        Err(TournamentError::MaxPlayersExceeded)
    );
    assert_eq!(
        calculate_bloom_memory(0, 0, u32::MAX, u32::MAX),
        Ok(76 + ((u32::MAX as u64 * u32::MAX as u64) + 7) / 8)
    );
}

#[test]
fn memory_holds_the_stored_form_and_its_length_prefix() {
    let capacity: usize = 3200;
    let mut bloom = GrowableBloom::new(FALSE_PRECISION, capacity);
    assert!(bloom_check(&alone(new_unique(1)), &mut bloom).is_ok());
    let mut account = BloomFilter { data: vec![] };
    account.store(&bloom);
    let num_slices = ((1.0_f64 / FALSE_PRECISION).log2()).ceil() as u32;
    let slice_len_bits = (capacity as f64 / 2f64.ln()).ceil() as u32;
    let memory = calculate_bloom_memory(3200, 3200, num_slices, slice_len_bits).unwrap();
    let length_prefix = 4;
    assert_eq!(account.data.len() as u64 + length_prefix, memory);
}

#[test]
fn identities_are_hashed_as_the_platform_hashes_them() {
    let mut by_library = GrowableBloom::new(FALSE_PRECISION, SIZE);
    let mut by_platform = GrowableBloom::new(FALSE_PRECISION, SIZE);
    for n in 0..50 {
        assert!(bloom_check(&alone(new_unique(n)), &mut by_library).is_ok());
        assert!(by_platform.insert(address(new_unique(n))));
    }
    assert_eq!(by_library, by_platform);
    assert_eq!(
        bloom_check(&alone(new_unique(7)), &mut by_platform),
        Err(TournamentError::AlreadyRegistered)
    );
    assert!(!by_library.contains(new_unique(7).to_bytes()));
}

#[test]
fn a_batch_that_the_registry_takes_is_accepted() {
    let mut bloom = GrowableBloom::new(FALSE_PRECISION, SIZE);
    let mut expected = GrowableBloom::new(FALSE_PRECISION, SIZE);
    let params = RegisterParams {
        tournament_id: 0,
        participant: new_unique(1),
        captain: new_unique(1),
        teammates: vec![new_unique(2), new_unique(3), new_unique(4)],
    };
    for n in 1..5 {
        assert!(expected.insert(address(new_unique(n))));
    }
    assert_eq!(bloom_check(&params, &mut bloom), Ok(()));
    assert_eq!(bloom, expected);
}
