use imbue_governance::accounts::derive_project_account;
use imbue_governance::expiry::{BucketFull, ExpiryIndex};
use imbue_governance::per_account::{all_distinct, find_entry, record_entry};
use imbue_governance::percent::{mul_percent, to_percent};
use imbue_governance::proposals::RoundType;
use imbue_governance::proposals::round::make_round_id;
use imbue_governance::types::{ensure_root, ensure_signed, AccountId, BadOrigin, Origin, Weight};

#[test]
fn percent_rounds_down() {
    assert_eq!(mul_percent(34, 10), 3);
    assert_eq!(mul_percent(36, 10), 3);
    assert_eq!(mul_percent(75, 1_000_000), 750_000);
    assert_eq!(mul_percent(5, 1_000_000), 50_000);
    assert_eq!(mul_percent(0, 1_000_000), 0);
    assert_eq!(mul_percent(100, 1_000_000), 1_000_000);
    assert_eq!(mul_percent(99, 1), 0);
    assert_eq!(mul_percent(33, 1001), 330);
}

#[test]
fn percent_beyond_the_whole_counts_as_the_whole() {
    assert_eq!(mul_percent(101, 10), 10);
    assert_eq!(mul_percent(255, 7), 7);
    assert_eq!(to_percent(100), 100);
    assert_eq!(to_percent(101), 100);
    assert_eq!(to_percent(u32::MAX), 100);
    assert_eq!(to_percent(42), 42);
}

#[test]
fn percent_of_the_largest_amount_does_not_overflow() {
    assert_eq!(mul_percent(100, u128::MAX), u128::MAX);
    assert_eq!(mul_percent(50, u128::MAX), u128::MAX / 2);
    assert_eq!(mul_percent(1, u128::MAX), u128::MAX / 100);
}

#[test]
fn custody_account_is_derived_from_identifier_and_key() {
    let mut expected = [0u8; 32];
    expected[..16].copy_from_slice(b"modlimbgrant\x0c//1");
    assert_eq!(derive_project_account(*b"imbgrant", 1), AccountId::new(expected));

    let mut expected = [0u8; 32];
    expected[..25].copy_from_slice(b"modlimbgrant\x30//4294967295");
    assert_eq!(derive_project_account(*b"imbgrant", u32::MAX), AccountId::new(expected));

    let mut expected = [0u8; 32];
    expected[..17].copy_from_slice(b"modlpy/other\x10//10");
    assert_eq!(derive_project_account(*b"py/other", 10), AccountId::new(expected));
}

#[test]
fn custody_accounts_differ_by_key() {
    let accounts: Vec<AccountId> = [0, 1, 2, 10, 11, 100, 101, u32::MAX]
        .iter()
        .map(|k| derive_project_account(*b"imbgrant", *k))
        .collect();
    for i in 0..accounts.len() {
        for j in 0..i {
            assert_ne!(accounts[i], accounts[j]);
        }
    }
    assert_eq!(derive_project_account(*b"imbgrant", 7), derive_project_account(*b"imbgrant", 7));
}

#[test]
fn expiry_index_fills_to_its_capacity() {
    let mut index = ExpiryIndex::new(3);
    assert_eq!(index.len_at(9), 0);
    assert!(index.has_room(9));
    assert_eq!(index.insert(5, 9), Ok(()));
    assert_eq!(index.insert(6, 9), Ok(()));
    assert_eq!(index.insert(5, 9), Ok(()));
    assert_eq!(index.insert(7, 9), Err(BucketFull));
    assert!(!index.has_room(9));
    assert_eq!(index.len_at(9), 3);
    assert!(index.contains(6, 9));
    assert!(!index.contains(7, 9));
    assert!(!index.contains(6, 8));
    assert_eq!(index.insert(7, 8), Ok(()));
    // the oldest of two equal entries leaves
    assert!(index.remove(5, 9));
    assert_eq!(index.take(9), vec![6, 5]);
    assert_eq!(index.len_at(9), 0);
    assert!(!index.remove(5, 9));
    assert!(!index.remove(6, 8));
    assert_eq!(index.take(8), vec![7]);
    assert_eq!(index.take(8), Vec::<u128>::new());
}

#[test]
fn expiry_index_never_holds_more_than_the_ceiling() {
    let mut index = ExpiryIndex::new(u32::MAX);
    for id in 0..1000u128 {
        assert_eq!(index.insert(id, 1), Ok(()));
    }
    assert_eq!(index.insert(1000, 1), Err(BucketFull));
    assert_eq!(index.len_at(1), 1000);
    assert!(index.remove(0, 1));
    assert_eq!(index.insert(1000, 1), Ok(()));
    let entries = index.take(1);
    assert_eq!(entries.len(), 1000);
    assert_eq!(entries[0], 1);
    assert_eq!(entries[999], 1000);
    let mut none = ExpiryIndex::new(0);
    assert_eq!(none.insert(1, 1), Err(BucketFull));
}

#[test]
fn round_entries() {
    assert_eq!(make_round_id(RoundType::VotingRound, 0, 0), 0);
    assert_eq!(make_round_id(RoundType::VotingRound, 1, 2), (1u128 << 32) + 2);
    assert_eq!(make_round_id(RoundType::VotingRound, u32::MAX, u32::MAX), u64::MAX as u128);
    assert_eq!(make_round_id(RoundType::VoteOfNoConfidence, 0, 0), 1u128 << 64);
    assert_eq!(make_round_id(RoundType::VoteOfNoConfidence, 3, 0), (1u128 << 64) + (3u128 << 32));
}

#[test]
fn tables_by_account() {
    let a = AccountId::new([1; 32]);
    let mut b_bytes = [1; 32];
    b_bytes[31] = 2;
    let b = AccountId::new(b_bytes);
    assert!(!a.same(&b));
    assert!(a.same(&AccountId::new([1; 32])));
    let mut table: Vec<(AccountId, u8)> = Vec::new();
    assert_eq!(find_entry(&table, &a), None);
    record_entry(&mut table, a, 1);
    record_entry(&mut table, b, 2);
    record_entry(&mut table, a, 3);
    assert_eq!(table, vec![(a, 3), (b, 2)]);
    assert_eq!(find_entry(&table, &b), Some(1));
    assert!(all_distinct(&table));
    table.push((b, 9));
    assert!(!all_distinct(&table));
    assert_eq!(find_entry(&table, &b), Some(1));
}

#[test]
fn origins() {
    let who = AccountId::new([5; 32]);
    assert_eq!(ensure_signed(Origin::signed(who)), Ok(who));
    assert_eq!(ensure_signed(Origin::root()), Err(BadOrigin));
    assert_eq!(ensure_signed(Origin::Unsigned), Err(BadOrigin));
    assert_eq!(ensure_root(Origin::root()), Ok(()));
    assert_eq!(ensure_root(Origin::signed(who)), Err(BadOrigin));
    assert_eq!(ensure_root(Origin::Unsigned), Err(BadOrigin));
    assert_eq!(Weight::reads_writes(2, 3), Weight { reads: 2, writes: 3 });
}
