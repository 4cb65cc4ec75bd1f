use solana_allocator::accounts::{
    AccountSlot, AccountsInfoIter, BPF_ALIGN_OF_U128, MAX_PERMITTED_DATA_INCREASE, NON_DUP_MARKER,
};
use solana_allocator::compute_budget::{compute_budget_id_bytes, parse_compute_budget_instruction};
use solana_allocator::entrypoint::extract_heap_size;
use solana_allocator::instructions::InstructionsIter;

enum Entry {
    Full([u8; 32], Vec<u8>),
    Dup(u8),
}

fn sysvar_id() -> [u8; 32] {
    solana_program::sysvar::instructions::ID.to_bytes()
}

fn budget_id() -> [u8; 32] {
    solana_program::pubkey::Pubkey::from_str_const("ComputeBudget111111111111111111111111111111")
        .to_bytes()
}

/// Lays out an entrypoint input buffer the way the runtime does.
fn input_buffer(entries: &[Entry]) -> Vec<u8> {
    let mut b = Vec::new();
    b.extend_from_slice(&(entries.len() as u64).to_le_bytes());
    for e in entries {
        match e {
            Entry::Dup(i) => {
                b.push(*i);
                b.extend_from_slice(&[0u8; 7]);
            }
            Entry::Full(key, data) => {
                b.extend_from_slice(&[NON_DUP_MARKER, 1, 0, 0]);
                b.extend_from_slice(&(data.len() as u32).to_le_bytes());
                b.extend_from_slice(key);
                b.extend_from_slice(&[7u8; 32]);
                b.extend_from_slice(&1000u64.to_le_bytes());
                b.extend_from_slice(&(data.len() as u64).to_le_bytes());
                b.extend_from_slice(data);
                b.extend(std::iter::repeat(0u8).take(MAX_PERMITTED_DATA_INCREASE));
                while b.len() % BPF_ALIGN_OF_U128 != 0 {
                    b.push(0);
                }
                b.extend_from_slice(&42u64.to_le_bytes());
            }
        }
    }
    b
}

fn encode_instruction(program: &[u8; 32], n_accounts: u16, payload: &[u8]) -> Vec<u8> {
    let mut v = Vec::new();
    v.extend_from_slice(&n_accounts.to_le_bytes());
    for i in 0..n_accounts {
        v.push(i as u8);
        v.extend_from_slice(&[i as u8 + 9; 32]);
    }
    v.extend_from_slice(program);
    v.extend_from_slice(&(payload.len() as u16).to_le_bytes());
    v.extend_from_slice(payload);
    v
}

/// Instructions account data with the instructions stored in `order` while
/// the offset table lists them as given.
fn instructions_data(ixs: &[Vec<u8>], order: &[usize]) -> Vec<u8> {
    let header = 2 + 2 * ixs.len();
    let mut offsets = vec![0u16; ixs.len()];
    let mut body = Vec::new();
    for &i in order {
        offsets[i] = (header + body.len()) as u16;
        body.extend_from_slice(&ixs[i]);
    }
    let mut d = Vec::new();
    d.extend_from_slice(&(ixs.len() as u16).to_le_bytes());
    for o in offsets {
        d.extend_from_slice(&o.to_le_bytes());
    }
    d.extend_from_slice(&body);
    d
}

#[test]
fn runtime_layout_constants_match() {
    assert_eq!(NON_DUP_MARKER, solana_program::entrypoint::NON_DUP_MARKER);
    assert_eq!(MAX_PERMITTED_DATA_INCREASE, solana_program::entrypoint::MAX_PERMITTED_DATA_INCREASE);
    assert_eq!(BPF_ALIGN_OF_U128, solana_program::entrypoint::BPF_ALIGN_OF_U128);
    assert_eq!(compute_budget_id_bytes(), budget_id());
}

#[test]
fn heap_frame_request_two_pages() {
    assert_eq!(parse_compute_budget_instruction(&[1, 0x02, 0x00, 0x00, 0x00]), Some(2 * 1024));
}

#[test]
fn heap_frame_request_other_discriminant() {
    assert_eq!(parse_compute_budget_instruction(&[0, 0x02, 0x00, 0x00, 0x00]), None);
    assert_eq!(parse_compute_budget_instruction(&[2, 0x40, 0x0d, 0x03, 0x00]), None);
}

#[test]
fn heap_frame_request_wrong_length() {
    assert_eq!(parse_compute_budget_instruction(&[1, 0x00]), None);
    assert_eq!(parse_compute_budget_instruction(&[]), None);
    assert_eq!(parse_compute_budget_instruction(&[1, 1, 0, 0, 0, 0]), None);
}

#[test]
fn heap_frame_request_large_count() {
    assert_eq!(
        parse_compute_budget_instruction(&[1, 0xff, 0xff, 0xff, 0xff]),
        Some(0xffff_ffffu64 * 1024)
    );
    assert_eq!(parse_compute_budget_instruction(&[1, 0x00, 0x01, 0x00, 0x00]), Some(256 * 1024));
}

#[test]
fn account_walker_yields_unique_accounts_in_order() {
    let keys = [[1u8; 32], [2u8; 32], [3u8; 32]];
    let datas = [vec![5u8; 3], vec![], vec![9u8; 17]];
    let entries: Vec<Entry> =
        keys.iter().zip(datas.iter()).map(|(k, d)| Entry::Full(*k, d.clone())).collect();
    let input = input_buffer(&entries);
    let mut it = AccountsInfoIter::new(&input);
    for i in 0..3 {
        match it.next() {
            Some(AccountSlot::Unique { key, data }) => {
                assert_eq!(key, &keys[i][..]);
                assert_eq!(data.len(), datas[i].len());
                assert_eq!(data, &datas[i][..]);
            }
            _ => panic!("slot {} is not a unique account", i),
        }
    }
    assert!(it.next().is_none());
    assert!(it.next().is_none());
}

#[test]
fn account_walker_marks_duplicates() {
    let input = input_buffer(&[
        Entry::Full([1u8; 32], vec![1, 2]),
        Entry::Full([2u8; 32], vec![3]),
        Entry::Dup(0),
        Entry::Full([4u8; 32], vec![4, 4, 4, 4]),
    ]);
    let mut it = AccountsInfoIter::new(&input);
    assert!(matches!(it.next(), Some(AccountSlot::Unique { .. })));
    assert!(matches!(it.next(), Some(AccountSlot::Unique { .. })));
    assert!(matches!(it.next(), Some(AccountSlot::Duplicate(0))));
    match it.next() {
        Some(AccountSlot::Unique { key, data }) => {
            assert_eq!(key, &[4u8; 32][..]);
            assert_eq!(data, &[4u8, 4, 4, 4][..]);
        }
        _ => panic!("last slot is not a unique account"),
    }
    assert!(it.next().is_none());
}

#[test]
fn account_walker_stops_on_truncated_input() {
    let mut input = input_buffer(&[Entry::Full([1u8; 32], vec![1, 2])]);
    input[0] = 2;
    let mut it = AccountsInfoIter::new(&input);
    assert!(matches!(it.next(), Some(AccountSlot::Unique { .. })));
    assert!(it.next().is_none());
    let mut empty = AccountsInfoIter::new(&[]);
    assert!(empty.next().is_none());
}

#[test]
fn instruction_walker_follows_offset_table() {
    let a = [10u8; 32];
    let b = [11u8; 32];
    let c = [12u8; 32];
    let ixs = vec![
        encode_instruction(&a, 2, &[1, 2, 3]),
        encode_instruction(&b, 0, &[]),
        encode_instruction(&c, 1, &[7; 40]),
    ];
    let data = instructions_data(&ixs, &[2, 0, 1]);
    let mut it = InstructionsIter::new(&data);
    assert_eq!(it.next(), Some((&a[..], &[1u8, 2, 3][..])));
    assert_eq!(it.next(), Some((&b[..], &[][..])));
    assert_eq!(it.next(), Some((&c[..], &[7u8; 40][..])));
    assert_eq!(it.next(), None);
}

#[test]
fn instruction_walker_is_not_fused() {
    let a = [10u8; 32];
    let ixs = vec![encode_instruction(&a, 0, &[1]), encode_instruction(&a, 0, &[2])];
    let mut data = instructions_data(&ixs, &[0, 1]);
    let len = data.len() as u16 + 5;
    data[2..4].copy_from_slice(&len.to_le_bytes());
    let mut it = InstructionsIter::new(&data);
    assert_eq!(it.next(), None);
    assert_eq!(it.next(), Some((&a[..], &[2u8][..])));
    assert_eq!(it.next(), None);
}

#[test]
fn instruction_walker_empty_on_short_header() {
    assert_eq!(InstructionsIter::new(&[]).next(), None);
    assert_eq!(InstructionsIter::new(&[3, 0, 2, 0]).next(), None);
}

#[test]
fn parse_instruction_reads_program_and_payload() {
    let p = [33u8; 32];
    let mut enc = encode_instruction(&p, 3, &[4, 5]);
    enc.extend_from_slice(&[99, 99]);
    assert_eq!(InstructionsIter::parse_instruction(&enc), Some((&p[..], &[4u8, 5][..])));
    assert_eq!(InstructionsIter::parse_instruction(&enc[..enc.len() - 3]), None);
}

fn input_with_instructions(ixs: &[Vec<u8>]) -> Vec<u8> {
    let order: Vec<usize> = (0..ixs.len()).collect();
    let data = instructions_data(ixs, &order);
    input_buffer(&[
        Entry::Full([1u8; 32], vec![1, 2, 3]),
        Entry::Dup(0),
        Entry::Full(sysvar_id(), data),
        Entry::Full([5u8; 32], vec![]),
    ])
}

#[test]
fn extract_finds_requested_heap() {
    let other = [77u8; 32];
    let input = input_with_instructions(&[
        encode_instruction(&budget_id(), 0, &[1, 4, 0, 0, 0]),
        encode_instruction(&budget_id(), 0, &[2, 0x40, 0x0d, 0x03, 0x00]),
        encode_instruction(&other, 2, &[1, 9, 0, 0, 0]),
    ]);
    assert_eq!(extract_heap_size(&input), Some(4096));
}

#[test]
fn extract_takes_first_request_after_other_budget_instructions() {
    let input = input_with_instructions(&[
        encode_instruction(&budget_id(), 0, &[2, 0x40, 0x0d, 0x03, 0x00]),
        encode_instruction(&budget_id(), 0, &[1, 8, 0, 0, 0]),
        encode_instruction(&budget_id(), 0, &[1, 16, 0, 0, 0]),
    ]);
    assert_eq!(extract_heap_size(&input), Some(8 * 1024));
}

#[test]
fn extract_stops_at_other_program() {
    let other = [77u8; 32];
    let input = input_with_instructions(&[
        encode_instruction(&other, 1, &[1, 4, 0, 0, 0]),
        encode_instruction(&budget_id(), 0, &[1, 4, 0, 0, 0]),
    ]);
    assert_eq!(extract_heap_size(&input), None);
}

#[test]
fn extract_without_instructions_account() {
    let input = input_buffer(&[
        Entry::Full([1u8; 32], vec![1, 2, 3]),
        Entry::Dup(0),
        Entry::Full([2u8; 32], vec![]),
    ]);
    assert_eq!(extract_heap_size(&input), None);
    assert_eq!(extract_heap_size(&[]), None);
}
