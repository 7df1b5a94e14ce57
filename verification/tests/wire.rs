use percolator::accounts::AccountSummary;
use percolator::bytes::{
    read_i128_le, read_i64_le, read_pubkey, read_u128_le, read_u16_le, read_u32_le, read_u64_le,
    write_i128_le, write_i64_le, write_pubkey, write_u128_le, write_u16_le, write_u32_le,
    write_u64_le, write_zeros,
};
use percolator::error::PercolatorError;
use percolator::slab::{FillReceipt, OrderType, Side};
use percolator::slab_instruction::{
    process_instruction, CommitFillArgs, InitializeSlabArgs, SlabInstruction,
};
use percolator::system_program::{system_allocate_data, system_assign_data, system_transfer_data};
use percolator::wire::{decode_receipt, encode_commit_fill, encode_receipt, read_slab_seqno};

const PROGRAM: [u8; 32] = [6u8; 32];

fn account(owner: [u8; 32], writable: bool, lamports: u64) -> AccountSummary {
    AccountSummary { key: [1u8; 32], owner, lamports, data_len: 0, is_signer: false, is_writable: writable }
}

fn fill_accounts() -> Vec<AccountSummary> {
    vec![account(PROGRAM, true, 1), account([0u8; 32], true, 1), account([0u8; 32], false, 1), account([0u8; 32], false, 1)]
}

#[test]
fn integers_are_little_endian() {
    let mut out = Vec::new();
    write_u16_le(&mut out, 0x0102);
    write_u32_le(&mut out, 0x0304_0506);
    write_u64_le(&mut out, 0x0708_090A_0B0C_0D0E);
    write_u128_le(&mut out, 0x0F10_1112_1314_1516_1718_191A_1B1C_1D1E);
    write_i64_le(&mut out, -2);
    write_i128_le(&mut out, i128::MIN);
    write_pubkey(&mut out, &[0xABu8; 32]);
    write_zeros(&mut out, 2);
    let mut expected = Vec::new();
    expected.extend_from_slice(&0x0102u16.to_le_bytes());
    expected.extend_from_slice(&0x0304_0506u32.to_le_bytes());
    expected.extend_from_slice(&0x0708_090A_0B0C_0D0Eu64.to_le_bytes());
    expected.extend_from_slice(&0x0F10_1112_1314_1516_1718_191A_1B1C_1D1Eu128.to_le_bytes());
    expected.extend_from_slice(&(-2i64).to_le_bytes());
    expected.extend_from_slice(&i128::MIN.to_le_bytes());
    expected.extend_from_slice(&[0xABu8; 32]);
    expected.extend_from_slice(&[0, 0]);
    assert_eq!(out, expected);
    assert_eq!(read_u16_le(&out, 0), 0x0102);
    assert_eq!(read_u32_le(&out, 2), 0x0304_0506);
    assert_eq!(read_u64_le(&out, 6), 0x0708_090A_0B0C_0D0E);
    assert_eq!(read_u128_le(&out, 14), 0x0F10_1112_1314_1516_1718_191A_1B1C_1D1E);
    assert_eq!(read_i64_le(&out, 30), -2);
    assert_eq!(read_i128_le(&out, 38), i128::MIN);
    assert_eq!(read_pubkey(&out, 54), [0xABu8; 32]);
}

#[test]
fn signed_values_at_the_ends_of_the_range() {
    for value in [i64::MIN, -1, 0, 1, i64::MAX] {
        let mut out = Vec::new();
        write_i64_le(&mut out, value);
        assert_eq!(out, value.to_le_bytes().to_vec());
        assert_eq!(read_i64_le(&out, 0), value);
    }
    for value in [i128::MIN, -1, 0, 1, i128::MAX] {
        let mut out = Vec::new();
        write_i128_le(&mut out, value);
        assert_eq!(out, value.to_le_bytes().to_vec());
        assert_eq!(read_i128_le(&out, 0), value);
    }
    for value in [0, 1, u64::MAX] {
        let mut out = Vec::new();
        write_u64_le(&mut out, value);
        assert_eq!(read_u64_le(&out, 0), value);
    }
    let mut out = Vec::new();
    write_u128_le(&mut out, u128::MAX);
    assert_eq!(read_u128_le(&out, 0), u128::MAX);
}

#[test]
fn fill_request_has_23_bytes() {
    let data = encode_commit_fill(0x0102_0304, 1, 0, 2_000_000, 50_000_000_000);
    let mut expected = vec![1u8, 0x04, 0x03, 0x02, 0x01, 1, 0];
    expected.extend_from_slice(&2_000_000i64.to_le_bytes());
    expected.extend_from_slice(&50_000_000_000i64.to_le_bytes());
    assert_eq!(data, expected);
    assert_eq!(data.len(), 23);
}

#[test]
fn venue_decodes_the_fill_request_of_the_router() {
    let data = encode_commit_fill(41, 1, 1, -7, i64::MIN);
    let decoded = process_instruction(&PROGRAM, &fill_accounts(), &data);
    assert_eq!(
        decoded,
        Ok(SlabInstruction::CommitFill(CommitFillArgs {
            expected_seqno: 41,
            order_type: OrderType::Limit,
            side: Side::Sell,
            qty: -7,
            limit_px: i64::MIN,
        }))
    );
}

#[test]
fn venue_refuses_malformed_requests() {
    assert_eq!(process_instruction(&PROGRAM, &fill_accounts(), &[]), Err(PercolatorError::InvalidInstruction));
    assert_eq!(process_instruction(&PROGRAM, &fill_accounts(), &[2]), Err(PercolatorError::InvalidInstruction));
    let data = encode_commit_fill(41, 1, 1, 5, 6);
    assert_eq!(
        process_instruction(&PROGRAM, &fill_accounts(), &data[..22]),
        Err(PercolatorError::InvalidInstruction)
    );
    assert_eq!(
        process_instruction(&PROGRAM, &fill_accounts()[..3].to_vec(), &data),
        Err(PercolatorError::InvalidInstruction)
    );
    assert_eq!(
        process_instruction(&PROGRAM, &fill_accounts(), &encode_commit_fill(41, 2, 1, 5, 6)),
        Err(PercolatorError::InvalidOrderType)
    );
    assert_eq!(
        process_instruction(&PROGRAM, &fill_accounts(), &encode_commit_fill(41, 1, 2, 5, 6)),
        Err(PercolatorError::InvalidSide)
    );
    // An unknown order type is reported before an unknown side.
    assert_eq!(
        process_instruction(&PROGRAM, &fill_accounts(), &encode_commit_fill(41, 9, 9, 5, 6)),
        Err(PercolatorError::InvalidOrderType)
    );
}

#[test]
fn venue_refuses_accounts_that_are_not_in_order() {
    let data = encode_commit_fill(41, 1, 1, 5, 6);
    let mut foreign = fill_accounts();
    foreign[0].owner = [0u8; 32];
    assert_eq!(process_instruction(&PROGRAM, &foreign, &data), Err(PercolatorError::InvalidAccount));
    let mut read_only = fill_accounts();
    read_only[0].is_writable = false;
    assert_eq!(process_instruction(&PROGRAM, &read_only, &data), Err(PercolatorError::InvalidAccount));
    let mut receipt_read_only = fill_accounts();
    receipt_read_only[1].is_writable = false;
    assert_eq!(process_instruction(&PROGRAM, &receipt_read_only, &data), Err(PercolatorError::InvalidAccount));
    // The accounts are looked at before the fields.
    assert_eq!(process_instruction(&PROGRAM, &foreign, &data[..5]), Err(PercolatorError::InvalidAccount));
}

#[test]
fn venue_decodes_its_initialization() {
    let mut data = vec![0u8];
    data.extend_from_slice(&[1u8; 32]);
    data.extend_from_slice(&[2u8; 32]);
    data.extend_from_slice(&[3u8; 32]);
    data.extend_from_slice(&50_000_000_000i64.to_le_bytes());
    data.extend_from_slice(&5i64.to_le_bytes());
    data.extend_from_slice(&(-1i64).to_le_bytes());
    data.push(254);
    let accounts = vec![account([0u8; 32], true, 0), account([0u8; 32], true, 9), account([0u8; 32], false, 1)];
    assert_eq!(
        process_instruction(&PROGRAM, &accounts, &data),
        Ok(SlabInstruction::Initialize(InitializeSlabArgs {
            lp_owner: [1u8; 32],
            router_id: [2u8; 32],
            instrument: [3u8; 32],
            mark_px: 50_000_000_000,
            taker_fee_bps: 5,
            contract_size: -1,
            bump: 254,
            needs_creation: true,
        }))
    );
    let mut funded = accounts.clone();
    funded[0].lamports = 1;
    match process_instruction(&PROGRAM, &funded, &data) {
        Ok(SlabInstruction::Initialize(args)) => assert!(!args.needs_creation),
        other => panic!("unexpected {:?}", other),
    }
    assert_eq!(
        process_instruction(&PROGRAM, &accounts, &data[..121]),
        Err(PercolatorError::InvalidInstruction)
    );
    assert_eq!(
        process_instruction(&PROGRAM, &accounts[..2].to_vec(), &data),
        Err(PercolatorError::InvalidInstruction)
    );
    let mut read_only = accounts.clone();
    read_only[1].is_writable = false;
    assert_eq!(process_instruction(&PROGRAM, &read_only, &data), Err(PercolatorError::InvalidAccount));
}

#[test]
fn sequence_number_stands_at_offset_twelve() {
    let mut data = vec![0xEEu8; 20];
    data[12..16].copy_from_slice(&0x0A0B_0C0Du32.to_le_bytes());
    assert_eq!(read_slab_seqno(&data), Ok(0x0A0B_0C0D));
    assert_eq!(read_slab_seqno(&data[..16]), Ok(0x0A0B_0C0D));
    assert_eq!(read_slab_seqno(&data[..15]), Err(PercolatorError::InvalidAccount));
}

#[test]
fn receipt_is_decoded_as_it_was_encoded() {
    let receipt = FillReceipt {
        used: true,
        seqno_committed: 41,
        filled_qty: 2_000_000,
        vwap_px: -5,
        notional: i64::MAX,
        fee: i64::MIN,
    };
    let data = encode_receipt(&receipt);
    assert_eq!(data.len(), 40);
    assert_eq!(&data[0..4], &[1, 0, 0, 0]);
    assert_eq!(&data[4..8], &41u32.to_le_bytes());
    assert_eq!(&data[8..16], &2_000_000i64.to_le_bytes());
    assert_eq!(decode_receipt(&data), Ok(receipt));
    assert_eq!(decode_receipt(&encode_receipt(&FillReceipt::new())), Ok(FillReceipt::new()));
    assert_eq!(decode_receipt(&data[..39]), Err(PercolatorError::InvalidAccount));
    let mut marked = vec![0u8; 48];
    marked[3] = 0x80;
    assert!(decode_receipt(&marked).unwrap().used);
}

#[test]
fn system_requests() {
    let mut transfer = vec![2u8, 0, 0, 0];
    transfer.extend_from_slice(&0x0102_0304_0506_0708u64.to_le_bytes());
    assert_eq!(system_transfer_data(0x0102_0304_0506_0708), transfer);
    let mut allocate = vec![8u8, 0, 0, 0];
    allocate.extend_from_slice(&144u64.to_le_bytes());
    assert_eq!(system_allocate_data(144), allocate);
    let mut assign = vec![1u8, 0, 0, 0];
    assign.extend_from_slice(&[9u8; 32]);
    assert_eq!(system_assign_data(&[9u8; 32]), assign);
}
