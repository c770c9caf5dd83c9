use oo_route::error::{ProgramFailure, SwapError};
use oo_route::account::{AccountView, Address};
use oo_route::route::instruction::{OOSwapInstruction, OOSwapStruct, Swap};
use oo_route::route::processor::{Processor, Step, SwapInfo, SwapLeg};
use solana_program::program_option::COption;
use solana_program::program_pack::Pack;
use solana_program::pubkey::Pubkey;

fn key(byte: u8) -> Address {
    Address::new_from_array([byte; 32])
}

fn account(key: Address, owner: Address) -> AccountView {
    AccountView { key, owner, data: vec![] }
}

fn instruction(swap_info_len: u8, legs: &[(u64, u64)]) -> Vec<u8> {
    let mut input = vec![0u8, swap_info_len];
    for (amount_in, minimum_amount_out) in legs {
        input.extend_from_slice(&amount_in.to_le_bytes());
        input.extend_from_slice(&minimum_amount_out.to_le_bytes());
    }
    input
}

/// Program, venue and the authority and bump seed that belong to the venue.
fn venue(byte: u8) -> (Address, Address, Address, u8) {
    let program = Pubkey::new_from_array([7u8; 32]);
    let swap = Pubkey::new_from_array([byte; 32]);
    let (authority, nonce) = Pubkey::find_program_address(&[&swap.to_bytes()], &program);
    (
        Address::new_from_array(program.to_bytes()),
        Address::new_from_array(swap.to_bytes()),
        Address::new_from_array(authority.to_bytes()),
        nonce,
    )
}

fn state(nonce: u8) -> SwapInfo {
    SwapInfo {
        nonce,
        token_program_id: key(60),
        token_a: key(61),
        token_b: key(62),
        pool_mint: key(63),
        pool_fee_account: key(64),
    }
}

fn leg_accounts(byte: u8) -> Vec<AccountView> {
    let (program, swap, authority, _) = venue(byte);
    vec![
        account(swap, program),
        account(authority, key(0)),
        account(key(61), key(0)),
        account(key(62), key(0)),
        account(key(63), key(0)),
        account(key(64), key(0)),
        account(key(60), key(0)),
    ]
}

fn accounts(legs: &[u8]) -> Vec<AccountView> {
    let mut all = vec![account(key(20), key(0)), account(key(21), key(0)), account(key(22), key(0))];
    for byte in legs {
        all.extend(leg_accounts(*byte));
    }
    all
}

fn expected_leg(byte: u8, amounts: Swap) -> SwapLeg {
    let (program, swap, authority, nonce) = venue(byte);
    SwapLeg {
        program_id: program,
        token_program: key(60),
        swap,
        authority,
        user_transfer_authority: key(20),
        source: key(21),
        swap_source: key(61),
        swap_destination: key(62),
        destination: key(22),
        pool_mint: key(63),
        pool_fee_account: key(64),
        nonce,
        amounts,
    }
}

#[test]
fn unpack_one_leg() {
    let input = instruction(1, &[(100, 90)]);
    assert_eq!(
        OOSwapInstruction::unpack(&input),
        Ok(OOSwapInstruction::OOSwap(OOSwapStruct {
            data: vec![Swap { amount_in: 100, minimum_amount_out: 90 }],
            swap_info_len: 1,
        }))
    );
}

#[test]
fn unpack_no_legs() {
    assert_eq!(
        OOSwapInstruction::unpack(&[0, 0]),
        Ok(OOSwapInstruction::OOSwap(OOSwapStruct { data: vec![], swap_info_len: 0 }))
    );
}

#[test]
fn unpack_gives_every_leg_the_first_amounts() {
    let input = instruction(3, &[(100, 90), (200, 180), (300, 270)]);
    let first = Swap { amount_in: 100, minimum_amount_out: 90 };
    assert_eq!(
        OOSwapInstruction::unpack(&input),
        Ok(OOSwapInstruction::OOSwap(OOSwapStruct { data: vec![first; 3], swap_info_len: 3 }))
    );
}

#[test]
fn unpack_counts_legs_modulo_256() {
    let legs = vec![(5u64, 4u64); 257];
    let input = instruction(1, &legs);
    let unpacked = OOSwapInstruction::unpack(&input).unwrap();
    let OOSwapInstruction::OOSwap(swap) = unpacked;
    assert_eq!(swap.swap_info_len, 1);
    assert_eq!(swap.data.len(), 257);
    assert_eq!(
        OOSwapInstruction::unpack(&instruction(2, &legs)),
        Err(SwapError::InvalidInstruction)
    );
}

#[test]
fn unpack_errors() {
    assert_eq!(OOSwapInstruction::unpack(&[]), Err(SwapError::InvalidInstruction));
    assert_eq!(OOSwapInstruction::unpack(&[0]), Err(SwapError::InvalidInstruction));
    assert_eq!(OOSwapInstruction::unpack(&[1, 0]), Err(SwapError::InvalidInstruction));
    assert_eq!(OOSwapInstruction::unpack(&[0, 1]), Err(SwapError::InvalidInstruction));
    let mut input = instruction(1, &[(100, 90)]);
    input.push(0);
    assert_eq!(OOSwapInstruction::unpack(&input), Err(SwapError::InvalidInstruction));
    assert_eq!(
        OOSwapInstruction::unpack(&instruction(2, &[(100, 90)])),
        Err(SwapError::InvalidInstruction)
    );
}

#[test]
fn leg_amount_is_read_off_the_front() {
    let input = [0u8, 1, 0, 0, 0, 0, 0, 0, 42];
    let (amount, rest) = OOSwapInstruction::unpack_u64(&input).unwrap();
    assert_eq!(amount, 256);
    assert_eq!(rest, [42]);
    assert_eq!(OOSwapInstruction::unpack_u64(&[0; 7]), Err(SwapError::InvalidInstruction));
}

#[test]
fn venue_authority_is_the_derived_address() {
    let (program, swap, authority, nonce) = venue(9);
    assert_eq!(Processor::authority_id(&program, &swap, nonce), Ok(authority));
    assert_ne!(authority, swap);
    let program_key = Pubkey::new_from_array(program.to_bytes());
    for bump in 0..=255u8 {
        let expected = Pubkey::create_program_address(&[&swap.to_bytes(), &[bump]], &program_key);
        let got = Processor::authority_id(&program, &swap, bump);
        match expected {
            Ok(address) => assert_eq!(got, Ok(Address::new_from_array(address.to_bytes()))),
            Err(_) => assert_eq!(got, Err(SwapError::InvalidProgramAddress)),
        }
    }
    assert_eq!(Processor::authority_from(None), Err(SwapError::InvalidProgramAddress));
}

#[test]
fn legs_are_taken_one_by_one() {
    let (program, _, _, first_nonce) = venue(9);
    let (_, _, _, second_nonce) = venue(10);
    let all = accounts(&[9, 10]);
    let data = vec![
        Swap { amount_in: 100, minimum_amount_out: 90 },
        Swap { amount_in: 200, minimum_amount_out: 180 },
    ];
    assert_eq!(
        Processor::process_swap(&program, &data, 2, &all, 0, Ok(state(first_nonce))),
        Ok(Step::Invoke(expected_leg(9, data[0])))
    );
    assert_eq!(
        Processor::process_swap(&program, &data, 2, &all, 1, Ok(state(second_nonce))),
        Ok(Step::Invoke(expected_leg(10, data[1])))
    );
    assert_eq!(
        Processor::process_swap(&program, &data, 2, &all, 2, Err(ProgramFailure::InvalidAccountData)),
        Ok(Step::Done)
    );
}

#[test]
fn instruction_is_unpacked_before_its_legs() {
    let (program, _, _, nonce) = venue(9);
    let all = accounts(&[9]);
    let input = instruction(1, &[(100, 90)]);
    let amounts = Swap { amount_in: 100, minimum_amount_out: 90 };
    assert_eq!(
        Processor::process(&program, &all, &input, 0, Ok(state(nonce))),
        Ok(Step::Invoke(expected_leg(9, amounts)))
    );
    assert_eq!(
        Processor::process_with_constraints(&program, &all, &input, 1, Ok(state(nonce))),
        Ok(Step::Done)
    );
    assert_eq!(
        Processor::process(&program, &all, &[5], 0, Ok(state(nonce))),
        Err(ProgramFailure::Swap(SwapError::InvalidInstruction))
    );
}

#[test]
fn accounts_have_to_reach_the_leg() {
    let (program, _, _, nonce) = venue(9);
    let data = vec![Swap { amount_in: 1, minimum_amount_out: 1 }; 2];
    let all = accounts(&[9]);
    assert_eq!(
        Processor::process_swap(&program, &data, 0, &all[..2], 0, Ok(state(nonce))),
        Err(ProgramFailure::NotEnoughAccountKeys)
    );
    assert_eq!(Processor::process_swap(&program, &data, 0, &all[..3], 0, Ok(state(nonce))), Ok(Step::Done));
    assert_eq!(
        Processor::process_swap(&program, &data, 1, &all[..9], 0, Ok(state(nonce))),
        Err(ProgramFailure::NotEnoughAccountKeys)
    );
    assert_eq!(
        Processor::process_swap(&program, &data, 2, &all, 1, Ok(state(nonce))),
        Err(ProgramFailure::NotEnoughAccountKeys)
    );
}

fn first_error(change: impl Fn(&mut Vec<AccountView>, &mut SwapInfo)) -> ProgramFailure {
    let (program, _, _, nonce) = venue(9);
    let mut all = accounts(&[9]);
    let mut info = state(nonce);
    change(&mut all, &mut info);
    let data = vec![Swap { amount_in: 1, minimum_amount_out: 1 }];
    Processor::process_swap(&program, &data, 1, &all, 0, Ok(info)).unwrap_err()
}

#[test]
fn leg_errors_come_in_order() {
    let (program, _, _, _) = venue(9);
    let data = vec![Swap { amount_in: 1, minimum_amount_out: 1 }];
    let mut foreign = accounts(&[9]);
    foreign[3].owner = key(99);
    assert_eq!(
        Processor::process_swap(&program, &data, 1, &foreign, 0, Err(ProgramFailure::InvalidAccountData)),
        Err(ProgramFailure::IncorrectProgramId)
    );
    assert_eq!(
        Processor::process_swap(
            &program,
            &data,
            1,
            &accounts(&[9]),
            0,
            Err(ProgramFailure::UninitializedAccount)
        ),
        Err(ProgramFailure::UninitializedAccount)
    );
    let swap_error = |e| ProgramFailure::Swap(e);
    assert_eq!(
        first_error(|all, _| {
            all[4].key = key(98);
            all[5].key = key(97);
        }),
        swap_error(SwapError::InvalidProgramAddress)
    );
    assert_eq!(
        first_error(|all, info| {
            info.nonce = info.nonce.wrapping_sub(1);
            all[5].key = key(97);
        }),
        swap_error(SwapError::InvalidProgramAddress)
    );
    assert_eq!(
        first_error(|all, _| {
            all[5].key = key(97);
            all[6].key = key(97);
        }),
        swap_error(SwapError::IncorrectSwapAccount)
    );
    assert_eq!(
        first_error(|all, _| {
            all[6].key = key(97);
            all[7].key = key(97);
        }),
        swap_error(SwapError::IncorrectSwapAccount)
    );
    assert_eq!(
        first_error(|all, _| {
            all[6].key = key(61);
            all[1].key = key(61);
        }),
        swap_error(SwapError::InvalidInput)
    );
    assert_eq!(
        first_error(|all, _| {
            all[1].key = key(61);
            all[7].key = key(97);
        }),
        swap_error(SwapError::InvalidInput)
    );
    assert_eq!(
        first_error(|all, _| {
            all[7].key = key(97);
            all[8].key = key(97);
        }),
        swap_error(SwapError::IncorrectPoolMint)
    );
    assert_eq!(
        first_error(|all, _| {
            all[8].key = key(97);
            all[9].key = key(97);
        }),
        swap_error(SwapError::IncorrectFeeAccount)
    );
    assert_eq!(
        first_error(|all, _| all[9].key = key(97)),
        swap_error(SwapError::IncorrectTokenProgramId)
    );
}

#[test]
fn venue_accounts_may_be_swapped_round() {
    let (program, _, _, nonce) = venue(9);
    let mut all = accounts(&[9]);
    all[5].key = key(62);
    all[6].key = key(61);
    let data = vec![Swap { amount_in: 1, minimum_amount_out: 1 }];
    let mut expected = expected_leg(9, data[0]);
    expected.swap_source = key(62);
    expected.swap_destination = key(61);
    assert_eq!(
        Processor::process_swap(&program, &data, 1, &all, 0, Ok(state(nonce))),
        Ok(Step::Invoke(expected))
    );
}

fn token_account_data() -> Vec<u8> {
    let token_account = spl_token::state::Account {
        mint: Pubkey::new_from_array([5u8; 32]),
        owner: Pubkey::new_from_array([6u8; 32]),
        amount: 75569,
        delegate: COption::None,
        state: spl_token::state::AccountState::Initialized,
        is_native: COption::None,
        delegated_amount: 0,
        close_authority: COption::None,
    };
    let mut data = vec![0u8; spl_token::state::Account::LEN];
    spl_token::state::Account::pack(token_account, &mut data).unwrap();
    data
}

#[test]
fn plain_token_account_is_unpacked() {
    let holder = AccountView { key: key(1), owner: key(50), data: token_account_data() };
    let unpacked = Processor::unpack_token_account(&holder, &key(50)).unwrap();
    assert_eq!(unpacked.amount, 75569);
    assert_eq!(unpacked.mint, Pubkey::new_from_array([5u8; 32]));
    assert_eq!(
        Processor::unpack_token_account(&holder, &key(51)),
        Err(SwapError::IncorrectTokenProgramId)
    );
    let blank = AccountView { key: key(1), owner: key(50), data: vec![0u8; 165] };
    assert_eq!(Processor::unpack_token_account(&blank, &key(50)), Err(SwapError::ExpectedAccount));
    let longer = AccountView { key: key(1), owner: key(50), data: [token_account_data(), vec![0]].concat() };
    assert_eq!(Processor::unpack_token_account(&longer, &key(50)), Err(SwapError::ExpectedAccount));
    assert_eq!(Processor::token_account_from(false, None), Err(SwapError::IncorrectTokenProgramId));
    assert_eq!(Processor::token_account_from(true, None), Err(SwapError::ExpectedAccount));
}
