use oo_route::error::{EscrowError, ProgramFailure};
use oo_route::escrow::instruction::{
    deposit_token_types, initialize, withdraw_token_types, DepositTokenTypes, EscrowInstruction,
    Initialize, WithdrawTokenTypes,
};
use oo_route::escrow::processor::{to_u128, to_u64, Action, Processor, Transfer};
use oo_route::escrow::state::{EscrowState, EscrowV1, EscrowVersion};
use oo_route::account::{AccountMeta, AccountView, Address, Instruction};
use solana_program::program_option::COption;
use solana_program::program_pack::Pack;
use solana_program::pubkey::Pubkey;

const TEST_BUMP_SEED: u8 = 255;
const TEST_TOKEN_PROGRAM_ID: Address = Address { bytes: [1u8; 32] };
const TEST_TOKEN_A: Address = Address { bytes: [2u8; 32] };
const TEST_TOKEN_A_MINT: Address = Address { bytes: [5u8; 32] };
const TEST_AMP: u64 = 1;

fn key(byte: u8) -> Address {
    Address::new_from_array([byte; 32])
}

fn account(key: Address, owner: Address, data: Vec<u8>) -> AccountView {
    AccountView { key, owner, data }
}

fn packed_escrow(bump_seed: u8, token: Address) -> Vec<u8> {
    let state = EscrowVersion::EscrowV1(EscrowV1 {
        is_initialized: true,
        bump_seed,
        token_a: token,
        token_a_mint: token,
    });
    let mut data = vec![0u8; EscrowVersion::LATEST_LEN];
    EscrowVersion::pack(state, &mut data).unwrap();
    data
}

/// Program, escrow account and the authority and bump seed that belong to it.
fn escrow_setup() -> (Address, Address, Address, u8) {
    let program = Pubkey::new_from_array([7u8; 32]);
    let escrow = Pubkey::new_from_array([9u8; 32]);
    let (authority, bump_seed) = Pubkey::find_program_address(&[&escrow.to_bytes()], &program);
    (
        Address::new_from_array(program.to_bytes()),
        Address::new_from_array(escrow.to_bytes()),
        Address::new_from_array(authority.to_bytes()),
        bump_seed,
    )
}

fn transfer_accounts(user_token: Address, escrow_token: Address) -> Vec<AccountView> {
    let (program, escrow, authority, bump_seed) = escrow_setup();
    vec![
        account(escrow, program, packed_escrow(bump_seed, escrow_token)),
        account(authority, key(0), vec![]),
        account(key(20), key(0), vec![]),
        account(user_token, key(0), vec![]),
        account(escrow_token, key(0), vec![]),
        account(user_token, key(0), vec![]),
        account(TEST_TOKEN_PROGRAM_ID, key(0), vec![]),
    ]
}

#[test]
fn swap_version_pack() {
    let swap_info = EscrowVersion::EscrowV1(EscrowV1 {
        is_initialized: true,
        bump_seed: TEST_BUMP_SEED,
        token_a: TEST_TOKEN_A,
        token_a_mint: TEST_TOKEN_A_MINT,
    });

    let mut packed = [0u8; EscrowVersion::LATEST_LEN];
    EscrowVersion::pack(swap_info, &mut packed).unwrap();
    let unpacked = EscrowVersion::unpack(&packed).unwrap();

    assert!(EscrowState::is_initialized(&unpacked));
    assert_eq!(unpacked.bump_seed(), TEST_BUMP_SEED);
    assert_eq!(*unpacked.token_account(), TEST_TOKEN_A);
    assert_eq!(*unpacked.token_mint(), TEST_TOKEN_A_MINT);
}

#[test]
fn swap_v1_pack() {
    let swap_info = EscrowV1 {
        is_initialized: true,
        bump_seed: TEST_BUMP_SEED,
        token_a: TEST_TOKEN_A,
        token_a_mint: TEST_TOKEN_A_MINT,
    };

    let mut packed = [0u8; EscrowV1::LEN];
    EscrowV1::pack_into_slice(&swap_info, &mut packed);
    let unpacked = EscrowV1::unpack(&packed).unwrap();
    assert_eq!(swap_info, unpacked);

    let mut packed = vec![1u8, TEST_BUMP_SEED];
    packed.extend_from_slice(&TEST_TOKEN_PROGRAM_ID.to_bytes());
    packed.extend_from_slice(&TEST_TOKEN_A.to_bytes());
    packed.extend_from_slice(&TEST_TOKEN_A_MINT.to_bytes());
    assert_eq!(packed.len(), EscrowV1::LEN);
    let unpacked = EscrowV1::unpack(&packed).unwrap();
    assert_eq!(swap_info, unpacked);
    // Anything after the 98 bytes of the state makes the buffer invalid.
    packed.extend_from_slice(&TEST_AMP.to_le_bytes());
    packed.extend_from_slice(&[0u8; 24]);
    assert_eq!(EscrowV1::unpack(&packed), Err(ProgramFailure::InvalidAccountData));

    let packed = [0u8; EscrowV1::LEN];
    let swap_info: EscrowV1 = Default::default();
    let unpack_unchecked = EscrowV1::unpack_unchecked(&packed).unwrap();
    assert_eq!(unpack_unchecked, swap_info);
    let err = EscrowV1::unpack(&packed).unwrap_err();
    assert_eq!(err, ProgramFailure::UninitializedAccount);
}

#[test]
fn state_layout() {
    let state = EscrowV1 {
        is_initialized: true,
        bump_seed: 254,
        token_a: key(3),
        token_a_mint: key(4),
    };
    let mut packed = [9u8; 98];
    state.pack_into_slice(&mut packed);
    assert_eq!(packed[0], 1);
    assert_eq!(packed[1], 254);
    assert_eq!(packed[2..34], [9u8; 32]);
    assert_eq!(packed[34..66], [3u8; 32]);
    assert_eq!(packed[66..98], [4u8; 32]);
    let mut longer = [9u8; 100];
    state.pack_into_slice(&mut longer);
    assert_eq!(longer[..98], packed);
    assert_eq!(longer[98..], [9u8, 9]);
}

#[test]
fn state_pack_needs_exact_length() {
    let state = || EscrowV1 { is_initialized: true, bump_seed: 1, token_a: key(3), token_a_mint: key(4) };
    let mut short = [7u8; 97];
    assert_eq!(EscrowV1::pack(state(), &mut short), Err(ProgramFailure::InvalidAccountData));
    assert_eq!(short, [7u8; 97]);
    let mut exact = [7u8; 98];
    assert_eq!(EscrowV1::pack(state(), &mut exact), Ok(()));
    assert_eq!(EscrowV1::unpack(&exact), Ok(state()));
}

#[test]
fn version_pack_writes_version_first() {
    let version = || {
        EscrowVersion::EscrowV1(EscrowV1 {
            is_initialized: true,
            bump_seed: 1,
            token_a: key(3),
            token_a_mint: key(4),
        })
    };
    let mut short = [7u8; 50];
    assert_eq!(EscrowVersion::pack(version(), &mut short), Err(ProgramFailure::InvalidAccountData));
    assert_eq!(short[0], 1);
    assert_eq!(short[1..], [7u8; 49]);
    let mut exact = [7u8; 99];
    assert_eq!(EscrowVersion::pack(version(), &mut exact), Ok(()));
    assert_eq!(exact[..3], [1, 1, 1]);
    assert_eq!(EscrowVersion::unpack(&exact), Ok(version()));
    assert!(EscrowVersion::is_initialized(&exact));
}

#[test]
fn version_unpack_errors() {
    assert_eq!(EscrowVersion::unpack(&[]), Err(ProgramFailure::InvalidAccountData));
    assert_eq!(EscrowVersion::unpack(&[0u8; 99]), Err(ProgramFailure::UninitializedAccount));
    assert_eq!(EscrowVersion::unpack(&[2u8; 99]), Err(ProgramFailure::UninitializedAccount));
    assert_eq!(EscrowVersion::unpack(&[1u8; 98]), Err(ProgramFailure::InvalidAccountData));
    assert_eq!(EscrowVersion::unpack(&[1u8; 100]), Err(ProgramFailure::InvalidAccountData));
    let mut data = [1u8; 99];
    data[1] = 2;
    assert_eq!(EscrowVersion::unpack(&data), Err(ProgramFailure::InvalidAccountData));
    data[1] = 0;
    assert_eq!(EscrowVersion::unpack(&data), Err(ProgramFailure::UninitializedAccount));
    assert!(!EscrowVersion::is_initialized(&data));
    assert!(!EscrowVersion::is_initialized(&[]));
}

#[test]
fn default_state_is_blank() {
    let state = EscrowV1::default();
    assert!(!state.is_initialized);
    assert_eq!(state.bump_seed, 0);
    assert_eq!(state.token_a, key(0));
    assert_eq!(state.token_a_mint, key(0));
}

#[test]
fn instruction_pack() {
    assert_eq!(EscrowInstruction::Initialize(Initialize {}).pack(), vec![0]);
    let deposit = EscrowInstruction::DepositTokenTypes(DepositTokenTypes { token_a_amount: 258 });
    assert_eq!(deposit.pack(), vec![2, 2, 1, 0, 0, 0, 0, 0, 0]);
    let withdraw =
        EscrowInstruction::WithdrawTokenTypes(WithdrawTokenTypes { token_amount: u64::MAX });
    assert_eq!(withdraw.pack(), vec![3, 255, 255, 255, 255, 255, 255, 255, 255]);
}

#[test]
fn instruction_unpack() {
    assert_eq!(
        EscrowInstruction::unpack(&[0]),
        Ok(EscrowInstruction::Initialize(Initialize {}))
    );
    assert_eq!(
        EscrowInstruction::unpack(&[0, 1, 2, 3]),
        Ok(EscrowInstruction::Initialize(Initialize {}))
    );
    assert_eq!(
        EscrowInstruction::unpack(&[2, 2, 1, 0, 0, 0, 0, 0, 0]),
        Ok(EscrowInstruction::DepositTokenTypes(DepositTokenTypes { token_a_amount: 258 }))
    );
    assert_eq!(
        EscrowInstruction::unpack(&[3, 0, 0, 0, 0, 0, 0, 0, 128, 77]),
        Ok(EscrowInstruction::WithdrawTokenTypes(WithdrawTokenTypes { token_amount: 1 << 63 }))
    );
}

#[test]
fn instruction_unpack_errors() {
    assert_eq!(EscrowInstruction::unpack(&[]), Err(EscrowError::InvalidInstruction));
    assert_eq!(EscrowInstruction::unpack(&[1]), Err(EscrowError::InvalidInstruction));
    assert_eq!(EscrowInstruction::unpack(&[4, 0, 0]), Err(EscrowError::InvalidInstruction));
    assert_eq!(EscrowInstruction::unpack(&[2]), Err(EscrowError::InvalidInstruction));
    assert_eq!(
        EscrowInstruction::unpack(&[3, 1, 2, 3, 4, 5, 6, 7]),
        Err(EscrowError::InvalidInstruction)
    );
}

#[test]
fn instruction_round_trip() {
    for amount in [0u64, 1, 255, 256, 75569, u64::MAX] {
        let deposit = EscrowInstruction::DepositTokenTypes(DepositTokenTypes { token_a_amount: amount });
        assert_eq!(EscrowInstruction::unpack(&deposit.pack()), Ok(deposit));
        let withdraw = EscrowInstruction::WithdrawTokenTypes(WithdrawTokenTypes { token_amount: amount });
        assert_eq!(EscrowInstruction::unpack(&withdraw.pack()), Ok(withdraw));
    }
}

#[test]
fn amount_is_read_off_the_front() {
    let input = [1u8, 0, 0, 0, 0, 0, 0, 0, 42, 43];
    let (amount, rest) = EscrowInstruction::unpack_u64(&input).unwrap();
    assert_eq!(amount, 1);
    assert_eq!(rest, [42, 43]);
    assert_eq!(
        EscrowInstruction::unpack_u64(&[1, 2, 3, 4, 5, 6, 7]),
        Err(EscrowError::InvalidInstruction)
    );
}

#[test]
fn conversions() {
    assert_eq!(to_u128(u64::MAX), Ok(u64::MAX as u128));
    assert_eq!(to_u64(75569), Ok(75569));
    assert_eq!(to_u64(u64::MAX as u128), Ok(u64::MAX));
    assert_eq!(to_u64(u64::MAX as u128 + 1), Err(EscrowError::ConversionFailure));
}

#[test]
fn authority_is_the_derived_address() {
    let (program, escrow, authority, bump_seed) = escrow_setup();
    assert_eq!(Processor::authority_id(&program, &escrow, bump_seed), Ok(authority));
    assert_ne!(authority, escrow);
    assert_ne!(authority, program);
    let expected = Pubkey::create_program_address(
        &[&escrow.to_bytes(), &[bump_seed]],
        &Pubkey::new_from_array(program.to_bytes()),
    )
    .unwrap();
    assert_eq!(authority.to_bytes(), expected.to_bytes());
}

#[test]
fn authority_fails_where_the_seeds_yield_none() {
    let (program, escrow, _, _) = escrow_setup();
    let program_key = Pubkey::new_from_array(program.to_bytes());
    let mut refused = 0;
    for bump_seed in 0..=255u8 {
        let expected =
            Pubkey::create_program_address(&[&escrow.to_bytes(), &[bump_seed]], &program_key);
        let got = Processor::authority_id(&program, &escrow, bump_seed);
        match expected {
            Ok(address) => assert_eq!(got, Ok(Address::new_from_array(address.to_bytes()))),
            Err(_) => {
                refused += 1;
                assert_eq!(got, Err(EscrowError::InvalidProgramAddress));
            }
        }
    }
    assert!(refused > 0);
    assert_eq!(Processor::authority_from(None), Err(EscrowError::InvalidProgramAddress));
    assert_eq!(Processor::authority_from(Some(key(3))), Ok(key(3)));
}

#[test]
fn initialize_stores_the_found_bump_seed() {
    let (program, escrow, authority, bump_seed) = escrow_setup();
    let accounts = vec![
        account(escrow, program, vec![0u8; 99]),
        account(authority, key(0), vec![]),
        account(TEST_TOKEN_A, key(0), vec![]),
    ];
    let expected = EscrowVersion::EscrowV1(EscrowV1 {
        is_initialized: true,
        bump_seed,
        token_a: TEST_TOKEN_A,
        token_a_mint: TEST_TOKEN_A,
    });
    assert_eq!(Processor::process_initialize(&program, &accounts), Some(Ok(expected)));
    let expected = EscrowVersion::EscrowV1(EscrowV1 {
        is_initialized: true,
        bump_seed,
        token_a: TEST_TOKEN_A,
        token_a_mint: TEST_TOKEN_A,
    });
    assert_eq!(Processor::process(&program, &accounts, &[0]), Some(Ok(Action::Store(expected))));
}

#[test]
fn initialize_errors() {
    let (program, escrow, authority, bump_seed) = escrow_setup();
    let fresh = || account(escrow, program, vec![0u8; 99]);
    let two = vec![fresh(), account(authority, key(0), vec![])];
    assert_eq!(
        Processor::process_initialize(&program, &two),
        Some(Err(ProgramFailure::NotEnoughAccountKeys))
    );
    let used = vec![
        account(escrow, program, packed_escrow(bump_seed, TEST_TOKEN_A)),
        account(authority, key(0), vec![]),
        account(TEST_TOKEN_A, key(0), vec![]),
    ];
    assert_eq!(
        Processor::process_initialize(&program, &used),
        Some(Err(ProgramFailure::Escrow(EscrowError::AlreadyInUse)))
    );
    let wrong = vec![fresh(), account(key(33), key(0), vec![]), account(TEST_TOKEN_A, key(0), vec![])];
    assert_eq!(
        Processor::process_initialize(&program, &wrong),
        Some(Err(ProgramFailure::Escrow(EscrowError::InvalidProgramAddress)))
    );
    assert_eq!(
        Processor::process_initialize_with((key(33), 1), &two),
        Err(ProgramFailure::NotEnoughAccountKeys)
    );
}

#[test]
fn deposit_orders_a_transfer_into_the_escrow() {
    let (program, escrow, _, bump_seed) = escrow_setup();
    let accounts = transfer_accounts(key(30), TEST_TOKEN_A);
    let expected = Transfer {
        escrow,
        token_program: TEST_TOKEN_PROGRAM_ID,
        source: key(30),
        destination: TEST_TOKEN_A,
        authority: key(20),
        bump_seed,
        amount: 500,
    };
    assert_eq!(Processor::process_deposit_token_types(&program, 500, &accounts), Ok(expected));
    let input = EscrowInstruction::DepositTokenTypes(DepositTokenTypes { token_a_amount: 500 }).pack();
    assert_eq!(
        Processor::process_with_constraints(&program, &accounts, &input),
        Some(Ok(Action::Transfer(expected)))
    );
}

#[test]
fn withdraw_orders_a_transfer_out_of_the_escrow() {
    let (program, escrow, authority, bump_seed) = escrow_setup();
    let accounts = transfer_accounts(key(30), TEST_TOKEN_A);
    let expected = Transfer {
        escrow,
        token_program: TEST_TOKEN_PROGRAM_ID,
        source: TEST_TOKEN_A,
        destination: key(30),
        authority,
        bump_seed,
        amount: 500,
    };
    assert_eq!(
        Processor::process_withdraw_token_types(&program, 500, &accounts),
        Ok(Some(expected))
    );
    assert_eq!(Processor::process_withdraw_token_types(&program, 0, &accounts), Ok(None));
    let input = EscrowInstruction::WithdrawTokenTypes(WithdrawTokenTypes { token_amount: 0 }).pack();
    assert_eq!(Processor::process(&program, &accounts, &input), Some(Ok(Action::Nothing)));
}

#[test]
fn transfer_errors_come_in_order() {
    let (program, _, _, _) = escrow_setup();
    let good = transfer_accounts(key(30), TEST_TOKEN_A);
    assert_eq!(
        Processor::process_deposit_token_types(&program, 1, &good[..6]),
        Err(ProgramFailure::NotEnoughAccountKeys)
    );
    let mut blank = good.clone();
    blank[0].data = vec![0u8; 99];
    blank[0].owner = key(99);
    assert_eq!(
        Processor::process_deposit_token_types(&program, 1, &blank),
        Err(ProgramFailure::UninitializedAccount)
    );
    let mut foreign = good.clone();
    foreign[0].owner = key(99);
    foreign[1].key = key(98);
    assert_eq!(
        Processor::process_deposit_token_types(&program, 1, &foreign),
        Err(ProgramFailure::IncorrectProgramId)
    );
    let mut authority = good.clone();
    authority[1].key = key(98);
    authority[4].key = key(97);
    assert_eq!(
        Processor::process_withdraw_token_types(&program, 1, &authority),
        Err(ProgramFailure::Escrow(EscrowError::InvalidProgramAddress))
    );
    let mut token = good.clone();
    token[4].key = key(97);
    assert_eq!(
        Processor::process_deposit_token_types(&program, 1, &token),
        Err(ProgramFailure::Escrow(EscrowError::IncorrectSwapAccount))
    );
    let same = transfer_accounts(TEST_TOKEN_A, TEST_TOKEN_A);
    assert_eq!(
        Processor::process_deposit_token_types(&program, 1, &same),
        Err(ProgramFailure::Escrow(EscrowError::InvalidInput))
    );
    assert_eq!(
        Processor::process_withdraw_token_types(&program, 0, &same),
        Err(ProgramFailure::Escrow(EscrowError::InvalidInput))
    );
    assert_eq!(
        Processor::process(&program, &good, &[9]),
        Some(Err(ProgramFailure::Escrow(EscrowError::InvalidInstruction)))
    );
}

#[test]
fn check_accounts_without_a_user_account() {
    let (program, escrow, authority, bump_seed) = escrow_setup();
    let state = EscrowVersion::EscrowV1(EscrowV1 {
        is_initialized: true,
        bump_seed,
        token_a: TEST_TOKEN_A,
        token_a_mint: TEST_TOKEN_A_MINT,
    });
    let escrow_account = account(escrow, program, vec![]);
    let authority_account = account(authority, key(0), vec![]);
    let token_account = account(TEST_TOKEN_A, key(0), vec![]);
    assert_eq!(
        Processor::check_accounts(
            &state,
            &program,
            &escrow_account,
            &authority_account,
            &token_account,
            None
        ),
        Ok(())
    );
    assert_eq!(
        Processor::check_accounts(
            &state,
            &program,
            &escrow_account,
            &authority_account,
            &token_account,
            Some(&token_account)
        ),
        Err(ProgramFailure::Escrow(EscrowError::InvalidInput))
    );
    assert_eq!(
        Processor::check_accounts_with(
            None,
            &state,
            &program,
            &escrow_account,
            &authority_account,
            &token_account,
            None
        ),
        Err(ProgramFailure::Escrow(EscrowError::InvalidProgramAddress))
    );
}

fn token_2022_account_data() -> Vec<u8> {
    let token_account = spl_token_2022::state::Account {
        mint: Pubkey::new_from_array([5u8; 32]),
        owner: Pubkey::new_from_array([6u8; 32]),
        amount: 75569,
        delegate: COption::None,
        state: spl_token_2022::state::AccountState::Initialized,
        is_native: COption::None,
        delegated_amount: 0,
        close_authority: COption::None,
    };
    let mut data = vec![0u8; spl_token_2022::state::Account::LEN];
    spl_token_2022::state::Account::pack(token_account, &mut data).unwrap();
    data
}

fn mint_data() -> Vec<u8> {
    let mint = spl_token_2022::state::Mint {
        mint_authority: COption::Some(Pubkey::new_from_array([6u8; 32])),
        supply: 1000,
        decimals: 6,
        is_initialized: true,
        freeze_authority: COption::None,
    };
    let mut data = vec![0u8; spl_token_2022::state::Mint::LEN];
    spl_token_2022::state::Mint::pack(mint, &mut data).unwrap();
    data
}

#[test]
fn token_account_is_unpacked() {
    let holder = account(key(1), key(50), token_2022_account_data());
    let unpacked = Processor::unpack_token_account(&holder, &key(50)).unwrap();
    assert_eq!(unpacked.amount, 75569);
    assert_eq!(unpacked.mint, Pubkey::new_from_array([5u8; 32]));
    assert_eq!(unpacked.owner, Pubkey::new_from_array([6u8; 32]));
    assert_eq!(
        Processor::unpack_token_account(&holder, &key(51)),
        Err(EscrowError::IncorrectTokenProgramId)
    );
    let blank = account(key(1), key(50), vec![0u8; 165]);
    assert_eq!(Processor::unpack_token_account(&blank, &key(50)), Err(EscrowError::ExpectedAccount));
    let short = account(key(1), key(50), vec![1u8; 10]);
    assert_eq!(Processor::unpack_token_account(&short, &key(50)), Err(EscrowError::ExpectedAccount));
}

#[test]
fn known_token_programs_are_accepted_as_owners() {
    for id in [spl_token::id(), spl_token_2022::id()] {
        let owner = Address::new_from_array(id.to_bytes());
        let holder = account(key(1), owner, token_2022_account_data());
        assert_eq!(Processor::unpack_token_account(&holder, &key(51)).unwrap().amount, 75569);
        let minted = account(key(1), owner, mint_data());
        assert_eq!(Processor::unpack_mint(&minted, &key(51)).unwrap().supply, 1000);
    }
    assert_eq!(oo_route::token::TOKEN_PROGRAM_ID, spl_token::id().to_bytes());
    assert_eq!(oo_route::token::TOKEN_2022_PROGRAM_ID, spl_token_2022::id().to_bytes());
}

#[test]
fn mint_is_unpacked() {
    let minted = account(key(1), key(50), mint_data());
    let mint = Processor::unpack_mint(&minted, &key(50)).unwrap();
    assert_eq!(mint.supply, 1000);
    assert_eq!(mint.decimals, 6);
    assert_eq!(Processor::unpack_mint(&minted, &key(51)), Err(EscrowError::IncorrectTokenProgramId));
    let holder = account(key(1), key(50), token_2022_account_data());
    assert_eq!(Processor::unpack_mint(&holder, &key(50)), Err(EscrowError::ExpectedMint));
    assert_eq!(Processor::mint_from(false, None), Err(EscrowError::IncorrectTokenProgramId));
    assert_eq!(Processor::mint_from(true, None), Err(EscrowError::ExpectedMint));
    assert_eq!(
        Processor::token_account_from(true, None),
        Err(EscrowError::ExpectedAccount)
    );
}

#[test]
fn addresses_compare_by_their_bytes() {
    let mut bytes = [3u8; 32];
    assert!(key(3).same(&Address::new_from_array(bytes)));
    bytes[31] = 4;
    assert!(!key(3).same(&Address::new_from_array(bytes)));
    let mut buffer = [0u8; 40];
    Address::new_from_array(bytes).write(&mut buffer, 4);
    assert_eq!(buffer[..4], [0u8; 4]);
    assert_eq!(buffer[4..36], bytes);
    assert_eq!(buffer[36..], [0u8; 4]);
    assert_eq!(Address::read(&buffer, 4).to_bytes(), bytes);
}

fn order(token_program: Address) -> Transfer {
    Transfer {
        escrow: key(10),
        token_program,
        source: key(11),
        destination: key(12),
        authority: key(13),
        bump_seed: 254,
        amount: 258,
    }
}

#[test]
fn transfer_instruction_names_source_destination_and_signer() {
    for id in [spl_token::id(), spl_token_2022::id()] {
        let token_program = Address::new_from_array(id.to_bytes());
        let expected = Instruction {
            program_id: token_program,
            accounts: vec![
                AccountMeta { pubkey: key(11), is_signer: false, is_writable: true },
                AccountMeta { pubkey: key(12), is_signer: false, is_writable: true },
                AccountMeta { pubkey: key(13), is_signer: true, is_writable: false },
            ],
            data: vec![3, 2, 1, 0, 0, 0, 0, 0, 0],
        };
        assert_eq!(Processor::token_transfer(&order(token_program)), Ok(expected));
    }
}

#[test]
fn transfer_instruction_needs_a_token_program() {
    assert_eq!(
        Processor::token_transfer(&order(TEST_TOKEN_PROGRAM_ID)),
        Err(ProgramFailure::IncorrectProgramId)
    );
}

#[test]
fn initialize_instruction_lists_its_accounts() {
    let built = initialize(&key(1), &key(2), &key(3), &key(4), &key(5), &key(6)).unwrap();
    assert_eq!(built.program_id, key(1));
    assert_eq!(built.data, vec![0]);
    assert_eq!(
        built.accounts,
        vec![
            AccountMeta::new(key(3), true),
            AccountMeta::new_readonly(key(4), false),
            AccountMeta::new_readonly(key(5), false),
            AccountMeta::new(key(6), false),
            AccountMeta::new_readonly(key(2), false),
        ]
    );
    assert!(built.accounts[0].is_writable && built.accounts[0].is_signer);
    assert!(!built.accounts[1].is_writable && !built.accounts[1].is_signer);
}

#[test]
fn deposit_and_withdraw_instructions_list_their_accounts() {
    let metas = vec![
        AccountMeta { pubkey: key(3), is_signer: false, is_writable: false },
        AccountMeta { pubkey: key(4), is_signer: false, is_writable: false },
        AccountMeta { pubkey: key(5), is_signer: true, is_writable: false },
        AccountMeta { pubkey: key(6), is_signer: false, is_writable: true },
        AccountMeta { pubkey: key(7), is_signer: false, is_writable: true },
        AccountMeta { pubkey: key(8), is_signer: false, is_writable: true },
        AccountMeta { pubkey: key(2), is_signer: false, is_writable: false },
    ];
    let deposit = deposit_token_types(
        &key(1),
        &key(2),
        &key(3),
        &key(4),
        &key(5),
        &key(6),
        &key(7),
        &key(8),
        DepositTokenTypes { token_a_amount: 258 },
    )
    .unwrap();
    assert_eq!(deposit.program_id, key(1));
    assert_eq!(deposit.accounts, metas);
    assert_eq!(deposit.data, vec![2, 2, 1, 0, 0, 0, 0, 0, 0]);
    let withdraw = withdraw_token_types(
        &key(1),
        &key(2),
        &key(3),
        &key(4),
        &key(5),
        &key(6),
        &key(7),
        &key(8),
        WithdrawTokenTypes { token_amount: 1 },
    )
    .unwrap();
    assert_eq!(withdraw.program_id, key(1));
    assert_eq!(withdraw.accounts, metas);
    assert_eq!(withdraw.data, vec![3, 1, 0, 0, 0, 0, 0, 0, 0]);
}
