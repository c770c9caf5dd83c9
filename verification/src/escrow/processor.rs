//! What the escrow decides on an instruction: which state to store, which
//! transfer to order, or with which error to give up.

use vstd::prelude::*;
use crate::error::{EscrowError, ProgramFailure};
use crate::escrow::instruction::EscrowInstruction;
use crate::escrow::state::{EscrowV1, EscrowVersion, unpack_verdict};
use crate::account::{
    AccountView, Address, Instruction, address_view, create_program_address,
    found_program_address, program_address, try_find_program_address,
};
use crate::token::{
    check_spl_token_program_account, is_token_program, is_transfer, transfer,
    unpack_extended_account, unpack_extended_mint, unpacked_extended_account,
    unpacked_extended_mint,
};

verus! {

/// A token transfer that the escrow orders, signed for the authority of
/// `escrow` with `bump_seed`.
#[derive(Clone, Copy, Debug, PartialEq, Eq)]
pub struct Transfer {
    /// The escrow account.
    pub escrow: Address,
    /// The token program to call.
    pub token_program: Address,
    /// Account to take the tokens from.
    pub source: Address,
    /// Account to give the tokens to.
    pub destination: Address,
    /// Authority over the source account.
    pub authority: Address,
    /// Bump seed of the escrow's authority.
    pub bump_seed: u8,
    /// Amount of tokens.
    pub amount: u64,
}

/// What the program does for an instruction that it accepts.
#[derive(Debug, PartialEq)]
pub enum Action {
    /// Store a state in the escrow account.
    Store(EscrowVersion),
    /// Order a transfer.
    Transfer(Transfer),
    /// Do nothing.
    Nothing,
}

/// Program state handler.
pub struct Processor {}

/// Number of accounts of an initialization.
pub const INITIALIZE_ACCOUNTS: usize = 3;

/// Number of accounts of a deposit and of a withdrawal.
pub const TRANSFER_ACCOUNTS: usize = 7;

/// The address of an account that may be missing.
pub open spec fn key_view(account: Option<&AccountView>) -> Option<Seq<u8>> {
    match account {
        Some(account) => Some(account.key@),
        None => None,
    }
}

/// Outcome of the account checks, in the order in which they are made: the
/// escrow account belongs to the program, the authority is the address
/// `derived` from the escrow account, the token account is the one that the
/// escrow names, and the user's account is another one.
pub open spec fn accounts_verdict(
    derived: Option<Seq<u8>>,
    escrow_token: Seq<u8>,
    program_id: Seq<u8>,
    escrow_owner: Seq<u8>,
    authority: Seq<u8>,
    token_a: Seq<u8>,
    user_token_a: Option<Seq<u8>>,
) -> Result<(), ProgramFailure> {
    if escrow_owner != program_id {
        Err(ProgramFailure::IncorrectProgramId)
    } else if derived != Some(authority) {
        Err(ProgramFailure::Escrow(EscrowError::InvalidProgramAddress))
    } else if token_a != escrow_token {
        Err(ProgramFailure::Escrow(EscrowError::IncorrectSwapAccount))
    } else if user_token_a == Some(token_a) {
        Err(ProgramFailure::Escrow(EscrowError::InvalidInput))
    } else {
        Ok(())
    }
}

/// Outcome of an initialization where the search for the authority of the
/// escrow account found `found`: an escrow that unpacks is in use already,
/// the authority has to be the one found, and the state to store names the
/// token account as account and as mint.
pub open spec fn initialize_verdict(found: Option<(Seq<u8>, u8)>, accounts: Seq<AccountView>) -> Option<
    Result<EscrowVersion, ProgramFailure>,
> {
    if accounts.len() < 3 {
        Some(Err(ProgramFailure::NotEnoughAccountKeys))
    } else if unpack_verdict(accounts[0].data@) is Ok {
        Some(Err(ProgramFailure::Escrow(EscrowError::AlreadyInUse)))
    } else {
        match found {
            None => None,
            Some((authority, bump_seed)) => if accounts[1].key@ != authority {
                Some(Err(ProgramFailure::Escrow(EscrowError::InvalidProgramAddress)))
            } else {
                Some(
                    Ok(
                        EscrowVersion::EscrowV1(
                            EscrowV1 {
                                is_initialized: true,
                                bump_seed,
                                token_a: accounts[2].key,
                                token_a_mint: accounts[2].key,
                            },
                        ),
                    ),
                )
            },
        }
    }
}

/// Outcome of a deposit into an escrow with the given bump seed and token
/// account, for the address `derived` for the escrow account: the transfer
/// from the user's account into the escrow's, on the user's authority.
pub open spec fn deposit_verdict(
    derived: Option<Seq<u8>>,
    bump_seed: u8,
    escrow_token: Seq<u8>,
    program_id: Seq<u8>,
    token_amount: u64,
    accounts: Seq<AccountView>,
) -> Result<Transfer, ProgramFailure> {
    match accounts_verdict(
        derived,
        escrow_token,
        program_id,
        accounts[0].owner@,
        accounts[1].key@,
        accounts[4].key@,
        Some(accounts[3].key@),
    ) {
        Err(e) => Err(e),
        Ok(()) => Ok(
            Transfer {
                escrow: accounts[0].key,
                token_program: accounts[6].key,
                source: accounts[3].key,
                destination: accounts[4].key,
                authority: accounts[2].key,
                bump_seed,
                amount: token_amount,
            },
        ),
    }
}

/// Outcome of a withdrawal from an escrow with the given bump seed and token
/// account, for the address `derived` for the escrow account: the transfer
/// from the escrow's account into the user's, on the escrow's authority, or
/// none for an amount of zero.
pub open spec fn withdraw_verdict(
    derived: Option<Seq<u8>>,
    bump_seed: u8,
    escrow_token: Seq<u8>,
    program_id: Seq<u8>,
    token_amount: u64,
    accounts: Seq<AccountView>,
) -> Result<Option<Transfer>, ProgramFailure> {
    match accounts_verdict(
        derived,
        escrow_token,
        program_id,
        accounts[0].owner@,
        accounts[1].key@,
        accounts[4].key@,
        Some(accounts[5].key@),
    ) {
        Err(e) => Err(e),
        Ok(()) => if token_amount > 0 {
            Ok(
                Some(
                    Transfer {
                        escrow: accounts[0].key,
                        token_program: accounts[6].key,
                        source: accounts[4].key,
                        destination: accounts[5].key,
                        authority: accounts[1].key,
                        bump_seed,
                        amount: token_amount,
                    },
                ),
            )
        } else {
            Ok(None)
        },
    }
}

/// The bump seed in the data of an escrow account.
pub open spec fn stored_bump_seed(data: Seq<u8>) -> u8 {
    data[2]
}

/// The token account in the data of an escrow account.
pub open spec fn stored_token(data: Seq<u8>) -> Seq<u8> {
    data.subrange(35, 67)
}

/// What unpacking finds is what the data of the account hold.
proof fn lemma_stored_fields(data: Seq<u8>, version: EscrowVersion)
    requires
        data.len() == 99,
        version.state().stored_in(data.subrange(1, 99)),
    ensures
        version.state().bump_seed == stored_bump_seed(data),
        version.state().token_a@ == stored_token(data),
{
    let rest = data.subrange(1, 99);
    assert(rest[1] == data[2]);
    assert(rest.subrange(34, 66) =~= data.subrange(35, 67));
}

/// Whether the account belongs to the named token program or to one of the
/// two known ones.
pub open spec fn held_by_token_program(owner: Seq<u8>, token_program_id: Seq<u8>) -> bool {
    owner == token_program_id || is_token_program(owner)
}

impl Processor {
    /// The token account that was read off an account of a token program,
    /// or the error for data that hold none.
    pub fn token_account_from(
        held: bool,
        account: Option<spl_token_2022::state::Account>,
    ) -> (r: Result<spl_token_2022::state::Account, EscrowError>)
        ensures
            !held ==> r == Err::<spl_token_2022::state::Account, EscrowError>(
                EscrowError::IncorrectTokenProgramId,
            ),
            held ==> match account {
                Some(a) => r == Ok::<spl_token_2022::state::Account, EscrowError>(a),
                None => r == Err::<spl_token_2022::state::Account, EscrowError>(
                    EscrowError::ExpectedAccount,
                ),
            },
    {
        if !held {
            Err(EscrowError::IncorrectTokenProgramId)
        } else {
            match account {
                Some(a) => Ok(a),
                None => Err(EscrowError::ExpectedAccount),
            }
        }
    }

    /// Unpacks a token account: the account has to belong to the named
    /// token program or to one of the two known ones, and its data have to
    /// hold an initialized token account.
    pub fn unpack_token_account(account_info: &AccountView, token_program_id: &Address) -> (r:
        Result<spl_token_2022::state::Account, EscrowError>)
        ensures
            !held_by_token_program(account_info.owner@, token_program_id@) ==> r == Err::<
                spl_token_2022::state::Account,
                EscrowError,
            >(EscrowError::IncorrectTokenProgramId),
            held_by_token_program(account_info.owner@, token_program_id@) ==> match
                unpacked_extended_account(account_info.data@) {
                Some(a) => r == Ok::<spl_token_2022::state::Account, EscrowError>(a),
                None => r == Err::<spl_token_2022::state::Account, EscrowError>(
                    EscrowError::ExpectedAccount,
                ),
            },
    {
        if !account_info.owner.same(token_program_id) && !check_spl_token_program_account(
            &account_info.owner,
        ) {
            Self::token_account_from(false, None)
        } else {
            Self::token_account_from(true, unpack_extended_account(account_info.data.as_slice()))
        }
    }

    /// The mint that was read off an account of a token program, or the
    /// error for data that hold none.
    pub fn mint_from(held: bool, mint: Option<spl_token_2022::state::Mint>) -> (r: Result<
        spl_token_2022::state::Mint,
        EscrowError,
    >)
        ensures
            !held ==> r == Err::<spl_token_2022::state::Mint, EscrowError>(
                EscrowError::IncorrectTokenProgramId,
            ),
            held ==> match mint {
                Some(m) => r == Ok::<spl_token_2022::state::Mint, EscrowError>(m),
                None => r == Err::<spl_token_2022::state::Mint, EscrowError>(
                    EscrowError::ExpectedMint,
                ),
            },
    {
        if !held {
            Err(EscrowError::IncorrectTokenProgramId)
        } else {
            match mint {
                Some(m) => Ok(m),
                None => Err(EscrowError::ExpectedMint),
            }
        }
    }

    /// Unpacks a mint: the account has to belong to the named token program
    /// or to one of the two known ones, and its data have to hold an
    /// initialized mint.
    pub fn unpack_mint(account_info: &AccountView, token_program_id: &Address) -> (r: Result<
        spl_token_2022::state::Mint,
        EscrowError,
    >)
        ensures
            !held_by_token_program(account_info.owner@, token_program_id@) ==> r == Err::<
                spl_token_2022::state::Mint,
                EscrowError,
            >(EscrowError::IncorrectTokenProgramId),
            held_by_token_program(account_info.owner@, token_program_id@) ==> match
                unpacked_extended_mint(account_info.data@) {
                Some(m) => r == Ok::<spl_token_2022::state::Mint, EscrowError>(m),
                None => r == Err::<spl_token_2022::state::Mint, EscrowError>(
                    EscrowError::ExpectedMint,
                ),
            },
    {
        if !account_info.owner.same(token_program_id) && !check_spl_token_program_account(
            &account_info.owner,
        ) {
            Self::mint_from(false, None)
        } else {
            Self::mint_from(true, unpack_extended_mint(account_info.data.as_slice()))
        }
    }

    /// The instruction for the token program that carries out a transfer.
    /// It is signed for the authority of the escrow, with the escrow's
    /// address and bump seed as seeds. A program that is neither of the two
    /// token programs is refused.
    pub fn token_transfer(order: &Transfer) -> (r: Result<Instruction, ProgramFailure>)
        ensures
            !is_token_program(order.token_program@) ==> r == Err::<Instruction, ProgramFailure>(
                ProgramFailure::IncorrectProgramId,
            ),
            is_token_program(order.token_program@) ==> (r matches Ok(instruction) && is_transfer(
                instruction,
                order.token_program@,
                order.source@,
                order.destination@,
                order.authority@,
                order.amount,
            )),
    {
        match transfer(
            &order.token_program,
            &order.source,
            &order.destination,
            &order.authority,
            order.amount,
        ) {
            Some(instruction) => Ok(instruction),
            None => Err(ProgramFailure::IncorrectProgramId),
        }
    }

    /// The authority for a derived address: the address, or the error for
    /// seeds that yield none.
    pub fn authority_from(derived: Option<Address>) -> (r: Result<Address, EscrowError>)
        ensures
            derived matches Some(address) ==> r == Ok::<Address, EscrowError>(address),
            derived is None ==> r == Err::<Address, EscrowError>(
                EscrowError::InvalidProgramAddress,
            ),
    {
        match derived {
            Some(address) => Ok(address),
            None => Err(EscrowError::InvalidProgramAddress),
        }
    }

    /// Calculates the authority id by generating a program address.
    pub fn authority_id(program_id: &Address, my_info: &Address, bump_seed: u8) -> (r: Result<
        Address,
        EscrowError,
    >)
        ensures
            r matches Ok(address) ==> program_address(my_info@, bump_seed, program_id@) == Some(
                address@,
            ),
            r is Err ==> r == Err::<Address, EscrowError>(EscrowError::InvalidProgramAddress)
                && program_address(my_info@, bump_seed, program_id@) is None,
    {
        Self::authority_from(create_program_address(my_info, bump_seed, program_id))
    }

    /// Checks the accounts of an instruction against the escrow, given the
    /// address derived for the escrow account.
    pub fn check_accounts_with(
        derived: Option<Address>,
        escrow: &EscrowVersion,
        program_id: &Address,
        escrow_account_info: &AccountView,
        authority_info: &AccountView,
        token_a_info: &AccountView,
        user_token_a_info: Option<&AccountView>,
    ) -> (r: Result<(), ProgramFailure>)
        ensures
            r == accounts_verdict(
                address_view(derived),
                escrow.state().token_a@,
                program_id@,
                escrow_account_info.owner@,
                authority_info.key@,
                token_a_info.key@,
                key_view(user_token_a_info),
            ),
    {
        if !escrow_account_info.owner.same(program_id) {
            return Err(ProgramFailure::IncorrectProgramId);
        }
        match Self::authority_from(derived) {
            Ok(authority) => {
                if !authority_info.key.same(&authority) {
                    return Err(ProgramFailure::Escrow(EscrowError::InvalidProgramAddress));
                }
            },
            Err(e) => {
                return Err(ProgramFailure::Escrow(e));
            },
        }
        let token_account = match escrow {
            EscrowVersion::EscrowV1(state) => &state.token_a,
        };
        if !token_a_info.key.same(token_account) {
            return Err(ProgramFailure::Escrow(EscrowError::IncorrectSwapAccount));
        }
        if let Some(user_token_a_info) = user_token_a_info {
            if token_a_info.key.same(&user_token_a_info.key) {
                return Err(ProgramFailure::Escrow(EscrowError::InvalidInput));
            }
        }
        Ok(())
    }

    /// Checks the accounts of an instruction against the escrow: the escrow
    /// account belongs to the program, the authority is the address derived
    /// from it, the token account is the escrow's, and the user's account is
    /// another one.
    pub fn check_accounts(
        escrow: &EscrowVersion,
        program_id: &Address,
        escrow_account_info: &AccountView,
        authority_info: &AccountView,
        token_a_info: &AccountView,
        user_token_a_info: Option<&AccountView>,
    ) -> (r: Result<(), ProgramFailure>)
        ensures
            r == accounts_verdict(
                program_address(
                    escrow_account_info.key@,
                    escrow.state().bump_seed,
                    program_id@,
                ),
                escrow.state().token_a@,
                program_id@,
                escrow_account_info.owner@,
                authority_info.key@,
                token_a_info.key@,
                key_view(user_token_a_info),
            ),
    {
        let bump_seed = match escrow {
            EscrowVersion::EscrowV1(state) => state.bump_seed,
        };
        let derived = create_program_address(&escrow_account_info.key, bump_seed, program_id);
        Self::check_accounts_with(
            derived,
            escrow,
            program_id,
            escrow_account_info,
            authority_info,
            token_a_info,
            user_token_a_info,
        )
    }

    /// Decides an initialization, given the authority and bump seed found
    /// for the escrow account: the state to store in the account.
    ///
    /// The accounts are the escrow, its authority and the token account. An
    /// escrow that is initialized already is refused, and so is an authority
    /// that is not the one found.
    pub fn process_initialize_with(found: (Address, u8), accounts: &[AccountView]) -> (r: Result<
        EscrowVersion,
        ProgramFailure,
    >)
        ensures
            Some(r) == initialize_verdict(Some((found.0@, found.1)), accounts@),
    {
        if accounts.len() < INITIALIZE_ACCOUNTS {
            return Err(ProgramFailure::NotEnoughAccountKeys);
        }
        let escrow_info = &accounts[0];
        let authority_info = &accounts[1];
        let token_info = &accounts[2];
        if EscrowVersion::is_initialized(escrow_info.data.as_slice()) {
            return Err(ProgramFailure::Escrow(EscrowError::AlreadyInUse));
        }
        let (escrow_authority, bump_seed) = found;
        if !authority_info.key.same(&escrow_authority) {
            return Err(ProgramFailure::Escrow(EscrowError::InvalidProgramAddress));
        }
        Ok(
            EscrowVersion::EscrowV1(
                EscrowV1 {
                    is_initialized: true,
                    bump_seed,
                    token_a: token_info.key,
                    token_a_mint: token_info.key,
                },
            ),
        )
    }

    /// Decides an initialization: the state to store in the escrow account,
    /// or `None` where the search finds no authority for it.
    pub fn process_initialize(program_id: &Address, accounts: &[AccountView]) -> (r: Option<
        Result<EscrowVersion, ProgramFailure>,
    >)
        ensures
            accounts@.len() >= 1 ==> r == initialize_verdict(
                found_program_address(accounts@[0].key@, program_id@),
                accounts@,
            ),
            accounts@.len() == 0 ==> r == initialize_verdict(None, accounts@),
    {
        if accounts.len() < INITIALIZE_ACCOUNTS {
            return Some(Err(ProgramFailure::NotEnoughAccountKeys));
        }
        if EscrowVersion::is_initialized(accounts[0].data.as_slice()) {
            return Some(Err(ProgramFailure::Escrow(EscrowError::AlreadyInUse)));
        }
        match try_find_program_address(&accounts[0].key, program_id) {
            Some(found) => Some(Self::process_initialize_with(found, accounts)),
            None => None,
        }
    }

    /// Decides a deposit, given the state of the escrow and the address
    /// derived for the escrow account.
    ///
    /// The accounts are the escrow, its authority, the user's transfer
    /// authority, the user's token account, the escrow's token account, one
    /// account that is not read, and the token program.
    pub fn deposit_with(
        derived: Option<Address>,
        escrow: &EscrowVersion,
        program_id: &Address,
        token_amount: u64,
        accounts: &[AccountView],
    ) -> (r: Result<Transfer, ProgramFailure>)
        requires
            accounts@.len() >= 7,
        ensures
            r == deposit_verdict(
                address_view(derived),
                escrow.state().bump_seed,
                escrow.state().token_a@,
                program_id@,
                token_amount,
                accounts@,
            ),
    {
        match Self::check_accounts_with(
            derived,
            escrow,
            program_id,
            &accounts[0],
            &accounts[1],
            &accounts[4],
            Some(&accounts[3]),
        ) {
            Ok(()) => {},
            Err(e) => {
                return Err(e);
            },
        }
        let bump_seed = match escrow {
            EscrowVersion::EscrowV1(state) => state.bump_seed,
        };
        Ok(
            Transfer {
                escrow: accounts[0].key,
                token_program: accounts[6].key,
                source: accounts[3].key,
                destination: accounts[4].key,
                authority: accounts[2].key,
                bump_seed,
                amount: token_amount,
            },
        )
    }

    /// Decides a deposit: the transfer to order.
    ///
    /// Fewer than seven accounts are refused first, then escrow data that do
    /// not unpack, then accounts that fail the checks.
    pub fn process_deposit_token_types(
        program_id: &Address,
        token_amount: u64,
        accounts: &[AccountView],
    ) -> (r: Result<Transfer, ProgramFailure>)
        ensures
            accounts@.len() < 7 ==> r == Err::<Transfer, ProgramFailure>(
                ProgramFailure::NotEnoughAccountKeys,
            ),
            accounts@.len() >= 7 ==> match unpack_verdict(accounts@[0].data@) {
                Err(e) => r == Err::<Transfer, ProgramFailure>(e),
                Ok(()) => r == deposit_verdict(
                    program_address(
                        accounts@[0].key@,
                        stored_bump_seed(accounts@[0].data@),
                        program_id@,
                    ),
                    stored_bump_seed(accounts@[0].data@),
                    stored_token(accounts@[0].data@),
                    program_id@,
                    token_amount,
                    accounts@,
                ),
            },
    {
        if accounts.len() < TRANSFER_ACCOUNTS {
            return Err(ProgramFailure::NotEnoughAccountKeys);
        }
        let token_escrow = match EscrowVersion::unpack(accounts[0].data.as_slice()) {
            Ok(version) => version,
            Err(e) => {
                return Err(e);
            },
        };
        proof {
            lemma_stored_fields(accounts@[0].data@, token_escrow);
        }
        let bump_seed = match &token_escrow {
            EscrowVersion::EscrowV1(state) => state.bump_seed,
        };
        let derived = create_program_address(&accounts[0].key, bump_seed, program_id);
        Self::deposit_with(derived, &token_escrow, program_id, token_amount, accounts)
    }

    /// Decides a withdrawal, given the state of the escrow and the address
    /// derived for the escrow account.
    ///
    /// The accounts are the escrow, its authority, the user's transfer
    /// authority, one account that is not read, the escrow's token account,
    /// the user's token account, and the token program.
    pub fn withdraw_with(
        derived: Option<Address>,
        escrow: &EscrowVersion,
        program_id: &Address,
        token_amount: u64,
        accounts: &[AccountView],
    ) -> (r: Result<Option<Transfer>, ProgramFailure>)
        requires
            accounts@.len() >= 7,
        ensures
            r == withdraw_verdict(
                address_view(derived),
                escrow.state().bump_seed,
                escrow.state().token_a@,
                program_id@,
                token_amount,
                accounts@,
            ),
    {
        match Self::check_accounts_with(
            derived,
            escrow,
            program_id,
            &accounts[0],
            &accounts[1],
            &accounts[4],
            Some(&accounts[5]),
        ) {
            Ok(()) => {},
            Err(e) => {
                return Err(e);
            },
        }
        let bump_seed = match escrow {
            EscrowVersion::EscrowV1(state) => state.bump_seed,
        };
        if token_amount > 0 {
            Ok(
                Some(
                    Transfer {
                        escrow: accounts[0].key,
                        token_program: accounts[6].key,
                        source: accounts[4].key,
                        destination: accounts[5].key,
                        authority: accounts[1].key,
                        bump_seed,
                        amount: token_amount,
                    },
                ),
            )
        } else {
            Ok(None)
        }
    }

    /// Decides a withdrawal: the transfer to order, or none for an amount of
    /// zero.
    ///
    /// Fewer than seven accounts are refused first, then escrow data that do
    /// not unpack, then accounts that fail the checks.
    pub fn process_withdraw_token_types(
        program_id: &Address,
        token_amount: u64,
        accounts: &[AccountView],
    ) -> (r: Result<Option<Transfer>, ProgramFailure>)
        ensures
            accounts@.len() < 7 ==> r == Err::<Option<Transfer>, ProgramFailure>(
                ProgramFailure::NotEnoughAccountKeys,
            ),
            accounts@.len() >= 7 ==> match unpack_verdict(accounts@[0].data@) {
                Err(e) => r == Err::<Option<Transfer>, ProgramFailure>(e),
                Ok(()) => r == withdraw_verdict(
                    program_address(
                        accounts@[0].key@,
                        stored_bump_seed(accounts@[0].data@),
                        program_id@,
                    ),
                    stored_bump_seed(accounts@[0].data@),
                    stored_token(accounts@[0].data@),
                    program_id@,
                    token_amount,
                    accounts@,
                ),
            },
    {
        if accounts.len() < TRANSFER_ACCOUNTS {
            return Err(ProgramFailure::NotEnoughAccountKeys);
        }
        let token_escrow = match EscrowVersion::unpack(accounts[0].data.as_slice()) {
            Ok(version) => version,
            Err(e) => {
                return Err(e);
            },
        };
        proof {
            lemma_stored_fields(accounts@[0].data@, token_escrow);
        }
        let bump_seed = match &token_escrow {
            EscrowVersion::EscrowV1(state) => state.bump_seed,
        };
        let derived = create_program_address(&accounts[0].key, bump_seed, program_id);
        Self::withdraw_with(derived, &token_escrow, program_id, token_amount, accounts)
    }

    /// Decides an instruction: what to do for it, the error with which it is
    /// refused, or `None` where an initialization finds no authority.
    pub fn process(program_id: &Address, accounts: &[AccountView], input: &[u8]) -> (r: Option<
        Result<Action, ProgramFailure>,
    >)
        ensures
            Self::decided(program_id@, accounts@, input@, r),
    {
        Self::process_with_constraints(program_id, accounts, input)
    }

    /// What [`Processor::process`] owes for an instruction: the instruction
    /// is unpacked, and its kind decides which of the three decisions is
    /// made.
    pub open spec fn decided(
        program_id: Seq<u8>,
        accounts: Seq<AccountView>,
        input: Seq<u8>,
        r: Option<Result<Action, ProgramFailure>>,
    ) -> bool {
        match EscrowInstruction::decoded(input) {
            Err(e) => r == Some(Err::<Action, ProgramFailure>(ProgramFailure::Escrow(e))),
            Ok(EscrowInstruction::Initialize(_)) => {
                let found = if accounts.len() >= 1 {
                    found_program_address(accounts[0].key@, program_id)
                } else {
                    None
                };
                match initialize_verdict(found, accounts) {
                    None => r is None,
                    Some(Ok(version)) => r == Some(
                        Ok::<Action, ProgramFailure>(Action::Store(version)),
                    ),
                    Some(Err(e)) => r == Some(Err::<Action, ProgramFailure>(e)),
                }
            },
            Ok(EscrowInstruction::DepositTokenTypes(deposit)) => {
                if accounts.len() < 7 {
                    r == Some(Err::<Action, ProgramFailure>(ProgramFailure::NotEnoughAccountKeys))
                } else {
                    match unpack_verdict(accounts[0].data@) {
                        Err(e) => r == Some(Err::<Action, ProgramFailure>(e)),
                        Ok(()) => match deposit_verdict(
                            program_address(
                                accounts[0].key@,
                                stored_bump_seed(accounts[0].data@),
                                program_id,
                            ),
                            stored_bump_seed(accounts[0].data@),
                            stored_token(accounts[0].data@),
                            program_id,
                            deposit.token_a_amount,
                            accounts,
                        ) {
                            Ok(transfer) => r == Some(
                                Ok::<Action, ProgramFailure>(Action::Transfer(transfer)),
                            ),
                            Err(e) => r == Some(Err::<Action, ProgramFailure>(e)),
                        },
                    }
                }
            },
            Ok(EscrowInstruction::WithdrawTokenTypes(withdraw)) => {
                if accounts.len() < 7 {
                    r == Some(Err::<Action, ProgramFailure>(ProgramFailure::NotEnoughAccountKeys))
                } else {
                    match unpack_verdict(accounts[0].data@) {
                        Err(e) => r == Some(Err::<Action, ProgramFailure>(e)),
                        Ok(()) => match withdraw_verdict(
                            program_address(
                                accounts[0].key@,
                                stored_bump_seed(accounts[0].data@),
                                program_id,
                            ),
                            stored_bump_seed(accounts[0].data@),
                            stored_token(accounts[0].data@),
                            program_id,
                            withdraw.token_amount,
                            accounts,
                        ) {
                            Ok(Some(transfer)) => r == Some(
                                Ok::<Action, ProgramFailure>(Action::Transfer(transfer)),
                            ),
                            Ok(None) => r == Some(Ok::<Action, ProgramFailure>(Action::Nothing)),
                            Err(e) => r == Some(Err::<Action, ProgramFailure>(e)),
                        },
                    }
                }
            },
        }
    }

    /// Decides an instruction, as [`Processor::process`] does.
    pub fn process_with_constraints(
        program_id: &Address,
        accounts: &[AccountView],
        input: &[u8],
    ) -> (r: Option<Result<Action, ProgramFailure>>)
        ensures
            Self::decided(program_id@, accounts@, input@, r),
    {
        let instruction = match EscrowInstruction::unpack(input) {
            Ok(instruction) => instruction,
            Err(e) => {
                return Some(Err(ProgramFailure::Escrow(e)));
            },
        };
        match instruction {
            EscrowInstruction::Initialize(_) => {
                match Self::process_initialize(program_id, accounts) {
                    Some(Ok(version)) => Some(Ok(Action::Store(version))),
                    Some(Err(e)) => Some(Err(e)),
                    None => None,
                }
            },
            EscrowInstruction::DepositTokenTypes(deposit) => {
                match Self::process_deposit_token_types(
                    program_id,
                    deposit.token_a_amount,
                    accounts,
                ) {
                    Ok(transfer) => Some(Ok(Action::Transfer(transfer))),
                    Err(e) => Some(Err(e)),
                }
            },
            EscrowInstruction::WithdrawTokenTypes(withdraw) => {
                match Self::process_withdraw_token_types(
                    program_id,
                    withdraw.token_amount,
                    accounts,
                ) {
                    Ok(Some(transfer)) => Some(Ok(Action::Transfer(transfer))),
                    Ok(None) => Some(Ok(Action::Nothing)),
                    Err(e) => Some(Err(e)),
                }
            },
        }
    }
}

/// Widens an amount to 128 bits.
pub fn to_u128(val: u64) -> (r: Result<u128, EscrowError>)
    ensures
        r == Ok::<u128, EscrowError>(val as u128),
{
    Ok(val as u128)
}

/// Narrows an amount to 64 bits, where it fits.
pub fn to_u64(val: u128) -> (r: Result<u64, EscrowError>)
    ensures
        val <= u64::MAX ==> r == Ok::<u64, EscrowError>(val as u64),
        val > u64::MAX ==> r == Err::<u64, EscrowError>(EscrowError::ConversionFailure),
{
    if val <= u64::MAX as u128 {
        Ok(val as u64)
    } else {
        Err(EscrowError::ConversionFailure)
    }
}

} // verus!
