//! What the swap router decides before every leg: the call into the venue,
//! or the error with which the instruction is given up.

use vstd::prelude::*;
use crate::error::{ProgramFailure, SwapError};
use crate::account::{AccountView, Address, address_view, create_program_address, program_address};
use crate::route::instruction::{OOSwapInstruction, Swap, legs, well_formed};
use crate::token::{unpack_account, unpacked_account};

verus! {

/// What the router reads of the state of a venue.
#[derive(Clone, Copy, Debug, PartialEq, Eq)]
pub struct SwapInfo {
    /// Bump seed of the venue's authority.
    pub nonce: u8,
    /// Token program of the venue.
    pub token_program_id: Address,
    /// The venue's account of token A.
    pub token_a: Address,
    /// The venue's account of token B.
    pub token_b: Address,
    /// Mint of the venue's pool tokens.
    pub pool_mint: Address,
    /// Account that collects the venue's fees.
    pub pool_fee_account: Address,
}

/// One call into a venue, signed for the authority of `swap` with `nonce`.
#[derive(Clone, Copy, Debug, PartialEq, Eq)]
pub struct SwapLeg {
    /// Program to call.
    pub program_id: Address,
    /// Token program of the venue.
    pub token_program: Address,
    /// The venue.
    pub swap: Address,
    /// Authority of the venue.
    pub authority: Address,
    /// The user's transfer authority.
    pub user_transfer_authority: Address,
    /// The user's source account.
    pub source: Address,
    /// The venue's account that takes the source token.
    pub swap_source: Address,
    /// The venue's account that gives the destination token.
    pub swap_destination: Address,
    /// The user's destination account.
    pub destination: Address,
    /// Mint of the venue's pool tokens.
    pub pool_mint: Address,
    /// Account that collects the venue's fees.
    pub pool_fee_account: Address,
    /// Bump seed of the venue's authority.
    pub nonce: u8,
    /// Amounts of the leg.
    pub amounts: Swap,
}

/// What comes next in a routed swap.
#[derive(Clone, Copy, Debug, PartialEq, Eq)]
pub enum Step {
    /// Every leg has been handed to its venue.
    Done,
    /// Hand this leg to its venue.
    Invoke(SwapLeg),
}

/// Program state handler.
pub struct Processor {}

/// Number of accounts of the user, which come first.
pub const USER_ACCOUNTS: usize = 3;

/// Number of accounts of every leg.
pub const LEG_ACCOUNTS: usize = 7;

/// Index of the first account of leg `done`.
pub open spec fn leg_start(done: u8) -> int {
    3 + 7 * done
}

/// Outcome of the checks on the accounts of one leg, in the order in which
/// they are made. `leg` holds the seven accounts of the leg: the venue, its
/// authority, its source and destination accounts, its pool mint, its fee
/// account and its token program. `derived` is the address derived for the
/// venue.
pub open spec fn leg_verdict(
    derived: Option<Seq<u8>>,
    token_swap: Result<SwapInfo, ProgramFailure>,
    program_id: Address,
    user: Seq<AccountView>,
    leg: Seq<AccountView>,
    amounts: Swap,
) -> Result<SwapLeg, ProgramFailure> {
    if leg[0].owner@ != program_id@ {
        Err(ProgramFailure::IncorrectProgramId)
    } else {
        match token_swap {
            Err(e) => Err(e),
            Ok(state) => {
                if derived != Some(leg[1].key@) {
                    Err(ProgramFailure::Swap(SwapError::InvalidProgramAddress))
                } else if !(leg[2].key@ == state.token_a@ || leg[2].key@ == state.token_b@) {
                    Err(ProgramFailure::Swap(SwapError::IncorrectSwapAccount))
                } else if !(leg[3].key@ == state.token_a@ || leg[3].key@ == state.token_b@) {
                    Err(ProgramFailure::Swap(SwapError::IncorrectSwapAccount))
                } else if leg[2].key@ == leg[3].key@ {
                    Err(ProgramFailure::Swap(SwapError::InvalidInput))
                } else if leg[2].key@ == user[1].key@ {
                    Err(ProgramFailure::Swap(SwapError::InvalidInput))
                } else if leg[4].key@ != state.pool_mint@ {
                    Err(ProgramFailure::Swap(SwapError::IncorrectPoolMint))
                } else if leg[5].key@ != state.pool_fee_account@ {
                    Err(ProgramFailure::Swap(SwapError::IncorrectFeeAccount))
                } else if leg[6].key@ != state.token_program_id@ {
                    Err(ProgramFailure::Swap(SwapError::IncorrectTokenProgramId))
                } else {
                    Ok(
                        SwapLeg {
                            program_id,
                            token_program: leg[6].key,
                            swap: leg[0].key,
                            authority: leg[1].key,
                            user_transfer_authority: user[0].key,
                            source: user[1].key,
                            swap_source: leg[2].key,
                            swap_destination: leg[3].key,
                            destination: user[2].key,
                            pool_mint: leg[4].key,
                            pool_fee_account: leg[5].key,
                            nonce: state.nonce,
                            amounts,
                        },
                    )
                }
            },
        }
    }
}

/// Outcome of one step of a routed swap after `done` legs, for the address
/// `derived` for the venue of the next leg.
pub open spec fn step_verdict(
    derived: Option<Seq<u8>>,
    token_swap: Result<SwapInfo, ProgramFailure>,
    program_id: Address,
    data: Seq<Swap>,
    swap_info_len: u8,
    accounts: Seq<AccountView>,
    done: u8,
) -> Result<Step, ProgramFailure> {
    if accounts.len() < 3 {
        Err(ProgramFailure::NotEnoughAccountKeys)
    } else if done >= swap_info_len {
        Ok(Step::Done)
    } else if accounts.len() < leg_start(done) + 7 {
        Err(ProgramFailure::NotEnoughAccountKeys)
    } else {
        match leg_verdict(
            derived,
            token_swap,
            program_id,
            accounts.subrange(0, 3),
            accounts.subrange(leg_start(done), leg_start(done) + 7),
            data[done as int],
        ) {
            Ok(leg) => Ok(Step::Invoke(leg)),
            Err(e) => Err(e),
        }
    }
}

/// The address derived for the venue of a leg, where the state of the venue
/// is known.
pub open spec fn leg_authority(
    token_swap: Result<SwapInfo, ProgramFailure>,
    program_id: Address,
    accounts: Seq<AccountView>,
    done: u8,
) -> Option<Seq<u8>> {
    match token_swap {
        Ok(state) => program_address(accounts[leg_start(done)].key@, state.nonce, program_id@),
        Err(_) => None,
    }
}

impl Processor {
    /// The token account that was read off an account of the token program,
    /// or the error for data that hold none.
    pub fn token_account_from(held: bool, account: Option<spl_token::state::Account>) -> (r:
        Result<spl_token::state::Account, SwapError>)
        ensures
            !held ==> r == Err::<spl_token::state::Account, SwapError>(
                SwapError::IncorrectTokenProgramId,
            ),
            held ==> match account {
                Some(a) => r == Ok::<spl_token::state::Account, SwapError>(a),
                None => r == Err::<spl_token::state::Account, SwapError>(
                    SwapError::ExpectedAccount,
                ),
            },
    {
        if !held {
            Err(SwapError::IncorrectTokenProgramId)
        } else {
            match account {
                Some(a) => Ok(a),
                None => Err(SwapError::ExpectedAccount),
            }
        }
    }

    /// Unpacks a token account: the account has to belong to the token
    /// program, and its data have to hold an initialized token account.
    pub fn unpack_token_account(account_info: &AccountView, token_program_id: &Address) -> (r:
        Result<spl_token::state::Account, SwapError>)
        ensures
            account_info.owner@ != token_program_id@ ==> r == Err::<
                spl_token::state::Account,
                SwapError,
            >(SwapError::IncorrectTokenProgramId),
            account_info.owner@ == token_program_id@ ==> match unpacked_account(
                account_info.data@,
            ) {
                Some(a) => r == Ok::<spl_token::state::Account, SwapError>(a),
                None => r == Err::<spl_token::state::Account, SwapError>(
                    SwapError::ExpectedAccount,
                ),
            },
    {
        if !account_info.owner.same(token_program_id) {
            Self::token_account_from(false, None)
        } else {
            Self::token_account_from(true, unpack_account(account_info.data.as_slice()))
        }
    }

    /// The authority for a derived address: the address, or the error for
    /// seeds that yield none.
    pub fn authority_from(derived: Option<Address>) -> (r: Result<Address, SwapError>)
        ensures
            derived matches Some(address) ==> r == Ok::<Address, SwapError>(address),
            derived is None ==> r == Err::<Address, SwapError>(SwapError::InvalidProgramAddress),
    {
        match derived {
            Some(address) => Ok(address),
            None => Err(SwapError::InvalidProgramAddress),
        }
    }

    /// Calculates the authority id by generating a program address.
    pub fn authority_id(program_id: &Address, my_info: &Address, nonce: u8) -> (r: Result<
        Address,
        SwapError,
    >)
        ensures
            r matches Ok(address) ==> program_address(my_info@, nonce, program_id@) == Some(
                address@,
            ),
            r is Err ==> r == Err::<Address, SwapError>(SwapError::InvalidProgramAddress)
                && program_address(my_info@, nonce, program_id@) is None,
    {
        Self::authority_from(create_program_address(my_info, nonce, program_id))
    }

    /// Checks the accounts of one leg, given what unpacking the venue's
    /// state gave and the address derived for the venue, and puts the call
    /// into the venue together.
    pub fn check_leg(
        derived: Option<Address>,
        token_swap: Result<SwapInfo, ProgramFailure>,
        program_id: &Address,
        user: &[AccountView],
        leg: &[AccountView],
        amounts: Swap,
    ) -> (r: Result<SwapLeg, ProgramFailure>)
        requires
            user@.len() == 3,
            leg@.len() == 7,
        ensures
            r == leg_verdict(address_view(derived), token_swap, *program_id, user@, leg@, amounts),
    {
        let swap_info = &leg[0];
        let authority_info = &leg[1];
        let swap_source_info = &leg[2];
        let swap_destination_info = &leg[3];
        let pool_mint_info = &leg[4];
        let pool_fee_account_info = &leg[5];
        let token_program_info = &leg[6];
        if !swap_info.owner.same(program_id) {
            return Err(ProgramFailure::IncorrectProgramId);
        }
        let state = match token_swap {
            Ok(state) => state,
            Err(e) => {
                return Err(e);
            },
        };
        match Self::authority_from(derived) {
            Ok(authority) => {
                if !authority_info.key.same(&authority) {
                    return Err(ProgramFailure::Swap(SwapError::InvalidProgramAddress));
                }
            },
            Err(e) => {
                return Err(ProgramFailure::Swap(e));
            },
        }
        if !(swap_source_info.key.same(&state.token_a) || swap_source_info.key.same(
            &state.token_b,
        )) {
            return Err(ProgramFailure::Swap(SwapError::IncorrectSwapAccount));
        }
        if !(swap_destination_info.key.same(&state.token_a) || swap_destination_info.key.same(
            &state.token_b,
        )) {
            return Err(ProgramFailure::Swap(SwapError::IncorrectSwapAccount));
        }
        if swap_source_info.key.same(&swap_destination_info.key) {
            return Err(ProgramFailure::Swap(SwapError::InvalidInput));
        }
        if swap_source_info.key.same(&user[1].key) {
            return Err(ProgramFailure::Swap(SwapError::InvalidInput));
        }
        if !pool_mint_info.key.same(&state.pool_mint) {
            return Err(ProgramFailure::Swap(SwapError::IncorrectPoolMint));
        }
        if !pool_fee_account_info.key.same(&state.pool_fee_account) {
            return Err(ProgramFailure::Swap(SwapError::IncorrectFeeAccount));
        }
        if !token_program_info.key.same(&state.token_program_id) {
            return Err(ProgramFailure::Swap(SwapError::IncorrectTokenProgramId));
        }
        Ok(
            SwapLeg {
                program_id: *program_id,
                token_program: token_program_info.key,
                swap: swap_info.key,
                authority: authority_info.key,
                user_transfer_authority: user[0].key,
                source: user[1].key,
                swap_source: swap_source_info.key,
                swap_destination: swap_destination_info.key,
                destination: user[2].key,
                pool_mint: pool_mint_info.key,
                pool_fee_account: pool_fee_account_info.key,
                nonce: state.nonce,
                amounts,
            },
        )
    }

    /// Decides the next step of a routed swap after `done` legs.
    ///
    /// The first three accounts are the user's transfer authority, source
    /// and destination; seven accounts follow for every leg. `token_swap` is
    /// what unpacking the data of the next leg's venue gave; it is not read
    /// where there is no next leg or the accounts do not reach it.
    pub fn process_swap(
        program_id: &Address,
        data: &Vec<Swap>,
        swap_info_len: u8,
        accounts: &[AccountView],
        done: u8,
        token_swap: Result<SwapInfo, ProgramFailure>,
    ) -> (r: Result<Step, ProgramFailure>)
        requires
            done < swap_info_len ==> done < data@.len(),
        ensures
            r == step_verdict(
                leg_authority(token_swap, *program_id, accounts@, done),
                token_swap,
                *program_id,
                data@,
                swap_info_len,
                accounts@,
                done,
            ),
    {
        if accounts.len() < USER_ACCOUNTS {
            return Err(ProgramFailure::NotEnoughAccountKeys);
        }
        if done >= swap_info_len {
            return Ok(Step::Done);
        }
        let start: usize = USER_ACCOUNTS + LEG_ACCOUNTS * (done as usize);
        if accounts.len() < start + LEG_ACCOUNTS {
            return Err(ProgramFailure::NotEnoughAccountKeys);
        }
        let user = vstd::slice::slice_subrange(accounts, 0, USER_ACCOUNTS);
        let leg = vstd::slice::slice_subrange(accounts, start, start + LEG_ACCOUNTS);
        let derived = match token_swap {
            Ok(state) => create_program_address(&leg[0].key, state.nonce, program_id),
            Err(_) => None,
        };
        match Self::check_leg(derived, token_swap, program_id, user, leg, data[done as usize]) {
            Ok(leg) => Ok(Step::Invoke(leg)),
            Err(e) => Err(e),
        }
    }

    /// Decides the next step of the instruction in `input` after `done`
    /// legs: the instruction is unpacked, and its legs are taken one by one.
    pub fn process(
        program_id: &Address,
        accounts: &[AccountView],
        input: &[u8],
        done: u8,
        token_swap: Result<SwapInfo, ProgramFailure>,
    ) -> (r: Result<Step, ProgramFailure>)
        ensures
            !well_formed(input@) ==> r == Err::<Step, ProgramFailure>(
                ProgramFailure::Swap(SwapError::InvalidInstruction),
            ),
            well_formed(input@) ==> r == step_verdict(
                leg_authority(token_swap, *program_id, accounts@, done),
                token_swap,
                *program_id,
                legs(input@),
                input@[1],
                accounts@,
                done,
            ),
    {
        Self::process_with_constraints(program_id, accounts, input, done, token_swap)
    }

    /// Decides the next step of the instruction in `input`, as
    /// [`Processor::process`] does.
    pub fn process_with_constraints(
        program_id: &Address,
        accounts: &[AccountView],
        input: &[u8],
        done: u8,
        token_swap: Result<SwapInfo, ProgramFailure>,
    ) -> (r: Result<Step, ProgramFailure>)
        ensures
            !well_formed(input@) ==> r == Err::<Step, ProgramFailure>(
                ProgramFailure::Swap(SwapError::InvalidInstruction),
            ),
            well_formed(input@) ==> r == step_verdict(
                leg_authority(token_swap, *program_id, accounts@, done),
                token_swap,
                *program_id,
                legs(input@),
                input@[1],
                accounts@,
                done,
            ),
    {
        let instruction = match OOSwapInstruction::unpack(input) {
            Ok(instruction) => instruction,
            Err(e) => {
                return Err(ProgramFailure::Swap(e));
            },
        };
        match instruction {
            OOSwapInstruction::OOSwap(swap) => {
                let r = Self::process_swap(
                    program_id,
                    &swap.data,
                    swap.swap_info_len,
                    accounts,
                    done,
                    token_swap,
                );
                r
            },
        }
    }
}

} // verus!
