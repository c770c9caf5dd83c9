//! Instruction types of the escrow and their wire format.
//!
//! An instruction is one tag byte, followed for a deposit or a withdrawal by
//! the amount as eight little-endian bytes.

use vstd::prelude::*;
use vstd::bytes::{
    lemma_auto_spec_u64_to_from_le_bytes, spec_u64_from_le_bytes, spec_u64_to_le_bytes,
    u64_from_le_bytes, u64_to_le_bytes,
};
use vstd::slice::slice_subrange;
use crate::error::{EscrowError, ProgramFailure};
use crate::account::{AccountMeta, Address, Instruction};

verus! {

/// Initialize instruction data.
#[derive(Clone, Copy, Debug, PartialEq, Eq, Structural)]
pub struct Initialize {}

/// Deposit instruction data.
#[derive(Clone, Copy, Debug, PartialEq, Eq, Structural)]
pub struct DepositTokenTypes {
    /// Amount of the token to deposit.
    pub token_a_amount: u64,
}

/// Withdraw instruction data.
#[derive(Clone, Copy, Debug, PartialEq, Eq, Structural)]
pub struct WithdrawTokenTypes {
    /// Amount of the token to receive.
    pub token_amount: u64,
}

/// Instructions supported by the escrow.
#[derive(Clone, Copy, Debug, PartialEq, Eq, Structural)]
pub enum EscrowInstruction {
    /// Initializes a new escrow.
    Initialize(Initialize),
    /// Deposits tokens into the escrow.
    DepositTokenTypes(DepositTokenTypes),
    /// Withdraws tokens from the escrow.
    WithdrawTokenTypes(WithdrawTokenTypes),
}

/// Tag of [`EscrowInstruction::Initialize`].
pub const TAG_INITIALIZE: u8 = 0;

/// Tag of [`EscrowInstruction::DepositTokenTypes`].
pub const TAG_DEPOSIT: u8 = 2;

/// Tag of [`EscrowInstruction::WithdrawTokenTypes`].
pub const TAG_WITHDRAW: u8 = 3;

/// The amount that the first eight bytes of `input` hold, if there are eight.
pub open spec fn leading_u64(input: Seq<u8>) -> Result<u64, EscrowError> {
    if input.len() >= 8 {
        Ok(spec_u64_from_le_bytes(input.subrange(0, 8)))
    } else {
        Err(EscrowError::InvalidInstruction)
    }
}

impl EscrowInstruction {
    /// The instruction that a byte buffer stands for. Bytes after the
    /// instruction are ignored.
    pub open spec fn decoded(input: Seq<u8>) -> Result<EscrowInstruction, EscrowError> {
        if input.len() == 0 {
            Err(EscrowError::InvalidInstruction)
        } else if input[0] == TAG_INITIALIZE {
            Ok(EscrowInstruction::Initialize(Initialize {  }))
        } else if input[0] == TAG_DEPOSIT {
            match leading_u64(input.subrange(1, input.len() as int)) {
                Ok(amount) => Ok(
                    EscrowInstruction::DepositTokenTypes(
                        DepositTokenTypes { token_a_amount: amount },
                    ),
                ),
                Err(e) => Err(e),
            }
        } else if input[0] == TAG_WITHDRAW {
            match leading_u64(input.subrange(1, input.len() as int)) {
                Ok(amount) => Ok(
                    EscrowInstruction::WithdrawTokenTypes(
                        WithdrawTokenTypes { token_amount: amount },
                    ),
                ),
                Err(e) => Err(e),
            }
        } else {
            Err(EscrowError::InvalidInstruction)
        }
    }

    /// The bytes that stand for an instruction.
    pub open spec fn encoded(self) -> Seq<u8> {
        match self {
            EscrowInstruction::Initialize(_) => seq![TAG_INITIALIZE],
            EscrowInstruction::DepositTokenTypes(deposit) => seq![TAG_DEPOSIT]
                + spec_u64_to_le_bytes(deposit.token_a_amount),
            EscrowInstruction::WithdrawTokenTypes(withdraw) => seq![TAG_WITHDRAW]
                + spec_u64_to_le_bytes(withdraw.token_amount),
        }
    }

    /// Unpacks a byte buffer into an instruction.
    pub fn unpack(input: &[u8]) -> (r: Result<Self, EscrowError>)
        ensures
            r == Self::decoded(input@),
    {
        if input.len() == 0 {
            return Err(EscrowError::InvalidInstruction);
        }
        let tag = input[0];
        let rest = slice_subrange(input, 1, input.len());
        if tag == TAG_INITIALIZE {
            Ok(Self::Initialize(Initialize {  }))
        } else if tag == TAG_DEPOSIT {
            match Self::unpack_u64(rest) {
                Ok((amount, _rest)) => Ok(
                    Self::DepositTokenTypes(DepositTokenTypes { token_a_amount: amount }),
                ),
                Err(e) => Err(e),
            }
        } else if tag == TAG_WITHDRAW {
            match Self::unpack_u64(rest) {
                Ok((amount, _rest)) => Ok(
                    Self::WithdrawTokenTypes(WithdrawTokenTypes { token_amount: amount }),
                ),
                Err(e) => Err(e),
            }
        } else {
            Err(EscrowError::InvalidInstruction)
        }
    }

    /// Reads a little-endian amount off the front of `input` and returns it
    /// with the bytes that follow.
    pub fn unpack_u64(input: &[u8]) -> (r: Result<(u64, &[u8]), EscrowError>)
        ensures
            input@.len() < 8 ==> r == Err::<(u64, &[u8]), EscrowError>(
                EscrowError::InvalidInstruction,
            ),
            input@.len() >= 8 ==> (r matches Ok((amount, rest)) && Ok::<u64, EscrowError>(amount)
                == leading_u64(input@) && rest@ == input@.subrange(8, input@.len() as int)),
    {
        if input.len() >= 8 {
            let amount = u64_from_le_bytes(slice_subrange(input, 0, 8));
            let rest = slice_subrange(input, 8, input.len());
            Ok((amount, rest))
        } else {
            Err(EscrowError::InvalidInstruction)
        }
    }

    /// Packs an instruction into a byte buffer.
    pub fn pack(&self) -> (buf: Vec<u8>)
        ensures
            buf@ == self.encoded(),
    {
        let mut buf: Vec<u8> = Vec::new();
        match self {
            Self::Initialize(_) => {
                buf.push(TAG_INITIALIZE);
            },
            Self::DepositTokenTypes(deposit) => {
                buf.push(TAG_DEPOSIT);
                let mut amount = u64_to_le_bytes(deposit.token_a_amount);
                buf.append(&mut amount);
            },
            Self::WithdrawTokenTypes(withdraw) => {
                buf.push(TAG_WITHDRAW);
                let mut amount = u64_to_le_bytes(withdraw.token_amount);
                buf.append(&mut amount);
            },
        }
        assert(buf@ =~= self.encoded());
        buf
    }
}

/// Unpacking what was packed gives the instruction back.
pub proof fn lemma_unpack_inverts_pack(instruction: EscrowInstruction)
    ensures
        EscrowInstruction::decoded(instruction.encoded()) == Ok::<
            EscrowInstruction,
            EscrowError,
        >(instruction),
{
    lemma_auto_spec_u64_to_from_le_bytes();
    let bytes = instruction.encoded();
    match instruction {
        EscrowInstruction::Initialize(_) => {},
        EscrowInstruction::DepositTokenTypes(deposit) => {
            let amount = spec_u64_to_le_bytes(deposit.token_a_amount);
            assert(bytes.subrange(1, bytes.len() as int).subrange(0, 8) =~= amount);
        },
        EscrowInstruction::WithdrawTokenTypes(withdraw) => {
            let amount = spec_u64_to_le_bytes(withdraw.token_amount);
            assert(bytes.subrange(1, bytes.len() as int).subrange(0, 8) =~= amount);
        },
    }
}

/// Creates an 'initialize' instruction: the escrow signs and is written,
/// the destination is written, the authority, the token account and the
/// token program are read.
pub fn initialize(
    program_id: &Address,
    token_program_id: &Address,
    escrow_pubkey: &Address,
    authority_pubkey: &Address,
    token_pubkey: &Address,
    destination_pubkey: &Address,
) -> (r: Result<Instruction, ProgramFailure>)
    ensures
        r matches Ok(instruction) && instruction.program_id == *program_id && instruction.data@
            == EscrowInstruction::Initialize(Initialize {  }).encoded() && instruction.accounts@
            == seq![
            AccountMeta { pubkey: *escrow_pubkey, is_signer: true, is_writable: true },
            AccountMeta { pubkey: *authority_pubkey, is_signer: false, is_writable: false },
            AccountMeta { pubkey: *token_pubkey, is_signer: false, is_writable: false },
            AccountMeta { pubkey: *destination_pubkey, is_signer: false, is_writable: true },
            AccountMeta { pubkey: *token_program_id, is_signer: false, is_writable: false },
        ],
{
    let init_data = EscrowInstruction::Initialize(Initialize {  });
    let data = init_data.pack();
    let mut accounts: Vec<AccountMeta> = Vec::new();
    accounts.push(AccountMeta::new(*escrow_pubkey, true));
    accounts.push(AccountMeta::new_readonly(*authority_pubkey, false));
    accounts.push(AccountMeta::new_readonly(*token_pubkey, false));
    accounts.push(AccountMeta::new(*destination_pubkey, false));
    accounts.push(AccountMeta::new_readonly(*token_program_id, false));
    assert(accounts@ =~= seq![
        AccountMeta { pubkey: *escrow_pubkey, is_signer: true, is_writable: true },
        AccountMeta { pubkey: *authority_pubkey, is_signer: false, is_writable: false },
        AccountMeta { pubkey: *token_pubkey, is_signer: false, is_writable: false },
        AccountMeta { pubkey: *destination_pubkey, is_signer: false, is_writable: true },
        AccountMeta { pubkey: *token_program_id, is_signer: false, is_writable: false },
    ]);
    Ok(Instruction { program_id: *program_id, accounts, data })
}

/// The accounts of a deposit and of a withdrawal: the escrow and its
/// authority are read, the user's transfer authority signs, the three token
/// accounts are written, the token program is read.
pub open spec fn transfer_metas(
    swap_pubkey: Address,
    authority_pubkey: Address,
    user_transfer_authority_pubkey: Address,
    first_pubkey: Address,
    swap_token_a_pubkey: Address,
    last_pubkey: Address,
    token_a_program_id: Address,
) -> Seq<AccountMeta> {
    seq![
        AccountMeta { pubkey: swap_pubkey, is_signer: false, is_writable: false },
        AccountMeta { pubkey: authority_pubkey, is_signer: false, is_writable: false },
        AccountMeta { pubkey: user_transfer_authority_pubkey, is_signer: true, is_writable: false },
        AccountMeta { pubkey: first_pubkey, is_signer: false, is_writable: true },
        AccountMeta { pubkey: swap_token_a_pubkey, is_signer: false, is_writable: true },
        AccountMeta { pubkey: last_pubkey, is_signer: false, is_writable: true },
        AccountMeta { pubkey: token_a_program_id, is_signer: false, is_writable: false },
    ]
}

/// Lists the accounts of a deposit or a withdrawal.
fn transfer_accounts(
    swap_pubkey: &Address,
    authority_pubkey: &Address,
    user_transfer_authority_pubkey: &Address,
    first_pubkey: &Address,
    swap_token_a_pubkey: &Address,
    last_pubkey: &Address,
    token_a_program_id: &Address,
) -> (accounts: Vec<AccountMeta>)
    ensures
        accounts@ == transfer_metas(
            *swap_pubkey,
            *authority_pubkey,
            *user_transfer_authority_pubkey,
            *first_pubkey,
            *swap_token_a_pubkey,
            *last_pubkey,
            *token_a_program_id,
        ),
{
    let mut accounts: Vec<AccountMeta> = Vec::new();
    accounts.push(AccountMeta::new_readonly(*swap_pubkey, false));
    accounts.push(AccountMeta::new_readonly(*authority_pubkey, false));
    accounts.push(AccountMeta::new_readonly(*user_transfer_authority_pubkey, true));
    accounts.push(AccountMeta::new(*first_pubkey, false));
    accounts.push(AccountMeta::new(*swap_token_a_pubkey, false));
    accounts.push(AccountMeta::new(*last_pubkey, false));
    accounts.push(AccountMeta::new_readonly(*token_a_program_id, false));
    assert(accounts@ =~= transfer_metas(
        *swap_pubkey,
        *authority_pubkey,
        *user_transfer_authority_pubkey,
        *first_pubkey,
        *swap_token_a_pubkey,
        *last_pubkey,
        *token_a_program_id,
    ));
    accounts
}

/// Creates a 'deposit_token_types' instruction.
pub fn deposit_token_types(
    program_id: &Address,
    token_a_program_id: &Address,
    swap_pubkey: &Address,
    authority_pubkey: &Address,
    user_transfer_authority_pubkey: &Address,
    deposit_token_a_pubkey: &Address,
    swap_token_a_pubkey: &Address,
    destination_pubkey: &Address,
    instruction: DepositTokenTypes,
) -> (r: Result<Instruction, ProgramFailure>)
    ensures
        r matches Ok(built) && built.program_id == *program_id && built.data@
            == EscrowInstruction::DepositTokenTypes(instruction).encoded() && built.accounts@
            == transfer_metas(
            *swap_pubkey,
            *authority_pubkey,
            *user_transfer_authority_pubkey,
            *deposit_token_a_pubkey,
            *swap_token_a_pubkey,
            *destination_pubkey,
            *token_a_program_id,
        ),
{
    let data = EscrowInstruction::DepositTokenTypes(instruction).pack();
    let accounts = transfer_accounts(
        swap_pubkey,
        authority_pubkey,
        user_transfer_authority_pubkey,
        deposit_token_a_pubkey,
        swap_token_a_pubkey,
        destination_pubkey,
        token_a_program_id,
    );
    Ok(Instruction { program_id: *program_id, accounts, data })
}

/// Creates a 'withdraw_token_types' instruction.
pub fn withdraw_token_types(
    program_id: &Address,
    token_a_program_id: &Address,
    swap_pubkey: &Address,
    authority_pubkey: &Address,
    user_transfer_authority_pubkey: &Address,
    source_pubkey: &Address,
    swap_token_a_pubkey: &Address,
    destination_token_a_pubkey: &Address,
    instruction: WithdrawTokenTypes,
) -> (r: Result<Instruction, ProgramFailure>)
    ensures
        r matches Ok(built) && built.program_id == *program_id && built.data@
            == EscrowInstruction::WithdrawTokenTypes(instruction).encoded() && built.accounts@
            == transfer_metas(
            *swap_pubkey,
            *authority_pubkey,
            *user_transfer_authority_pubkey,
            *source_pubkey,
            *swap_token_a_pubkey,
            *destination_token_a_pubkey,
            *token_a_program_id,
        ),
{
    let data = EscrowInstruction::WithdrawTokenTypes(instruction).pack();
    let accounts = transfer_accounts(
        swap_pubkey,
        authority_pubkey,
        user_transfer_authority_pubkey,
        source_pubkey,
        swap_token_a_pubkey,
        destination_token_a_pubkey,
        token_a_program_id,
    );
    Ok(Instruction { program_id: *program_id, accounts, data })
}

} // verus!
