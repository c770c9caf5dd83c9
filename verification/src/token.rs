//! Token accounts and mints as the token programs store them.
//!
//! The layouts belong to `spl_token` and `spl_token_2022`; this module calls
//! their parsers and hands the parsed values through.

use vstd::prelude::*;
use solana_program::program_pack::Pack;
use solana_program::pubkey::Pubkey;
use spl_token_2022::extension::StateWithExtensions;
use vstd::bytes::spec_u64_to_le_bytes;
use crate::account::{AccountMeta, Address, Instruction};

verus! {

/// A token account of `spl_token`.
#[verifier::external_type_specification]
#[verifier::external_body]
pub struct ExTokenAccount(spl_token::state::Account);

/// A token account of `spl_token_2022`, without its extensions.
#[verifier::external_type_specification]
#[verifier::external_body]
pub struct ExExtendedAccount(spl_token_2022::state::Account);

/// A mint of `spl_token_2022`, without its extensions.
#[verifier::external_type_specification]
#[verifier::external_body]
pub struct ExExtendedMint(spl_token_2022::state::Mint);

/// Address of the token program.
pub const TOKEN_PROGRAM_ID: [u8; 32] = [
    6, 221, 246, 225, 215, 101, 161, 147, 217, 203, 225, 70, 206, 235, 121, 172, 28, 180, 133,
    237, 95, 91, 55, 145, 58, 140, 245, 133, 126, 255, 0, 169,
];

/// Address of the token program with extensions.
pub const TOKEN_2022_PROGRAM_ID: [u8; 32] = [
    6, 221, 246, 225, 238, 117, 143, 222, 24, 66, 93, 188, 228, 108, 205, 218, 182, 26, 252,
    77, 131, 185, 13, 39, 254, 189, 249, 40, 216, 161, 139, 252,
];

/// Whether an address is that of one of the two token programs.
pub open spec fn is_token_program(owner: Seq<u8>) -> bool {
    owner == TOKEN_PROGRAM_ID@ || owner == TOKEN_2022_PROGRAM_ID@
}

/// The token account that `spl_token` reads off account data, where it
/// reads one.
pub uninterp spec fn unpacked_account(data: Seq<u8>) -> Option<spl_token::state::Account>;

/// The token account that `spl_token_2022` reads off account data, where it
/// reads one.
pub uninterp spec fn unpacked_extended_account(data: Seq<u8>) -> Option<
    spl_token_2022::state::Account,
>;

/// The mint that `spl_token_2022` reads off account data, where it reads
/// one.
pub uninterp spec fn unpacked_extended_mint(data: Seq<u8>) -> Option<spl_token_2022::state::Mint>;

/// Calls `spl_token_2022::check_spl_token_program_account`, which accepts
/// the addresses that `spl_token` and `spl_token_2022` declare as their own
/// and no other.
#[verifier::external_body]
pub(crate) fn check_spl_token_program_account(owner: &Address) -> (accepted: bool)
    ensures
        accepted == is_token_program(owner@),
{
    spl_token_2022::check_spl_token_program_account(&Pubkey::new_from_array(owner.bytes)).is_ok()
}

/// Calls `Pack::unpack` for `spl_token::state::Account`: the account that
/// the data hold, or nothing where they are not those of an initialized
/// token account. Nothing is claimed of the account but that the same data
/// give the same one.
#[verifier::external_body]
pub(crate) fn unpack_account(data: &[u8]) -> (account: Option<spl_token::state::Account>)
    ensures
        account == unpacked_account(data@),
{
    spl_token::state::Account::unpack(data).ok()
}

/// Calls `StateWithExtensions::unpack` of `spl_token_2022` for a token
/// account and takes its base state: the account that the data hold, or
/// nothing where they are not those of an initialized token account.
/// Nothing is claimed of the account but that the same data give the same
/// one.
#[verifier::external_body]
pub(crate) fn unpack_extended_account(data: &[u8]) -> (account: Option<
    spl_token_2022::state::Account,
>)
    ensures
        account == unpacked_extended_account(data@),
{
    StateWithExtensions::<spl_token_2022::state::Account>::unpack(data).map(|a| a.base).ok()
}

/// Calls `StateWithExtensions::unpack` of `spl_token_2022` for a mint and
/// takes its base state: the mint that the data hold, or nothing where they
/// are not those of an initialized mint. Nothing is claimed of the mint but
/// that the same data give the same one.
#[verifier::external_body]
pub(crate) fn unpack_extended_mint(data: &[u8]) -> (mint: Option<spl_token_2022::state::Mint>)
    ensures
        mint == unpacked_extended_mint(data@),
{
    StateWithExtensions::<spl_token_2022::state::Mint>::unpack(data).map(|m| m.base).ok()
}

/// Tag of the token programs' transfer instruction.
pub const TAG_TRANSFER: u8 = 3;

/// Whether `meta` names the account at `pubkey` with the given flags.
pub open spec fn names(meta: AccountMeta, pubkey: Seq<u8>, is_signer: bool, is_writable: bool) -> bool {
    meta.pubkey@ == pubkey && meta.is_signer == is_signer && meta.is_writable == is_writable
}

/// Whether `instruction` is the transfer of `amount` tokens that a single
/// authority signs: source and destination are written, the authority
/// signs, and the data are the tag and the amount.
pub open spec fn is_transfer(
    instruction: Instruction,
    token_program: Seq<u8>,
    source: Seq<u8>,
    destination: Seq<u8>,
    authority: Seq<u8>,
    amount: u64,
) -> bool {
    &&& instruction.program_id@ == token_program
    &&& instruction.accounts@.len() == 3
    &&& names(instruction.accounts@[0], source, false, true)
    &&& names(instruction.accounts@[1], destination, false, true)
    &&& names(instruction.accounts@[2], authority, true, false)
    &&& instruction.data@ == seq![TAG_TRANSFER] + spec_u64_to_le_bytes(amount)
}

/// Calls `spl_token_2022::instruction::transfer` with no further signers.
/// The call refuses a program that is neither of the two token programs;
/// for those it names the source and the destination as writable and the
/// authority as the signer, and packs the tag 3 and the amount in
/// little-endian order.
#[allow(deprecated)]
#[verifier::external_body]
pub(crate) fn transfer(
    token_program: &Address,
    source: &Address,
    destination: &Address,
    authority: &Address,
    amount: u64,
) -> (built: Option<Instruction>)
    ensures
        built is Some == is_token_program(token_program@),
        built matches Some(instruction) ==> is_transfer(
            instruction,
            token_program@,
            source@,
            destination@,
            authority@,
            amount,
        ),
{
    let key = |a: &Address| Pubkey::new_from_array(a.bytes);
    let built = spl_token_2022::instruction::transfer(
        &key(token_program), &key(source), &key(destination), &key(authority), &[], amount).ok()?;
    let meta = |m: &solana_program::instruction::AccountMeta| AccountMeta {
        pubkey: Address { bytes: m.pubkey.to_bytes() },
        is_signer: m.is_signer,
        is_writable: m.is_writable,
    };
    Some(Instruction {
        program_id: Address { bytes: built.program_id.to_bytes() },
        accounts: built.accounts.iter().map(meta).collect(),
        data: built.data,
    })
}

} // verus!
