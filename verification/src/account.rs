//! Accounts as the programs see them: addresses, what is read of an
//! account, and the instructions that name accounts.

use vstd::prelude::*;
use solana_program::pubkey::Pubkey;

verus! {

/// The address of an account: 32 bytes.
#[derive(Clone, Copy, Debug, PartialEq, Eq)]
pub struct Address {
    /// The bytes of the address.
    pub bytes: [u8; 32],
}

impl View for Address {
    type V = Seq<u8>;

    open spec fn view(&self) -> Seq<u8> {
        self.bytes@
    }
}

impl Address {
    /// The address made of the given bytes.
    pub fn new_from_array(bytes: [u8; 32]) -> (address: Address)
        ensures
            address@ == bytes@,
    {
        Address { bytes }
    }

    /// The bytes of the address.
    pub fn to_bytes(&self) -> (bytes: [u8; 32])
        ensures
            bytes@ == self@,
    {
        self.bytes
    }

    /// Whether two addresses hold the same bytes.
    pub fn same(&self, other: &Address) -> (equal: bool)
        ensures
            equal == (self@ == other@),
    {
        let mut i: usize = 0;
        while i < 32
            invariant
                0 <= i <= 32,
                forall|n: int| 0 <= n < i ==> self.bytes@[n] == other.bytes@[n],
            decreases 32 - i,
        {
            if self.bytes[i] != other.bytes[i] {
                return false;
            }
            i = i + 1;
        }
        assert(self@ =~= other@);
        true
    }

    /// The address stored in the 32 bytes of `input` that start at `offset`.
    pub fn read(input: &[u8], offset: usize) -> (address: Address)
        requires
            offset + 32 <= input.len(),
        ensures
            address@ == input@.subrange(offset as int, offset + 32),
    {
        let mut bytes: [u8; 32] = [0u8; 32];
        let mut i: usize = 0;
        while i < 32
            invariant
                0 <= i <= 32,
                offset + 32 <= input.len(),
                forall|n: int| 0 <= n < i ==> bytes@[n] == input@[offset + n],
            decreases 32 - i,
        {
            bytes[i] = input[offset + i];
            i = i + 1;
        }
        assert(bytes@ =~= input@.subrange(offset as int, offset + 32));
        Address { bytes }
    }

    /// Stores the address in the 32 bytes of `output` that start at `offset`.
    pub fn write(&self, output: &mut [u8], offset: usize)
        requires
            offset + 32 <= old(output).len(),
        ensures
            final(output)@ == old(output)@.subrange(0, offset as int) + self@ + old(
                output,
            )@.subrange(offset + 32, old(output)@.len() as int),
    {
        let mut i: usize = 0;
        while i < 32
            invariant
                0 <= i <= 32,
                offset + 32 <= output.len(),
                output@.len() == old(output)@.len(),
                forall|n: int| 0 <= n < offset ==> output@[n] == old(output)@[n],
                forall|n: int| 0 <= n < i ==> output@[offset + n] == self@[n],
                forall|n: int| offset + i <= n < output@.len() ==> output@[n] == old(output)@[n],
            decreases 32 - i,
        {
            output[offset + i] = self.bytes[i];
            i = i + 1;
        }
        assert(output@ =~= old(output)@.subrange(0, offset as int) + self@ + old(output)@.subrange(
            offset + 32,
            old(output)@.len() as int,
        ));
    }
}

/// What the checks of a program read of an account: its address, the
/// program that owns it, and its data.
#[derive(Clone, Debug, PartialEq, Eq)]
pub struct AccountView {
    /// Address of the account.
    pub key: Address,
    /// Program that owns the account.
    pub owner: Address,
    /// Data held in the account.
    pub data: Vec<u8>,
}

/// An account that an instruction names, and how it names it.
#[derive(Clone, Copy, Debug, PartialEq, Eq)]
pub struct AccountMeta {
    /// Address of the account.
    pub pubkey: Address,
    /// Whether the account has to sign the transaction.
    pub is_signer: bool,
    /// Whether the instruction may change the account.
    pub is_writable: bool,
}

impl AccountMeta {
    /// An account that the instruction may change.
    pub fn new(pubkey: Address, is_signer: bool) -> (meta: AccountMeta)
        ensures
            meta == (AccountMeta { pubkey, is_signer, is_writable: true }),
    {
        AccountMeta { pubkey, is_signer, is_writable: true }
    }

    /// An account that the instruction only reads.
    pub fn new_readonly(pubkey: Address, is_signer: bool) -> (meta: AccountMeta)
        ensures
            meta == (AccountMeta { pubkey, is_signer, is_writable: false }),
    {
        AccountMeta { pubkey, is_signer, is_writable: false }
    }
}

/// An instruction for a program: the accounts it names and its data.
#[derive(Clone, Debug, PartialEq, Eq)]
pub struct Instruction {
    /// Program that executes the instruction.
    pub program_id: Address,
    /// Accounts that the instruction names, in order.
    pub accounts: Vec<AccountMeta>,
    /// Data of the instruction.
    pub data: Vec<u8>,
}

/// The address that a program derives from an account address and a bump
/// seed, where the two yield one.
pub uninterp spec fn program_address(seed: Seq<u8>, bump_seed: u8, program_id: Seq<u8>) -> Option<
    Seq<u8>,
>;

/// The address and bump seed that the search for a program address of an
/// account settles on, where it finds one.
pub uninterp spec fn found_program_address(seed: Seq<u8>, program_id: Seq<u8>) -> Option<
    (Seq<u8>, u8),
>;

/// The bytes of an address that may be missing.
pub open spec fn address_view(address: Option<Address>) -> Option<Seq<u8>> {
    match address {
        Some(a) => Some(a@),
        None => None,
    }
}

/// The bytes of an address that may be missing, with its bump seed.
pub open spec fn found_view(found: Option<(Address, u8)>) -> Option<(Seq<u8>, u8)> {
    match found {
        Some((a, bump_seed)) => Some((a@, bump_seed)),
        None => None,
    }
}

/// Calls `Pubkey::create_program_address` of `solana_program` with the two
/// seeds `seed` and `[bump_seed]`. The call hashes the seeds and the program
/// id and fails where the hash is a point of the curve; nothing is claimed
/// of it but that the same arguments give the same answer.
#[verifier::external_body]
pub(crate) fn create_program_address(seed: &Address, bump_seed: u8, program_id: &Address) -> (derived:
    Option<Address>)
    ensures
        address_view(derived) == program_address(seed@, bump_seed, program_id@),
{
    let program = Pubkey::new_from_array(program_id.bytes);
    match Pubkey::create_program_address(&[&seed.bytes[..], &[bump_seed]], &program) {
        Ok(key) => Some(Address { bytes: key.to_bytes() }),
        Err(_) => None,
    }
}

/// Calls `Pubkey::try_find_program_address` of `solana_program` with the one
/// seed `seed`. The call tries the bump seeds from 255 downwards and returns
/// the first for which `create_program_address` succeeds, with the address
/// it yields.
#[verifier::external_body]
pub(crate) fn try_find_program_address(seed: &Address, program_id: &Address) -> (found: Option<
    (Address, u8),
>)
    ensures
        found_view(found) == found_program_address(seed@, program_id@),
        found matches Some((address, bump_seed)) ==> program_address(
            seed@,
            bump_seed,
            program_id@,
        ) == Some(address@),
{
    let program = Pubkey::new_from_array(program_id.bytes);
    match Pubkey::try_find_program_address(&[&seed.bytes[..]], &program) {
        Some((key, bump_seed)) => Some((Address { bytes: key.to_bytes() }, bump_seed)),
        None => None,
    }
}

} // verus!
