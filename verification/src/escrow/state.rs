//! The state that an escrow account stores, and its byte layout.
//!
//! An escrow account holds one version byte and the state of that version.
//! Version one is 98 bytes: the initialized flag, the bump seed, 32 bytes
//! that are kept as they are, the token account and the token mint.

use vstd::prelude::*;
use vstd::slice::slice_subrange;
use crate::error::ProgramFailure;
use crate::account::Address;

verus! {

/// Access to the escrow state across all versions.
pub trait EscrowState {
    /// Is the escrow initialized, with data written to it.
    fn is_initialized(&self) -> bool;

    /// Bump seed used to generate the program address / authority.
    fn bump_seed(&self) -> u8;

    /// Address of the token account.
    fn token_account(&self) -> &Address;

    /// Address of the token mint.
    fn token_mint(&self) -> &Address;
}

/// All versions of the escrow state.
#[derive(Debug, PartialEq)]
pub enum EscrowVersion {
    /// Latest version, used for all new escrows.
    EscrowV1(EscrowV1),
}

/// Escrow state, version one.
#[derive(Debug, PartialEq)]
pub struct EscrowV1 {
    /// Initialized state.
    pub is_initialized: bool,
    /// Bump seed used in the program address.
    pub bump_seed: u8,
    /// Token account.
    pub token_a: Address,
    /// Mint of the token.
    pub token_a_mint: Address,
}

impl Default for EscrowV1 {
    fn default() -> (state: EscrowV1)
        ensures
            !state.is_initialized,
            state.bump_seed == 0,
            state.token_a@ == Seq::new(32, |i: int| 0u8),
            state.token_a_mint@ == Seq::new(32, |i: int| 0u8),
    {
        let state = EscrowV1 {
            is_initialized: false,
            bump_seed: 0,
            token_a: Address::new_from_array([0u8; 32]),
            token_a_mint: Address::new_from_array([0u8; 32]),
        };
        assert(state.token_a@ =~= Seq::new(32, |i: int| 0u8));
        assert(state.token_a_mint@ =~= Seq::new(32, |i: int| 0u8));
        state
    }
}

impl EscrowState for EscrowV1 {
    fn is_initialized(&self) -> (flag: bool)
        ensures
            flag == self.is_initialized,
    {
        self.is_initialized
    }

    fn bump_seed(&self) -> (seed: u8)
        ensures
            seed == self.bump_seed,
    {
        self.bump_seed
    }

    fn token_account(&self) -> (account: &Address)
        ensures
            *account == self.token_a,
    {
        &self.token_a
    }

    fn token_mint(&self) -> (mint: &Address)
        ensures
            *mint == self.token_a_mint,
    {
        &self.token_a_mint
    }
}

impl EscrowV1 {
    /// Number of bytes of a packed state.
    pub const LEN: usize = 98;

    /// The flag byte of a state.
    pub open spec fn flag(self) -> u8 {
        if self.is_initialized {
            1u8
        } else {
            0u8
        }
    }

    /// The 98 bytes of a state, given the bytes that stood in their place:
    /// bytes 2 to 33 are kept.
    pub open spec fn packed_over(self, before: Seq<u8>) -> Seq<u8> {
        seq![self.flag(), self.bump_seed] + before.subrange(2, 34) + self.token_a@
            + self.token_a_mint@
    }

    /// Whether the first 98 bytes of `input` hold this state.
    pub open spec fn stored_in(self, input: Seq<u8>) -> bool {
        &&& input[0] == self.flag()
        &&& input[1] == self.bump_seed
        &&& input.subrange(34, 66) == self.token_a@
        &&& input.subrange(66, 98) == self.token_a_mint@
    }

    /// Writes the state over the first 98 bytes of `output`.
    pub fn pack_into_slice(&self, output: &mut [u8])
        requires
            old(output).len() >= 98,
        ensures
            final(output)@ == self.packed_over(old(output)@.subrange(0, 98)) + old(
                output,
            )@.subrange(98, old(output)@.len() as int),
    {
        output[0] = if self.is_initialized {
            1
        } else {
            0
        };
        output[1] = self.bump_seed;
        self.token_a.write(output, 34);
        self.token_a_mint.write(output, 66);
        assert(output@ =~= self.packed_over(old(output)@.subrange(0, 98)) + old(
            output,
        )@.subrange(98, old(output)@.len() as int));
    }

    /// Reads a state off the first 98 bytes of `input`. The flag byte has to
    /// be zero or one.
    pub fn unpack_from_slice(input: &[u8]) -> (r: Result<Self, ProgramFailure>)
        requires
            input.len() >= 98,
        ensures
            input@[0] > 1 ==> r == Err::<Self, ProgramFailure>(ProgramFailure::InvalidAccountData),
            input@[0] <= 1 ==> (r matches Ok(state) && state.stored_in(input@)),
    {
        let is_initialized = if input[0] == 0 {
            false
        } else if input[0] == 1 {
            true
        } else {
            return Err(ProgramFailure::InvalidAccountData);
        };
        Ok(
            Self {
                is_initialized,
                bump_seed: input[1],
                token_a: Address::read(input, 34),
                token_a_mint: Address::read(input, 66),
            },
        )
    }

    /// Writes the state into `dst`, which has to be 98 bytes long; any other
    /// buffer is left as it is.
    pub fn pack(src: Self, dst: &mut [u8]) -> (r: Result<(), ProgramFailure>)
        ensures
            old(dst)@.len() != 98 ==> r == Err::<(), ProgramFailure>(
                ProgramFailure::InvalidAccountData,
            ) && final(dst)@ == old(dst)@,
            old(dst)@.len() == 98 ==> r == Ok::<(), ProgramFailure>(()) && final(dst)@
                == src.packed_over(old(dst)@),
    {
        if dst.len() != Self::LEN {
            return Err(ProgramFailure::InvalidAccountData);
        }
        src.pack_into_slice(dst);
        assert(dst@ =~= src.packed_over(old(dst)@));
        Ok(())
    }

    /// Reads a state off a buffer of exactly 98 bytes, initialized or not.
    pub fn unpack_unchecked(input: &[u8]) -> (r: Result<Self, ProgramFailure>)
        ensures
            input@.len() != 98 || input@[0] > 1 ==> r == Err::<Self, ProgramFailure>(
                ProgramFailure::InvalidAccountData,
            ),
            input@.len() == 98 && input@[0] <= 1 ==> (r matches Ok(state) && state.stored_in(
                input@,
            )),
    {
        if input.len() != Self::LEN {
            return Err(ProgramFailure::InvalidAccountData);
        }
        Self::unpack_from_slice(input)
    }

    /// Reads an initialized state off a buffer of exactly 98 bytes.
    pub fn unpack(input: &[u8]) -> (r: Result<Self, ProgramFailure>)
        ensures
            input@.len() != 98 || input@[0] > 1 ==> r == Err::<Self, ProgramFailure>(
                ProgramFailure::InvalidAccountData,
            ),
            input@.len() == 98 && input@[0] == 0 ==> r == Err::<Self, ProgramFailure>(
                ProgramFailure::UninitializedAccount,
            ),
            input@.len() == 98 && input@[0] == 1 ==> (r matches Ok(state) && state.stored_in(
                input@,
            )),
    {
        match Self::unpack_unchecked(input) {
            Ok(state) => {
                if state.is_initialized {
                    Ok(state)
                } else {
                    Err(ProgramFailure::UninitializedAccount)
                }
            },
            Err(e) => Err(e),
        }
    }
}

/// What was packed is what unpacking finds.
pub proof fn lemma_packed_is_stored(state: EscrowV1, before: Seq<u8>)
    requires
        before.len() == 98,
    ensures
        state.packed_over(before).len() == 98,
        state.stored_in(state.packed_over(before)),
{
    let bytes = state.packed_over(before);
    assert(bytes.subrange(34, 66) =~= state.token_a@);
    assert(bytes.subrange(66, 98) =~= state.token_a_mint@);
}

/// Whether the data of an escrow account unpack, and if not, why: an empty
/// buffer and a state of the wrong length or with a flag byte above one are
/// invalid, another version than one and a state whose flag is zero are
/// uninitialized.
pub open spec fn unpack_verdict(input: Seq<u8>) -> Result<(), ProgramFailure> {
    if input.len() == 0 {
        Err(ProgramFailure::InvalidAccountData)
    } else if input[0] != 1 {
        Err(ProgramFailure::UninitializedAccount)
    } else if input.len() != 99 || input[1] > 1 {
        Err(ProgramFailure::InvalidAccountData)
    } else if input[1] == 0 {
        Err(ProgramFailure::UninitializedAccount)
    } else {
        Ok(())
    }
}

impl EscrowState for EscrowVersion {
    fn is_initialized(&self) -> (flag: bool)
        ensures
            flag == self.state().is_initialized,
    {
        match self {
            EscrowVersion::EscrowV1(state) => state.is_initialized,
        }
    }

    fn bump_seed(&self) -> (seed: u8)
        ensures
            seed == self.state().bump_seed,
    {
        match self {
            EscrowVersion::EscrowV1(state) => state.bump_seed,
        }
    }

    fn token_account(&self) -> (account: &Address)
        ensures
            *account == self.state().token_a,
    {
        match self {
            EscrowVersion::EscrowV1(state) => &state.token_a,
        }
    }

    fn token_mint(&self) -> (mint: &Address)
        ensures
            *mint == self.state().token_a_mint,
    {
        match self {
            EscrowVersion::EscrowV1(state) => &state.token_a_mint,
        }
    }
}

impl EscrowVersion {
    /// Size of the latest version of the state, with its version byte.
    pub const LATEST_LEN: usize = 99;

    /// The state that a version holds.
    pub open spec fn state(self) -> EscrowV1 {
        match self {
            EscrowVersion::EscrowV1(state) => state,
        }
    }

    /// Packs an escrow into a byte buffer, based on its version.
    ///
    /// The version byte is written first, whatever follows: a buffer that
    /// is not 99 bytes long gets the version byte and an error.
    pub fn pack(src: Self, dst: &mut [u8]) -> (r: Result<(), ProgramFailure>)
        requires
            old(dst).len() >= 1,
        ensures
            old(dst)@.len() != 99 ==> r == Err::<(), ProgramFailure>(
                ProgramFailure::InvalidAccountData,
            ) && final(dst)@ == old(dst)@.update(0, 1u8),
            old(dst)@.len() == 99 ==> r == Ok::<(), ProgramFailure>(()) && final(dst)@ == seq![1u8]
                + src.state().packed_over(old(dst)@.subrange(1, 99)),
    {
        match src {
            Self::EscrowV1(state) => {
                let (version, rest) = dst.split_at_mut(1);
                version[0] = 1;
                let packed = EscrowV1::pack(state, rest);
                assert(old(dst)@.len() != 99 ==> dst@ =~= old(dst)@.update(0, 1u8));
                assert(old(dst)@.len() == 99 ==> dst@ =~= seq![1u8] + state.packed_over(
                    old(dst)@.subrange(1, 99),
                ));
                packed
            },
        }
    }

    /// Unpacks the escrow account based on its version.
    pub fn unpack(input: &[u8]) -> (r: Result<Self, ProgramFailure>)
        ensures
            unpack_verdict(input@) matches Err(e) ==> r == Err::<Self, ProgramFailure>(e),
            unpack_verdict(input@) is Ok ==> (r matches Ok(version) && version.state().stored_in(
                input@.subrange(1, 99),
            )),
    {
        if input.len() == 0 {
            return Err(ProgramFailure::InvalidAccountData);
        }
        let version = input[0];
        let rest = slice_subrange(input, 1, input.len());
        if version == 1 {
            match EscrowV1::unpack(rest) {
                Ok(state) => Ok(Self::EscrowV1(state)),
                Err(e) => Err(e),
            }
        } else {
            Err(ProgramFailure::UninitializedAccount)
        }
    }

    /// Special check to be done before any instruction processing, works for
    /// all versions: whether the buffer unpacks to an initialized escrow.
    pub fn is_initialized(input: &[u8]) -> (flag: bool)
        ensures
            flag == unpack_verdict(input@) is Ok,
    {
        match Self::unpack(input) {
            Ok(escrow) => EscrowState::is_initialized(&escrow),
            Err(_) => false,
        }
    }
}

} // verus!
