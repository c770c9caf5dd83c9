//! Error kinds of the library.

use vstd::prelude::*;

verus! {

/// Reasons for which a routing attempt is abandoned, and the one reason for
/// which a single quote is.
#[derive(Clone, Copy, Debug, PartialEq, Eq, Structural)]
pub enum RouteError {
    /// The requested number of steps was zero.
    InvalidStepCount,
    /// A cumulative input level does not fit the working width.
    ArithmeticOverflow,
    /// A venue refused to quote one level. The quote matrix absorbs it as a
    /// sentinel cell; no routing function returns it.
    CurveUnavailable,
    /// Every way of splitting the trade runs through a refused quote.
    NoViableRoute,
}

/// Errors of the swap programs.
#[derive(Clone, Copy, Debug, PartialEq, Eq, Structural)]
pub enum SwapError {
    /// Deserialized account is not a token account.
    ExpectedAccount,
    /// Input token account empty.
    EmptySupply,
    /// Invalid program address generated from nonce and key.
    InvalidProgramAddress,
    /// Invalid input.
    InvalidInput,
    /// Address of the provided swap token account is incorrect.
    IncorrectSwapAccount,
    /// Address of the provided pool token mint is incorrect.
    IncorrectPoolMint,
    /// Invalid instruction.
    InvalidInstruction,
    /// Pool fee token account incorrect.
    IncorrectFeeAccount,
    /// Given pool token amount results in zero trading tokens.
    ZeroTradingTokens,
    /// The fee calculation failed due to overflow, underflow, or unexpected 0.
    FeeCalculationFailure,
    /// Conversion to or from u64 failed.
    ConversionFailure,
    /// The provided fee does not match the program owner's constraints.
    InvalidFee,
    /// The provided token program does not match the token program expected
    /// by the swap.
    IncorrectTokenProgramId,
    /// The provided curve type is not supported by the program owner.
    UnsupportedCurveType,
    /// The provided curve parameters are invalid.
    InvalidCurve,
    /// The operation cannot be performed on the given curve.
    UnsupportedCurveOperation,
}

/// Errors of the escrow program.
#[derive(Clone, Copy, Debug, PartialEq, Eq, Structural)]
pub enum EscrowError {
    /// The account cannot be initialized because it is already being used.
    AlreadyInUse,
    /// The program address provided doesn't match the value generated by the
    /// program.
    InvalidProgramAddress,
    /// The deserialization of the account returned something besides a mint.
    ExpectedMint,
    /// The deserialization of the account returned something besides a token
    /// account.
    ExpectedAccount,
    /// Invalid input.
    InvalidInput,
    /// Address of the provided token account is incorrect.
    IncorrectSwapAccount,
    /// Invalid instruction number passed in.
    InvalidInstruction,
    /// Conversion to or from u64 failed.
    ConversionFailure,
    /// The provided token program does not match the expected one.
    IncorrectTokenProgramId,
}

/// What a program reports to the runtime when it gives up an instruction.
#[derive(Clone, Copy, Debug, PartialEq, Eq, Structural)]
pub enum ProgramFailure {
    /// An account's data contents were invalid.
    InvalidAccountData,
    /// An account that has to be initialized is not.
    UninitializedAccount,
    /// An account is not owned by the program.
    IncorrectProgramId,
    /// The instruction names fewer accounts than it needs.
    NotEnoughAccountKeys,
    /// An error of the swap router.
    Swap(SwapError),
    /// An error of the escrow.
    Escrow(EscrowError),
}

} // verus!
