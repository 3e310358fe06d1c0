//! Error taxonomy.
use vstd::prelude::*;

verus! {

/// Errors of the pool program, each with a stable numeric code.
#[derive(Clone, Copy, Debug, PartialEq, Eq, Structural)]
pub enum AppError {
    InvalidInstruction,
    InvalidOwner,
    IncorrectProgramId,
    ConstructorOnce,
    Overflow,
    UnmatchedPool,
    FrozenPool,
    ZeroValue,
    InsufficientFunds,
    InvalidMint,
    ExceedLimit,
}

impl AppError {
    pub open spec fn spec_code(&self) -> u32 {
        match self {
            AppError::InvalidInstruction => 0,
            AppError::InvalidOwner => 1,
            AppError::IncorrectProgramId => 2,
            AppError::ConstructorOnce => 3,
            AppError::Overflow => 4,
            AppError::UnmatchedPool => 5,
            AppError::FrozenPool => 6,
            AppError::ZeroValue => 7,
            AppError::InsufficientFunds => 8,
            AppError::InvalidMint => 9,
            AppError::ExceedLimit => 10,
        }
    }

    /// The custom error code under which the host reports this error.
    pub fn code(&self) -> (r: u32)
        ensures
            r == self.spec_code(),
    {
        match self {
            AppError::InvalidInstruction => 0,
            AppError::InvalidOwner => 1,
            AppError::IncorrectProgramId => 2,
            AppError::ConstructorOnce => 3,
            AppError::Overflow => 4,
            AppError::UnmatchedPool => 5,
            AppError::FrozenPool => 6,
            AppError::ZeroValue => 7,
            AppError::InsufficientFunds => 8,
            AppError::InvalidMint => 9,
            AppError::ExceedLimit => 10,
        }
    }

    /// The error with the given code, if there is one.
    pub fn from_code(code: u32) -> (r: Option<AppError>)
        ensures
            r matches Some(e) ==> e.spec_code() == code,
            r is None <==> code > 10,
    {
        match code {
            0 => Some(AppError::InvalidInstruction),
            1 => Some(AppError::InvalidOwner),
            2 => Some(AppError::IncorrectProgramId),
            3 => Some(AppError::ConstructorOnce),
            4 => Some(AppError::Overflow),
            5 => Some(AppError::UnmatchedPool),
            6 => Some(AppError::FrozenPool),
            7 => Some(AppError::ZeroValue),
            8 => Some(AppError::InsufficientFunds),
            9 => Some(AppError::InvalidMint),
            10 => Some(AppError::ExceedLimit),
            _ => None,
        }
    }

    /// A short description of the error.
    pub fn message(&self) -> (r: &'static str) {
        match self {
            AppError::InvalidInstruction => "Invalid instruction",
            AppError::InvalidOwner => "Invalid owner",
            AppError::IncorrectProgramId => "Incorrect program id",
            AppError::ConstructorOnce => "Already constructed",
            AppError::Overflow => "Operation overflowed",
            AppError::UnmatchedPool => "Pool unmatched",
            AppError::FrozenPool => "Pool frozen",
            AppError::ZeroValue => "Zero value",
            AppError::InsufficientFunds => "Insufficient funds",
            AppError::InvalidMint => "Invalid mint",
            AppError::ExceedLimit => "Exceed limit",
        }
    }
}

/// Why an instruction failed: an error of the pool program, or one that the
/// host would raise on the accounts or the derived authority.
#[derive(Clone, Copy, Debug, PartialEq, Eq, Structural)]
pub enum ProcessError {
    App(AppError),
    /// An account's data does not hold a record of the expected shape.
    InvalidAccountData,
    /// A record was expected to be initialized and is not.
    UninitializedAccount,
    /// Fewer accounts than the instruction reads.
    NotEnoughAccountKeys,
    /// The authority account is not the address derived from the pool.
    InvalidSeeds,
}

} // verus!
