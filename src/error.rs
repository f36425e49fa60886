use vstd::prelude::*;

verus! {

/// The program's own failures. Each has a stable numeric code: `ERROR_CODE_BASE`
/// plus its position in this list.
#[derive(Clone, Copy, Debug, PartialEq, Eq, Structural)]
pub enum CustomError {
    WrongSigner,
    WrongAdminAccount,
    StateAlreadyInitialized,
    StateNotInitialized,
    StateWrongVersion,
    PdaCannotBeSigner,
    MaxSupplyReached,
    WrongVault,
    WrongState,
    WrongPaymentAta,
    NotEnoughSpace,
    SignatureVerificationFailed,
    SignatureExpired,
    WrongSignature,
    TooEarly,
    TooLate,
    TicketAccountMismatch,
    TicketAccountAlreadyUsed,
    WrongPriceOrCount,
    TicketAccountNotExists,
    WrongTicketOwner,
    InstructionNotSupported,
    /// An update would leave fewer units allowed than already issued.
    MaxSupplyBelowTotal,
}

/// Code of the first error kind.
pub const ERROR_CODE_BASE: u32 = 4096;

/// Position of each error kind in the code table.
pub open spec fn error_index(e: CustomError) -> u32 {
    match e {
        CustomError::WrongSigner => 0,
        CustomError::WrongAdminAccount => 1,
        CustomError::StateAlreadyInitialized => 2,
        CustomError::StateNotInitialized => 3,
        CustomError::StateWrongVersion => 4,
        CustomError::PdaCannotBeSigner => 5,
        CustomError::MaxSupplyReached => 6,
        CustomError::WrongVault => 7,
        CustomError::WrongState => 8,
        CustomError::WrongPaymentAta => 9,
        CustomError::NotEnoughSpace => 10,
        CustomError::SignatureVerificationFailed => 11,
        CustomError::SignatureExpired => 12,
        CustomError::WrongSignature => 13,
        CustomError::TooEarly => 14,
        CustomError::TooLate => 15,
        CustomError::TicketAccountMismatch => 16,
        CustomError::TicketAccountAlreadyUsed => 17,
        CustomError::WrongPriceOrCount => 18,
        CustomError::TicketAccountNotExists => 19,
        CustomError::WrongTicketOwner => 20,
        CustomError::InstructionNotSupported => 21,
        CustomError::MaxSupplyBelowTotal => 22,
    }
}

impl CustomError {
    /// The numeric code reported to callers.
    pub fn code(&self) -> (r: u32)
        ensures
            r == ERROR_CODE_BASE + error_index(*self),
    {
        let index: u32 = match self {
            CustomError::WrongSigner => 0,
            CustomError::WrongAdminAccount => 1,
            CustomError::StateAlreadyInitialized => 2,
            CustomError::StateNotInitialized => 3,
            CustomError::StateWrongVersion => 4,
            CustomError::PdaCannotBeSigner => 5,
            CustomError::MaxSupplyReached => 6,
            CustomError::WrongVault => 7,
            CustomError::WrongState => 8,
            CustomError::WrongPaymentAta => 9,
            CustomError::NotEnoughSpace => 10,
            CustomError::SignatureVerificationFailed => 11,
            CustomError::SignatureExpired => 12,
            CustomError::WrongSignature => 13,
            CustomError::TooEarly => 14,
            CustomError::TooLate => 15,
            CustomError::TicketAccountMismatch => 16,
            CustomError::TicketAccountAlreadyUsed => 17,
            CustomError::WrongPriceOrCount => 18,
            CustomError::TicketAccountNotExists => 19,
            CustomError::WrongTicketOwner => 20,
            CustomError::InstructionNotSupported => 21,
            CustomError::MaxSupplyBelowTotal => 22,
        };
        ERROR_CODE_BASE + index
    }
}

/// Every way a request can fail: the program's own errors and the host-level
/// failures that the runtime reports with codes of its own.
#[derive(Clone, Copy, Debug, PartialEq, Eq, Structural)]
pub enum ProcessError {
    Custom(CustomError),
    /// A supplied account is not the address derived from its seeds, or the
    /// seeds give no valid address.
    InvalidSeeds,
    /// The request bytes do not decode to an instruction.
    InvalidInstructionData,
    /// A program account is not the expected program.
    IncorrectProgramId,
    /// The request lists fewer accounts than its instruction needs.
    NotEnoughAccountKeys,
    /// A stored record does not decode.
    InvalidAccountData,
    /// A balance would leave the range of its integer type.
    ArithmeticOverflow,
}

} // verus!
