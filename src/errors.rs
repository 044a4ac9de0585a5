use vstd::prelude::*;

verus! {

/// The four families of failure.
#[derive(Clone, Copy, Debug, PartialEq, Eq, Structural)]
pub enum ErrorKind {
    /// Oversized or malformed input, or a record that would be created twice.
    Validation,
    /// An operation against the wrong lifecycle state or on the wrong side of a deadline.
    State,
    /// The caller does not hold the required authority.
    Authorization,
    /// A balance, mint or recipient that does not allow the transfer.
    Transfer,
}

/// Every way an operation can fail. A failed operation changes nothing.
#[derive(Clone, Copy, Debug, PartialEq, Eq, Structural)]
pub enum ErrorCode {
    NameTooLong,
    AlreadyExists,
    InsufficientBalance,
    ContentTooLong,
    DaoMismatch,
    ProposalNotFound,
    TreasuryNotFound,
    NotActive,
    VotingClosed,
    AlreadyVoted,
    VotingStillActive,
    NotApproved,
    AlreadyExecuted,
    MintMismatch,
    RecipientMismatch,
    InvalidRecipient,
    InsufficientTreasuryBalance,
    ArithmeticOverflow,
    DecodeError,
}

pub open spec fn kind_of(e: ErrorCode) -> ErrorKind {
    match e {
        ErrorCode::NameTooLong | ErrorCode::AlreadyExists | ErrorCode::ContentTooLong
        | ErrorCode::ProposalNotFound | ErrorCode::TreasuryNotFound | ErrorCode::AlreadyVoted
        | ErrorCode::ArithmeticOverflow | ErrorCode::DecodeError => ErrorKind::Validation,
        ErrorCode::NotActive | ErrorCode::VotingClosed | ErrorCode::VotingStillActive
        | ErrorCode::NotApproved | ErrorCode::AlreadyExecuted => ErrorKind::State,
        ErrorCode::DaoMismatch => ErrorKind::Authorization,
        ErrorCode::InsufficientBalance | ErrorCode::MintMismatch | ErrorCode::RecipientMismatch
        | ErrorCode::InvalidRecipient | ErrorCode::InsufficientTreasuryBalance => ErrorKind::Transfer,
    }
}

impl ErrorCode {
    /// The family this error belongs to.
    pub fn kind(&self) -> (r: ErrorKind)
        ensures
            r == kind_of(*self),
    {
        match self {
            ErrorCode::NameTooLong | ErrorCode::AlreadyExists | ErrorCode::ContentTooLong
            | ErrorCode::ProposalNotFound | ErrorCode::TreasuryNotFound | ErrorCode::AlreadyVoted
            | ErrorCode::ArithmeticOverflow | ErrorCode::DecodeError => ErrorKind::Validation,
            ErrorCode::NotActive | ErrorCode::VotingClosed | ErrorCode::VotingStillActive
            | ErrorCode::NotApproved | ErrorCode::AlreadyExecuted => ErrorKind::State,
            ErrorCode::DaoMismatch => ErrorKind::Authorization,
            ErrorCode::InsufficientBalance | ErrorCode::MintMismatch
            | ErrorCode::RecipientMismatch | ErrorCode::InvalidRecipient
            | ErrorCode::InsufficientTreasuryBalance => ErrorKind::Transfer,
        }
    }

    /// A short human-readable message.
    pub fn message(&self) -> (r: &'static str) {
        match self {
            ErrorCode::NameTooLong => "DAO name is too long.",
            ErrorCode::AlreadyExists => "Record already exists.",
            ErrorCode::InsufficientBalance => "Payer cannot cover the amount.",
            ErrorCode::ContentTooLong => "Content reference is too long.",
            ErrorCode::DaoMismatch => "Signer is not the authority of this DAO.",
            ErrorCode::ProposalNotFound => "No such proposal.",
            ErrorCode::TreasuryNotFound => "No treasury for this DAO.",
            ErrorCode::NotActive => "Proposal is not active.",
            ErrorCode::VotingClosed => "Voting period is over.",
            ErrorCode::AlreadyVoted => "Voter has already voted on this proposal.",
            ErrorCode::VotingStillActive => "Voting period has not ended.",
            ErrorCode::NotApproved => "Proposal is not approved for execution.",
            ErrorCode::AlreadyExecuted => "Proposal already executed.",
            ErrorCode::MintMismatch => "Funding mint does not match.",
            ErrorCode::RecipientMismatch => "Recipient does not match the proposal.",
            ErrorCode::InvalidRecipient => "Recipient account holds another mint.",
            ErrorCode::InsufficientTreasuryBalance => "Treasury cannot cover the amount.",
            ErrorCode::ArithmeticOverflow => "Counter or balance would overflow.",
            ErrorCode::DecodeError => "Unrecognized encoded value.",
        }
    }
}

} // verus!
